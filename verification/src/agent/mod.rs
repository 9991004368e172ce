pub mod stream_laws;
pub mod streaming;
