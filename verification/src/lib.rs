pub mod agent;
pub mod app;
pub mod buffer_laws;
pub mod channel;
pub mod components;
pub mod input_box;
pub mod key;
pub mod message;
pub mod models;
pub mod number;
pub mod providers;
pub mod registry;
pub mod session;
pub mod session_laws;
pub mod styled;
pub mod text;
pub mod text_buffer;
pub mod text_laws;
pub mod time;
