pub mod provider_laws;
pub mod routing;
pub mod stats;
