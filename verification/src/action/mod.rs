//! Actions: goals that a server accepts, works on, and ends with a result.

pub mod builder;
pub mod driver;
pub mod laws;
pub mod life;
pub mod server;
pub mod types;
