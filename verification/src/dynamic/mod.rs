//! Messages whose type is known only at run time.

pub mod acceptance;
pub mod course;
pub mod error;
pub mod loader;
pub mod loading;
pub mod message;
pub mod operations;
pub mod registry;
pub mod schema;
pub mod serialization;
pub mod type_info;
pub mod validate;
pub mod value;
pub mod values;
pub mod wide;
