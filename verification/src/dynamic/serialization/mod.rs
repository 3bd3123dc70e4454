//! The CDR encoding of dynamic messages.

pub mod cdr;
pub mod layout;
pub mod wire;
