//! IS-IS.

pub mod configuration;
pub mod laws;
pub mod rx;
pub mod types;
