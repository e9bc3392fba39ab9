//! BFD.

pub mod client;
pub mod configuration;
pub mod error;
pub mod laws;
pub mod network;
