//! Interfaces of the system.

pub mod arena;
pub mod configuration;
pub mod interfaces;
pub mod laws;
