//! Processing of configuration transactions.
pub mod config_builder;
pub mod configuration;
pub mod debug;
pub mod error;
pub mod grpc;
pub mod laws;
pub mod trace;
