//! OSPF.
pub mod config_laws;
pub mod configuration;
pub mod laws;
pub mod lsa;
pub mod spf;
