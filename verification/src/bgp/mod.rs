//! Border Gateway Protocol.

pub mod af;
pub mod attribute;
pub mod config_laws;
pub mod configuration;
pub mod decision;
pub mod events;
pub mod exchange_laws;
pub mod export;
pub mod intern;
pub mod laws;
pub mod neighbor;
pub mod order;
pub mod policy;
pub mod policy_laws;
pub mod process;
pub mod process_laws;
pub mod rib;
pub mod types;
pub mod update_laws;
