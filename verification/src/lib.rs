//! Routing protocols and their configuration.
pub mod bfd;
pub mod bgp;
pub mod collections;
pub mod components;
pub mod crypto;
pub mod igmp;
pub mod interface;
pub mod ip;
pub mod isis;
pub mod keychain;
pub mod ldp;
pub mod northbound;
pub mod order_laws;
pub mod ospf;
pub mod prefix_table;
pub mod protocol;
mod sync;
pub mod text;
