//! Control of a set of server instances: identifiers, ports and the registry
//! of live addresses.

pub mod address;
pub mod manager;
pub mod ports;
pub mod laws;
