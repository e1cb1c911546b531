//! The unit's side of the gateway.

pub mod capabilities;
pub mod commands;
pub mod discovery;
pub mod health;
pub mod jsonrpc;
pub mod polling;
pub mod probe_registry;
pub mod reachability;
pub mod startup;
pub mod state;
