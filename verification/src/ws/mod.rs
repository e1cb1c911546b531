//! The manager's side of the gateway.

pub mod client;
pub mod message;
pub mod sha256;
pub mod tls;
