//! Verified core of an API gateway that bridges an Appear X broadcast unit to a manager.
//!
//! Everything in this crate is a function from plain values to plain values. The program around
//! it talks to the network and the disk.

pub mod appear_x;
pub mod clock;
pub mod config;
pub mod credentials;
pub mod double;
pub mod event;
pub mod event_gate;
pub mod json;
pub mod laws;
pub mod probe;
pub mod slots;
pub mod text;
pub mod upgrade;
pub mod ws;
