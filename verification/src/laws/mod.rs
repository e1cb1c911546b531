//! What the operations of the gateway are for, stated on what goes into them and what comes out.

pub mod answers;
pub mod commands;
pub mod digests;
pub mod discovery;
pub mod events;
pub mod health;
pub mod limits;
pub mod operations;
pub mod polling;
pub mod probing;
pub mod report;
pub mod texts;
pub mod values;
pub mod wire;
