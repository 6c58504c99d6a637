//! Commands of the protocol.

pub mod multiget;
