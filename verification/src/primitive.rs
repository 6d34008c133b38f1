//! Fundamental value types: simulation time and identifiers.
pub mod id;
pub mod time;
