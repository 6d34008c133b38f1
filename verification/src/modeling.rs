//! The building blocks that describe a simulation: events, models, sources and hooks.
pub mod event;
pub mod hook;
pub mod model;
pub mod source;
