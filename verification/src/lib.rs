//! A library for discrete event system simulation driven by simulation ticks.
//!
//! - [`primitive`]: simulation time, durations, micro-steps and identifiers.
//! - [`modeling`]: events, models, sources and hooks that describe a simulation.
//! - [`context`]: the contexts through which models and sources act on the simulation.
//! - [`execution`]: the engine, the phases of a tick, continuation strategies and runners.
pub mod context;
pub mod event_scheduler;
pub mod execution;
pub mod modeling;
pub mod primitive;
pub mod queue;
pub mod source_handler;
pub mod staged_queue;
