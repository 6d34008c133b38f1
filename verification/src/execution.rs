//! Running a simulation: the engine that is set up before the run, the phases of a tick, the
//! strategies that decide whether a tick may take another micro-step, and the runners.
mod engine;
pub mod phase;
mod result;
pub mod runner;
pub mod scheduler;
pub mod strategy;

pub use engine::{first_firings, registration_calls, Engine};
pub use result::{SimulationError, SimulationOutput, SimulationResult};
