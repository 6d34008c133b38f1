//! The runners the library offers.
mod parallel;
mod realtime;
mod standard;

pub use parallel::{handle_events_split, run_parallel_micro_steps, ParallelModel, ParallelRunner};
pub use realtime::RealtimeRunner;
pub use standard::StandardRunner;
