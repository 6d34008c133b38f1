//! The contexts through which models, sources and runners act on a running simulation.
//!
//! Models and sources get a context that schedules events; runners drive the simulation
//! through the executor contexts.
mod event;
mod executor;
mod source;
mod user;

pub use event::EventContext;
pub use executor::{deque_into_vec, discarded_from, first_micro_step, jump_target, vec_into_deque, ActiveExecutorContext, ExecutorContext, ExecutorStatus};
pub use source::SourceContext;
pub use user::UserContext;
