//! The phases of a tick. A tick runs in micro-steps; each micro-step fires the due sources,
//! then hands the due events to the model, then decides whether the tick needs another
//! micro-step.
mod event;
mod handler;
pub mod ready;
mod source;

pub use event::EventPhase;
pub use handler::MicroStepHandler;
pub use source::{SourcePhase, SourceStepContext};

use crate::context::ActiveExecutorContext;
use crate::modeling::model::Model;
use crate::primitive::time::{MicroStep, MicroStepStatus, SimTime};
use vstd::prelude::*;

verus! {

/// The context of a tick that has more to do at the end of a micro-step, held until a
/// continuation strategy lets the tick go on.
#[verifier::reject_recursive_types(E)]
#[verifier::reject_recursive_types(M)]
pub struct UncheckedActiveExecutor<E, M: Model<E>> {
    active_executor: ActiveExecutorContext<E, M>,
    current_micro_step: MicroStep,
}

impl<E, M: Model<E>> UncheckedActiveExecutor<E, M> {
    /// The held context.
    pub closed spec fn executor(&self) -> ActiveExecutorContext<E, M> {
        self.active_executor
    }

    /// The micro-step that just ended.
    pub closed spec fn ended_micro_step(&self) -> MicroStep {
        self.current_micro_step
    }

    /// Holds `executor`, whose micro-step `current_micro_step` just ended.
    pub fn new(executor: ActiveExecutorContext<E, M>, current_micro_step: MicroStep) -> (r: Self)
        ensures
            r.executor() == executor,
            r.ended_micro_step() == current_micro_step,
    {
        UncheckedActiveExecutor { active_executor: executor, current_micro_step }
    }

    /// The current tick.
    pub fn current_tick(&self) -> (r: SimTime)
        ensures
            r == self.executor().tick_status().current_tick,
    {
        self.active_executor.current_tick_status().current()
    }

    /// The micro-step that just ended.
    pub fn current_micro_step(&self) -> (r: MicroStep)
        ensures
            r == self.ended_micro_step(),
    {
        self.current_micro_step
    }

    /// The held context, for the tick to go on.
    pub fn into_active_executor(self) -> (r: ActiveExecutorContext<E, M>)
        ensures
            r == self.executor(),
    {
        self.active_executor
    }
}

/// What the end of a micro-step leads to.
#[verifier::reject_recursive_types(E)]
#[verifier::reject_recursive_types(M)]
pub enum MicroStepResult<E, M: Model<E>> {
    /// The tick has more to do; a continuation strategy decides whether it may.
    Continue(UncheckedActiveExecutor<E, M>),
    /// The tick is done; the status is that of the micro-step it ended with.
    Complete(ActiveExecutorContext<E, M>, MicroStepStatus),
}

} // verus!
