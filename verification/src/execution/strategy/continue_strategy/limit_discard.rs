//! The strategy that cuts a tick short after a number of micro-steps.
use crate::context::discarded_from;
use crate::execution::phase::UncheckedActiveExecutor;
use crate::context::ActiveExecutorContext;
use crate::execution::strategy::{ContinueStrategy, ContinuousStrategyResult};
use crate::modeling::model::Model;
use crate::primitive::time::MicroStep;
use vstd::prelude::*;

verus! {

/// Lets a tick go on while the micro-step that ended is below the limit; from the limit on, it
/// discards what is still due at the tick, so that the tick ends, and goes on without error.
#[derive(Clone)]
pub struct LimitDiscardStrategy {
    limit_micro_step_count: u64,
}

impl LimitDiscardStrategy {
    /// The limit.
    pub closed spec fn limit(&self) -> u64 {
        self.limit_micro_step_count
    }

    /// A strategy with the limit `limit_micro_step_count`.
    pub fn new(limit_micro_step_count: u64) -> (r: Self)
        ensures
            r.limit() == limit_micro_step_count,
    {
        LimitDiscardStrategy { limit_micro_step_count }
    }
}

impl LimitDiscardStrategy {
    /// Decides whether the tick of `unchecked_executor` may go on (see the type's description).
    pub fn decide<E, M: Model<E>, RunnerError>(
        &mut self,
        model: &M,
        unchecked_executor: UncheckedActiveExecutor<E, M>,
    ) -> (r: Result<ActiveExecutorContext<E, M>, (ActiveExecutorContext<E, M>, RunnerError)>)
        ensures
            *final(self) == *old(self),
            unchecked_executor.ended_micro_step().0 < old(self).limit() ==> (r matches Ok(a) && a == unchecked_executor.executor()),
            unchecked_executor.ended_micro_step().0 >= old(self).limit() ==> (r matches Ok(a) && discarded_from(unchecked_executor.executor(), a)),
    {
        let current_micro_step = unchecked_executor.current_micro_step();
        if current_micro_step.value() < self.limit_micro_step_count {
            return Ok(unchecked_executor.into_active_executor());
        }
        let mut next_active = unchecked_executor.into_active_executor();
        next_active.discard_remain_micro_step(model);
        Ok(next_active)
    }
}

impl<E, M: Model<E>, RunnerError> ContinueStrategy<E, M, RunnerError> for LimitDiscardStrategy {
    type Error = RunnerError;

    /// It discards instead of ending the run.
    open spec fn never_aborts(&self) -> bool {
        true
    }

    /// From the limit on.
    open spec fn discards_at(&self, ended: MicroStep) -> bool {
        ended.0 >= self.limit()
    }

    open spec fn aborts_at(&self, ended: MicroStep) -> bool {
        false
    }

    open spec fn after_deciding(&self, ended: MicroStep) -> Self {
        *self
    }

    open spec fn error_at(&self, ended: MicroStep) -> RunnerError {
        arbitrary()
    }

    fn handle_micro_step_continue(
        &mut self,
        model: &M,
        unchecked_executor: UncheckedActiveExecutor<E, M>,
    ) -> ContinuousStrategyResult<E, M, RunnerError> {
        self.decide(model, unchecked_executor)
    }
}

} // verus!
