//! The strategy that always lets a tick go on.
use crate::execution::phase::UncheckedActiveExecutor;
use crate::context::ActiveExecutorContext;
use crate::execution::strategy::{ContinueStrategy, ContinuousStrategyResult};
use crate::modeling::model::Model;
use crate::primitive::time::MicroStep;
use vstd::prelude::*;

verus! {

/// Lets every tick take as many micro-steps as it needs.
#[derive(Clone)]
pub struct AlwaysContinueStrategy;

impl Default for AlwaysContinueStrategy {
    fn default() -> (r: Self)
        ensures
            r == AlwaysContinueStrategy,
    {
        AlwaysContinueStrategy
    }
}

impl AlwaysContinueStrategy {
    /// The strategy.
    pub fn new() -> (r: Self)
        ensures
            r == AlwaysContinueStrategy,
    {
        AlwaysContinueStrategy
    }
}

impl AlwaysContinueStrategy {
    /// Decides whether the tick of `unchecked_executor` may go on (see the type's description).
    pub fn decide<E, M: Model<E>, RunnerError>(
        &mut self,
        model: &M,
        unchecked_executor: UncheckedActiveExecutor<E, M>,
    ) -> (r: Result<ActiveExecutorContext<E, M>, (ActiveExecutorContext<E, M>, RunnerError)>)
        ensures
            (r matches Ok(a) && a == unchecked_executor.executor()),
            *final(self) == *old(self),
    {
        Ok(unchecked_executor.into_active_executor())
    }
}

impl<E, M: Model<E>, RunnerError> ContinueStrategy<E, M, RunnerError> for AlwaysContinueStrategy {
    type Error = RunnerError;

    /// It lets every tick go on.
    open spec fn never_aborts(&self) -> bool {
        true
    }

    open spec fn discards_at(&self, ended: MicroStep) -> bool {
        false
    }

    open spec fn aborts_at(&self, ended: MicroStep) -> bool {
        false
    }

    open spec fn after_deciding(&self, ended: MicroStep) -> Self {
        *self
    }

    open spec fn error_at(&self, ended: MicroStep) -> RunnerError {
        arbitrary()
    }

    fn handle_micro_step_continue(
        &mut self,
        model: &M,
        unchecked_executor: UncheckedActiveExecutor<E, M>,
    ) -> ContinuousStrategyResult<E, M, RunnerError> {
        self.decide(model, unchecked_executor)
    }
}

} // verus!
