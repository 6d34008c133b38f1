//! The continuation strategy trait and the strategies the library offers.
mod always_continue;
mod limit_abort;
mod limit_discard;

pub use always_continue::AlwaysContinueStrategy;
pub use limit_abort::{lemma_decided, LimitAbortStrategy, LimitAbortStrategyError};
pub use limit_discard::LimitDiscardStrategy;

use crate::context::{discarded_from, ActiveExecutorContext};
use crate::execution::phase::UncheckedActiveExecutor;
use crate::modeling::model::Model;
use crate::primitive::time::MicroStep;
use vstd::prelude::*;

verus! {

/// `after` is `before`, or `before` with the work still due at its tick discarded.
pub open spec fn kept_or_discarded<E, M: Model<E>>(before: ActiveExecutorContext<E, M>, after: ActiveExecutorContext<E, M>) -> bool {
    after == before || discarded_from(before, after)
}

/// What a strategy decides: the context to go on with, or the context and the error that ends
/// the run.
pub type ContinuousStrategyResult<E, M, Error> = Result<ActiveExecutorContext<E, M>, (ActiveExecutorContext<E, M>, Error)>;

/// Decides, at the end of a micro-step after which the tick has more to do, whether the tick
/// may go on.
pub trait ContinueStrategy<E, M: Model<E>, RunnerError>: Sized {
    /// The error with which the strategy ends a run.
    type Error;

    /// The strategy never ends a run: it lets every tick go on, and stays so.
    spec fn never_aborts(&self) -> bool;

    /// Whether the strategy discards the work still due at the tick when micro-step `ended`
    /// ended with more to do.
    spec fn discards_at(&self, ended: MicroStep) -> bool;

    /// Whether the strategy ends the run when micro-step `ended` ended with more to do.
    spec fn aborts_at(&self, ended: MicroStep) -> bool;

    /// The strategy after deciding at the end of micro-step `ended`.
    spec fn after_deciding(&self, ended: MicroStep) -> Self;

    /// The error with which the strategy ends the run at the end of micro-step `ended`.
    spec fn error_at(&self, ended: MicroStep) -> Self::Error;

    /// Lets the tick of `unchecked_executor` go on (`Ok`), or ends the run (`Err`). Either way
    /// it hands back the context it was given, at most with the work still due at the tick
    /// discarded. A strategy that never aborts lets it go on. What it does is what its spec
    /// functions say of the micro-step that ended.
    fn handle_micro_step_continue(
        &mut self,
        model: &M,
        unchecked_executor: UncheckedActiveExecutor<E, M>,
    ) -> (r: ContinuousStrategyResult<E, M, Self::Error>)
        ensures
            r is Ok ==> kept_or_discarded(unchecked_executor.executor(), r->Ok_0),
            r is Err ==> kept_or_discarded(unchecked_executor.executor(), r->Err_0.0),
            old(self).never_aborts() ==> r is Ok && final(self).never_aborts(),
            *final(self) == old(self).after_deciding(unchecked_executor.ended_micro_step()),
            r is Err <==> old(self).aborts_at(unchecked_executor.ended_micro_step()),
            r matches Err(p) ==> p.1 == old(self).error_at(unchecked_executor.ended_micro_step()),
            old(self).discards_at(unchecked_executor.ended_micro_step()) ==> match r {
                Ok(a) => discarded_from(unchecked_executor.executor(), a),
                Err(p) => discarded_from(unchecked_executor.executor(), p.0),
            },
            !old(self).discards_at(unchecked_executor.ended_micro_step()) ==> match r {
                Ok(a) => a == unchecked_executor.executor(),
                Err(p) => p.0 == unchecked_executor.executor(),
            },
    ;
}

} // verus!
