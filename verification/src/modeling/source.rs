//! Sources: generators that fire at times they choose and schedule events when they do.
use crate::context::SourceContext;
use crate::modeling::model::Model;
use crate::primitive::time::Duration;
use vstd::prelude::*;

verus! {

/// What the registration call of a source in the state `source` returns when handed a context
/// in the state `context` and `model`. Sources are taken to be deterministic: what the call
/// returns depends on these alone (a source that draws at random keeps its generator in its
/// state). Which delay that is, nothing states.
pub closed spec fn registration_delay<E, M: Model<E>, S: ?Sized>(source: &S, context: SourceContext<E, M>, model: M) -> Option<Duration> {
    arbitrary::<spec_fn(&S, SourceContext<E, M>, M) -> Option<Duration>>()(source, context, model)
}

/// A generator of events. After registration it fires at the delay it returned; each firing
/// returns the delay to the next one, or `None` to stop firing. A source acts on the simulation
/// only through the context it is handed, by scheduling events: it does not move the context in
/// time, does not touch its hooks, leaves the ready events as they are and only adds pending
/// events.
pub trait Source<E, M: Model<E>> {
    /// Called once when the source is registered; returns the delay to its first firing.
    fn on_registered(&mut self, context: &mut SourceContext<E, M>, model: &M) -> (r: Option<Duration>)
        ensures
            r == registration_delay::<E, M, Self>(&*old(self), *old(context), *model),
            final(context).tick_status() == old(context).tick_status(),
            final(context).micro_step_status() == old(context).micro_step_status(),
            final(context).hooks() == old(context).hooks(),
            final(context).scheduler().ready() == old(context).scheduler().ready(),
            old(context).scheduler().pending().len() <= final(context).scheduler().pending().len(),
            final(context).scheduler().pending().take(old(context).scheduler().pending().len() as int) == old(context).scheduler().pending(),
    ;

    /// Called when the source is due; returns the delay to its next firing.
    fn fire(&mut self, context: &mut SourceContext<E, M>, model: &M) -> (r: Option<Duration>)
        ensures
            final(context).tick_status() == old(context).tick_status(),
            final(context).micro_step_status() == old(context).micro_step_status(),
            final(context).hooks() == old(context).hooks(),
            final(context).scheduler().ready() == old(context).scheduler().ready(),
            old(context).scheduler().pending().len() <= final(context).scheduler().pending().len(),
            final(context).scheduler().pending().take(old(context).scheduler().pending().len() as int) == old(context).scheduler().pending(),
    ;
}

} // verus!
