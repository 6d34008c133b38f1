//! The source phase of a micro-step: the sources due at the current tick are fired (or
//! discarded), and each firing schedules the source's next one.
use crate::context::{SourceContext, UserContext};
use crate::execution::phase::ready::{select, take_all_matching, take_first_matching, take_front_matching};
use crate::execution::phase::MicroStepHandler;
use crate::modeling::hook::instance::{HookCall, HookDelegate};
use crate::modeling::hook::Hook;
use crate::modeling::model::Model;
use crate::primitive::id::SourceId;
use crate::primitive::time::{Duration, SimTime};
use crate::source_handler::{next_firing_scheduled, ScheduledSource, SourceHandler, SourceReadyEntry, SourceView};
use std::collections::VecDeque;
use vstd::prelude::*;

verus! {

broadcast use crate::modeling::hook::instance::lemma_recorded;

/// The source phase: the context sources act through, the source handler, and the firings due
/// at the current tick that are still to be fired or discarded.
#[verifier::reject_recursive_types(E)]
#[verifier::reject_recursive_types(M)]
pub struct SourcePhase<E, M: Model<E>> {
    context: SourceContext<E, M>,
    source_handler: SourceHandler<E, M>,
    ready_sources: VecDeque<SourceReadyEntry>,
    fired: Ghost<Seq<(SourceId, Option<Duration>)>>,
}

impl<E, M: Model<E>> SourcePhase<E, M> {
    /// The context sources act through.
    pub closed spec fn context(&self) -> SourceContext<E, M> {
        self.context
    }

    /// The source handler.
    pub closed spec fn handler(&self) -> SourceHandler<E, M> {
        self.source_handler
    }

    /// The firings still to be fired or discarded, in order.
    pub closed spec fn ready(&self) -> Seq<SourceReadyEntry> {
        self.ready_sources@
    }

    /// The sources fired in this phase, in the order they were fired, each with the delay to
    /// its next firing that it returned.
    pub closed spec fn fired(&self) -> Seq<(SourceId, Option<Duration>)> {
        self.fired@
    }

    /// The source handler is well formed.
    pub open spec fn wf(&self) -> bool {
        self.handler().wf()
    }

    /// The tick the phase runs at.
    pub open spec fn tick(&self) -> SimTime {
        self.context().tick_status().current_tick
    }

    /// A phase made of the given parts.
    pub fn new(context: SourceContext<E, M>, source_handler: SourceHandler<E, M>, ready_sources: VecDeque<SourceReadyEntry>) -> (r: Self)
        requires
            source_handler.wf(),
        ensures
            r.wf(),
            r.context() == context,
            r.handler() == source_handler,
            r.ready() == ready_sources@,
            r.fired() == Seq::<(SourceId, Option<Duration>)>::empty(),
    {
        SourcePhase { context, source_handler, ready_sources, fired: Ghost(Seq::empty()) }
    }

    /// The context sources act through, to change.
    pub fn get_context(&mut self) -> (r: &mut SourceContext<E, M>)
        ensures
            *r == old(self).context(),
            final(self).context() == *final(r),
            final(self).fired() == old(self).fired(),
            final(self).handler() == old(self).handler(),
            final(self).ready() == old(self).ready(),
    {
        &mut self.context
    }

    /// The source handler.
    pub fn source_handler(&self) -> (r: &SourceHandler<E, M>)
        ensures
            *r == self.handler(),
    {
        &self.source_handler
    }

    /// The firings still to be fired or discarded, in order.
    pub fn ready_sources(&self) -> (r: &VecDeque<SourceReadyEntry>)
        ensures
            r@ == self.ready(),
    {
        &self.ready_sources
    }

    /// The number of firings still to be fired or discarded.
    pub fn ready_len(&self) -> (r: usize)
        ensures
            r == self.ready().len(),
    {
        self.ready_sources.len()
    }

    /// What hooks see of the source of `ready_entry`.
    pub fn get_source_view(&self, ready_entry: &SourceReadyEntry) -> (r: SourceView)
        ensures
            r.source_id == ready_entry.source_id,
            r.name == ready_entry.name,
    {
        SourceView::new(ready_entry.source_id(), ready_entry.name())
    }

    /// Ends the phase: calls the `after_source_phase` hook and hands the context and the source
    /// handler to a micro-step handler.
    pub fn complete_source_phase(self, model: &M) -> (r: MicroStepHandler<SourceStepContext<E, M>>)
        requires
            self.wf(),
        ensures
            r.context().source_context().tick_status() == self.context().tick_status(),
            r.context().source_context().micro_step_status() == self.context().micro_step_status(),
            r.context().source_context().scheduler() == self.context().scheduler(),
            r.context().source_context().hooks() == self.context().hooks().recorded((HookCall::AfterSourcePhase {
                tick: self.context().tick_status().current_tick,
                micro_step: self.context().micro_step_status().current_micro_step,
            })),
            r.context().handler() == self.handler(),
    {
        let mut context = self.context;
        let tick = context.current_tick();
        let micro_step = context.current_micro_step();
        let mut hooks = context.swap_hooks(HookDelegate::new());
        hooks.call_after_source_phase(model, tick, micro_step);
        let _ = context.swap_hooks(hooks);
        MicroStepHandler::new(SourceStepContext { context, source_handler: self.source_handler })
    }

    /// Ends the phase without calling a hook: hands the context and the source handler to a
    /// micro-step handler.
    pub fn finish_source_phase(self) -> (r: MicroStepHandler<SourceStepContext<E, M>>)
        ensures
            r.context().source_context() == self.context(),
            r.context().handler() == self.handler(),
    {
        MicroStepHandler::new(SourceStepContext { context: self.context, source_handler: self.source_handler })
    }

    /// Takes the first firing still to be fired or discarded.
    pub fn take_one(&mut self) -> (r: Option<SourceReadyEntry>)
        ensures
            old(self).ready().len() == 0 ==> r is None && final(self).ready() == old(self).ready(),
            old(self).ready().len() > 0 ==> r == Some(old(self).ready()[0]) && final(self).ready() == old(self).ready().drop_first(),
            final(self).context() == old(self).context(),
            final(self).fired() == old(self).fired(),
            final(self).handler() == old(self).handler(),
    {
        let r = self.ready_sources.pop_front();
        proof {
            if old(self).ready().len() > 0 {
                assert(self.ready() =~= old(self).ready().drop_first());
            }
        }
        r
    }

    /// Takes the first firing that `predicate` accepts; `predicate` is asked about the firings
    /// in order until it accepts one.
    pub fn take_one_if<F>(&mut self, predicate: F) -> (r: Option<SourceReadyEntry>)
        where
            F: FnMut(&SourceReadyEntry) -> bool,
        requires
            forall|e: &SourceReadyEntry| call_requires(predicate, (e,)),
        ensures
            final(self).context() == old(self).context(),
            final(self).fired() == old(self).fired(),
            final(self).handler() == old(self).handler(),
            r is None ==> final(self).ready() == old(self).ready()
                && forall|i: int| 0 <= i < old(self).ready().len() ==> call_ensures(predicate, (&(#[trigger] old(self).ready()[i]),), false),
            r matches Some(x) ==> exists|k: int| #![trigger old(self).ready()[k]] {
                &&& 0 <= k < old(self).ready().len()
                &&& old(self).ready()[k] == x
                &&& final(self).ready() == old(self).ready().remove(k)
                &&& call_ensures(predicate, (&old(self).ready()[k],), true)
                &&& forall|i: int| 0 <= i < k ==> call_ensures(predicate, (&(#[trigger] old(self).ready()[i]),), false)
            },
    {
        let r = take_first_matching(&mut self.ready_sources, predicate);
        proof {
            if r is Some {
                let s = old(self).ready_sources@;
                let k = choose|k: int| #![trigger s[k]] {
                    &&& 0 <= k < s.len()
                    &&& s[k] == r->0
                    &&& self.ready_sources@ == s.remove(k)
                    &&& call_ensures(predicate, (&s[k],), true)
                    &&& forall|i: int| 0 <= i < k ==> call_ensures(predicate, (&(#[trigger] s[i]),), false)
                };
                assert(old(self).ready()[k] == r->0);
            }
        }
        r
    }

    /// Takes the first firing if `predicate` accepts it.
    pub fn take_front_if<F>(&mut self, predicate: F) -> (r: Option<SourceReadyEntry>)
        where
            F: FnOnce(&SourceReadyEntry) -> bool,
        requires
            old(self).ready().len() > 0 ==> call_requires(predicate, (&old(self).ready()[0],)),
        ensures
            final(self).context() == old(self).context(),
            final(self).fired() == old(self).fired(),
            final(self).handler() == old(self).handler(),
            old(self).ready().len() == 0 ==> r is None && final(self).ready() == old(self).ready(),
            r matches Some(x) ==> old(self).ready().len() > 0 && x == old(self).ready()[0]
                && final(self).ready() == old(self).ready().drop_first()
                && call_ensures(predicate, (&old(self).ready()[0],), true),
            r is None && old(self).ready().len() > 0 ==> final(self).ready() == old(self).ready()
                && call_ensures(predicate, (&old(self).ready()[0],), false),
    {
        take_front_matching(&mut self.ready_sources, predicate)
    }

    /// Takes every firing still to be fired or discarded.
    pub fn take_all(&mut self) -> (r: VecDeque<SourceReadyEntry>)
        ensures
            r@ == old(self).ready(),
            final(self).ready() == Seq::<SourceReadyEntry>::empty(),
            final(self).context() == old(self).context(),
            final(self).fired() == old(self).fired(),
            final(self).handler() == old(self).handler(),
    {
        let mut all: VecDeque<SourceReadyEntry> = VecDeque::new();
        std::mem::swap(&mut all, &mut self.ready_sources);
        all
    }

    /// Takes every firing that `predicate` accepts, in order; the others stay in order.
    /// `predicate` is asked once per firing.
    pub fn take_all_if<F>(&mut self, predicate: F) -> (r: VecDeque<SourceReadyEntry>)
        where
            F: FnMut(&SourceReadyEntry) -> bool,
        requires
            forall|e: &SourceReadyEntry| call_requires(predicate, (e,)),
        ensures
            final(self).context() == old(self).context(),
            final(self).fired() == old(self).fired(),
            final(self).handler() == old(self).handler(),
            exists|flags: Seq<bool>| {
                &&& flags.len() == old(self).ready().len()
                &&& forall|i: int| 0 <= i < old(self).ready().len() ==> call_ensures(predicate, (&(#[trigger] old(self).ready()[i]),), flags[i])
                &&& r@ == select(old(self).ready(), flags, true)
                &&& final(self).ready() == select(old(self).ready(), flags, false)
            },
    {
        let r = take_all_matching(&mut self.ready_sources, predicate);
        proof {
            let s = old(self).ready_sources@;
            let flags = choose|flags: Seq<bool>| {
                &&& flags.len() == s.len()
                &&& forall|i: int| 0 <= i < s.len() ==> call_ensures(predicate, (&(#[trigger] s[i]),), flags[i])
                &&& r@ == select(s, flags, true)
                &&& self.ready_sources@ == select(s, flags, false)
            };
            assert(flags.len() == old(self).ready().len());
        }
        r
    }

    /// Fires the source of `entry` at the context's tick, between the `before_source` and
    /// `after_source` hooks, and schedules its next firing at the delay it returned. An entry of
    /// no registered source fires nothing, and a next firing past the last representable tick is
    /// not scheduled; the `after_source` hook is told the tick of the firing that was scheduled.
    pub fn fire_and_schedule(&mut self, model: &M, entry: SourceReadyEntry)
        requires
            old(self).wf(),
        ensures
            final(self).wf(),
            final(self).ready() == old(self).ready(),
            final(self).handler().count() == old(self).handler().count(),
            final(self).handler().names() == old(self).handler().names(),
            final(self).handler().ready() == old(self).handler().ready(),
            final(self).handler().awaiting() == old(self).handler().awaiting(),
            entry.source_id.0 >= old(self).handler().count() ==> final(self).fired() == old(self).fired()
                && final(self).handler().pending() == old(self).handler().pending(),
            entry.source_id.0 < old(self).handler().count() ==> final(self).fired() == old(self).fired().push((entry.source_id, final(self).fired().last().1))
                && next_firing_scheduled(old(self).handler().pending(), final(self).handler().pending(), old(self).tick(), entry.source_id,
                    old(self).handler().names()[entry.source_id.0 as int], final(self).fired().last().1),
            old(self).handler().all_at_or_after(old(self).tick().0) ==> final(self).handler().all_at_or_after(old(self).tick().0),
            final(self).context().hooks() == old(self).context().hooks().recorded((HookCall::BeforeSource {
                tick: old(self).tick(),
                micro_step: old(self).context().micro_step_status().current_micro_step,
                source: SourceView { source_id: entry.source_id, name: entry.name },
            })).recorded((HookCall::AfterSource {
                tick: old(self).tick(),
                micro_step: old(self).context().micro_step_status().current_micro_step,
                source: SourceView { source_id: entry.source_id, name: entry.name },
                next_fire: if entry.source_id.0 < old(self).handler().count() {
                    match final(self).fired().last().1 {
                        Some(d) if old(self).tick().0 + d.0 <= u64::MAX => Some(SimTime((old(self).tick().0 + d.0) as u64)),
                        _ => None,
                    }
                } else {
                    None
                },
            })),
            final(self).context().scheduler().ready() == old(self).context().scheduler().ready(),
            old(self).context().scheduler().pending().len() <= final(self).context().scheduler().pending().len(),
            final(self).context().scheduler().pending().take(old(self).context().scheduler().pending().len() as int)
                == old(self).context().scheduler().pending(),
            final(self).context().tick_status() == old(self).context().tick_status(),
            final(self).context().micro_step_status() == old(self).context().micro_step_status(),
    {
        let now = self.context.current_tick();
        let current_micro_step = self.context.current_micro_step();
        let view = self.get_source_view(&entry);
        let mut hooks = self.context.swap_hooks(HookDelegate::new());
        hooks.call_before_source(model, now, current_micro_step, &view);
        let _ = self.context.swap_hooks(hooks);
        let source_id = entry.source_id();
        let mut computed_next_scheduled_at: Option<SimTime> = None;
        if self.source_handler.is_registered(source_id) {
            let next_fire_delay = self.source_handler.call_fire(source_id, &mut self.context, model);
            proof {
                self.fired@ = self.fired@.push((source_id, next_fire_delay));
            }
            computed_next_scheduled_at = self.schedule_after_fire(source_id, next_fire_delay);
        }
        let mut hooks = self.context.swap_hooks(HookDelegate::new());
        hooks.call_after_source(model, now, current_micro_step, &view, computed_next_scheduled_at);
        let _ = self.context.swap_hooks(hooks);
    }

    /// Schedules the next firing of the registered source `source_id` after it fired at the
    /// phase's tick and returned `next_fire_delay`: with a delay, the next firing is due that
    /// long after the tick, under the source's name, and its tick is returned. Without one, or
    /// when that tick would be past the last representable tick, nothing is scheduled and `None`
    /// is returned.
    pub fn schedule_after_fire(&mut self, source_id: SourceId, next_fire_delay: Option<Duration>) -> (r: Option<SimTime>)
        requires
            old(self).wf(),
            source_id.0 < old(self).handler().count(),
        ensures
            final(self).wf(),
            final(self).ready() == old(self).ready(),
            final(self).context() == old(self).context(),
            final(self).fired() == old(self).fired(),
            final(self).handler().count() == old(self).handler().count(),
            final(self).handler().names() == old(self).handler().names(),
            final(self).handler().ready() == old(self).handler().ready(),
            final(self).handler().awaiting() == old(self).handler().awaiting(),
            match next_fire_delay {
                Some(d) if old(self).tick().0 + d.0 <= u64::MAX => {
                    &&& r == Some(SimTime((old(self).tick().0 + d.0) as u64))
                    &&& final(self).handler().pending() == old(self).handler().pending().push(
                        ScheduledSource {
                            scheduled_at: SimTime((old(self).tick().0 + d.0) as u64),
                            entry: SourceReadyEntry { source_id, name: old(self).handler().names()[source_id.0 as int] },
                        },
                    )
                },
                _ => r is None && final(self).handler() == old(self).handler(),
            },
    {
        let now = self.context.current_tick();
        match next_fire_delay {
            Some(delay) => {
                if delay.0 <= u64::MAX - now.0 {
                    self.source_handler.schedule_next(now, delay, source_id);
                    Some(now + delay)
                } else {
                    None
                }
            },
            None => None,
        }
    }

    /// Discards `entry` without firing it: calls the `discard_source` hook.
    pub fn discard(&mut self, model: &M, entry: SourceReadyEntry)
        ensures
            final(self).context().hooks() == old(self).context().hooks().recorded((HookCall::DiscardSource {
                tick: old(self).tick(),
                micro_step: old(self).context().micro_step_status().current_micro_step,
                source: SourceView { source_id: entry.source_id, name: entry.name },
            })),
            final(self).context().tick_status() == old(self).context().tick_status(),
            final(self).context().micro_step_status() == old(self).context().micro_step_status(),
            final(self).context().scheduler() == old(self).context().scheduler(),
            final(self).handler() == old(self).handler(),
            final(self).ready() == old(self).ready(),
            final(self).fired() == old(self).fired(),
    {
        let view = self.get_source_view(&entry);
        let tick = self.context.current_tick();
        let micro_step = self.context.current_micro_step();
        let mut hooks = self.context.swap_hooks(HookDelegate::new());
        hooks.call_discard_source(model, tick, micro_step, &view);
        let _ = self.context.swap_hooks(hooks);
    }
}

/// The simulation after the source phase of a micro-step: the context the sources acted
/// through, and the source handler.
#[verifier::reject_recursive_types(E)]
#[verifier::reject_recursive_types(M)]
pub struct SourceStepContext<E, M: Model<E>> {
    context: SourceContext<E, M>,
    source_handler: SourceHandler<E, M>,
}

impl<E, M: Model<E>> SourceStepContext<E, M> {
    /// The context the sources acted through.
    pub closed spec fn source_context(&self) -> SourceContext<E, M> {
        self.context
    }

    /// The source handler.
    pub closed spec fn handler(&self) -> SourceHandler<E, M> {
        self.source_handler
    }

    /// The simulation after a source phase that acted through `context`, with `source_handler`.
    pub fn new(context: SourceContext<E, M>, source_handler: SourceHandler<E, M>) -> (r: Self)
        ensures
            r.source_context() == context,
            r.handler() == source_handler,
    {
        SourceStepContext { context, source_handler }
    }

    /// The context the sources acted through.
    pub fn context(&self) -> (r: &SourceContext<E, M>)
        ensures
            *r == self.source_context(),
    {
        &self.context
    }

    /// The source handler.
    pub fn source_handler(&self) -> (r: &SourceHandler<E, M>)
        ensures
            *r == self.handler(),
    {
        &self.source_handler
    }

    /// The tick of the context.
    pub fn current_tick(&self) -> (r: SimTime)
        ensures
            r == self.source_context().tick_status().current_tick,
    {
        self.context.current_tick()
    }

    /// The context and the source handler.
    pub fn into_parts(self) -> (r: (SourceContext<E, M>, SourceHandler<E, M>))
        ensures
            r.0 == self.source_context(),
            r.1 == self.handler(),
    {
        (self.context, self.source_handler)
    }
}

} // verus!
