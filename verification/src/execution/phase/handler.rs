//! The micro-step handler: it holds the simulation between the phases of a micro-step, and each
//! phase change consumes it.
use crate::context::{ActiveExecutorContext, EventContext, SourceContext, UserContext};
use crate::event_scheduler::{as_events, ScheduledEvent};
use crate::execution::phase::{EventPhase, MicroStepResult, SourcePhase, SourceStepContext, UncheckedActiveExecutor};
use crate::modeling::event::Event;
use crate::modeling::hook::instance::HookCall;
use crate::modeling::hook::Hook;
use crate::modeling::model::Model;
use crate::primitive::id::SourceId;
use crate::primitive::time::{Duration, MicroStep, MicroStepStatus};
use crate::queue::{insert_all, lemma_insert_all_elements};
use crate::source_handler::{as_entries, ScheduledSource};
use crate::staged_queue::{due_after, due_at_or_after};
use vstd::prelude::*;

verus! {

broadcast use crate::modeling::hook::instance::lemma_recorded;

/// The simulation between two phases of a micro-step; `CTX` is the context of the phase that
/// comes next.
pub struct MicroStepHandler<CTX> {
    context: CTX,
}

impl<CTX> MicroStepHandler<CTX> {
    /// The held context.
    pub closed spec fn context(&self) -> CTX {
        self.context
    }

    /// A handler holding `context`.
    pub fn new(context: CTX) -> (r: Self)
        ensures
            r.context() == context,
    {
        MicroStepHandler { context }
    }

    /// The held context.
    pub fn ref_context(&self) -> (r: &CTX)
        ensures
            *r == self.context(),
    {
        &self.context
    }

    /// The held context, to change.
    pub fn ref_mut_context(&mut self) -> (r: &mut CTX)
        ensures
            *r == old(self).context(),
            final(self).context() == *final(r),
    {
        &mut self.context
    }
}

impl<E, M: Model<E>> MicroStepHandler<ActiveExecutorContext<E, M>> {
    /// Starts the source phase: calls the `before_source_phase` hook and takes the source
    /// firings due at the current tick out of the queue, in order.
    pub fn start_source_phase(self, model: &M) -> (r: SourcePhase<E, M>)
        ensures
            ({
                let a = self.context();
                let tick = a.tick_status().current_tick;
                let n = r.ready().len() as int;
                &&& r.wf()
                &&& r.fired() == Seq::<(SourceId, Option<Duration>)>::empty()
                &&& r.context().tick_status() == a.tick_status()
                &&& r.context().micro_step_status() == a.micro_step_status()
                &&& r.context().hooks() == a.hooks().recorded((HookCall::BeforeSourcePhase { tick, micro_step: a.micro_step_status().current_micro_step }))
                &&& r.context().scheduler() == a.scheduler()
                &&& a.handler().ready() == a.handler().ready().take(n) + r.handler().ready()
                &&& r.ready() == as_entries(a.handler().ready().take(n))
                &&& forall|i: int| 0 <= i < n ==> (#[trigger] a.handler().ready()[i]).scheduled_at == tick
                &&& due_after(r.handler().ready(), tick.0)
                &&& r.handler().pending() == a.handler().pending()
                &&& r.handler().count() == a.handler().count()
                &&& r.handler().all_at_or_after(tick.0)
            }),
    {
        let context = self.context;
        let (ts, ms, mut hooks, mut handler, sched) = context.into_parts();
        hooks.call_before_source_phase(model, ts.current(), ms.current());
        let ready_sources = handler.drain_ready(ts.current());
        SourcePhase::new(SourceContext::new(ts, ms, hooks, sched), handler, ready_sources)
    }
}

impl<E, M: Model<E>> MicroStepHandler<SourceStepContext<E, M>> {
    /// Starts the event phase: calls the `before_event_phase` hook and takes the events due at
    /// the current tick out of the queue, in order. The source handler, which holds no firing due
    /// before the current tick, is handed on as it is.
    pub fn to_event_phase(self, model: &M) -> (r: EventPhase<E, M>)
        requires
            self.context().handler().wf(),
            self.context().handler().all_at_or_after(self.context().source_context().tick_status().current_tick.0),
        ensures
            ({
                let c = self.context().source_context();
                let h = self.context().handler();
                let tick = c.tick_status().current_tick;
                let n = r.ready().len() as int;
                &&& r.handled() == Seq::<Event<E>>::empty()
                &&& r.calls() == Seq::<HookCall>::empty()
                &&& r.context().tick_status() == c.tick_status()
                &&& r.context().micro_step_status() == c.micro_step_status()
                &&& r.context().hooks() == c.hooks().recorded((HookCall::BeforeEventPhase { tick, micro_step: c.micro_step_status().current_micro_step }))
                &&& c.scheduler().ready() == c.scheduler().ready().take(n) + r.context().scheduler().ready()
                &&& r.ready() == as_events(c.scheduler().ready().take(n))
                &&& forall|i: int| 0 <= i < n ==> (#[trigger] c.scheduler().ready()[i]).scheduled_at == tick
                &&& due_after(r.context().scheduler().ready(), tick.0)
                &&& r.context().scheduler().pending() == c.scheduler().pending()
                &&& r.context().scheduler().next_id() == c.scheduler().next_id()
                &&& r.context().handler() == h
            }),
    {
        let (context, handler) = self.context.into_parts();
        let (ts, ms, mut hooks, mut sched) = context.into_parts();
        hooks.call_before_event_phase(model, ts.current(), ms.current());
        let ready_events = sched.drain_ready(ts.current());
        proof {
            assert forall|i: int| 0 <= i < sched.ready().len() implies (#[trigger] sched.ready()[i]).scheduled_at.0 >= ts.current_tick.0 by {
                assert(due_after(sched.ready(), ts.current_tick.0));
            }
        }
        EventPhase::new(EventContext::new(ts, ms, hooks, handler, sched), ready_events)
    }
}

impl<E, M: Model<E>> MicroStepHandler<EventContext<E, M>> {
    /// Ends the micro-step: moves the pending source firings and events into their queues,
    /// calls the `after_micro_step` hook, and continues the tick with the following micro-step
    /// when a firing or an event is due at the current tick, or completes it. A tick at the last
    /// representable micro-step with work left discards that work and completes.
    pub fn end_micro_step(self, model: &M) -> (r: MicroStepResult<E, M>)
        ensures
            ({
                let c = self.context();
                let tick = c.tick_status().current_tick;
                let step = c.micro_step_status().current_micro_step;
                let events = insert_all(c.scheduler().ready(), c.scheduler().pending());
                let firings = insert_all(c.handler().ready(), c.handler().pending());
                let more = !due_after(events, tick.0) || !due_after(firings, tick.0);
                let after = c.hooks().recorded((HookCall::AfterMicroStep { tick, micro_step: step }));
                match r {
                    MicroStepResult::Continue(u) => {
                        &&& more
                        &&& step.0 < u64::MAX
                        &&& u.ended_micro_step() == step
                        &&& u.executor().tick_status() == c.tick_status()
                        &&& u.executor().micro_step_status() == (MicroStepStatus { current_micro_step: MicroStep((step.0 + 1) as u64) })
                        &&& u.executor().hooks() == after
                        &&& u.executor().scheduler().ready() == events
                        &&& u.executor().scheduler().pending().len() == 0
                        &&& u.executor().handler().ready() == firings
                        &&& u.executor().handler().pending().len() == 0
                    },
                    MicroStepResult::Complete(a, status) => {
                        &&& status == c.micro_step_status()
                        &&& a.micro_step_status() == c.micro_step_status()
                        &&& a.tick_status() == c.tick_status()
                        &&& a.tick_finished()
                        &&& more ==> step.0 == u64::MAX
                        &&& !more ==> a.scheduler().ready() == events && a.handler().ready() == firings && a.hooks() == after
                        &&& more ==> a.hooks().calls().len() == after.calls().len() + 1 && a.hooks().calls().take(after.calls().len() as int) == after.calls()
                            && a.hooks().calls().last() is OnDiscardRemainMicroStep
                    },
                }
            }),
    {
        let (ts, ms, mut hooks, mut handler, mut sched) = self.context.into_parts();
        let current_tick = ts.current();
        proof {
            let t = current_tick.0;
            lemma_insert_all_elements(handler.ready(), handler.pending(), |y: ScheduledSource| y.scheduled_at.0 >= t);
            lemma_insert_all_elements(sched.ready(), sched.pending(), |y: ScheduledEvent<E>| y.scheduled_at.0 >= t);
        }
        handler.flush_pending();
        sched.flush_pending();
        let has_next_in_current_tick = sched.holds_due_at(current_tick) || handler.holds_due_at(current_tick);
        let current_micro_step = ms.current();
        hooks.call_after_micro_step(model, current_tick, current_micro_step);
        if has_next_in_current_tick && current_micro_step.0 < u64::MAX {
            let next_micro_step = current_micro_step.next();
            let active = ActiveExecutorContext::new(ts, MicroStepStatus::new(next_micro_step), hooks, handler, sched);
            MicroStepResult::Continue(UncheckedActiveExecutor::new(active, current_micro_step))
        } else {
            let mut active = ActiveExecutorContext::new(ts, ms, hooks, handler, sched);
            if has_next_in_current_tick {
                let ghost recorded = active.hooks().calls();
                active.discard_remain_micro_step(model);
                proof {
                    assert(active.hooks().calls().take(recorded.len() as int) =~= recorded);
                }
            }
            MicroStepResult::Complete(active, ms)
        }
    }
}

} // verus!
