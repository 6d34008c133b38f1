//! The context a model acts through while it handles an event.
use crate::context::{SourceContext, UserContext};
use crate::event_scheduler::{as_pairs, EventScheduler, ScheduledEvent};
use crate::modeling::event::{Event, EventPriority};
use crate::modeling::hook::Hook;
use crate::modeling::hook::instance::{HookCall, HookDelegate};
use crate::modeling::model::Model;
use crate::modeling::source::{registration_delay, Source};
use crate::primitive::id::{EventId, SourceId};
use crate::primitive::time::{Duration, MicroStep, MicroStepStatus, SimTime, TickStatus};
use crate::queue::sorted;
use crate::source_handler::{next_firing_scheduled, as_source_pairs, ScheduledSource, SourceHandler, SourceReadyEntry, SourceView};
use vstd::prelude::*;

verus! {

broadcast use crate::modeling::hook::instance::lemma_recorded;

/// The `cancel_source` calls for the cancelled firings `cancelled`, in order, made at `tick` and
/// `micro_step`.
pub open spec fn cancel_source_calls(tick: SimTime, micro_step: MicroStep, cancelled: Seq<(SimTime, SourceReadyEntry)>) -> Seq<HookCall> {
    cancelled.map_values(|c: (SimTime, SourceReadyEntry)| HookCall::CancelSource {
        tick,
        micro_step,
        scheduled_at: c.0,
        source: SourceView { source_id: c.1.source_id, name: c.1.name },
    })
}

/// The `cancel_event` calls for the cancelled events `cancelled`, in order, made at `tick` and
/// `micro_step`.
pub open spec fn cancel_event_calls<E>(tick: SimTime, micro_step: MicroStep, cancelled: Seq<(SimTime, Event<E>)>) -> Seq<HookCall> {
    cancelled.map_values(|c: (SimTime, Event<E>)| HookCall::CancelEvent { tick, micro_step, scheduled_at: c.0, event: c.1.event_id })
}

/// The context of an event being handled: the current tick and micro-step, the hooks, the
/// source handler and the event scheduler.
#[verifier::reject_recursive_types(E)]
#[verifier::reject_recursive_types(M)]
pub struct EventContext<E, M: Model<E>> {
    current_tick_status: TickStatus,
    current_micro_step_status: MicroStepStatus,
    hook_delegate: HookDelegate<E, M>,
    source_handler: SourceHandler<E, M>,
    event_scheduler: EventScheduler<E>,
    registration: Ghost<Option<Duration>>,
}

impl<E, M: Model<E>> EventContext<E, M> {
    /// The scheduler and the source handler are well formed and hold nothing due before the
    /// current tick.
    #[verifier::type_invariant]
    pub open spec fn wf(&self) -> bool {
        &&& self.scheduler().wf()
        &&& self.scheduler().all_at_or_after(self.tick_status().current_tick.0)
        &&& self.handler().wf()
        &&& self.handler().all_at_or_after(self.tick_status().current_tick.0)
    }

    /// The tick status.
    pub closed spec fn tick_status(&self) -> TickStatus {
        self.current_tick_status
    }

    /// The micro-step status.
    pub closed spec fn micro_step_status(&self) -> MicroStepStatus {
        self.current_micro_step_status
    }

    /// The hooks.
    pub closed spec fn hooks(&self) -> HookDelegate<E, M> {
        self.hook_delegate
    }

    /// The source handler.
    pub closed spec fn handler(&self) -> SourceHandler<E, M> {
        self.source_handler
    }

    /// The event scheduler.
    pub closed spec fn scheduler(&self) -> EventScheduler<E> {
        self.event_scheduler
    }

    /// The delay to its first firing that the registration call of the source added last
    /// through this context returned (`None` for a context that registered none).
    pub closed spec fn last_registration_delay(&self) -> Option<Duration> {
        self.registration@
    }

    /// A context made of the given parts.
    pub fn new(
        current_tick_status: TickStatus,
        current_micro_step_status: MicroStepStatus,
        hook_delegate: HookDelegate<E, M>,
        source_handler: SourceHandler<E, M>,
        event_scheduler: EventScheduler<E>,
    ) -> (r: Self)
        requires
            event_scheduler.wf(),
            event_scheduler.all_at_or_after(current_tick_status.current_tick.0),
            source_handler.wf(),
            source_handler.all_at_or_after(current_tick_status.current_tick.0),
        ensures
            r.tick_status() == current_tick_status,
            r.micro_step_status() == current_micro_step_status,
            r.hooks() == hook_delegate,
            r.handler() == source_handler,
            r.scheduler() == event_scheduler,
    {
        EventContext { current_tick_status, current_micro_step_status, hook_delegate, source_handler, event_scheduler, registration: Ghost(None) }
    }

    /// The parts of the context.
    pub fn into_parts(self) -> (r: (TickStatus, MicroStepStatus, HookDelegate<E, M>, SourceHandler<E, M>, EventScheduler<E>))
        ensures
            r.0 == self.tick_status(),
            r.1 == self.micro_step_status(),
            r.2 == self.hooks(),
            r.3 == self.handler(),
            r.4 == self.scheduler(),
            r.4.wf(),
            r.4.all_at_or_after(r.0.current_tick.0),
            r.3.wf(),
            r.3.all_at_or_after(r.0.current_tick.0),
    {
        proof {
            use_type_invariant(&self);
        }
        let EventContext { current_tick_status, current_micro_step_status, hook_delegate, source_handler, event_scheduler, registration: _ } = self;
        (current_tick_status, current_micro_step_status, hook_delegate, source_handler, event_scheduler)
    }

    /// Takes the whole context out of `self`, leaving an empty one at the same tick.
    fn take(&mut self) -> (r: Self)
        ensures
            r == *old(self),
            final(self).tick_status() == old(self).tick_status(),
            final(self).micro_step_status() == old(self).micro_step_status(),
    {
        let mut whole = EventContext::new(
            self.current_tick_status,
            self.current_micro_step_status,
            HookDelegate::new(),
            SourceHandler::new(),
            EventScheduler::new(),
        );
        std::mem::swap(self, &mut whole);
        whole
    }

    /// Puts `hooks` in place of the context's hooks and returns those.
    pub(crate) fn swap_hooks(&mut self, hooks: HookDelegate<E, M>) -> (r: HookDelegate<E, M>)
        ensures
            r == old(self).hooks(),
            final(self).hooks() == hooks,
            final(self).tick_status() == old(self).tick_status(),
            final(self).micro_step_status() == old(self).micro_step_status(),
            final(self).handler() == old(self).handler(),
            final(self).scheduler() == old(self).scheduler(),
            final(self).last_registration_delay() == old(self).last_registration_delay(),
    {
        let ghost registration = self.registration@;
        let whole = self.take();
        let (ts, ms, previous, handler, sched) = whole.into_parts();
        *self = EventContext::new(ts, ms, hooks, handler, sched);
        self.registration = Ghost(registration);
        previous
    }

    /// The tick status.
    pub fn tick_status_now(&self) -> (r: TickStatus)
        ensures
            r == self.tick_status(),
    {
        self.current_tick_status
    }

    /// The micro-step status.
    pub fn micro_step_status_now(&self) -> (r: MicroStepStatus)
        ensures
            r == self.micro_step_status(),
    {
        self.current_micro_step_status
    }

    /// Puts the context back at `tick_status` and `micro_step_status`, dropping what is queued
    /// before that tick; a context already there is left as it is.
    pub(crate) fn settle_at(&mut self, tick_status: TickStatus, micro_step_status: MicroStepStatus)
        ensures
            final(self).tick_status() == tick_status,
            final(self).micro_step_status() == micro_step_status,
            final(self).hooks() == old(self).hooks(),
            final(self).handler().count() == old(self).handler().count(),
            final(self).scheduler().next_id() == old(self).scheduler().next_id(),
            old(self).tick_status() == tick_status && old(self).micro_step_status() == micro_step_status ==> *final(self) == *old(self),
    {
        let ghost registration = self.registration@;
        let whole = self.take();
        let (_, _, hooks, mut handler, mut sched) = whole.into_parts();
        handler.retain_from(tick_status.current());
        sched.retain_from(tick_status.current());
        *self = EventContext::new(tick_status, micro_step_status, hooks, handler, sched);
        self.registration = Ghost(registration);
    }

    /// The hooks.
    pub fn hook(&self) -> (r: &HookDelegate<E, M>)
        ensures
            *r == self.hooks(),
    {
        &self.hook_delegate
    }

    /// The event scheduler.
    pub fn event_scheduler(&self) -> (r: &EventScheduler<E>)
        ensures
            *r == self.scheduler(),
    {
        &self.event_scheduler
    }

    /// The source handler.
    pub fn source_handler(&self) -> (r: &SourceHandler<E, M>)
        ensures
            *r == self.handler(),
    {
        &self.source_handler
    }

    /// Registers `source` as `name`: calls the hooks around the registration, makes the
    /// source's registration call and, if it returned a delay, schedules its first firing that
    /// long after the current tick. A first firing past the last representable tick is not
    /// scheduled. The registration call is handed a source context at the context's tick and
    /// micro-step, with its scheduler and its hooks after `before_register_source`; the delay it
    /// returned for these (see [`registration_delay`]) is the one recorded and the one the first
    /// firing is due after.
    pub fn add_source<S>(&mut self, model: &M, name: &'static str, mut source: S)
        where
            S: Source<E, M> + 'static,
        ensures
            old(self).handler().count() < u64::MAX ==> final(self).handler().count() == old(self).handler().count() + 1,
            old(self).handler().count() < u64::MAX ==> final(self).handler().names() == old(self).handler().names().push(name),
            old(self).handler().count() == u64::MAX ==> *final(self) == *old(self),
            old(self).handler().count() < u64::MAX ==> final(self).hooks() == old(self).hooks().recorded(
                (HookCall::BeforeRegisterSource { name }),
            ).recorded((HookCall::AfterRegisterSource { name })),
            final(self).tick_status() == old(self).tick_status(),
            final(self).micro_step_status() == old(self).micro_step_status(),
            final(self).handler().ready() == old(self).handler().ready(),
            final(self).handler().awaiting() == old(self).handler().awaiting(),
            old(self).handler().count() < u64::MAX ==> next_firing_scheduled(
                old(self).handler().pending(),
                final(self).handler().pending(),
                old(self).tick_status().current_tick,
                SourceId(old(self).handler().count() as u64),
                name,
                final(self).last_registration_delay(),
            ),
            old(self).handler().count() < u64::MAX ==> final(self).last_registration_delay() == registration_delay::<E, M, S>(
                &source,
                SourceContext::made_of(
                    old(self).tick_status(),
                    old(self).micro_step_status(),
                    old(self).hooks().recorded((HookCall::BeforeRegisterSource { name })),
                    old(self).scheduler(),
                ),
                *model,
            ),
            old(self).handler().count() < u64::MAX ==> match final(self).last_registration_delay() {
                Some(d) if old(self).tick_status().current_tick.0 + d.0 <= u64::MAX => {
                    &&& final(self).handler().pending().len() == old(self).handler().pending().len() + 1
                    &&& final(self).handler().pending().last().scheduled_at.0 == old(self).tick_status().current_tick.0 + d.0
                    &&& final(self).handler().pending().last().entry.source_id == SourceId(old(self).handler().count() as u64)
                },
                _ => final(self).handler().pending() == old(self).handler().pending(),
            },
            final(self).scheduler().ready() == old(self).scheduler().ready(),
            old(self).scheduler().pending().len() <= final(self).scheduler().pending().len(),
            final(self).scheduler().pending().take(old(self).scheduler().pending().len() as int) == old(self).scheduler().pending(),
    {
        if !self.source_handler.can_register() {
            return;
        }
        let whole = self.take();
        let (ts, ms, mut hooks, mut handler, sched) = whole.into_parts();
        hooks.call_before_register_source(model, name);
        let mut source_context = SourceContext::new(ts, ms, hooks, sched);
        let first_fire_delay = source.on_registered(&mut source_context, model);
        let ghost returned = first_fire_delay;
        let (_, _, mut hooks, mut sched) = source_context.into_parts();
        sched.retain_from(ts.current_tick);
        let first_fire_delay = match first_fire_delay {
            Some(d) => {
                if d.0 <= u64::MAX - ts.current_tick.0 {
                    Some(d)
                } else {
                    None
                }
            },
            None => None,
        };
        handler.add_source_after_registered_action(name, ts.current_tick, first_fire_delay, source);
        hooks.call_after_register_source(model, name);
        *self = EventContext::new(ts, ms, hooks, handler, sched);
        self.registration = Ghost(returned);
    }

    /// Cancels the scheduled firings, ready or pending, for which `pred` holds, calls the
    /// `cancel_source` hook for each, and returns them as `(time, entry)` pairs in queue order.
    pub fn cancel_scheduled_sources<S, F>(&mut self, model: &M, pred: F) -> (r: Vec<(SimTime, SourceReadyEntry)>)
        where
            S: Source<E, M> + 'static,
            F: FnMut(SimTime, &SourceReadyEntry) -> bool,
        requires
            forall|t: SimTime, e: &SourceReadyEntry| call_requires(pred, (t, e)),
        ensures
            final(self).tick_status() == old(self).tick_status(),
            final(self).micro_step_status() == old(self).micro_step_status(),
            final(self).scheduler() == old(self).scheduler(),
            final(self).handler().count() == old(self).handler().count(),
            final(self).handler().names() == old(self).handler().names(),
            final(self).hooks().count() == old(self).hooks().count(),
            final(self).hooks().calls() == old(self).hooks().calls() + cancel_source_calls(
                old(self).tick_status().current_tick,
                old(self).micro_step_status().current_micro_step,
                r@,
            ),
            exists|cancelled: Seq<ScheduledSource>| {
                &&& r@ == as_source_pairs(cancelled)
                &&& sorted(cancelled)
                &&& cancelled.to_multiset().add(final(self).handler().staged().contents()) == old(self).handler().staged().contents()
                &&& forall|i: int| 0 <= i < cancelled.len() ==> call_ensures(pred, ((#[trigger] cancelled[i]).scheduled_at, &cancelled[i].entry), true)
            },
            forall|i: int| 0 <= i < final(self).handler().ready().len() ==> call_ensures(pred, ((#[trigger] final(self).handler().ready()[i]).scheduled_at, &final(self).handler().ready()[i].entry), false),
            forall|i: int| 0 <= i < final(self).handler().pending().len() ==> call_ensures(pred, ((#[trigger] final(self).handler().pending()[i]).scheduled_at, &final(self).handler().pending()[i].entry), false),
            final(self).handler().ready().to_multiset().subset_of(old(self).handler().ready().to_multiset()),
            final(self).handler().pending().to_multiset().subset_of(old(self).handler().pending().to_multiset()),
    {
        let whole = self.take();
        let (ts, ms, mut hooks, mut handler, sched) = whole.into_parts();
        let ghost hooks0 = hooks;
        let cancelled = handler.drain_cancel_scheduled(pred);
        let mut i: usize = 0;
        while i < cancelled.len()
            invariant
                i <= cancelled@.len(),
                hooks.count() == hooks0.count(),
                hooks.calls() == hooks0.calls() + cancel_source_calls(ts.current_tick, ms.current_micro_step, cancelled@.take(i as int)),
            decreases cancelled@.len() - i,
        {
            let (scheduled_at, entry) = cancelled[i];
            hooks.call_cancel_source(
                model,
                ts.current_tick,
                ms.current_micro_step,
                scheduled_at,
                &SourceView::new(entry.source_id, entry.name),
            );
            proof {
                assert(cancelled@.take(i + 1) =~= cancelled@.take(i as int).push(cancelled@[i as int]));
                assert(hooks.calls() =~= hooks0.calls() + cancel_source_calls(ts.current_tick, ms.current_micro_step, cancelled@.take(i + 1)));
            }
            i = i + 1;
        }
        proof {
            assert(cancelled@.take(i as int) =~= cancelled@);
        }
        *self = EventContext::new(ts, ms, hooks, handler, sched);
        cancelled
    }

    /// Cancels the scheduled events, ready or pending, for which `pred` holds, calls the
    /// `cancel_event` hook for each, and returns them as `(time, event)` pairs in queue order.
    pub fn cancel_scheduled_events<F>(&mut self, model: &M, pred: F) -> (r: Vec<(SimTime, Event<E>)>)
        where
            F: FnMut(SimTime, &Event<E>) -> bool,
        requires
            forall|t: SimTime, e: &Event<E>| call_requires(pred, (t, e)),
        ensures
            final(self).tick_status() == old(self).tick_status(),
            final(self).micro_step_status() == old(self).micro_step_status(),
            final(self).handler() == old(self).handler(),
            final(self).scheduler().next_id() == old(self).scheduler().next_id(),
            final(self).hooks().count() == old(self).hooks().count(),
            final(self).hooks().calls() == old(self).hooks().calls() + cancel_event_calls(
                old(self).tick_status().current_tick,
                old(self).micro_step_status().current_micro_step,
                r@,
            ),
            exists|cancelled: Seq<ScheduledEvent<E>>| {
                &&& r@ == as_pairs(cancelled)
                &&& sorted(cancelled)
                &&& cancelled.to_multiset().add(final(self).scheduler().staged().contents()) == old(self).scheduler().staged().contents()
                &&& forall|i: int| 0 <= i < cancelled.len() ==> call_ensures(pred, ((#[trigger] cancelled[i]).scheduled_at, &cancelled[i].event), true)
            },
            forall|i: int| 0 <= i < final(self).scheduler().ready().len() ==> call_ensures(pred, ((#[trigger] final(self).scheduler().ready()[i]).scheduled_at, &final(self).scheduler().ready()[i].event), false),
            forall|i: int| 0 <= i < final(self).scheduler().pending().len() ==> call_ensures(pred, ((#[trigger] final(self).scheduler().pending()[i]).scheduled_at, &final(self).scheduler().pending()[i].event), false),
            final(self).scheduler().ready().to_multiset().subset_of(old(self).scheduler().ready().to_multiset()),
            final(self).scheduler().pending().to_multiset().subset_of(old(self).scheduler().pending().to_multiset()),
    {
        let whole = self.take();
        let (ts, ms, mut hooks, handler, mut sched) = whole.into_parts();
        let ghost hooks0 = hooks;
        let mut cancelled = sched.drain_cancel_scheduled(pred);
        let ghost all = cancelled@;
        let mut result: Vec<(SimTime, Event<E>)> = Vec::new();
        while cancelled.len() > 0
            invariant
                result@ + cancelled@ == all,
                hooks.count() == hooks0.count(),
                hooks.calls() == hooks0.calls() + cancel_event_calls(ts.current_tick, ms.current_micro_step, result@),
            decreases cancelled@.len(),
        {
            let ghost before = cancelled@;
            let (scheduled_at, event) = cancelled.pop_front().unwrap();
            hooks.call_cancel_event(model, ts.current_tick, ms.current_micro_step, scheduled_at, &event);
            let ghost previous = result@;
            result.push((scheduled_at, event));
            proof {
                assert(result@ + cancelled@ =~= all);
                assert(hooks.calls() =~= hooks0.calls() + cancel_event_calls(ts.current_tick, ms.current_micro_step, result@));
            }
        }
        proof {
            assert(result@ =~= all);
        }
        *self = EventContext::new(ts, ms, hooks, handler, sched);
        result
    }
}

impl<E, M: Model<E>> UserContext<E, M> for EventContext<E, M> {
    closed spec fn spec_current_tick(&self) -> SimTime {
        self.current_tick_status.current_tick
    }

    closed spec fn can_schedule_event(&self, delay: Duration) -> bool {
        self.event_scheduler.can_schedule(self.current_tick_status.current_tick, delay)
    }

    fn current_tick(&self) -> (r: SimTime)
        ensures
            r == self.tick_status().current_tick,
    {
        self.current_tick_status.current()
    }

    fn current_micro_step(&self) -> (r: MicroStep)
        ensures
            r == self.micro_step_status().current_micro_step,
    {
        self.current_micro_step_status.current()
    }

    fn schedule_event(&mut self, delay: Duration, priority: EventPriority, event_payload: E)
        ensures
            final(self).tick_status() == old(self).tick_status(),
            final(self).micro_step_status() == old(self).micro_step_status(),
            final(self).hooks() == old(self).hooks(),
            final(self).handler() == old(self).handler(),
            final(self).scheduler().ready() == old(self).scheduler().ready(),
            final(self).scheduler().pending() == old(self).scheduler().pending().push(
                ScheduledEvent {
                    scheduled_at: SimTime((old(self).tick_status().current_tick.0 + delay.0) as u64),
                    event: Event { event_id: EventId(old(self).scheduler().next_id()), priority, payload: event_payload },
                },
            ),
            final(self).scheduler().next_id() == old(self).scheduler().next_id() + 1,
    {
        let whole = self.take();
        let (ts, ms, hooks, handler, mut sched) = whole.into_parts();
        sched.schedule(ts.current_tick, delay, priority, event_payload);
        *self = EventContext::new(ts, ms, hooks, handler, sched);
    }
}

} // verus!
