//! The contexts a runner drives a simulation through: one between ticks and one within a tick.
use crate::event_scheduler::{as_events, EventScheduler, ScheduledEvent};
use crate::execution::phase::MicroStepHandler;
use crate::execution::runner::event_ids;
use crate::execution::{SimulationError, SimulationOutput, SimulationResult};
use crate::modeling::event::Event;
use crate::modeling::hook::Hook;
use crate::modeling::hook::instance::{HookCall, HookDelegate};
use crate::modeling::model::Model;
use crate::primitive::id::SourceId;
use crate::primitive::time::{Duration, MicroStep, MicroStepStatus, SimTime, TickStatus};
use crate::source_handler::{as_entries, SourceHandler, SourceReadyEntry};
use crate::staged_queue::{due_after, due_at_or_after};
use std::collections::VecDeque;
use vstd::prelude::*;

verus! {

/// Whether events remain to be processed.
#[derive(Clone, Copy, PartialEq, Eq, Structural, Hash, Debug)]
pub enum ExecutorStatus {
    /// No event is queued.
    NoMoreEvent,
    /// An event is queued.
    ExistsMoreEvent,
}

/// The tick status a jump from `current` lands on, given the times of the first queued source
/// firing and of the first queued event: the earlier of the two, with the ticks between skipped;
/// the next tick when nothing is queued.
pub open spec fn jump_target(current: u64, next_source: Option<SimTime>, next_event: Option<SimTime>) -> TickStatus {
    let land = |t: SimTime| TickStatus { current_tick: t, skipped: Duration((t.0 - current - 1) as u64) };
    match (next_source, next_event) {
        (Some(s), Some(e)) => if s.0 <= e.0 { land(s) } else { land(e) },
        (Some(s), None) => land(s),
        (None, Some(e)) => land(e),
        (None, None) => TickStatus { current_tick: SimTime((current + 1) as u64), skipped: Duration(0) },
    }
}

/// The status of the micro-step a tick starts with.
pub open spec fn first_micro_step() -> MicroStepStatus {
    MicroStepStatus { current_micro_step: MicroStep(0) }
}

/// `after` is `before` with the source firings and events due at the current tick removed:
/// each queue lost a leading run of entries due at the current tick and holds nothing due at it
/// any more, and the `on_discard_remain_micro_step` hook was called with them; everything else
/// is unchanged.
pub open spec fn discarded_from<E, M: Model<E>>(before: ActiveExecutorContext<E, M>, after: ActiveExecutorContext<E, M>) -> bool {
    let tick = before.tick_status().current_tick;
    let hb = before.handler().ready();
    let ha = after.handler().ready();
    let sb = before.scheduler().ready();
    let sa = after.scheduler().ready();
    &&& after.tick_status() == before.tick_status()
    &&& after.micro_step_status() == before.micro_step_status()
    &&& after.hooks() == before.hooks().recorded((HookCall::OnDiscardRemainMicroStep {
        tick,
        first_discarded_micro_step: before.micro_step_status().current_micro_step,
        sources: Ghost(as_entries(hb.take(hb.len() - ha.len()))),
        events: Ghost(event_ids(as_events(sb.take(sb.len() - sa.len())))),
    }))
    &&& ha.len() <= hb.len() && hb == hb.take(hb.len() - ha.len()) + ha
    &&& forall|i: int| 0 <= i < hb.len() - ha.len() ==> (#[trigger] hb[i]).scheduled_at == tick
    &&& due_after(ha, tick.0)
    &&& after.handler().pending() == before.handler().pending()
    &&& after.handler().count() == before.handler().count()
    &&& sa.len() <= sb.len() && sb == sb.take(sb.len() - sa.len()) + sa
    &&& forall|i: int| 0 <= i < sb.len() - sa.len() ==> (#[trigger] sb[i]).scheduled_at == tick
    &&& due_after(sa, tick.0)
    &&& after.scheduler().pending() == before.scheduler().pending()
    &&& after.scheduler().next_id() == before.scheduler().next_id()
}

/// The simulation between two ticks: the tick processed last, the status of the tick to process
/// next, the hooks, the sources and the scheduled events.
#[verifier::reject_recursive_types(E)]
#[verifier::reject_recursive_types(M)]
pub struct ExecutorContext<E, M: Model<E>> {
    next_tick_status: TickStatus,
    current_tick: SimTime,
    hook_delegate: HookDelegate<E, M>,
    source_handler: SourceHandler<E, M>,
    event_scheduler: EventScheduler<E>,
    registrations: Ghost<Seq<(SourceId, Option<Duration>)>>,
    registration_events: Ghost<Seq<ScheduledEvent<E>>>,
}

impl<E, M: Model<E>> ExecutorContext<E, M> {
    /// The source handler and the scheduler are well formed.
    #[verifier::type_invariant]
    pub open spec fn wf(&self) -> bool {
        &&& self.scheduler().wf()
        &&& self.handler().wf()
    }

    /// The status of the tick to process next.
    pub closed spec fn upcoming(&self) -> TickStatus {
        self.next_tick_status
    }

    /// The tick processed last.
    pub closed spec fn last_tick(&self) -> SimTime {
        self.current_tick
    }

    /// The hooks.
    pub closed spec fn hooks(&self) -> HookDelegate<E, M> {
        self.hook_delegate
    }

    /// The source handler.
    pub closed spec fn handler(&self) -> SourceHandler<E, M> {
        self.source_handler
    }

    /// The event scheduler.
    pub closed spec fn scheduler(&self) -> EventScheduler<E> {
        self.event_scheduler
    }

    /// The registration calls made when the run began, in order: each source's id and the delay
    /// to its first firing that it returned. Empty for a context between two ticks.
    pub closed spec fn registrations(&self) -> Seq<(SourceId, Option<Duration>)> {
        self.registrations@
    }

    /// The events the sources scheduled during their registration calls when the run began, in
    /// the order they were scheduled. Empty for a context between two ticks.
    pub closed spec fn registration_events(&self) -> Seq<ScheduledEvent<E>> {
        self.registration_events@
    }

    /// Nothing queued, source firing or event, is due before the tick to process next.
    pub open spec fn ready_for_next_tick(&self) -> bool {
        &&& self.scheduler().all_at_or_after(self.upcoming().current_tick.0)
        &&& self.handler().all_at_or_after(self.upcoming().current_tick.0)
    }

    /// A context made of the given parts.
    pub fn new(
        next_tick_status: TickStatus,
        current_tick: SimTime,
        hook_delegate: HookDelegate<E, M>,
        source_handler: SourceHandler<E, M>,
        event_scheduler: EventScheduler<E>,
    ) -> (r: Self)
        requires
            event_scheduler.wf(),
            source_handler.wf(),
        ensures
            r.upcoming() == next_tick_status,
            r.last_tick() == current_tick,
            r.hooks() == hook_delegate,
            r.handler() == source_handler,
            r.scheduler() == event_scheduler,
            r.registrations() == Seq::<(SourceId, Option<Duration>)>::empty(),
    {
        ExecutorContext { next_tick_status, current_tick, hook_delegate, source_handler, event_scheduler, registrations: Ghost(Seq::empty()), registration_events: Ghost(Seq::empty()) }
    }

    /// The context with the record of the registration calls made when the run began.
    pub(crate) fn with_registrations(
        self,
        registrations: Ghost<Seq<(SourceId, Option<Duration>)>>,
        registration_events: Ghost<Seq<ScheduledEvent<E>>>,
    ) -> (r: Self)
        ensures
            r.upcoming() == self.upcoming(),
            r.last_tick() == self.last_tick(),
            r.hooks() == self.hooks(),
            r.handler() == self.handler(),
            r.scheduler() == self.scheduler(),
            r.registrations() == registrations@,
            r.registration_events() == registration_events@,
    {
        proof {
            use_type_invariant(&self);
        }
        let ExecutorContext { next_tick_status, current_tick, hook_delegate, source_handler, event_scheduler, registrations: _, registration_events: _ } = self;
        ExecutorContext { next_tick_status, current_tick, hook_delegate, source_handler, event_scheduler, registrations, registration_events }
    }

    /// The status of the tick to process next.
    pub fn next_tick_status(&self) -> (r: TickStatus)
        ensures
            r == self.upcoming(),
    {
        self.next_tick_status
    }

    /// The tick processed last.
    pub fn current_tick(&self) -> (r: SimTime)
        ensures
            r == self.last_tick(),
    {
        self.current_tick
    }

    /// The hooks.
    pub fn hook(&self) -> (r: &HookDelegate<E, M>)
        ensures
            *r == self.hooks(),
    {
        &self.hook_delegate
    }

    /// The source handler.
    pub fn source_handler(&self) -> (r: &SourceHandler<E, M>)
        ensures
            *r == self.handler(),
    {
        &self.source_handler
    }

    /// The event scheduler.
    pub fn event_scheduler(&self) -> (r: &EventScheduler<E>)
        ensures
            *r == self.scheduler(),
    {
        &self.event_scheduler
    }

    /// Whether an event is queued, and the status of the tick to process next.
    pub fn peek_next_tick(&self) -> (r: (ExecutorStatus, TickStatus))
        ensures
            r.0 == (if self.scheduler().ready().len() > 0 {
                ExecutorStatus::ExistsMoreEvent
            } else {
                ExecutorStatus::NoMoreEvent
            }),
            r.1 == self.upcoming(),
    {
        let next_event_fired_at = self.event_scheduler.peek_next_time();
        let executor_status = match next_event_fired_at {
            Some(_) => ExecutorStatus::ExistsMoreEvent,
            None => ExecutorStatus::NoMoreEvent,
        };
        (executor_status, self.next_tick_status)
    }

    /// Starts the tick to process next: calls the `before_tick` hook and returns the context of
    /// that tick, at its first micro-step.
    pub fn begin_tick(self, model: &M) -> (r: ActiveExecutorContext<E, M>)
        requires
            self.ready_for_next_tick(),
        ensures
            r.tick_status() == self.upcoming(),
            r.micro_step_status() == first_micro_step(),
            r.hooks() == self.hooks().recorded((HookCall::BeforeTick { tick: self.upcoming().current_tick, skipped: self.upcoming().skipped })),
            r.handler() == self.handler(),
            r.scheduler() == self.scheduler(),
    {
        proof {
            use_type_invariant(&self);
        }
        let ExecutorContext { next_tick_status, current_tick: _, mut hook_delegate, source_handler, event_scheduler, registrations: _, registration_events: _ } = self;
        hook_delegate.call_before_tick(model, next_tick_status.current(), next_tick_status.skipped());
        ActiveExecutorContext {
            current_tick_status: next_tick_status,
            next_micro_step_status: MicroStepStatus::initialize(),
            hook_delegate,
            source_handler,
            event_scheduler,
        }
    }

    /// Ends the run successfully: calls the `after_simulation` hook and returns the model with
    /// the tick processed last.
    pub fn end_simulation_as_ok<Error>(self, model: M) -> (r: SimulationResult<M, Error>)
        ensures
            r matches Ok(out) && out.spec_last_tick() == self.last_tick() && out.spec_model() == model,
    {
        self.finish_ok(model).0
    }

    /// Ends the run successfully as [`ExecutorContext::end_simulation_as_ok`] does, and returns
    /// the hook calls made through the context, the `after_simulation` call last.
    pub(crate) fn finish_ok<Error>(self, model: M) -> (r: (SimulationResult<M, Error>, Ghost<Seq<HookCall>>))
        ensures
            r.0 matches Ok(out) && out.spec_last_tick() == self.last_tick() && out.spec_model() == model,
            r.1@ == self.hooks().calls().push(HookCall::AfterSimulation { end_tick: self.last_tick() }),
    {
        let ExecutorContext { next_tick_status: _, current_tick, mut hook_delegate, source_handler: _, event_scheduler: _, registrations: _, registration_events: _ } = self;
        hook_delegate.call_after_simulation(&model, current_tick);
        let ghost calls = hook_delegate.calls();
        (Ok(SimulationOutput::new(current_tick, model)), Ghost(calls))
    }

    /// Ends the run with `error`: calls the `after_simulation` hook and returns the model and
    /// the error with the tick processed last.
    pub fn end_simulation_as_error<Error>(self, model: M, error: Error) -> (r: SimulationResult<M, Error>)
        ensures
            r matches Err(e) && e.spec_last_tick() == self.last_tick() && e.spec_model() == model && e.spec_error() == error,
    {
        self.finish_error(model, error).0
    }

    /// Ends the run with `error` as [`ExecutorContext::end_simulation_as_error`] does, and returns
    /// the hook calls made through the context, the `after_simulation` call last.
    pub(crate) fn finish_error<Error>(self, model: M, error: Error) -> (r: (SimulationResult<M, Error>, Ghost<Seq<HookCall>>))
        ensures
            r.0 matches Err(e) && e.spec_last_tick() == self.last_tick() && e.spec_model() == model && e.spec_error() == error,
            r.1@ == self.hooks().calls().push(HookCall::AfterSimulation { end_tick: self.last_tick() }),
    {
        let ExecutorContext { next_tick_status: _, current_tick, mut hook_delegate, source_handler: _, event_scheduler: _, registrations: _, registration_events: _ } = self;
        hook_delegate.call_after_simulation(&model, current_tick);
        let ghost calls = hook_delegate.calls();
        (Err(SimulationError::new(current_tick, model, error)), Ghost(calls))
    }
}

/// The simulation within a tick: the tick's status, the status of the micro-step to run next,
/// the hooks, the sources and the scheduled events.
#[verifier::reject_recursive_types(E)]
#[verifier::reject_recursive_types(M)]
pub struct ActiveExecutorContext<E, M: Model<E>> {
    current_tick_status: TickStatus,
    next_micro_step_status: MicroStepStatus,
    hook_delegate: HookDelegate<E, M>,
    source_handler: SourceHandler<E, M>,
    event_scheduler: EventScheduler<E>,
}

impl<E, M: Model<E>> ActiveExecutorContext<E, M> {
    /// The source handler and the scheduler are well formed and hold nothing due before the
    /// current tick.
    #[verifier::type_invariant]
    pub open spec fn wf(&self) -> bool {
        &&& self.scheduler().wf()
        &&& self.handler().wf()
        &&& self.scheduler().all_at_or_after(self.tick_status().current_tick.0)
        &&& self.handler().all_at_or_after(self.tick_status().current_tick.0)
    }

    /// The status of the current tick.
    pub closed spec fn tick_status(&self) -> TickStatus {
        self.current_tick_status
    }

    /// The status of the micro-step to run next.
    pub closed spec fn micro_step_status(&self) -> MicroStepStatus {
        self.next_micro_step_status
    }

    /// The hooks.
    pub closed spec fn hooks(&self) -> HookDelegate<E, M> {
        self.hook_delegate
    }

    /// The source handler.
    pub closed spec fn handler(&self) -> SourceHandler<E, M> {
        self.source_handler
    }

    /// The event scheduler.
    pub closed spec fn scheduler(&self) -> EventScheduler<E> {
        self.event_scheduler
    }

    /// Nothing queued, source firing or event, is due at the current tick any more, and nothing
    /// waits in a pending list.
    pub open spec fn tick_finished(&self) -> bool {
        &&& due_after(self.scheduler().ready(), self.tick_status().current_tick.0)
        &&& due_after(self.handler().ready(), self.tick_status().current_tick.0)
        &&& self.scheduler().pending().len() == 0
        &&& self.handler().pending().len() == 0
    }

    /// A context made of the given parts.
    pub fn new(
        current_tick_status: TickStatus,
        next_micro_step_status: MicroStepStatus,
        hook_delegate: HookDelegate<E, M>,
        source_handler: SourceHandler<E, M>,
        event_scheduler: EventScheduler<E>,
    ) -> (r: Self)
        requires
            event_scheduler.wf(),
            source_handler.wf(),
            event_scheduler.all_at_or_after(current_tick_status.current_tick.0),
            source_handler.all_at_or_after(current_tick_status.current_tick.0),
        ensures
            r.tick_status() == current_tick_status,
            r.micro_step_status() == next_micro_step_status,
            r.hooks() == hook_delegate,
            r.handler() == source_handler,
            r.scheduler() == event_scheduler,
    {
        ActiveExecutorContext { current_tick_status, next_micro_step_status, hook_delegate, source_handler, event_scheduler }
    }

    /// The parts of the context.
    pub fn into_parts(self) -> (r: (TickStatus, MicroStepStatus, HookDelegate<E, M>, SourceHandler<E, M>, EventScheduler<E>))
        ensures
            r.0 == self.tick_status(),
            r.1 == self.micro_step_status(),
            r.2 == self.hooks(),
            r.3 == self.handler(),
            r.4 == self.scheduler(),
            r.3.wf(),
            r.4.wf(),
            r.3.all_at_or_after(r.0.current_tick.0),
            r.4.all_at_or_after(r.0.current_tick.0),
    {
        proof {
            use_type_invariant(&self);
        }
        let ActiveExecutorContext { current_tick_status, next_micro_step_status, hook_delegate, source_handler, event_scheduler } = self;
        (current_tick_status, next_micro_step_status, hook_delegate, source_handler, event_scheduler)
    }

    /// The status of the current tick.
    pub fn current_tick_status(&self) -> (r: TickStatus)
        ensures
            r == self.tick_status(),
    {
        self.current_tick_status
    }

    /// The status of the micro-step to run next.
    pub fn next_micro_step_status(&self) -> (r: MicroStepStatus)
        ensures
            r == self.micro_step_status(),
    {
        self.next_micro_step_status
    }

    /// The hooks.
    pub fn hook(&self) -> (r: &HookDelegate<E, M>)
        ensures
            *r == self.hooks(),
    {
        &self.hook_delegate
    }

    /// The source handler.
    pub fn source_handler(&self) -> (r: &SourceHandler<E, M>)
        ensures
            *r == self.handler(),
    {
        &self.source_handler
    }

    /// The event scheduler.
    pub fn event_scheduler(&self) -> (r: &EventScheduler<E>)
        ensures
            *r == self.scheduler(),
    {
        &self.event_scheduler
    }

    /// Whether the tick is finished (see [`ActiveExecutorContext::tick_finished`]).
    pub fn is_tick_finished(&self) -> (r: bool)
        ensures
            r == self.tick_finished(),
    {
        proof {
            use_type_invariant(self);
        }
        let tick = self.current_tick_status.current();
        !self.event_scheduler.has_pending() && !self.source_handler.has_pending()
            && !self.event_scheduler.holds_due_at(tick) && !self.source_handler.holds_due_at(tick)
    }

    /// Whether a source firing or an event in the ready queues is due at the current tick.
    pub fn has_due_now(&self) -> (r: bool)
        ensures
            r == !(due_after(self.scheduler().ready(), self.tick_status().current_tick.0)
                && due_after(self.handler().ready(), self.tick_status().current_tick.0)),
    {
        proof {
            use_type_invariant(self);
        }
        let tick = self.current_tick_status.current();
        self.event_scheduler.holds_due_at(tick) || self.source_handler.holds_due_at(tick)
    }

    /// Starts the next micro-step: calls the `before_micro_step` hook and hands the context to a
    /// micro-step handler.
    pub fn begin_micro_step(self, model: &M) -> (r: MicroStepHandler<ActiveExecutorContext<E, M>>)
        ensures
            r.context().tick_status() == self.tick_status(),
            r.context().micro_step_status() == self.micro_step_status(),
            r.context().handler() == self.handler(),
            r.context().scheduler() == self.scheduler(),
            r.context().hooks() == self.hooks().recorded((HookCall::BeforeMicroStep {
                tick: self.tick_status().current_tick,
                micro_step: self.micro_step_status().current_micro_step,
            })),
    {
        proof {
            use_type_invariant(&self);
        }
        let ActiveExecutorContext { current_tick_status, next_micro_step_status, mut hook_delegate, source_handler, event_scheduler } = self;
        hook_delegate.call_before_micro_step(model, current_tick_status.current(), next_micro_step_status.current());
        MicroStepHandler::new(ActiveExecutorContext { current_tick_status, next_micro_step_status, hook_delegate, source_handler, event_scheduler })
    }

    /// Ends the tick: calls the `after_tick` hook and returns the context between ticks, with the
    /// following tick to process next and no tick skipped.
    pub fn end_tick_with_increment_tick(self, model: &M) -> (r: ExecutorContext<E, M>)
        requires
            self.tick_status().current_tick.0 < u64::MAX,
        ensures
            r.last_tick() == self.tick_status().current_tick,
            r.upcoming() == (TickStatus {
                current_tick: SimTime((self.tick_status().current_tick.0 + 1) as u64),
                skipped: Duration(0),
            }),
            r.hooks() == self.hooks().recorded((HookCall::AfterTick {
                tick: self.tick_status().current_tick,
                last_micro_step: self.micro_step_status().current_micro_step,
            })),
            r.handler() == self.handler(),
            r.scheduler() == self.scheduler(),
            self.tick_finished() ==> r.ready_for_next_tick(),
    {
        proof {
            use_type_invariant(&self);
        }
        let this = self;
        let current_tick = this.current_tick_status.current();
        let last_micro_step = this.next_micro_step_status.current();
        let next_tick = current_tick + Duration::one();
        let next_tick_status = TickStatus::new(next_tick, Duration::zero());
        let ActiveExecutorContext { current_tick_status: _, next_micro_step_status: _, mut hook_delegate, source_handler, event_scheduler } = this;
        hook_delegate.call_after_tick(model, current_tick, last_micro_step);
        ExecutorContext { next_tick_status, current_tick, hook_delegate, source_handler, event_scheduler, registrations: Ghost(Seq::empty()), registration_events: Ghost(Seq::empty()) }
    }

    /// Ends the tick: calls the `after_tick` hook and returns the context between ticks, with the
    /// earliest tick at which a source or an event is queued to process next (see
    /// [`jump_target`]). Nothing queued may be due at the current tick any more.
    pub fn end_tick_with_jump_to_next_tick(self, model: &M) -> (r: ExecutorContext<E, M>)
        requires
            self.tick_status().current_tick.0 < u64::MAX,
            due_after(self.scheduler().ready(), self.tick_status().current_tick.0),
            due_after(self.handler().ready(), self.tick_status().current_tick.0),
        ensures
            r.last_tick() == self.tick_status().current_tick,
            r.upcoming() == jump_target(self.tick_status().current_tick.0, self.handler().next_time(), self.scheduler().next_time()),
            r.upcoming().current_tick.0 > self.tick_status().current_tick.0,
            r.hooks() == self.hooks().recorded((HookCall::AfterTick {
                tick: self.tick_status().current_tick,
                last_micro_step: self.micro_step_status().current_micro_step,
            })),
            r.handler() == self.handler(),
            r.scheduler() == self.scheduler(),
            self.tick_finished() ==> r.ready_for_next_tick(),
    {
        proof {
            use_type_invariant(&self);
        }
        let this = self;
        let current_tick = this.current_tick_status.current();
        let last_micro_step = this.next_micro_step_status.current();
        let next_source = this.source_handler.peek_next_time();
        let next_event = this.event_scheduler.peek_next_time();
        proof {
            this.source_handler.lemma_first_is_least();
            this.event_scheduler.lemma_first_is_least();
        }
        let (skipped, next_tick) = match (next_source, next_event) {
            (Some(s), Some(e)) => {
                let t = if s.0 <= e.0 { s } else { e };
                (t - current_tick - Duration::one(), t)
            },
            (Some(t), None) => (t - current_tick - Duration::one(), t),
            (None, Some(t)) => (t - current_tick - Duration::one(), t),
            (None, None) => (Duration::zero(), current_tick + Duration::one()),
        };
        let next_tick_status = TickStatus::new(next_tick, skipped);
        let ActiveExecutorContext { current_tick_status: _, next_micro_step_status: _, mut hook_delegate, source_handler, event_scheduler } = this;
        hook_delegate.call_after_tick(model, current_tick, last_micro_step);
        ExecutorContext { next_tick_status, current_tick, hook_delegate, source_handler, event_scheduler, registrations: Ghost(Seq::empty()), registration_events: Ghost(Seq::empty()) }
    }

    /// Ends the tick without moving on: calls the `after_tick` hook and returns the context
    /// between ticks with the current tick both as the tick processed last and as the tick to
    /// process next. A run that cannot go on past the current tick ends through it.
    pub fn end_tick_in_place(self, model: &M) -> (r: ExecutorContext<E, M>)
        ensures
            r.last_tick() == self.tick_status().current_tick,
            r.upcoming() == self.tick_status(),
            r.hooks() == self.hooks().recorded((HookCall::AfterTick {
                tick: self.tick_status().current_tick,
                last_micro_step: self.micro_step_status().current_micro_step,
            })),
            r.handler() == self.handler(),
            r.scheduler() == self.scheduler(),
            r.ready_for_next_tick(),
    {
        proof {
            use_type_invariant(&self);
        }
        let this = self;
        let current_tick = this.current_tick_status.current();
        let last_micro_step = this.next_micro_step_status.current();
        let ActiveExecutorContext { current_tick_status, next_micro_step_status: _, mut hook_delegate, source_handler, event_scheduler } = this;
        hook_delegate.call_after_tick(model, current_tick, last_micro_step);
        ExecutorContext {
            next_tick_status: current_tick_status,
            current_tick,
            hook_delegate,
            source_handler,
            event_scheduler,
            registrations: Ghost(Seq::empty()), registration_events: Ghost(Seq::empty()),
        }
    }

    /// Takes the whole context out of `self`, leaving an empty one at the same tick and
    /// micro-step.
    fn take(&mut self) -> (r: Self)
        ensures
            r == *old(self),
            final(self).tick_status() == old(self).tick_status(),
            final(self).micro_step_status() == old(self).micro_step_status(),
    {
        let mut whole = ActiveExecutorContext::new(
            self.current_tick_status,
            self.next_micro_step_status,
            HookDelegate::new(),
            SourceHandler::new(),
            EventScheduler::new(),
        );
        std::mem::swap(self, &mut whole);
        whole
    }

    /// Discards the source firings and events still due at the current tick: removes them from
    /// the queues, calls the `on_discard_remain_micro_step` hook with them and returns them in
    /// queue order.
    pub fn discard_remain_micro_step(&mut self, model: &M) -> (r: (VecDeque<SourceReadyEntry>, VecDeque<Event<E>>))
        ensures
            final(self).tick_status() == old(self).tick_status(),
            final(self).micro_step_status() == old(self).micro_step_status(),
            final(self).hooks() == old(self).hooks().recorded((HookCall::OnDiscardRemainMicroStep {
                tick: old(self).tick_status().current_tick,
                first_discarded_micro_step: old(self).micro_step_status().current_micro_step,
                sources: Ghost(r.0@),
                events: Ghost(event_ids(r.1@)),
            })),
            old(self).handler().ready() == old(self).handler().ready().take(r.0@.len() as int) + final(self).handler().ready(),
            r.0@ == as_entries(old(self).handler().ready().take(r.0@.len() as int)),
            forall|i: int| 0 <= i < r.0@.len() ==> (#[trigger] old(self).handler().ready()[i]).scheduled_at == old(self).tick_status().current_tick,
            due_after(final(self).handler().ready(), old(self).tick_status().current_tick.0),
            final(self).handler().pending() == old(self).handler().pending(),
            final(self).handler().count() == old(self).handler().count(),
            old(self).scheduler().ready() == old(self).scheduler().ready().take(r.1@.len() as int) + final(self).scheduler().ready(),
            r.1@ == as_events(old(self).scheduler().ready().take(r.1@.len() as int)),
            forall|i: int| 0 <= i < r.1@.len() ==> (#[trigger] old(self).scheduler().ready()[i]).scheduled_at == old(self).tick_status().current_tick,
            due_after(final(self).scheduler().ready(), old(self).tick_status().current_tick.0),
            final(self).scheduler().pending() == old(self).scheduler().pending(),
            final(self).scheduler().next_id() == old(self).scheduler().next_id(),
            discarded_from(*old(self), *final(self)),
    {
        let whole = self.take();
        let (ts, ms, mut hooks, mut handler, mut sched) = whole.into_parts();
        let current_tick = ts.current();
        let ready_sources = handler.drain_ready(current_tick);
        let ready_events = sched.drain_ready(current_tick);
        let sources = deque_into_vec(ready_sources);
        let events = deque_into_vec(ready_events);
        hooks.call_on_discard_remain_micro_step(model, current_tick, ms.current(), sources.as_slice(), events.as_slice());
        let ready_sources = vec_into_deque(sources);
        let ready_events = vec_into_deque(events);
        proof {
            assert forall|i: int| 0 <= i < handler.ready().len() implies (#[trigger] handler.ready()[i]).scheduled_at.0 >= current_tick.0 by {
                assert(due_after(handler.ready(), current_tick.0));
            }
        }
        *self = ActiveExecutorContext::new(ts, ms, hooks, handler, sched);
        (ready_sources, ready_events)
    }
}

/// A jump skips only idle ticks: it lands after the current tick, nothing queued is due before
/// the tick it lands on, something queued is due at it when anything is queued, and the ticks
/// it skips are those strictly between the two.
pub proof fn law_jump_skips_only_idle_ticks<E, M: Model<E>>(a: ActiveExecutorContext<E, M>)
    requires
        a.wf(),
        a.tick_finished(),
        a.tick_status().current_tick.0 < u64::MAX,
    ensures
        ({
            let now = a.tick_status().current_tick.0;
            let target = jump_target(now, a.handler().next_time(), a.scheduler().next_time());
            &&& target.current_tick.0 > now
            &&& a.scheduler().all_at_or_after(target.current_tick.0)
            &&& a.handler().all_at_or_after(target.current_tick.0)
            &&& (a.scheduler().ready().len() > 0 || a.handler().ready().len() > 0) ==> (a.scheduler().next_time() == Some(target.current_tick)
                || a.handler().next_time() == Some(target.current_tick))
            &&& (a.scheduler().ready().len() == 0 && a.handler().ready().len() == 0) ==> target.current_tick.0 == now + 1
            &&& target.skipped.0 == target.current_tick.0 - now - 1
        }),
{
    a.handler().lemma_first_is_least();
    a.scheduler().lemma_first_is_least();
}

/// The entries of `d`, in order, in a vector.
pub fn deque_into_vec<T>(d: VecDeque<T>) -> (r: Vec<T>)
    ensures
        r@ == d@,
{
    let mut d = d;
    let ghost all = d@;
    let mut r: Vec<T> = Vec::new();
    while d.len() > 0
        invariant
            r@ + d@ == all,
        decreases d@.len(),
    {
        let x = d.pop_front().unwrap();
        r.push(x);
        proof {
            assert(r@ + d@ =~= all);
        }
    }
    proof {
        assert(r@ =~= all);
    }
    r
}

/// The entries of `v`, in order, in a double-ended queue.
pub fn vec_into_deque<T>(v: Vec<T>) -> (r: VecDeque<T>)
    ensures
        r@ == v@,
{
    let mut v = v;
    let ghost all = v@;
    let mut r: VecDeque<T> = VecDeque::new();
    while v.len() > 0
        invariant
            r@ + v@ == all,
        decreases v@.len(),
    {
        let x = v.remove(0);
        r.push_back(x);
        proof {
            assert(r@ + v@ =~= all);
        }
    }
    proof {
        assert(r@ =~= all);
    }
    r
}

} // verus!
