//! The context a source acts through while it is registered or fired.
use crate::context::UserContext;
use crate::event_scheduler::EventScheduler;
use crate::modeling::event::{Event, EventPriority};
use crate::modeling::hook::instance::HookDelegate;
use crate::modeling::model::Model;
use crate::primitive::id::EventId;
use crate::primitive::time::{Duration, MicroStep, MicroStepStatus, SimTime, TickStatus};
use vstd::prelude::*;

verus! {

/// The context of a source: the current tick and micro-step, the hooks and the event scheduler.
#[verifier::reject_recursive_types(E)]
#[verifier::reject_recursive_types(M)]
pub struct SourceContext<E, M: Model<E>> {
    current_tick_status: TickStatus,
    current_micro_step_status: MicroStepStatus,
    hook_delegate: HookDelegate<E, M>,
    event_scheduler: EventScheduler<E>,
}

impl<E, M: Model<E>> SourceContext<E, M> {
    /// The scheduler is well formed and holds nothing due before the current tick.
    #[verifier::type_invariant]
    pub open spec fn wf(&self) -> bool {
        &&& self.scheduler().wf()
        &&& self.scheduler().all_at_or_after(self.tick_status().current_tick.0)
    }

    /// The tick status.
    pub closed spec fn tick_status(&self) -> TickStatus {
        self.current_tick_status
    }

    /// The micro-step status.
    pub closed spec fn micro_step_status(&self) -> MicroStepStatus {
        self.current_micro_step_status
    }

    /// The hooks.
    pub closed spec fn hooks(&self) -> HookDelegate<E, M> {
        self.hook_delegate
    }

    /// The event scheduler.
    pub closed spec fn scheduler(&self) -> EventScheduler<E> {
        self.event_scheduler
    }

    /// The context made of the given parts.
    pub closed spec fn made_of(
        current_tick_status: TickStatus,
        current_micro_step_status: MicroStepStatus,
        hook_delegate: HookDelegate<E, M>,
        event_scheduler: EventScheduler<E>,
    ) -> Self {
        SourceContext { current_tick_status, current_micro_step_status, hook_delegate, event_scheduler }
    }

    /// A context made of the given parts.
    pub fn new(
        current_tick_status: TickStatus,
        current_micro_step_status: MicroStepStatus,
        hook_delegate: HookDelegate<E, M>,
            event_scheduler: EventScheduler<E>,
    ) -> (r: Self)
        requires
            event_scheduler.wf(),
            event_scheduler.all_at_or_after(current_tick_status.current_tick.0),
        ensures
            r.tick_status() == current_tick_status,
            r.micro_step_status() == current_micro_step_status,
            r.hooks() == hook_delegate,
            r.scheduler() == event_scheduler,
            r == Self::made_of(current_tick_status, current_micro_step_status, hook_delegate, event_scheduler),
    {
        SourceContext { current_tick_status, current_micro_step_status, hook_delegate, event_scheduler }
    }

    /// The parts of the context.
    pub fn into_parts(self) -> (r: (TickStatus, MicroStepStatus, HookDelegate<E, M>, EventScheduler<E>))
        ensures
            r.0 == self.tick_status(),
            r.1 == self.micro_step_status(),
            r.2 == self.hooks(),
            r.3 == self.scheduler(),
            r.3.wf(),
            r.3.all_at_or_after(r.0.current_tick.0),
    {
        proof {
            use_type_invariant(&self);
        }
        let SourceContext { current_tick_status, current_micro_step_status, hook_delegate, event_scheduler } = self;
        (current_tick_status, current_micro_step_status, hook_delegate, event_scheduler)
    }

    /// Puts `hooks` in place of the context's hooks and returns those.
    pub(crate) fn swap_hooks(&mut self, hooks: HookDelegate<E, M>) -> (r: HookDelegate<E, M>)
        ensures
            r == old(self).hooks(),
            final(self).hooks() == hooks,
            final(self).tick_status() == old(self).tick_status(),
            final(self).micro_step_status() == old(self).micro_step_status(),
            final(self).scheduler() == old(self).scheduler(),
    {
        let mut whole = SourceContext::new(self.current_tick_status, self.current_micro_step_status, HookDelegate::new(), EventScheduler::new());
        std::mem::swap(self, &mut whole);
        let (ts, ms, previous, sched) = whole.into_parts();
        *self = SourceContext::new(ts, ms, hooks, sched);
        previous
    }

    /// The hooks.
    pub fn hook(&self) -> (r: &HookDelegate<E, M>)
        ensures
            *r == self.hooks(),
    {
        &self.hook_delegate
    }

    /// The event scheduler.
    pub fn event_scheduler(&self) -> (r: &EventScheduler<E>)
        ensures
            *r == self.scheduler(),
    {
        &self.event_scheduler
    }

}

impl<E, M: Model<E>> UserContext<E, M> for SourceContext<E, M> {
    closed spec fn spec_current_tick(&self) -> SimTime {
        self.current_tick_status.current_tick
    }

    closed spec fn can_schedule_event(&self, delay: Duration) -> bool {
        self.event_scheduler.can_schedule(self.current_tick_status.current_tick, delay)
    }

    fn current_tick(&self) -> (r: SimTime)
        ensures
            r == self.tick_status().current_tick,
    {
        self.current_tick_status.current()
    }

    fn current_micro_step(&self) -> (r: MicroStep)
        ensures
            r == self.micro_step_status().current_micro_step,
    {
        self.current_micro_step_status.current()
    }

    fn schedule_event(&mut self, delay: Duration, priority: EventPriority, event_payload: E)
        ensures
            final(self).tick_status() == old(self).tick_status(),
            final(self).micro_step_status() == old(self).micro_step_status(),
            final(self).hooks() == old(self).hooks(),
            final(self).scheduler().ready() == old(self).scheduler().ready(),
            final(self).scheduler().pending() == old(self).scheduler().pending().push(
                crate::event_scheduler::ScheduledEvent {
                    scheduled_at: SimTime((old(self).tick_status().current_tick.0 + delay.0) as u64),
                    event: Event { event_id: EventId(old(self).scheduler().next_id()), priority, payload: event_payload },
                },
            ),
            final(self).scheduler().next_id() == old(self).scheduler().next_id() + 1,
    {
        let ts = self.current_tick_status;
        let ms = self.current_micro_step_status;
        let mut whole = SourceContext::new(ts, ms, HookDelegate::new(), EventScheduler::new());
        std::mem::swap(self, &mut whole);
        let (ts, ms, hooks, mut sched) = whole.into_parts();
        sched.schedule(ts.current_tick, delay, priority, event_payload);
        *self = SourceContext::new(ts, ms, hooks, sched);
    }
}

} // verus!
