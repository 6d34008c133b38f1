//! The engine: what a simulation is set up with before it runs (hooks, sources, events), and
//! the start of the run.
use crate::context::{ExecutorContext, SourceContext};
use crate::event_scheduler::EventScheduler;
use crate::modeling::event::{Event, EventPriority};
use crate::modeling::hook::Hook;
use crate::modeling::hook::instance::{HookCall, HookDelegate, SharedHook};
use crate::modeling::model::Model;
use crate::modeling::source::Source;
use crate::primitive::id::{EventId, SourceId};
use crate::primitive::time::{Duration, MicroStepStatus, SimTime, TickStatus};
use crate::queue::insert_all;
use crate::source_handler::{ScheduledSource, SourceHandler, SourceReadyEntry};
use crate::event_scheduler::ScheduledEvent;
use vstd::prelude::*;

verus! {

broadcast use crate::modeling::hook::instance::lemma_recorded;

/// A simulation before it runs: its hooks, its sources and the events scheduled so far.
#[verifier::reject_recursive_types(E)]
#[verifier::reject_recursive_types(M)]
pub struct Engine<E, M: Model<E>> {
    hook_delegate: HookDelegate<E, M>,
    source_handler: SourceHandler<E, M>,
    event_scheduler: EventScheduler<E>,
}

impl<E, M: Model<E>> Default for Engine<E, M> {
    fn default() -> (r: Self)
        ensures
            r.hooks().count() == 0,
            r.handler().count() == 0,
            r.handler().awaiting() == Seq::<SourceId>::empty(),
            r.handler().ready() == Seq::<ScheduledSource>::empty(),
            r.handler().pending() == Seq::<ScheduledSource>::empty(),
            r.scheduler().ready() == Seq::<ScheduledEvent<E>>::empty(),
            r.scheduler().pending() == Seq::<ScheduledEvent<E>>::empty(),
            r.scheduler().next_id() == 0,
    {
        Engine::new()
    }
}

/// The first firings that the registration calls `registrations` schedule at tick 0, in order:
/// one for each call that returned a delay, due that delay after tick 0, under the source's name
/// in `names`.
pub open spec fn first_firings(registrations: Seq<(SourceId, Option<Duration>)>, names: Seq<&'static str>) -> Seq<ScheduledSource>
    decreases registrations.len(),
{
    if registrations.len() == 0 {
        Seq::empty()
    } else {
        let earlier = first_firings(registrations.drop_last(), names);
        let (source_id, delay) = registrations.last();
        match delay {
            Some(d) => earlier.push(
                ScheduledSource { scheduled_at: SimTime(d.0), entry: SourceReadyEntry { source_id, name: names[source_id.0 as int] } },
            ),
            None => earlier,
        }
    }
}

/// The hook calls around the registration calls `registrations`, in order: for each, the
/// `before_register_source` and `after_register_source` calls with the source's name in `names`.
pub open spec fn registration_calls(registrations: Seq<(SourceId, Option<Duration>)>, names: Seq<&'static str>) -> Seq<HookCall>
    decreases registrations.len(),
{
    if registrations.len() == 0 {
        Seq::empty()
    } else {
        let name = names[registrations.last().0.0 as int];
        registration_calls(registrations.drop_last(), names).push(HookCall::BeforeRegisterSource { name }).push(
            HookCall::AfterRegisterSource { name },
        )
    }
}

impl<E, M: Model<E>> Engine<E, M> {
    /// The source handler and the scheduler are well formed.
    #[verifier::type_invariant]
    pub open spec fn wf(&self) -> bool {
        &&& self.scheduler().wf()
        &&& self.handler().wf()
    }

    /// The hooks.
    pub closed spec fn hooks(&self) -> HookDelegate<E, M> {
        self.hook_delegate
    }

    /// The source handler.
    pub closed spec fn handler(&self) -> SourceHandler<E, M> {
        self.source_handler
    }

    /// The event scheduler.
    pub closed spec fn scheduler(&self) -> EventScheduler<E> {
        self.event_scheduler
    }

    /// An engine with no hooks, no sources and no events.
    pub fn new() -> (r: Self)
        ensures
            r.hooks().count() == 0,
            r.handler().count() == 0,
            r.handler().awaiting() == Seq::<SourceId>::empty(),
            r.handler().ready() == Seq::<ScheduledSource>::empty(),
            r.handler().pending() == Seq::<ScheduledSource>::empty(),
            r.scheduler().ready() == Seq::<ScheduledEvent<E>>::empty(),
            r.scheduler().pending() == Seq::<ScheduledEvent<E>>::empty(),
            r.scheduler().next_id() == 0,
    {
        Engine { hook_delegate: HookDelegate::new(), source_handler: SourceHandler::new(), event_scheduler: EventScheduler::new() }
    }

    /// The source handler.
    pub fn source_handler(&self) -> (r: &SourceHandler<E, M>)
        ensures
            *r == self.handler(),
    {
        &self.source_handler
    }

    /// The event scheduler.
    pub fn event_scheduler(&self) -> (r: &EventScheduler<E>)
        ensures
            *r == self.scheduler(),
    {
        &self.event_scheduler
    }

    /// The hooks.
    pub fn hook(&self) -> (r: &HookDelegate<E, M>)
        ensures
            *r == self.hooks(),
    {
        &self.hook_delegate
    }

    /// The parts of the engine.
    fn into_parts(self) -> (r: (HookDelegate<E, M>, SourceHandler<E, M>, EventScheduler<E>))
        ensures
            r.0 == self.hooks(),
            r.1 == self.handler(),
            r.2 == self.scheduler(),
            r.1.wf(),
            r.2.wf(),
    {
        proof {
            use_type_invariant(&self);
        }
        let Engine { hook_delegate, source_handler, event_scheduler } = self;
        (hook_delegate, source_handler, event_scheduler)
    }

    /// Takes the whole engine out of `self`, leaving an empty one.
    fn take(&mut self) -> (r: Self)
        ensures
            r == *old(self),
    {
        let mut whole = Engine::new();
        std::mem::swap(self, &mut whole);
        whole
    }

    /// Starts the run: calls the `before_simulation` hook, makes the registration call of each
    /// source added to the engine (between the `before_register_source` and
    /// `after_register_source` hooks, in the order the sources were added) and schedules the
    /// first firing of each that returned a delay that long after tick 0, moves everything
    /// scheduled into the queues, and returns the context between ticks with tick 0 to process
    /// next.
    pub fn begin_simulation(self, model: &M) -> (r: ExecutorContext<E, M>)
        ensures
            r.registrations().len() == self.handler().awaiting().len(),
            forall|k: int| 0 <= k < r.registrations().len() ==> (#[trigger] r.registrations()[k]).0 == self.handler().awaiting()[k],
            r.handler().names() == self.handler().names(),
            r.handler().ready() == insert_all(
                insert_all(self.handler().ready(), self.handler().pending()),
                first_firings(r.registrations(), self.handler().names()),
            ),
            r.upcoming() == (TickStatus { current_tick: SimTime(0), skipped: Duration(0) }),
            r.last_tick() == SimTime(0),
            r.ready_for_next_tick(),
            r.handler().count() == self.handler().count(),
            r.handler().awaiting() == Seq::<SourceId>::empty(),
            r.handler().pending() == Seq::<ScheduledSource>::empty(),
            r.scheduler().pending() == Seq::<ScheduledEvent<E>>::empty(),
            r.hooks().count() == self.hooks().count(),
            r.hooks().calls() == self.hooks().calls().push(HookCall::BeforeSimulation) + registration_calls(r.registrations(), self.handler().names()),
            r.scheduler().ready() == insert_all(self.scheduler().ready(), self.scheduler().pending() + r.registration_events()),
            self.handler().awaiting().len() == 0 ==> r.hooks() == self.hooks().recorded(HookCall::BeforeSimulation) && r.scheduler().ready() == insert_all(self.scheduler().ready(), self.scheduler().pending())
                && r.handler().ready() == insert_all(self.handler().ready(), self.handler().pending()),
    {
        let (mut hooks, mut handler, sched) = self.into_parts();
        hooks.call_before_simulation(model);
        handler.flush_pending();
        let tick_status = TickStatus::initialize();
        let micro_step_status = MicroStepStatus::initialize();
        let mut source_context = SourceContext::new(tick_status, micro_step_status, hooks, sched);
        let awaiting = handler.take_awaiting_registration();
        let ghost handler0 = handler;
        let ghost context0 = source_context;
        let ghost mut registrations: Seq<(SourceId, Option<Duration>)> = Seq::empty();
        let mut i: usize = 0;
        while i < awaiting.len()
            invariant
                handler.wf(),
                handler.count() == self.handler().count(),
                handler.awaiting() == Seq::<SourceId>::empty(),
                awaiting@ == self.handler().awaiting(),
                forall|k: int| 0 <= k < awaiting@.len() ==> (#[trigger] awaiting@[k]).0 < handler.count(),
                i <= awaiting@.len(),
                i == 0 ==> handler == handler0 && source_context == context0,
                source_context.hooks().count() == self.hooks().count(),
                source_context.hooks().calls() == self.hooks().calls().push(HookCall::BeforeSimulation)
                    + registration_calls(registrations, self.handler().names()),
                source_context.scheduler().ready() == self.scheduler().ready(),
                self.scheduler().pending().len() <= source_context.scheduler().pending().len(),
                source_context.scheduler().pending().take(self.scheduler().pending().len() as int) == self.scheduler().pending(),
                tick_status.current_tick.0 == 0,
                registrations.len() == i,
                forall|k: int| 0 <= k < i ==> (#[trigger] registrations[k]).0 == awaiting@[k],
                handler.names() == self.handler().names(),
                handler.ready() == handler0.ready(),
                handler.pending() == first_firings(registrations, self.handler().names()),
                handler0.pending() == Seq::<ScheduledSource>::empty(),
            decreases awaiting@.len() - i,
        {
            let source_id = awaiting[i];
            let name = handler.name_of(source_id);
            let mut hooks = source_context.swap_hooks(HookDelegate::new());
            hooks.call_before_register_source(model, name);
            let _ = source_context.swap_hooks(hooks);
            let first_fire = handler.call_on_registered(source_id, &mut source_context, model);
            let ghost earlier = registrations;
            let ghost calls_before = source_context.hooks().calls();
            proof {
                registrations = registrations.push((source_id, first_fire));
                assert(registrations.drop_last() =~= earlier);
            }
            let mut hooks = source_context.swap_hooks(HookDelegate::new());
            hooks.call_after_register_source(model, name);
            let _ = source_context.swap_hooks(hooks);
            match first_fire {
                Some(delay) => {
                    handler.schedule_next(tick_status.current(), delay, source_id);
                },
                None => {},
            }
            proof {
                assert(registrations.drop_last() =~= earlier);
                assert(handler.pending() == first_firings(registrations, self.handler().names()));
                assert(source_context.hooks().calls() =~= self.hooks().calls().push(HookCall::BeforeSimulation)
                    + registration_calls(registrations, self.handler().names()));
            }
            i = i + 1;
        }
        handler.flush_pending();
        let (_, _, hooks, mut sched) = source_context.into_parts();
        let ghost events = sched.pending().skip(self.scheduler().pending().len() as int);
        proof {
            assert(sched.pending() =~= self.scheduler().pending() + events);
        }
        sched.flush_pending();
        ExecutorContext::new(tick_status, SimTime::zero(), hooks, handler, sched).with_registrations(Ghost(registrations), Ghost(events))
    }

    /// Adds `hook` after the hooks already added.
    pub fn add_hook<H>(&mut self, hook: H) -> (r: &mut Self)
        where
            H: Hook<E, M> + 'static,
        ensures
            r.hooks().count() == old(self).hooks().count() + 1,
            r.handler() == old(self).handler(),
            r.scheduler() == old(self).scheduler(),
            *final(self) == *final(r),
    {
        let (mut hooks, handler, sched) = self.take().into_parts();
        hooks.add_hook(hook);
        *self = Engine { hook_delegate: hooks, source_handler: handler, event_scheduler: sched };
        self
    }

    /// Adds a hook shared with the caller after the hooks already added.
    pub fn add_shared_hook<H>(&mut self, shared_hook: SharedHook<E, M, H>) -> (r: &mut Self)
        where
            E: 'static,
            M: 'static,
            H: Hook<E, M> + 'static,
        ensures
            r.hooks().count() == old(self).hooks().count() + 1,
            r.handler() == old(self).handler(),
            r.scheduler() == old(self).scheduler(),
            *final(self) == *final(r),
    {
        let (mut hooks, handler, sched) = self.take().into_parts();
        hooks.add_shared_hook(shared_hook);
        *self = Engine { hook_delegate: hooks, source_handler: handler, event_scheduler: sched };
        self
    }

    /// Adds `source` under `name` with the next source id; its registration call comes when the
    /// run begins. When every source id is taken the engine is left as it is.
    pub fn add_source<S>(&mut self, name: &'static str, source: S) -> (r: &mut Self)
        where
            S: Source<E, M> + 'static,
        ensures
            old(self).handler().count() < u64::MAX ==> r.handler().count() == old(self).handler().count() + 1
                && r.handler().names() == old(self).handler().names().push(name)
                && r.handler().awaiting() == old(self).handler().awaiting().push(SourceId(old(self).handler().count() as u64))
                && r.handler().staged() == old(self).handler().staged(),
            old(self).handler().count() == u64::MAX ==> r.handler() == old(self).handler(),
            r.hooks() == old(self).hooks(),
            r.scheduler() == old(self).scheduler(),
            *final(self) == *final(r),
    {
        let (hooks, mut handler, sched) = self.take().into_parts();
        if handler.can_register() {
            handler.add_source_for_before_simulation(name, source);
        }
        *self = Engine { hook_delegate: hooks, source_handler: handler, event_scheduler: sched };
        self
    }

    /// Schedules an event carrying `event_payload` at tick `sim_time` with `priority`; it gets
    /// the next event id. When every event id is taken the engine is left as it is.
    pub fn schedule_event_at(&mut self, sim_time: SimTime, priority: EventPriority, event_payload: E) -> (r: &mut Self)
        ensures
            old(self).scheduler().next_id() < u64::MAX ==> r.scheduler().pending() == old(self).scheduler().pending().push(
                ScheduledEvent {
                    scheduled_at: sim_time,
                    event: Event { event_id: EventId(old(self).scheduler().next_id()), priority, payload: event_payload },
                },
            ) && r.scheduler().ready() == old(self).scheduler().ready()
                && r.scheduler().next_id() == old(self).scheduler().next_id() + 1,
            old(self).scheduler().next_id() == u64::MAX ==> r.scheduler() == old(self).scheduler(),
            r.hooks() == old(self).hooks(),
            r.handler() == old(self).handler(),
            *final(self) == *final(r),
    {
        let (hooks, handler, mut sched) = self.take().into_parts();
        if sched.can_schedule_event(sim_time, Duration::zero()) {
            sched.schedule(sim_time, Duration::zero(), priority, event_payload);
        }
        *self = Engine { hook_delegate: hooks, source_handler: handler, event_scheduler: sched };
        self
    }
}

} // verus!
