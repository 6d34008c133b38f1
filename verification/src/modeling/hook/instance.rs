//! Hooks that hold other hooks: the delegate an engine calls, and a hook shared with the caller.
use crate::modeling::event::Event;
use crate::modeling::hook::Hook;
use crate::modeling::model::Model;
use crate::execution::runner::event_ids;
use crate::primitive::id::EventId;
use crate::primitive::time::{Duration, MicroStep, SimTime};
use crate::source_handler::{SourceReadyEntry, SourceView};
use std::marker::PhantomData;
use std::rc::Rc;
use vstd::prelude::*;

verus! {

/// A call of a hook, as the delegate records it: which hook, and the values it was called with
/// (an event by its id).
pub enum HookCall {
    /// `before_simulation`.
    BeforeSimulation,
    /// `after_simulation`.
    AfterSimulation { end_tick: SimTime },
    /// `before_tick`.
    BeforeTick { tick: SimTime, skipped: Duration },
    /// `after_tick`.
    AfterTick { tick: SimTime, last_micro_step: MicroStep },
    /// `before_micro_step`.
    BeforeMicroStep { tick: SimTime, micro_step: MicroStep },
    /// `after_micro_step`.
    AfterMicroStep { tick: SimTime, micro_step: MicroStep },
    /// `on_discard_remain_micro_step`.
    OnDiscardRemainMicroStep { tick: SimTime, first_discarded_micro_step: MicroStep, sources: Ghost<Seq<SourceReadyEntry>>, events: Ghost<Seq<EventId>> },
    /// `before_register_source`.
    BeforeRegisterSource { name: &'static str },
    /// `after_register_source`.
    AfterRegisterSource { name: &'static str },
    /// `before_source_phase`.
    BeforeSourcePhase { tick: SimTime, micro_step: MicroStep },
    /// `before_source`.
    BeforeSource { tick: SimTime, micro_step: MicroStep, source: SourceView },
    /// `after_source`.
    AfterSource { tick: SimTime, micro_step: MicroStep, source: SourceView, next_fire: Option<SimTime> },
    /// `cancel_source`.
    CancelSource { tick: SimTime, micro_step: MicroStep, scheduled_at: SimTime, source: SourceView },
    /// `discard_source`.
    DiscardSource { tick: SimTime, micro_step: MicroStep, source: SourceView },
    /// `after_source_phase`.
    AfterSourcePhase { tick: SimTime, micro_step: MicroStep },
    /// `before_event_phase`.
    BeforeEventPhase { tick: SimTime, micro_step: MicroStep },
    /// `before_event`.
    BeforeEvent { tick: SimTime, micro_step: MicroStep, event: EventId },
    /// `after_event`.
    AfterEvent { tick: SimTime, micro_step: MicroStep, event: EventId },
    /// `cancel_event`.
    CancelEvent { tick: SimTime, micro_step: MicroStep, scheduled_at: SimTime, event: EventId },
    /// `discard_event`.
    DiscardEvent { tick: SimTime, micro_step: MicroStep, event: EventId },
    /// `after_event_phase`.
    AfterEventPhase { tick: SimTime, micro_step: MicroStep },
}

/// The hooks registered with an engine, called in registration order.
#[verifier::reject_recursive_types(E)]
#[verifier::reject_recursive_types(M)]
pub struct HookDelegate<E, M: Model<E>> {
    hooks: Vec<Box<dyn Hook<E, M>>>,
    calls: Ghost<Seq<HookCall>>,
}

impl<E, M: Model<E>> HookDelegate<E, M> {
    /// The number of registered hooks.
    pub closed spec fn count(&self) -> nat {
        self.hooks@.len()
    }

    /// The calls made through the delegate, in order.
    pub closed spec fn calls(&self) -> Seq<HookCall> {
        self.calls@
    }

    /// The delegate with `call` recorded after the calls made so far.
    pub closed spec fn recorded(self, call: HookCall) -> Self {
        HookDelegate { hooks: self.hooks, calls: Ghost(self.calls@.push(call)) }
    }

    /// No hooks, and no call made.
    pub fn new() -> (r: Self)
        ensures
            r.count() == 0,
            r.calls() == Seq::<HookCall>::empty(),
    {
        HookDelegate { hooks: Vec::new(), calls: Ghost(Seq::empty()) }
    }

    /// Registers `hook` after the hooks already registered.
    pub fn add_hook<H: Hook<E, M> + 'static>(&mut self, hook: H)
        ensures
            final(self).count() == old(self).count() + 1,
            final(self).calls() == old(self).calls(),
    {
        let ghost before = self.hooks@;
        let boxed: Box<dyn Hook<E, M>> = Box::new(hook);
        self.hooks.push(boxed);
        proof {
            // The length is read through a sequence of integers: Verus applies its facts about
            // the length of a pushed sequence there, and not to a sequence of trait objects.
            let f = |h: Box<dyn Hook<E, M>>| 0int;
            before.lemma_push_map_commute(f, boxed);
            assert(before.map_values(f).push(f(boxed)).len() == before.len() + 1);
        }
    }

    /// Registers a shared hook after the hooks already registered.
    pub fn add_shared_hook<H: Hook<E, M> + 'static>(&mut self, shared_hook: SharedHook<E, M, H>)
        where
            E: 'static,
            M: 'static,
        ensures
            final(self).count() == old(self).count() + 1,
            final(self).calls() == old(self).calls(),
    {
        let ghost before = self.hooks@;
        let boxed: Box<dyn Hook<E, M>> = Box::new(shared_hook);
        self.hooks.push(boxed);
        proof {
            // The length is read through a sequence of integers: Verus applies its facts about
            // the length of a pushed sequence there, and not to a sequence of trait objects.
            let f = |h: Box<dyn Hook<E, M>>| 0int;
            before.lemma_push_map_commute(f, boxed);
            assert(before.map_values(f).push(f(boxed)).len() == before.len() + 1);
        }
    }

    /// Calls `before_simulation` of every registered hook, in registration order, and records the call.
    pub fn call_before_simulation(&mut self, model: &M)
        ensures
            *final(self) == old(self).recorded((HookCall::BeforeSimulation)),
            final(self).calls() == old(self).calls().push((HookCall::BeforeSimulation)),
            final(self).count() == old(self).count(),
    {
        self.before_simulation(model);
        proof {
            self.calls@ = self.calls@.push(HookCall::BeforeSimulation);
        }
    }

    /// Calls `after_simulation` of every registered hook, in registration order, and records the call.
    pub fn call_after_simulation(&mut self, model: &M, end_tick: SimTime)
        ensures
            *final(self) == old(self).recorded((HookCall::AfterSimulation { end_tick: end_tick })),
            final(self).calls() == old(self).calls().push((HookCall::AfterSimulation { end_tick: end_tick })),
            final(self).count() == old(self).count(),
    {
        self.after_simulation(model, end_tick);
        proof {
            self.calls@ = self.calls@.push(HookCall::AfterSimulation { end_tick: end_tick });
        }
    }

    /// Calls `before_tick` of every registered hook, in registration order, and records the call.
    pub fn call_before_tick(&mut self, model: &M, current_tick: SimTime, skipped_duration: Duration)
        ensures
            *final(self) == old(self).recorded((HookCall::BeforeTick { tick: current_tick, skipped: skipped_duration })),
            final(self).calls() == old(self).calls().push((HookCall::BeforeTick { tick: current_tick, skipped: skipped_duration })),
            final(self).count() == old(self).count(),
    {
        self.before_tick(model, current_tick, skipped_duration);
        proof {
            self.calls@ = self.calls@.push(HookCall::BeforeTick { tick: current_tick, skipped: skipped_duration });
        }
    }

    /// Calls `after_tick` of every registered hook, in registration order, and records the call.
    pub fn call_after_tick(&mut self, model: &M, current_tick: SimTime, last_micro_step: MicroStep)
        ensures
            *final(self) == old(self).recorded((HookCall::AfterTick { tick: current_tick, last_micro_step: last_micro_step })),
            final(self).calls() == old(self).calls().push((HookCall::AfterTick { tick: current_tick, last_micro_step: last_micro_step })),
            final(self).count() == old(self).count(),
    {
        self.after_tick(model, current_tick, last_micro_step);
        proof {
            self.calls@ = self.calls@.push(HookCall::AfterTick { tick: current_tick, last_micro_step: last_micro_step });
        }
    }

    /// Calls `before_micro_step` of every registered hook, in registration order, and records the call.
    pub fn call_before_micro_step(&mut self, model: &M, current_tick: SimTime, current_micro_step: MicroStep)
        ensures
            *final(self) == old(self).recorded((HookCall::BeforeMicroStep { tick: current_tick, micro_step: current_micro_step })),
            final(self).calls() == old(self).calls().push((HookCall::BeforeMicroStep { tick: current_tick, micro_step: current_micro_step })),
            final(self).count() == old(self).count(),
    {
        self.before_micro_step(model, current_tick, current_micro_step);
        proof {
            self.calls@ = self.calls@.push(HookCall::BeforeMicroStep { tick: current_tick, micro_step: current_micro_step });
        }
    }

    /// Calls `after_micro_step` of every registered hook, in registration order, and records the call.
    pub fn call_after_micro_step(&mut self, model: &M, current_tick: SimTime, current_micro_step: MicroStep)
        ensures
            *final(self) == old(self).recorded((HookCall::AfterMicroStep { tick: current_tick, micro_step: current_micro_step })),
            final(self).calls() == old(self).calls().push((HookCall::AfterMicroStep { tick: current_tick, micro_step: current_micro_step })),
            final(self).count() == old(self).count(),
    {
        self.after_micro_step(model, current_tick, current_micro_step);
        proof {
            self.calls@ = self.calls@.push(HookCall::AfterMicroStep { tick: current_tick, micro_step: current_micro_step });
        }
    }

    /// Calls `on_discard_remain_micro_step` of every registered hook, in registration order, and records the call.
    pub fn call_on_discard_remain_micro_step(&mut self, model: &M, current_tick: SimTime, first_discarded_micro_step: MicroStep, discarded_sources: &[SourceReadyEntry], discarded_events: &[Event<E>])
        ensures
            *final(self) == old(self).recorded((HookCall::OnDiscardRemainMicroStep { tick: current_tick, first_discarded_micro_step: first_discarded_micro_step, sources: Ghost(discarded_sources@), events: Ghost(event_ids(discarded_events@)) })),
            final(self).calls() == old(self).calls().push((HookCall::OnDiscardRemainMicroStep { tick: current_tick, first_discarded_micro_step: first_discarded_micro_step, sources: Ghost(discarded_sources@), events: Ghost(event_ids(discarded_events@)) })),
            final(self).count() == old(self).count(),
    {
        self.on_discard_remain_micro_step(model, current_tick, first_discarded_micro_step, discarded_sources, discarded_events);
        proof {
            self.calls@ = self.calls@.push(HookCall::OnDiscardRemainMicroStep { tick: current_tick, first_discarded_micro_step: first_discarded_micro_step, sources: Ghost(discarded_sources@), events: Ghost(event_ids(discarded_events@)) });
        }
    }

    /// Calls `before_register_source` of every registered hook, in registration order, and records the call.
    pub fn call_before_register_source(&mut self, model: &M, name: &'static str)
        ensures
            *final(self) == old(self).recorded((HookCall::BeforeRegisterSource { name: name })),
            final(self).calls() == old(self).calls().push((HookCall::BeforeRegisterSource { name: name })),
            final(self).count() == old(self).count(),
    {
        self.before_register_source(model, name);
        proof {
            self.calls@ = self.calls@.push(HookCall::BeforeRegisterSource { name: name });
        }
    }

    /// Calls `after_register_source` of every registered hook, in registration order, and records the call.
    pub fn call_after_register_source(&mut self, model: &M, name: &'static str)
        ensures
            *final(self) == old(self).recorded((HookCall::AfterRegisterSource { name: name })),
            final(self).calls() == old(self).calls().push((HookCall::AfterRegisterSource { name: name })),
            final(self).count() == old(self).count(),
    {
        self.after_register_source(model, name);
        proof {
            self.calls@ = self.calls@.push(HookCall::AfterRegisterSource { name: name });
        }
    }

    /// Calls `before_source_phase` of every registered hook, in registration order, and records the call.
    pub fn call_before_source_phase(&mut self, model: &M, current_tick: SimTime, current_micro_step: MicroStep)
        ensures
            *final(self) == old(self).recorded((HookCall::BeforeSourcePhase { tick: current_tick, micro_step: current_micro_step })),
            final(self).calls() == old(self).calls().push((HookCall::BeforeSourcePhase { tick: current_tick, micro_step: current_micro_step })),
            final(self).count() == old(self).count(),
    {
        self.before_source_phase(model, current_tick, current_micro_step);
        proof {
            self.calls@ = self.calls@.push(HookCall::BeforeSourcePhase { tick: current_tick, micro_step: current_micro_step });
        }
    }

    /// Calls `before_source` of every registered hook, in registration order, and records the call.
    pub fn call_before_source(&mut self, model: &M, current_tick: SimTime, current_micro_step: MicroStep, source_view: &SourceView)
        ensures
            *final(self) == old(self).recorded((HookCall::BeforeSource { tick: current_tick, micro_step: current_micro_step, source: *source_view })),
            final(self).calls() == old(self).calls().push((HookCall::BeforeSource { tick: current_tick, micro_step: current_micro_step, source: *source_view })),
            final(self).count() == old(self).count(),
    {
        self.before_source(model, current_tick, current_micro_step, source_view);
        proof {
            self.calls@ = self.calls@.push(HookCall::BeforeSource { tick: current_tick, micro_step: current_micro_step, source: *source_view });
        }
    }

    /// Calls `after_source` of every registered hook, in registration order, and records the call.
    pub fn call_after_source(&mut self, model: &M, current_tick: SimTime, current_micro_step: MicroStep, source_view: &SourceView, computed_next_fire: Option<SimTime>)
        ensures
            *final(self) == old(self).recorded((HookCall::AfterSource { tick: current_tick, micro_step: current_micro_step, source: *source_view, next_fire: computed_next_fire })),
            final(self).calls() == old(self).calls().push((HookCall::AfterSource { tick: current_tick, micro_step: current_micro_step, source: *source_view, next_fire: computed_next_fire })),
            final(self).count() == old(self).count(),
    {
        self.after_source(model, current_tick, current_micro_step, source_view, computed_next_fire);
        proof {
            self.calls@ = self.calls@.push(HookCall::AfterSource { tick: current_tick, micro_step: current_micro_step, source: *source_view, next_fire: computed_next_fire });
        }
    }

    /// Calls `cancel_source` of every registered hook, in registration order, and records the call.
    pub fn call_cancel_source(&mut self, model: &M, current_tick: SimTime, current_micro_step: MicroStep, scheduled_at: SimTime, source_view: &SourceView)
        ensures
            *final(self) == old(self).recorded((HookCall::CancelSource { tick: current_tick, micro_step: current_micro_step, scheduled_at: scheduled_at, source: *source_view })),
            final(self).calls() == old(self).calls().push((HookCall::CancelSource { tick: current_tick, micro_step: current_micro_step, scheduled_at: scheduled_at, source: *source_view })),
            final(self).count() == old(self).count(),
    {
        self.cancel_source(model, current_tick, current_micro_step, scheduled_at, source_view);
        proof {
            self.calls@ = self.calls@.push(HookCall::CancelSource { tick: current_tick, micro_step: current_micro_step, scheduled_at: scheduled_at, source: *source_view });
        }
    }

    /// Calls `discard_source` of every registered hook, in registration order, and records the call.
    pub fn call_discard_source(&mut self, model: &M, current_tick: SimTime, current_micro_step: MicroStep, source_view: &SourceView)
        ensures
            *final(self) == old(self).recorded((HookCall::DiscardSource { tick: current_tick, micro_step: current_micro_step, source: *source_view })),
            final(self).calls() == old(self).calls().push((HookCall::DiscardSource { tick: current_tick, micro_step: current_micro_step, source: *source_view })),
            final(self).count() == old(self).count(),
    {
        self.discard_source(model, current_tick, current_micro_step, source_view);
        proof {
            self.calls@ = self.calls@.push(HookCall::DiscardSource { tick: current_tick, micro_step: current_micro_step, source: *source_view });
        }
    }

    /// Calls `after_source_phase` of every registered hook, in registration order, and records the call.
    pub fn call_after_source_phase(&mut self, model: &M, current_tick: SimTime, current_micro_step: MicroStep)
        ensures
            *final(self) == old(self).recorded((HookCall::AfterSourcePhase { tick: current_tick, micro_step: current_micro_step })),
            final(self).calls() == old(self).calls().push((HookCall::AfterSourcePhase { tick: current_tick, micro_step: current_micro_step })),
            final(self).count() == old(self).count(),
    {
        self.after_source_phase(model, current_tick, current_micro_step);
        proof {
            self.calls@ = self.calls@.push(HookCall::AfterSourcePhase { tick: current_tick, micro_step: current_micro_step });
        }
    }

    /// Calls `before_event_phase` of every registered hook, in registration order, and records the call.
    pub fn call_before_event_phase(&mut self, model: &M, current_tick: SimTime, current_micro_step: MicroStep)
        ensures
            *final(self) == old(self).recorded((HookCall::BeforeEventPhase { tick: current_tick, micro_step: current_micro_step })),
            final(self).calls() == old(self).calls().push((HookCall::BeforeEventPhase { tick: current_tick, micro_step: current_micro_step })),
            final(self).count() == old(self).count(),
    {
        self.before_event_phase(model, current_tick, current_micro_step);
        proof {
            self.calls@ = self.calls@.push(HookCall::BeforeEventPhase { tick: current_tick, micro_step: current_micro_step });
        }
    }

    /// Calls `before_event` of every registered hook, in registration order, and records the call.
    pub fn call_before_event(&mut self, model: &M, current_tick: SimTime, current_micro_step: MicroStep, event: &Event<E>)
        ensures
            *final(self) == old(self).recorded((HookCall::BeforeEvent { tick: current_tick, micro_step: current_micro_step, event: event.event_id })),
            final(self).calls() == old(self).calls().push((HookCall::BeforeEvent { tick: current_tick, micro_step: current_micro_step, event: event.event_id })),
            final(self).count() == old(self).count(),
    {
        self.before_event(model, current_tick, current_micro_step, event);
        proof {
            self.calls@ = self.calls@.push(HookCall::BeforeEvent { tick: current_tick, micro_step: current_micro_step, event: event.event_id });
        }
    }

    /// Calls `after_event` of every registered hook, in registration order, and records the call.
    pub fn call_after_event(&mut self, model: &M, current_tick: SimTime, current_micro_step: MicroStep, event: &Event<E>)
        ensures
            *final(self) == old(self).recorded((HookCall::AfterEvent { tick: current_tick, micro_step: current_micro_step, event: event.event_id })),
            final(self).calls() == old(self).calls().push((HookCall::AfterEvent { tick: current_tick, micro_step: current_micro_step, event: event.event_id })),
            final(self).count() == old(self).count(),
    {
        self.after_event(model, current_tick, current_micro_step, event);
        proof {
            self.calls@ = self.calls@.push(HookCall::AfterEvent { tick: current_tick, micro_step: current_micro_step, event: event.event_id });
        }
    }

    /// Calls `cancel_event` of every registered hook, in registration order, and records the call.
    pub fn call_cancel_event(&mut self, model: &M, current_tick: SimTime, current_micro_step: MicroStep, scheduled_at: SimTime, event: &Event<E>)
        ensures
            *final(self) == old(self).recorded((HookCall::CancelEvent { tick: current_tick, micro_step: current_micro_step, scheduled_at: scheduled_at, event: event.event_id })),
            final(self).calls() == old(self).calls().push((HookCall::CancelEvent { tick: current_tick, micro_step: current_micro_step, scheduled_at: scheduled_at, event: event.event_id })),
            final(self).count() == old(self).count(),
    {
        self.cancel_event(model, current_tick, current_micro_step, scheduled_at, event);
        proof {
            self.calls@ = self.calls@.push(HookCall::CancelEvent { tick: current_tick, micro_step: current_micro_step, scheduled_at: scheduled_at, event: event.event_id });
        }
    }

    /// Calls `discard_event` of every registered hook, in registration order, and records the call.
    pub fn call_discard_event(&mut self, model: &M, current_tick: SimTime, current_micro_step: MicroStep, event: &Event<E>)
        ensures
            *final(self) == old(self).recorded((HookCall::DiscardEvent { tick: current_tick, micro_step: current_micro_step, event: event.event_id })),
            final(self).calls() == old(self).calls().push((HookCall::DiscardEvent { tick: current_tick, micro_step: current_micro_step, event: event.event_id })),
            final(self).count() == old(self).count(),
    {
        self.discard_event(model, current_tick, current_micro_step, event);
        proof {
            self.calls@ = self.calls@.push(HookCall::DiscardEvent { tick: current_tick, micro_step: current_micro_step, event: event.event_id });
        }
    }

    /// Calls `after_event_phase` of every registered hook, in registration order, and records the call.
    pub fn call_after_event_phase(&mut self, model: &M, current_tick: SimTime, current_micro_step: MicroStep)
        ensures
            *final(self) == old(self).recorded((HookCall::AfterEventPhase { tick: current_tick, micro_step: current_micro_step })),
            final(self).calls() == old(self).calls().push((HookCall::AfterEventPhase { tick: current_tick, micro_step: current_micro_step })),
            final(self).count() == old(self).count(),
    {
        self.after_event_phase(model, current_tick, current_micro_step);
        proof {
            self.calls@ = self.calls@.push(HookCall::AfterEventPhase { tick: current_tick, micro_step: current_micro_step });
        }
    }

    /// Whether no hook is registered.
    pub fn is_empty(&self) -> (r: bool)
        ensures
            r == (self.count() == 0),
    {
        self.hooks.len() == 0
    }

    /// The number of registered hooks.
    pub fn len(&self) -> (r: usize)
        ensures
            r == self.count(),
    {
        self.hooks.len()
    }
}

/// Recording a call adds it after the calls made so far and keeps the hooks.
pub broadcast proof fn lemma_recorded<E, M: Model<E>>(hooks: HookDelegate<E, M>, call: HookCall)
    ensures
        (#[trigger] hooks.recorded(call)).calls() == hooks.calls().push(call),
        hooks.recorded(call).count() == hooks.count(),
{
}

impl<E, M: Model<E>> Hook<E, M> for HookDelegate<E, M> {
    fn before_simulation(&self, model: &M) {
        let mut i: usize = 0;
        while i < self.hooks.len()
            invariant
                i <= self.hooks@.len(),
            decreases self.hooks@.len() - i,
        {
            self.hooks[i].before_simulation(model);
            i = i + 1;
        }
    }

    fn after_simulation(&self, model: &M, end_tick: SimTime) {
        let mut i: usize = 0;
        while i < self.hooks.len()
            invariant
                i <= self.hooks@.len(),
            decreases self.hooks@.len() - i,
        {
            self.hooks[i].after_simulation(model, end_tick);
            i = i + 1;
        }
    }

    fn before_tick(&self, model: &M, current_tick: SimTime, skipped_duration: Duration) {
        let mut i: usize = 0;
        while i < self.hooks.len()
            invariant
                i <= self.hooks@.len(),
            decreases self.hooks@.len() - i,
        {
            self.hooks[i].before_tick(model, current_tick, skipped_duration);
            i = i + 1;
        }
    }

    fn after_tick(&self, model: &M, current_tick: SimTime, last_micro_step: MicroStep) {
        let mut i: usize = 0;
        while i < self.hooks.len()
            invariant
                i <= self.hooks@.len(),
            decreases self.hooks@.len() - i,
        {
            self.hooks[i].after_tick(model, current_tick, last_micro_step);
            i = i + 1;
        }
    }

    fn before_micro_step(&self, model: &M, current_tick: SimTime, current_micro_step: MicroStep) {
        let mut i: usize = 0;
        while i < self.hooks.len()
            invariant
                i <= self.hooks@.len(),
            decreases self.hooks@.len() - i,
        {
            self.hooks[i].before_micro_step(model, current_tick, current_micro_step);
            i = i + 1;
        }
    }

    fn after_micro_step(&self, model: &M, current_tick: SimTime, current_micro_step: MicroStep) {
        let mut i: usize = 0;
        while i < self.hooks.len()
            invariant
                i <= self.hooks@.len(),
            decreases self.hooks@.len() - i,
        {
            self.hooks[i].after_micro_step(model, current_tick, current_micro_step);
            i = i + 1;
        }
    }

    fn on_discard_remain_micro_step(&self, model: &M, current_tick: SimTime, first_discarded_micro_step: MicroStep, discarded_sources: &[SourceReadyEntry], discarded_events: &[Event<E>]) {
        let mut i: usize = 0;
        while i < self.hooks.len()
            invariant
                i <= self.hooks@.len(),
            decreases self.hooks@.len() - i,
        {
            self.hooks[i].on_discard_remain_micro_step(model, current_tick, first_discarded_micro_step, discarded_sources, discarded_events);
            i = i + 1;
        }
    }

    fn before_register_source(&self, model: &M, name: &str) {
        let mut i: usize = 0;
        while i < self.hooks.len()
            invariant
                i <= self.hooks@.len(),
            decreases self.hooks@.len() - i,
        {
            self.hooks[i].before_register_source(model, name);
            i = i + 1;
        }
    }

    fn after_register_source(&self, model: &M, name: &str) {
        let mut i: usize = 0;
        while i < self.hooks.len()
            invariant
                i <= self.hooks@.len(),
            decreases self.hooks@.len() - i,
        {
            self.hooks[i].after_register_source(model, name);
            i = i + 1;
        }
    }

    fn before_source_phase(&self, model: &M, current_tick: SimTime, current_micro_step: MicroStep) {
        let mut i: usize = 0;
        while i < self.hooks.len()
            invariant
                i <= self.hooks@.len(),
            decreases self.hooks@.len() - i,
        {
            self.hooks[i].before_source_phase(model, current_tick, current_micro_step);
            i = i + 1;
        }
    }

    fn before_source(&self, model: &M, current_tick: SimTime, current_micro_step: MicroStep, source_view: &SourceView) {
        let mut i: usize = 0;
        while i < self.hooks.len()
            invariant
                i <= self.hooks@.len(),
            decreases self.hooks@.len() - i,
        {
            self.hooks[i].before_source(model, current_tick, current_micro_step, source_view);
            i = i + 1;
        }
    }

    fn after_source(&self, model: &M, current_tick: SimTime, current_micro_step: MicroStep, source_view: &SourceView, computed_next_fire: Option<SimTime>) {
        let mut i: usize = 0;
        while i < self.hooks.len()
            invariant
                i <= self.hooks@.len(),
            decreases self.hooks@.len() - i,
        {
            self.hooks[i].after_source(model, current_tick, current_micro_step, source_view, computed_next_fire);
            i = i + 1;
        }
    }

    fn cancel_source(&self, model: &M, current_tick: SimTime, current_micro_step: MicroStep, scheduled_at: SimTime, source_view: &SourceView) {
        let mut i: usize = 0;
        while i < self.hooks.len()
            invariant
                i <= self.hooks@.len(),
            decreases self.hooks@.len() - i,
        {
            self.hooks[i].cancel_source(model, current_tick, current_micro_step, scheduled_at, source_view);
            i = i + 1;
        }
    }

    fn discard_source(&self, model: &M, current_tick: SimTime, current_micro_step: MicroStep, source_view: &SourceView) {
        let mut i: usize = 0;
        while i < self.hooks.len()
            invariant
                i <= self.hooks@.len(),
            decreases self.hooks@.len() - i,
        {
            self.hooks[i].discard_source(model, current_tick, current_micro_step, source_view);
            i = i + 1;
        }
    }

    fn after_source_phase(&self, model: &M, current_tick: SimTime, current_micro_step: MicroStep) {
        let mut i: usize = 0;
        while i < self.hooks.len()
            invariant
                i <= self.hooks@.len(),
            decreases self.hooks@.len() - i,
        {
            self.hooks[i].after_source_phase(model, current_tick, current_micro_step);
            i = i + 1;
        }
    }

    fn before_event_phase(&self, model: &M, current_tick: SimTime, current_micro_step: MicroStep) {
        let mut i: usize = 0;
        while i < self.hooks.len()
            invariant
                i <= self.hooks@.len(),
            decreases self.hooks@.len() - i,
        {
            self.hooks[i].before_event_phase(model, current_tick, current_micro_step);
            i = i + 1;
        }
    }

    fn before_event(&self, model: &M, current_tick: SimTime, current_micro_step: MicroStep, event: &Event<E>) {
        let mut i: usize = 0;
        while i < self.hooks.len()
            invariant
                i <= self.hooks@.len(),
            decreases self.hooks@.len() - i,
        {
            self.hooks[i].before_event(model, current_tick, current_micro_step, event);
            i = i + 1;
        }
    }

    fn after_event(&self, model: &M, current_tick: SimTime, current_micro_step: MicroStep, event: &Event<E>) {
        let mut i: usize = 0;
        while i < self.hooks.len()
            invariant
                i <= self.hooks@.len(),
            decreases self.hooks@.len() - i,
        {
            self.hooks[i].after_event(model, current_tick, current_micro_step, event);
            i = i + 1;
        }
    }

    fn cancel_event(&self, model: &M, current_tick: SimTime, current_micro_step: MicroStep, scheduled_at: SimTime, event: &Event<E>) {
        let mut i: usize = 0;
        while i < self.hooks.len()
            invariant
                i <= self.hooks@.len(),
            decreases self.hooks@.len() - i,
        {
            self.hooks[i].cancel_event(model, current_tick, current_micro_step, scheduled_at, event);
            i = i + 1;
        }
    }

    fn discard_event(&self, model: &M, current_tick: SimTime, current_micro_step: MicroStep, event: &Event<E>) {
        let mut i: usize = 0;
        while i < self.hooks.len()
            invariant
                i <= self.hooks@.len(),
            decreases self.hooks@.len() - i,
        {
            self.hooks[i].discard_event(model, current_tick, current_micro_step, event);
            i = i + 1;
        }
    }

    fn after_event_phase(&self, model: &M, current_tick: SimTime, current_micro_step: MicroStep) {
        let mut i: usize = 0;
        while i < self.hooks.len()
            invariant
                i <= self.hooks@.len(),
            decreases self.hooks@.len() - i,
        {
            self.hooks[i].after_event_phase(model, current_tick, current_micro_step);
            i = i + 1;
        }
    }
}

/// A hook that can be registered with an engine while a clone of it stays with the caller,
/// who can inspect it through [`SharedHook::get_ref`].
pub struct SharedHook<E, M, H> {
    inner: Rc<H>,
    _marker: PhantomData<(E, M)>,
}

impl<E, M, H> SharedHook<E, M, H> {
    /// Shares `hook`.
    pub fn new(hook: H) -> (r: Self)
        ensures
            *r.get_spec() == hook,
    {
        SharedHook { inner: Rc::new(hook), _marker: PhantomData }
    }

    /// The shared hook.
    pub closed spec fn get_spec(&self) -> &H {
        &*self.inner
    }

    /// The shared hook.
    pub fn get_ref(&self) -> (r: &H)
        ensures
            r == self.get_spec(),
    {
        &*self.inner
    }
}

impl<E, M, H> Clone for SharedHook<E, M, H> {
    fn clone(&self) -> (r: Self)
        ensures
            r.get_spec() == self.get_spec(),
    {
        SharedHook { inner: self.inner.clone(), _marker: PhantomData }
    }
}

impl<E, M: Model<E>, H: Hook<E, M>> Hook<E, M> for SharedHook<E, M, H> {
    fn before_simulation(&self, model: &M) {
        self.inner.before_simulation(model)
    }

    fn after_simulation(&self, model: &M, end_tick: SimTime) {
        self.inner.after_simulation(model, end_tick)
    }

    fn before_tick(&self, model: &M, current_tick: SimTime, skipped_duration: Duration) {
        self.inner.before_tick(model, current_tick, skipped_duration)
    }

    fn after_tick(&self, model: &M, current_tick: SimTime, last_micro_step: MicroStep) {
        self.inner.after_tick(model, current_tick, last_micro_step)
    }

    fn before_micro_step(&self, model: &M, current_tick: SimTime, current_micro_step: MicroStep) {
        self.inner.before_micro_step(model, current_tick, current_micro_step)
    }

    fn after_micro_step(&self, model: &M, current_tick: SimTime, current_micro_step: MicroStep) {
        self.inner.after_micro_step(model, current_tick, current_micro_step)
    }

    fn on_discard_remain_micro_step(&self, model: &M, current_tick: SimTime, first_discarded_micro_step: MicroStep, discarded_sources: &[SourceReadyEntry], discarded_events: &[Event<E>]) {
        self.inner.on_discard_remain_micro_step(model, current_tick, first_discarded_micro_step, discarded_sources, discarded_events)
    }

    fn before_register_source(&self, model: &M, name: &str) {
        self.inner.before_register_source(model, name)
    }

    fn after_register_source(&self, model: &M, name: &str) {
        self.inner.after_register_source(model, name)
    }

    fn before_source_phase(&self, model: &M, current_tick: SimTime, current_micro_step: MicroStep) {
        self.inner.before_source_phase(model, current_tick, current_micro_step)
    }

    fn before_source(&self, model: &M, current_tick: SimTime, current_micro_step: MicroStep, source_view: &SourceView) {
        self.inner.before_source(model, current_tick, current_micro_step, source_view)
    }

    fn after_source(&self, model: &M, current_tick: SimTime, current_micro_step: MicroStep, source_view: &SourceView, computed_next_fire: Option<SimTime>) {
        self.inner.after_source(model, current_tick, current_micro_step, source_view, computed_next_fire)
    }

    fn cancel_source(&self, model: &M, current_tick: SimTime, current_micro_step: MicroStep, scheduled_at: SimTime, source_view: &SourceView) {
        self.inner.cancel_source(model, current_tick, current_micro_step, scheduled_at, source_view)
    }

    fn discard_source(&self, model: &M, current_tick: SimTime, current_micro_step: MicroStep, source_view: &SourceView) {
        self.inner.discard_source(model, current_tick, current_micro_step, source_view)
    }

    fn after_source_phase(&self, model: &M, current_tick: SimTime, current_micro_step: MicroStep) {
        self.inner.after_source_phase(model, current_tick, current_micro_step)
    }

    fn before_event_phase(&self, model: &M, current_tick: SimTime, current_micro_step: MicroStep) {
        self.inner.before_event_phase(model, current_tick, current_micro_step)
    }

    fn before_event(&self, model: &M, current_tick: SimTime, current_micro_step: MicroStep, event: &Event<E>) {
        self.inner.before_event(model, current_tick, current_micro_step, event)
    }

    fn after_event(&self, model: &M, current_tick: SimTime, current_micro_step: MicroStep, event: &Event<E>) {
        self.inner.after_event(model, current_tick, current_micro_step, event)
    }

    fn cancel_event(&self, model: &M, current_tick: SimTime, current_micro_step: MicroStep, scheduled_at: SimTime, event: &Event<E>) {
        self.inner.cancel_event(model, current_tick, current_micro_step, scheduled_at, event)
    }

    fn discard_event(&self, model: &M, current_tick: SimTime, current_micro_step: MicroStep, event: &Event<E>) {
        self.inner.discard_event(model, current_tick, current_micro_step, event)
    }

    fn after_event_phase(&self, model: &M, current_tick: SimTime, current_micro_step: MicroStep) {
        self.inner.after_event_phase(model, current_tick, current_micro_step)
    }
}

} // verus!
