//! The event phase of a micro-step: the events due at the current tick are handed to the model
//! (or discarded).
use crate::context::{EventContext, UserContext};
use crate::execution::phase::ready::{select, take_all_matching, take_first_matching, take_front_matching};
use crate::execution::phase::MicroStepHandler;
use crate::modeling::event::Event;
use crate::modeling::hook::instance::{HookCall, HookDelegate};
use crate::modeling::hook::Hook;
use crate::modeling::model::Model;
use std::collections::VecDeque;
use vstd::prelude::*;

verus! {

broadcast use crate::modeling::hook::instance::lemma_recorded;

/// The event phase: the context the model acts through and the events due at the current tick
/// that are still to be handled or discarded.
#[verifier::reject_recursive_types(E)]
#[verifier::reject_recursive_types(M)]
pub struct EventPhase<E, M: Model<E>> {
    context: EventContext<E, M>,
    ready_events: VecDeque<Event<E>>,
    handled: Ghost<Seq<Event<E>>>,
    calls: Ghost<Seq<HookCall>>,
}

impl<E, M: Model<E>> EventPhase<E, M> {
    /// The context the model acts through.
    pub closed spec fn context(&self) -> EventContext<E, M> {
        self.context
    }

    /// The events still to be handled or discarded, in order.
    pub closed spec fn ready(&self) -> Seq<Event<E>> {
        self.ready_events@
    }

    /// The events handed to the model in this phase, in the order they were handed over.
    pub closed spec fn handled(&self) -> Seq<Event<E>> {
        self.handled@
    }

    /// The hook calls the phase made for its events, in order (the calls of the hooks that the
    /// model's own actions make are not among them).
    pub closed spec fn calls(&self) -> Seq<HookCall> {
        self.calls@
    }

    /// A phase made of the given parts, with no event handed to the model yet.
    pub fn new(context: EventContext<E, M>, ready_events: VecDeque<Event<E>>) -> (r: Self)
        ensures
            r.context() == context,
            r.ready() == ready_events@,
            r.handled() == Seq::<Event<E>>::empty(),
            r.calls() == Seq::<HookCall>::empty(),
    {
        EventPhase { context, ready_events, handled: Ghost(Seq::empty()), calls: Ghost(Seq::empty()) }
    }

    /// The context the model acts through, to change.
    pub fn get_context(&mut self) -> (r: &mut EventContext<E, M>)
        ensures
            *r == old(self).context(),
            final(self).context() == *final(r),
            final(self).ready() == old(self).ready(),
            final(self).handled() == old(self).handled(),
            final(self).calls() == old(self).calls(),
    {
        &mut self.context
    }

    /// The events still to be handled or discarded, in order.
    pub fn ready_events(&self) -> (r: &VecDeque<Event<E>>)
        ensures
            r@ == self.ready(),
    {
        &self.ready_events
    }

    /// The number of events still to be handled or discarded.
    pub fn ready_len(&self) -> (r: usize)
        ensures
            r == self.ready().len(),
    {
        self.ready_events.len()
    }

    /// Ends the phase: calls the `after_event_phase` hook and hands the context to a micro-step
    /// handler.
    pub fn complete_event_phase(self, model: &M) -> (r: MicroStepHandler<EventContext<E, M>>)
        ensures
            r.context().tick_status() == self.context().tick_status(),
            r.context().micro_step_status() == self.context().micro_step_status(),
            r.context().handler() == self.context().handler(),
            r.context().scheduler() == self.context().scheduler(),
            r.context().hooks() == self.context().hooks().recorded((HookCall::AfterEventPhase {
                tick: self.context().tick_status().current_tick,
                micro_step: self.context().micro_step_status().current_micro_step,
            })),
    {
        let mut context = self.context;
        let tick = context.current_tick();
        let micro_step = context.current_micro_step();
        let mut hooks = context.swap_hooks(HookDelegate::new());
        hooks.call_after_event_phase(model, tick, micro_step);
        let _ = context.swap_hooks(hooks);
        MicroStepHandler::new(context)
    }

    /// Takes the first event still to be handled or discarded.
    pub fn take_one(&mut self) -> (r: Option<Event<E>>)
        ensures
            old(self).ready().len() == 0 ==> r is None && final(self).ready() == old(self).ready(),
            old(self).ready().len() > 0 ==> r == Some(old(self).ready()[0]) && final(self).ready() == old(self).ready().drop_first(),
            final(self).context() == old(self).context(),
            final(self).handled() == old(self).handled(),
            final(self).calls() == old(self).calls(),
    {
        let r = self.ready_events.pop_front();
        proof {
            if old(self).ready().len() > 0 {
                assert(self.ready() =~= old(self).ready().drop_first());
            }
        }
        r
    }

    /// Takes the first event that `predicate` accepts; `predicate` is asked about the events in
    /// order until it accepts one.
    pub fn take_one_if<F>(&mut self, predicate: F) -> (r: Option<Event<E>>)
        where
            F: FnMut(&Event<E>) -> bool,
        requires
            forall|e: &Event<E>| call_requires(predicate, (e,)),
        ensures
            final(self).context() == old(self).context(),
            final(self).handled() == old(self).handled(),
            final(self).calls() == old(self).calls(),
            r is None ==> final(self).ready() == old(self).ready()
                && forall|i: int| 0 <= i < old(self).ready().len() ==> call_ensures(predicate, (&(#[trigger] old(self).ready()[i]),), false),
            r matches Some(x) ==> exists|k: int| #![trigger old(self).ready()[k]] {
                &&& 0 <= k < old(self).ready().len()
                &&& old(self).ready()[k] == x
                &&& final(self).ready() == old(self).ready().remove(k)
                &&& call_ensures(predicate, (&old(self).ready()[k],), true)
                &&& forall|i: int| 0 <= i < k ==> call_ensures(predicate, (&(#[trigger] old(self).ready()[i]),), false)
            },
    {
        let r = take_first_matching(&mut self.ready_events, predicate);
        proof {
            if r is Some {
                let s = old(self).ready_events@;
                let k = choose|k: int| #![trigger s[k]] {
                    &&& 0 <= k < s.len()
                    &&& s[k] == r->0
                    &&& self.ready_events@ == s.remove(k)
                    &&& call_ensures(predicate, (&s[k],), true)
                    &&& forall|i: int| 0 <= i < k ==> call_ensures(predicate, (&(#[trigger] s[i]),), false)
                };
                assert(old(self).ready()[k] == r->0);
            }
        }
        r
    }

    /// Takes the first event if `predicate` accepts it.
    pub fn take_front_if<F>(&mut self, predicate: F) -> (r: Option<Event<E>>)
        where
            F: FnOnce(&Event<E>) -> bool,
        requires
            old(self).ready().len() > 0 ==> call_requires(predicate, (&old(self).ready()[0],)),
        ensures
            final(self).context() == old(self).context(),
            final(self).handled() == old(self).handled(),
            final(self).calls() == old(self).calls(),
            old(self).ready().len() == 0 ==> r is None && final(self).ready() == old(self).ready(),
            r matches Some(x) ==> old(self).ready().len() > 0 && x == old(self).ready()[0]
                && final(self).ready() == old(self).ready().drop_first()
                && call_ensures(predicate, (&old(self).ready()[0],), true),
            r is None && old(self).ready().len() > 0 ==> final(self).ready() == old(self).ready()
                && call_ensures(predicate, (&old(self).ready()[0],), false),
    {
        take_front_matching(&mut self.ready_events, predicate)
    }

    /// Takes every event still to be handled or discarded.
    pub fn take_all(&mut self) -> (r: VecDeque<Event<E>>)
        ensures
            r@ == old(self).ready(),
            final(self).ready() == Seq::<Event<E>>::empty(),
            final(self).context() == old(self).context(),
            final(self).handled() == old(self).handled(),
            final(self).calls() == old(self).calls(),
    {
        let mut all: VecDeque<Event<E>> = VecDeque::new();
        std::mem::swap(&mut all, &mut self.ready_events);
        all
    }

    /// Takes every event that `predicate` accepts, in order; the others stay in order.
    /// `predicate` is asked once per event.
    pub fn take_all_if<F>(&mut self, predicate: F) -> (r: VecDeque<Event<E>>)
        where
            F: FnMut(&Event<E>) -> bool,
        requires
            forall|e: &Event<E>| call_requires(predicate, (e,)),
        ensures
            final(self).context() == old(self).context(),
            final(self).handled() == old(self).handled(),
            final(self).calls() == old(self).calls(),
            exists|flags: Seq<bool>| {
                &&& flags.len() == old(self).ready().len()
                &&& forall|i: int| 0 <= i < old(self).ready().len() ==> call_ensures(predicate, (&(#[trigger] old(self).ready()[i]),), flags[i])
                &&& r@ == select(old(self).ready(), flags, true)
                &&& final(self).ready() == select(old(self).ready(), flags, false)
            },
    {
        let r = take_all_matching(&mut self.ready_events, predicate);
        proof {
            let s = old(self).ready_events@;
            let flags = choose|flags: Seq<bool>| {
                &&& flags.len() == s.len()
                &&& forall|i: int| 0 <= i < s.len() ==> call_ensures(predicate, (&(#[trigger] s[i]),), flags[i])
                &&& r@ == select(s, flags, true)
                &&& self.ready_events@ == select(s, flags, false)
            };
            assert(flags.len() == old(self).ready().len());
        }
        r
    }

    /// Hands `event` to the model, between the `before_event` and `after_event` hooks. The
    /// context stays at its tick and micro-step.
    pub fn handle_event(&mut self, model: &mut M, event: Event<E>)
        ensures
            final(self).handled() == old(self).handled().push(event),
            final(self).calls() == old(self).calls().push((HookCall::BeforeEvent {
                tick: old(self).context().tick_status().current_tick,
                micro_step: old(self).context().micro_step_status().current_micro_step,
                event: event.event_id,
            })).push((HookCall::AfterEvent {
                tick: old(self).context().tick_status().current_tick,
                micro_step: old(self).context().micro_step_status().current_micro_step,
                event: event.event_id,
            })),
            final(self).ready() == old(self).ready(),
            final(self).context().hooks().calls().len() > 0,
            final(self).context().hooks().calls().last() == (HookCall::AfterEvent {
                tick: old(self).context().tick_status().current_tick,
                micro_step: old(self).context().micro_step_status().current_micro_step,
                event: event.event_id,
            }),
            final(self).context().tick_status() == old(self).context().tick_status(),
            final(self).context().micro_step_status() == old(self).context().micro_step_status(),
    {
        let tick_status = self.context.tick_status_now();
        let micro_step_status = self.context.micro_step_status_now();
        let mut hooks = self.context.swap_hooks(HookDelegate::new());
        hooks.call_before_event(&*model, tick_status.current(), micro_step_status.current(), &event);
        let _ = self.context.swap_hooks(hooks);
        proof {
            let call = HookCall::BeforeEvent { tick: tick_status.current_tick, micro_step: micro_step_status.current_micro_step, event: event.event_id };
            assert(self.context.hooks().calls().last() == call);
            self.calls@ = self.calls@.push(call);
        }
        model.handle_event(&mut self.context, &event);
        proof {
            self.handled@ = self.handled@.push(event);
        }
        self.context.settle_at(tick_status, micro_step_status);
        let mut hooks = self.context.swap_hooks(HookDelegate::new());
        hooks.call_after_event(&*model, tick_status.current(), micro_step_status.current(), &event);
        let _ = self.context.swap_hooks(hooks);
        proof {
            let call = HookCall::AfterEvent { tick: tick_status.current_tick, micro_step: micro_step_status.current_micro_step, event: event.event_id };
            assert(self.context.hooks().calls().last() == call);
            self.calls@ = self.calls@.push(call);
        }
    }

    /// Discards `event` without handling it: calls the `discard_event` hook.
    pub fn discard(&mut self, model: &M, event: Event<E>)
        ensures
            final(self).context().hooks() == old(self).context().hooks().recorded((HookCall::DiscardEvent {
                tick: old(self).context().tick_status().current_tick,
                micro_step: old(self).context().micro_step_status().current_micro_step,
                event: event.event_id,
            })),
            final(self).context().tick_status() == old(self).context().tick_status(),
            final(self).context().micro_step_status() == old(self).context().micro_step_status(),
            final(self).context().handler() == old(self).context().handler(),
            final(self).context().scheduler() == old(self).context().scheduler(),
            final(self).ready() == old(self).ready(),
            final(self).handled() == old(self).handled(),
            final(self).calls() == old(self).calls().push((HookCall::DiscardEvent {
                tick: old(self).context().tick_status().current_tick,
                micro_step: old(self).context().micro_step_status().current_micro_step,
                event: event.event_id,
            })),
    {
        let tick = self.context.current_tick();
        let micro_step = self.context.current_micro_step();
        let mut hooks = self.context.swap_hooks(HookDelegate::new());
        hooks.call_discard_event(model, tick, micro_step, &event);
        let _ = self.context.swap_hooks(hooks);
        proof {
            self.calls@ = self.calls@.push(HookCall::DiscardEvent { tick, micro_step, event: event.event_id });
        }
    }
}

} // verus!
