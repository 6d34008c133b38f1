//! The interface shared by the contexts that models and sources act through.
use crate::modeling::event::EventPriority;
use crate::modeling::model::Model;
use crate::primitive::time::{Duration, MicroStep, SimTime};
use vstd::prelude::*;

verus! {

/// What models and sources can ask of the simulation: the current time, and scheduling events.
pub trait UserContext<E, M: Model<E>> {
    /// The tick the context is at.
    spec fn spec_current_tick(&self) -> SimTime;

    /// Whether an event can be scheduled `delay` ticks after the current tick.
    spec fn can_schedule_event(&self, delay: Duration) -> bool;

    /// The current simulation tick.
    fn current_tick(&self) -> (r: SimTime)
        ensures
            r == self.spec_current_tick(),
    ;

    /// The current micro-step within the tick.
    fn current_micro_step(&self) -> MicroStep;

    /// Schedules an event carrying `event_payload`, due `delay` ticks after the current tick,
    /// with `priority`.
    fn schedule_event(&mut self, delay: Duration, priority: EventPriority, event_payload: E)
        requires
            old(self).can_schedule_event(delay),
    ;
}

} // verus!
