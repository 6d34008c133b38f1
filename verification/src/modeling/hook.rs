//! Hooks observe a running simulation: each method is called at one point of the run.
//! A hook sees the model but cannot change the simulation.
use crate::modeling::event::Event;
use crate::modeling::model::Model;
use crate::primitive::time::{Duration, MicroStep, SimTime};
use crate::source_handler::{SourceReadyEntry, SourceView};
use vstd::prelude::*;

pub mod instance;

verus! {

/// Observes the points of a simulation run.
pub trait Hook<E, M: Model<E>> {
    /// Before the simulation starts.
    fn before_simulation(&self, model: &M);

    /// After the simulation ends at `end_tick`.
    fn after_simulation(&self, model: &M, end_tick: SimTime);

    /// Before `current_tick` is processed; `skipped_duration` idle ticks were skipped to reach it.
    fn before_tick(&self, model: &M, current_tick: SimTime, skipped_duration: Duration);

    /// After `current_tick` was processed; `last_micro_step` is the micro-step it ended at.
    fn after_tick(&self, model: &M, current_tick: SimTime, last_micro_step: MicroStep);

    /// Before a micro-step starts.
    fn before_micro_step(&self, model: &M, current_tick: SimTime, current_micro_step: MicroStep);

    /// After a micro-step ends.
    fn after_micro_step(&self, model: &M, current_tick: SimTime, current_micro_step: MicroStep);

    /// When the sources and events still due in the tick are discarded, from `first_discarded_micro_step` on.
    fn on_discard_remain_micro_step(&self, model: &M, current_tick: SimTime, first_discarded_micro_step: MicroStep, discarded_sources: &[SourceReadyEntry], discarded_events: &[Event<E>]);

    /// Before the source `name` is registered.
    fn before_register_source(&self, model: &M, name: &str);

    /// After the source `name` was registered.
    fn after_register_source(&self, model: &M, name: &str);

    /// Before the source phase of a micro-step.
    fn before_source_phase(&self, model: &M, current_tick: SimTime, current_micro_step: MicroStep);

    /// Before a source fires.
    fn before_source(&self, model: &M, current_tick: SimTime, current_micro_step: MicroStep, source_view: &SourceView);

    /// After a source fired; `computed_next_fire` is when it fires next, if it does.
    fn after_source(&self, model: &M, current_tick: SimTime, current_micro_step: MicroStep, source_view: &SourceView, computed_next_fire: Option<SimTime>);

    /// When a source that was due at `scheduled_at` is cancelled.
    fn cancel_source(&self, model: &M, current_tick: SimTime, current_micro_step: MicroStep, scheduled_at: SimTime, source_view: &SourceView);

    /// When a due source is discarded instead of fired.
    fn discard_source(&self, model: &M, current_tick: SimTime, current_micro_step: MicroStep, source_view: &SourceView);

    /// After the source phase of a micro-step.
    fn after_source_phase(&self, model: &M, current_tick: SimTime, current_micro_step: MicroStep);

    /// Before the event phase of a micro-step.
    fn before_event_phase(&self, model: &M, current_tick: SimTime, current_micro_step: MicroStep);

    /// Before the model handles an event.
    fn before_event(&self, model: &M, current_tick: SimTime, current_micro_step: MicroStep, event: &Event<E>);

    /// After the model handled an event.
    fn after_event(&self, model: &M, current_tick: SimTime, current_micro_step: MicroStep, event: &Event<E>);

    /// When an event that was due at `scheduled_at` is cancelled.
    fn cancel_event(&self, model: &M, current_tick: SimTime, current_micro_step: MicroStep, scheduled_at: SimTime, event: &Event<E>);

    /// When a due event is discarded instead of handled.
    fn discard_event(&self, model: &M, current_tick: SimTime, current_micro_step: MicroStep, event: &Event<E>);

    /// After the event phase of a micro-step.
    fn after_event_phase(&self, model: &M, current_tick: SimTime, current_micro_step: MicroStep);
}

} // verus!
