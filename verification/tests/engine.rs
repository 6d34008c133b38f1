//! The engine: setting a simulation up and beginning the run.
use des_sim::context::{EventContext, SourceContext, UserContext};
use des_sim::execution::Engine;
use des_sim::modeling::event::{Event, EventPriority};
use des_sim::modeling::hook::Hook;
use des_sim::modeling::model::Model;
use des_sim::modeling::source::Source;
use des_sim::primitive::time::{Duration, MicroStep, SimTime};
use des_sim::source_handler::{SourceReadyEntry, SourceView};

#[derive(Debug, PartialEq)]
enum TestEvent {
    Start,
}

struct TestModel;

impl TestModel {
    fn new() -> Self {
        TestModel
    }
}

impl Model<TestEvent> for TestModel {
    fn handle_event(&mut self, _context: &mut EventContext<TestEvent, Self>, _event: &Event<TestEvent>) {}
}

/// A hook that observes nothing.
struct StepHook;

impl<E, M: Model<E>> Hook<E, M> for StepHook {
    fn before_simulation(&self, _model: &M) {}
    fn after_simulation(&self, _model: &M, _end_tick: SimTime) {}
    fn before_tick(&self, _model: &M, _current_tick: SimTime, _skipped_duration: Duration) {}
    fn after_tick(&self, _model: &M, _current_tick: SimTime, _last_micro_step: MicroStep) {}
    fn before_micro_step(&self, _model: &M, _current_tick: SimTime, _current_micro_step: MicroStep) {}
    fn after_micro_step(&self, _model: &M, _current_tick: SimTime, _current_micro_step: MicroStep) {}
    fn on_discard_remain_micro_step(&self, _model: &M, _current_tick: SimTime, _first_discarded_micro_step: MicroStep, _discarded_sources: &[SourceReadyEntry], _discarded_events: &[Event<E>]) {}
    fn before_register_source(&self, _model: &M, _name: &str) {}
    fn after_register_source(&self, _model: &M, _name: &str) {}
    fn before_source_phase(&self, _model: &M, _current_tick: SimTime, _current_micro_step: MicroStep) {}
    fn before_source(&self, _model: &M, _current_tick: SimTime, _current_micro_step: MicroStep, _source_view: &SourceView) {}
    fn after_source(&self, _model: &M, _current_tick: SimTime, _current_micro_step: MicroStep, _source_view: &SourceView, _computed_next_fire: Option<SimTime>) {}
    fn cancel_source(&self, _model: &M, _current_tick: SimTime, _current_micro_step: MicroStep, _scheduled_at: SimTime, _source_view: &SourceView) {}
    fn discard_source(&self, _model: &M, _current_tick: SimTime, _current_micro_step: MicroStep, _source_view: &SourceView) {}
    fn after_source_phase(&self, _model: &M, _current_tick: SimTime, _current_micro_step: MicroStep) {}
    fn before_event_phase(&self, _model: &M, _current_tick: SimTime, _current_micro_step: MicroStep) {}
    fn before_event(&self, _model: &M, _current_tick: SimTime, _current_micro_step: MicroStep, _event: &Event<E>) {}
    fn after_event(&self, _model: &M, _current_tick: SimTime, _current_micro_step: MicroStep, _event: &Event<E>) {}
    fn cancel_event(&self, _model: &M, _current_tick: SimTime, _current_micro_step: MicroStep, _scheduled_at: SimTime, _event: &Event<E>) {}
    fn discard_event(&self, _model: &M, _current_tick: SimTime, _current_micro_step: MicroStep, _event: &Event<E>) {}
    fn after_event_phase(&self, _model: &M, _current_tick: SimTime, _current_micro_step: MicroStep) {}
}

struct MySource;

impl Source<TestEvent, TestModel> for MySource {
    fn on_registered(&mut self, context: &mut SourceContext<TestEvent, TestModel>, _model: &TestModel) -> Option<Duration> {
        context.schedule_event(Duration::one(), EventPriority::minimum(), TestEvent::Start);
        None
    }

    fn fire(&mut self, _context: &mut SourceContext<TestEvent, TestModel>, _model: &TestModel) -> Option<Duration> {
        None
    }
}

#[test]
fn test_engine_new() {
    let engine: Engine<TestEvent, TestModel> = Engine::new();

    assert!(engine.hook().is_empty());
    assert_eq!(engine.source_handler().ready_queue_len(), 0);
    assert_eq!(engine.event_scheduler().ready_queue_len(), 0);
}

#[test]
fn test_engine_begin_simulation() {
    let model = TestModel::new();
    let engine: Engine<TestEvent, TestModel> = Engine::new();
    let context = engine.begin_simulation(&model);

    assert!(context.hook().is_empty());
    assert_eq!(context.source_handler().ready_queue_len(), 0);
    assert_eq!(context.event_scheduler().ready_queue_len(), 0);
}

#[test]
fn test_engine_add_hook() {
    let mut engine: Engine<TestEvent, TestModel> = Engine::new();
    engine.add_hook(StepHook);
    assert_eq!(engine.hook().len(), 1);
}

#[test]
fn test_engine_add_source() {
    let model = TestModel;
    let mut engine: Engine<TestEvent, TestModel> = Engine::new();
    engine.add_source("my_source", MySource);
    let context = engine.begin_simulation(&model);
    assert_eq!(context.event_scheduler().ready_queue_len(), 1);
}

#[test]
fn test_engine_schedule_event_at() {
    let mut engine: Engine<TestEvent, TestModel> = Engine::new();
    let sim_time = SimTime::from_ticks(10);
    engine.schedule_event_at(sim_time, EventPriority::minimum(), TestEvent::Start);
    assert_eq!(engine.event_scheduler().ready_queue_len(), 0);

    let context = engine.begin_simulation(&TestModel);
    assert_eq!(context.event_scheduler().ready_queue_len(), 1);
}
