//! The source phase: taking firings out, viewing, discarding and completing.
use des_sim::context::{EventContext, SourceContext, UserContext};
use des_sim::event_scheduler::EventScheduler;
use des_sim::execution::phase::SourcePhase;
use des_sim::modeling::event::Event;
use des_sim::modeling::hook::instance::{HookDelegate, SharedHook};
use des_sim::modeling::hook::Hook;
use des_sim::modeling::model::Model;
use des_sim::primitive::id::SourceId;
use des_sim::primitive::time::{Duration, MicroStep, MicroStepStatus, SimTime, TickStatus};
use des_sim::source_handler::{SourceHandler, SourceReadyEntry, SourceView};
use std::collections::VecDeque;
use std::rc::Rc;
use std::sync::Mutex;

#[derive(Debug, PartialEq, Eq, Clone, Copy)]
enum TestEvent {}

struct TestModel {
    handled_events: Vec<TestEvent>,
}

impl Model<TestEvent> for TestModel {
    fn handle_event(&mut self, _context: &mut EventContext<TestEvent, Self>, event: &Event<TestEvent>) {
        self.handled_events.push(event.payload);
    }
}

/// Records the events and sources discarded.
struct DiscardHook {
    discarded_events: Rc<Mutex<Vec<TestEvent>>>,
    discarded_sources: Rc<Mutex<Vec<SourceId>>>,
}

impl Hook<TestEvent, TestModel> for DiscardHook {
    fn before_simulation(&self, _model: &TestModel) {}
    fn after_simulation(&self, _model: &TestModel, _end_tick: SimTime) {}
    fn before_tick(&self, _model: &TestModel, _current_tick: SimTime, _skipped_duration: Duration) {}
    fn after_tick(&self, _model: &TestModel, _current_tick: SimTime, _last_micro_step: MicroStep) {}
    fn before_micro_step(&self, _model: &TestModel, _current_tick: SimTime, _current_micro_step: MicroStep) {}
    fn after_micro_step(&self, _model: &TestModel, _current_tick: SimTime, _current_micro_step: MicroStep) {}
    fn on_discard_remain_micro_step(&self, _model: &TestModel, _current_tick: SimTime, _first_discarded_micro_step: MicroStep, _discarded_sources: &[SourceReadyEntry], _discarded_events: &[Event<TestEvent>]) {}
    fn before_register_source(&self, _model: &TestModel, _name: &str) {}
    fn after_register_source(&self, _model: &TestModel, _name: &str) {}
    fn before_source_phase(&self, _model: &TestModel, _current_tick: SimTime, _current_micro_step: MicroStep) {}
    fn before_source(&self, _model: &TestModel, _current_tick: SimTime, _current_micro_step: MicroStep, _source_view: &SourceView) {}
    fn after_source(&self, _model: &TestModel, _current_tick: SimTime, _current_micro_step: MicroStep, _source_view: &SourceView, _computed_next_fire: Option<SimTime>) {}
    fn cancel_source(&self, _model: &TestModel, _current_tick: SimTime, _current_micro_step: MicroStep, _scheduled_at: SimTime, _source_view: &SourceView) {}
    fn discard_source(&self, _model: &TestModel, _current_tick: SimTime, _current_micro_step: MicroStep, source_view: &SourceView) {
        self.discarded_sources.lock().unwrap().push(source_view.source_id());
    }
    fn after_source_phase(&self, _model: &TestModel, _current_tick: SimTime, _current_micro_step: MicroStep) {}
    fn before_event_phase(&self, _model: &TestModel, _current_tick: SimTime, _current_micro_step: MicroStep) {}
    fn before_event(&self, _model: &TestModel, _current_tick: SimTime, _current_micro_step: MicroStep, _event: &Event<TestEvent>) {}
    fn after_event(&self, _model: &TestModel, _current_tick: SimTime, _current_micro_step: MicroStep, _event: &Event<TestEvent>) {}
    fn cancel_event(&self, _model: &TestModel, _current_tick: SimTime, _current_micro_step: MicroStep, _scheduled_at: SimTime, _event: &Event<TestEvent>) {}
    fn discard_event(&self, _model: &TestModel, _current_tick: SimTime, _current_micro_step: MicroStep, event: &Event<TestEvent>) {
        self.discarded_events.lock().unwrap().push(event.payload);
    }
    fn after_event_phase(&self, _model: &TestModel, _current_tick: SimTime, _current_micro_step: MicroStep) {}
}

fn entries(list: &[(u64, &'static str)]) -> VecDeque<SourceReadyEntry> {
    let mut ready_sources = VecDeque::new();
    for (id, name) in list {
        ready_sources.push_back(SourceReadyEntry::new(SourceId::new(*id), name));
    }
    ready_sources
}

fn setup_with(hook_delegate: HookDelegate<TestEvent, TestModel>, list: &[(u64, &'static str)]) -> (SourcePhase<TestEvent, TestModel>, TestModel) {
    let model = TestModel { handled_events: Vec::new() };
    let source_context = SourceContext::new(TickStatus::initialize(), MicroStepStatus::initialize(), hook_delegate, EventScheduler::new());
    let source_handler = SourceHandler::new();
    (SourcePhase::new(source_context, source_handler, entries(list)), model)
}

fn setup_source_phase() -> (SourcePhase<TestEvent, TestModel>, TestModel) {
    setup_with(HookDelegate::new(), &[(1, "SourceA"), (2, "SourceB"), (3, "SourceC")])
}

#[test]
fn source_test_new() {
    let (source_phase, _model) = setup_source_phase();
    assert_eq!(source_phase.ready_len(), 3);
    assert_eq!(source_phase.source_handler().ready_queue_len(), 0);
}

#[test]
fn source_test_get_context() {
    let (mut source_phase, _model) = setup_source_phase();
    let context = source_phase.get_context();
    assert_eq!(context.current_tick(), SimTime::zero());
}

#[test]
fn test_get_source_view() {
    let (source_phase, _model) = setup_source_phase();
    let entry = SourceReadyEntry::new(SourceId::new(1), "SourceA");
    let view = source_phase.get_source_view(&entry);
    assert_eq!(view.source_id(), SourceId::new(1));
    assert_eq!(view.name(), "SourceA");
}

#[test]
fn source_test_take_one() {
    let (mut source_phase, _model) = setup_source_phase();
    let entry = source_phase.take_one().unwrap();
    assert_eq!(entry.source_id(), SourceId::new(1));
    assert_eq!(source_phase.ready_len(), 2);
}

#[test]
fn source_test_take_front_if() {
    let (mut source_phase, _model) = setup_source_phase();
    let entry_a = source_phase.take_front_if(|e| e.source_id() == SourceId::new(1)).unwrap();
    assert_eq!(entry_a.source_id(), SourceId::new(1));
    assert_eq!(source_phase.ready_len(), 2);

    let entry_c = source_phase.take_front_if(|e| e.source_id() == SourceId::new(3));
    assert!(entry_c.is_none());
    assert_eq!(source_phase.ready_len(), 2);
}

#[test]
fn source_test_take_all() {
    let (mut source_phase, _model) = setup_source_phase();
    let all_entries = source_phase.take_all();
    assert_eq!(all_entries.len(), 3);
    assert_eq!(source_phase.ready_len(), 0);
}

#[test]
fn source_test_take_all_if() {
    let (mut source_phase, _model) =
        setup_with(HookDelegate::new(), &[(1, "SourceA"), (2, "SourceB"), (3, "SourceC"), (1, "SourceA_again")]);

    let taken_entries = source_phase.take_all_if(|e| e.source_id() == SourceId::new(1));
    assert_eq!(taken_entries.len(), 2);
    assert_eq!(taken_entries.front().unwrap().source_id(), SourceId::new(1));
    assert_eq!(taken_entries.get(1).unwrap().source_id(), SourceId::new(1));

    assert_eq!(source_phase.ready_len(), 2);
    assert_eq!(source_phase.ready_sources().front().unwrap().source_id(), SourceId::new(2));
    assert_eq!(source_phase.ready_sources().get(1).unwrap().source_id(), SourceId::new(3));
}

#[test]
fn test_fire_and_schedule() {
    let (source_phase, _model) = setup_source_phase();
    assert_eq!(source_phase.source_handler().ready_queue_len(), 0);
}

#[test]
fn source_test_discard() {
    let hook = SharedHook::new(DiscardHook {
        discarded_events: Rc::new(Mutex::new(Vec::new())),
        discarded_sources: Rc::new(Mutex::new(Vec::new())),
    });
    let mut hook_delegate = HookDelegate::new();
    hook_delegate.add_shared_hook(hook.clone());
    let (mut source_phase, model) = setup_with(hook_delegate, &[(1, "SourceA"), (2, "SourceB"), (3, "SourceC")]);

    let source_a_entry = source_phase.take_one().unwrap();
    source_phase.discard(&model, source_a_entry);

    assert_eq!(hook.get_ref().discarded_sources.lock().unwrap().len(), 1);
    assert_eq!(hook.get_ref().discarded_sources.lock().unwrap()[0], SourceId::new(1));
}

#[test]
fn test_complete_source_phase() {
    let (source_phase, model) = setup_source_phase();
    let micro_step_handler = source_phase.complete_source_phase(&model);

    assert_eq!(micro_step_handler.ref_context().current_tick(), SimTime::zero());
    assert_eq!(micro_step_handler.ref_context().source_handler().ready_queue_len(), 0);
}

#[test]
fn source_test_finish_source_phase_hands_over_the_handler() {
    let (mut source_phase, _model) = setup_source_phase();
    let _ = source_phase.take_one();
    let handler = source_phase.finish_source_phase();
    assert_eq!(handler.ref_context().source_handler().ready_queue_len(), 0);
    assert_eq!(handler.ref_context().current_tick(), SimTime::zero());
}
