//! The micro-step handler: holding a context and moving between the phases of a micro-step.
use des_sim::context::{ActiveExecutorContext, EventContext, SourceContext};
use des_sim::event_scheduler::EventScheduler;
use des_sim::execution::phase::{MicroStepHandler, MicroStepResult, SourceStepContext};
use des_sim::modeling::event::{Event, EventPriority};
use des_sim::modeling::hook::instance::{HookDelegate, SharedHook};
use des_sim::modeling::hook::Hook;
use des_sim::modeling::model::Model;
use des_sim::primitive::time::{Duration, MicroStep, MicroStepStatus, SimTime, TickStatus};
use des_sim::source_handler::{SourceHandler, SourceReadyEntry, SourceView};
use std::rc::Rc;
use std::sync::Mutex;

#[derive(Debug, PartialEq, Eq, Clone, Copy)]
enum TestEvent {
    A,
}

struct TestModel;

impl Model<TestEvent> for TestModel {
    fn handle_event(&mut self, _context: &mut EventContext<TestEvent, Self>, _event: &Event<TestEvent>) {}
}

/// Records which phase changes happened.
struct TransitionTrackerHook {
    called_before_source_phase: Rc<Mutex<bool>>,
    called_before_event_phase: Rc<Mutex<bool>>,
    called_after_micro_step: Rc<Mutex<bool>>,
}

impl Hook<TestEvent, TestModel> for TransitionTrackerHook {
    fn before_simulation(&self, _model: &TestModel) {}
    fn after_simulation(&self, _model: &TestModel, _end_tick: SimTime) {}
    fn before_tick(&self, _model: &TestModel, _current_tick: SimTime, _skipped_duration: Duration) {}
    fn after_tick(&self, _model: &TestModel, _current_tick: SimTime, _last_micro_step: MicroStep) {}
    fn before_micro_step(&self, _model: &TestModel, _current_tick: SimTime, _current_micro_step: MicroStep) {}
    fn after_micro_step(&self, _model: &TestModel, _current_tick: SimTime, _current_micro_step: MicroStep) {
        *self.called_after_micro_step.lock().unwrap() = true;
    }
    fn on_discard_remain_micro_step(&self, _model: &TestModel, _current_tick: SimTime, _first_discarded_micro_step: MicroStep, _discarded_sources: &[SourceReadyEntry], _discarded_events: &[Event<TestEvent>]) {}
    fn before_register_source(&self, _model: &TestModel, _name: &str) {}
    fn after_register_source(&self, _model: &TestModel, _name: &str) {}
    fn before_source_phase(&self, _model: &TestModel, _current_tick: SimTime, _current_micro_step: MicroStep) {
        *self.called_before_source_phase.lock().unwrap() = true;
    }
    fn before_source(&self, _model: &TestModel, _current_tick: SimTime, _current_micro_step: MicroStep, _source_view: &SourceView) {}
    fn after_source(&self, _model: &TestModel, _current_tick: SimTime, _current_micro_step: MicroStep, _source_view: &SourceView, _computed_next_fire: Option<SimTime>) {}
    fn cancel_source(&self, _model: &TestModel, _current_tick: SimTime, _current_micro_step: MicroStep, _scheduled_at: SimTime, _source_view: &SourceView) {}
    fn discard_source(&self, _model: &TestModel, _current_tick: SimTime, _current_micro_step: MicroStep, _source_view: &SourceView) {}
    fn after_source_phase(&self, _model: &TestModel, _current_tick: SimTime, _current_micro_step: MicroStep) {}
    fn before_event_phase(&self, _model: &TestModel, _current_tick: SimTime, _current_micro_step: MicroStep) {
        *self.called_before_event_phase.lock().unwrap() = true;
    }
    fn before_event(&self, _model: &TestModel, _current_tick: SimTime, _current_micro_step: MicroStep, _event: &Event<TestEvent>) {}
    fn after_event(&self, _model: &TestModel, _current_tick: SimTime, _current_micro_step: MicroStep, _event: &Event<TestEvent>) {}
    fn cancel_event(&self, _model: &TestModel, _current_tick: SimTime, _current_micro_step: MicroStep, _scheduled_at: SimTime, _event: &Event<TestEvent>) {}
    fn discard_event(&self, _model: &TestModel, _current_tick: SimTime, _current_micro_step: MicroStep, _event: &Event<TestEvent>) {}
    fn after_event_phase(&self, _model: &TestModel, _current_tick: SimTime, _current_micro_step: MicroStep) {}
}

fn setup_tracker_hook() -> SharedHook<TestEvent, TestModel, TransitionTrackerHook> {
    SharedHook::new(TransitionTrackerHook {
        called_before_source_phase: Rc::new(Mutex::new(false)),
        called_before_event_phase: Rc::new(Mutex::new(false)),
        called_after_micro_step: Rc::new(Mutex::new(false)),
    })
}

#[test]
fn test_ref_context_and_mut() {
    let mut handler = MicroStepHandler::new(42);
    assert_eq!(*handler.ref_context(), 42);

    *handler.ref_mut_context() = 100;
    assert_eq!(*handler.ref_context(), 100);
}

#[test]
fn test_start_source_phase() {
    let model = TestModel;
    let hook = setup_tracker_hook();
    let mut hook_delegate = HookDelegate::new();
    hook_delegate.add_shared_hook(hook.clone());

    let active_context = ActiveExecutorContext::new(
        TickStatus::initialize(),
        MicroStepStatus::initialize(),
        hook_delegate,
        SourceHandler::new(),
        EventScheduler::new(),
    );

    let handler = MicroStepHandler::new(active_context);
    let mut source_phase = handler.start_source_phase(&model);

    assert_eq!(source_phase.source_handler().ready_queue_len(), 0);
    assert_eq!(source_phase.get_context().event_scheduler().ready_queue_len(), 0);
    assert!(*hook.get_ref().called_before_source_phase.lock().unwrap());
}

#[test]
fn test_to_event_phase() {
    let model = TestModel;
    let hook = setup_tracker_hook();
    let mut hook_delegate = HookDelegate::new();
    hook_delegate.add_shared_hook(hook.clone());

    let source_context = SourceContext::new(TickStatus::initialize(), MicroStepStatus::initialize(), hook_delegate, EventScheduler::new());

    let handler = MicroStepHandler::new(SourceStepContext::new(source_context, SourceHandler::new()));
    let _event_phase = handler.to_event_phase(&model);

    assert!(*hook.get_ref().called_before_event_phase.lock().unwrap());
}

#[test]
fn test_end_micro_step_continue() {
    let model = TestModel;
    let hook = setup_tracker_hook();
    let mut hook_delegate = HookDelegate::new();
    hook_delegate.add_shared_hook(hook.clone());

    let tick_status = TickStatus::initialize();
    let current_time = tick_status.current();

    let mut event_scheduler = EventScheduler::new();
    event_scheduler.schedule(current_time, Duration::zero(), EventPriority::minimum(), TestEvent::A);
    event_scheduler.flush_pending();

    assert_eq!(event_scheduler.peek_next_time(), Some(current_time));

    let event_context =
        EventContext::new(tick_status, MicroStepStatus::initialize(), hook_delegate, SourceHandler::new(), event_scheduler);

    let handler = MicroStepHandler::new(event_context);
    let result = handler.end_micro_step(&model);

    match result {
        MicroStepResult::Continue(_) => {}
        MicroStepResult::Complete(_, _) => {
            panic!("Expected MicroStepResult::Continue, but got Complete");
        }
    }
    assert!(*hook.get_ref().called_after_micro_step.lock().unwrap());
}

#[test]
fn test_end_micro_step_complete() {
    let model = TestModel;
    let hook = setup_tracker_hook();
    let mut hook_delegate = HookDelegate::new();
    hook_delegate.add_shared_hook(hook.clone());

    let event_context = EventContext::new(
        TickStatus::initialize(),
        MicroStepStatus::initialize(),
        hook_delegate,
        SourceHandler::new(),
        EventScheduler::new(),
    );

    let handler = MicroStepHandler::new(event_context);
    let result = handler.end_micro_step(&model);

    match result {
        MicroStepResult::Complete(_, _) => {}
        MicroStepResult::Continue(_) => {
            panic!("Expected MicroStepResult::Complete, but got Continue");
        }
    }
    assert!(*hook.get_ref().called_after_micro_step.lock().unwrap());
}
