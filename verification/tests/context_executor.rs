//! The executor contexts: peeking, beginning and ending ticks, ending runs, discarding work.
use des_sim::context::{ActiveExecutorContext, EventContext, ExecutorContext, ExecutorStatus, SourceContext, UserContext};
use des_sim::event_scheduler::EventScheduler;
use des_sim::modeling::event::{Event, EventPriority};
use des_sim::modeling::hook::instance::{HookDelegate, SharedHook};
use des_sim::modeling::hook::Hook;
use des_sim::modeling::model::Model;
use des_sim::modeling::source::Source;
use des_sim::primitive::time::{Duration, MicroStep, MicroStepStatus, SimTime, TickStatus};
use des_sim::source_handler::{SourceHandler, SourceReadyEntry, SourceView};
use std::cell::RefCell;
use std::rc::Rc;

#[derive(Debug, PartialEq, Eq, Copy, Clone)]
struct TestEvent;

#[derive(Debug, PartialEq, Eq, Copy, Clone)]
struct TestSource {
    tick: Duration,
}

impl Source<TestEvent, TestModel> for TestSource {
    fn on_registered(&mut self, _context: &mut SourceContext<TestEvent, TestModel>, _model: &TestModel) -> Option<Duration> {
        Some(self.tick)
    }

    fn fire(&mut self, _context: &mut SourceContext<TestEvent, TestModel>, _model: &TestModel) -> Option<Duration> {
        Some(self.tick)
    }
}

#[derive(Debug)]
struct TestModel;

impl Model<TestEvent> for TestModel {
    fn handle_event(&mut self, _context: &mut EventContext<TestEvent, Self>, _event: &Event<TestEvent>) {}
}

/// Records the calls of the hooks an executor context makes.
#[derive(Default)]
struct MockHook {
    before_tick_called: Rc<RefCell<Vec<(SimTime, Duration)>>>,
    after_tick_called: Rc<RefCell<Vec<(SimTime, MicroStep)>>>,
    before_micro_step_called: Rc<RefCell<Vec<(SimTime, MicroStep)>>>,
    on_discard_remain_micro_step_called: Rc<RefCell<Vec<(SimTime, MicroStep, usize, usize)>>>,
    after_simulation_called: Rc<RefCell<Vec<SimTime>>>,
}

impl<E, M: Model<E>> Hook<E, M> for MockHook {
    fn before_simulation(&self, _model: &M) {
        unreachable!();
    }
    fn after_simulation(&self, _model: &M, last_tick: SimTime) {
        self.after_simulation_called.borrow_mut().push(last_tick);
    }
    fn before_tick(&self, _model: &M, now: SimTime, skipped: Duration) {
        self.before_tick_called.borrow_mut().push((now, skipped));
    }
    fn after_tick(&self, _model: &M, now: SimTime, micro_step: MicroStep) {
        self.after_tick_called.borrow_mut().push((now, micro_step));
    }
    fn before_micro_step(&self, _model: &M, now: SimTime, micro_step: MicroStep) {
        self.before_micro_step_called.borrow_mut().push((now, micro_step));
    }
    fn after_micro_step(&self, _model: &M, _current_tick: SimTime, _current_micro_step: MicroStep) {
        unreachable!();
    }
    fn on_discard_remain_micro_step(&self, _model: &M, now: SimTime, micro_step: MicroStep, ready_sources: &[SourceReadyEntry], ready_events: &[Event<E>]) {
        self.on_discard_remain_micro_step_called.borrow_mut().push((now, micro_step, ready_sources.len(), ready_events.len()));
    }
    fn before_register_source(&self, _model: &M, _name: &str) {
        unreachable!();
    }
    fn after_register_source(&self, _model: &M, _name: &str) {
        unreachable!();
    }
    fn before_source_phase(&self, _model: &M, _current_tick: SimTime, _current_micro_step: MicroStep) {
        unreachable!();
    }
    fn before_source(&self, _model: &M, _current_tick: SimTime, _current_micro_step: MicroStep, _source_view: &SourceView) {
        unreachable!();
    }
    fn after_source(&self, _model: &M, _current_tick: SimTime, _current_micro_step: MicroStep, _source_view: &SourceView, _computed_next_fire: Option<SimTime>) {
        unreachable!();
    }
    fn cancel_source(&self, _model: &M, _current_tick: SimTime, _current_micro_step: MicroStep, _scheduled_at: SimTime, _source_view: &SourceView) {
        unreachable!();
    }
    fn discard_source(&self, _model: &M, _current_tick: SimTime, _current_micro_step: MicroStep, _source_view: &SourceView) {
        unreachable!();
    }
    fn after_source_phase(&self, _model: &M, _current_tick: SimTime, _current_micro_step: MicroStep) {
        unreachable!();
    }
    fn before_event_phase(&self, _model: &M, _current_tick: SimTime, _current_micro_step: MicroStep) {
        unreachable!();
    }
    fn before_event(&self, _model: &M, _current_tick: SimTime, _current_micro_step: MicroStep, _event: &Event<E>) {
        unreachable!();
    }
    fn after_event(&self, _model: &M, _current_tick: SimTime, _current_micro_step: MicroStep, _event: &Event<E>) {
        unreachable!();
    }
    fn cancel_event(&self, _model: &M, _current_tick: SimTime, _current_micro_step: MicroStep, _scheduled_at: SimTime, _event: &Event<E>) {
        unreachable!();
    }
    fn discard_event(&self, _model: &M, _current_tick: SimTime, _current_micro_step: MicroStep, _event: &Event<E>) {
        unreachable!();
    }
    fn after_event_phase(&self, _model: &M, _current_tick: SimTime, _current_micro_step: MicroStep) {
        unreachable!();
    }
}

type Shared = SharedHook<TestEvent, TestModel, MockHook>;

fn hooks() -> (HookDelegate<TestEvent, TestModel>, Shared) {
    let shared_hook = SharedHook::new(MockHook::default());
    let mut hook_delegate = HookDelegate::new();
    hook_delegate.add_shared_hook(shared_hook.clone());
    (hook_delegate, shared_hook)
}

fn create_mock_executor_context(
    current_tick: SimTime,
    next_tick_status: TickStatus,
    source_handler: SourceHandler<TestEvent, TestModel>,
    event_scheduler: EventScheduler<TestEvent>,
) -> (ExecutorContext<TestEvent, TestModel>, Shared) {
    let (hook_delegate, shared_hook) = hooks();
    let context = ExecutorContext::new(next_tick_status, current_tick, hook_delegate, source_handler, event_scheduler);
    (context, shared_hook)
}

fn create_mock_active_executor_context(
    current_tick_status: TickStatus,
    next_micro_step_status: MicroStepStatus,
    source_handler: SourceHandler<TestEvent, TestModel>,
    event_scheduler: EventScheduler<TestEvent>,
) -> (ActiveExecutorContext<TestEvent, TestModel>, Shared) {
    let (hook_delegate, shared_hook) = hooks();
    let context = ActiveExecutorContext::new(current_tick_status, next_micro_step_status, hook_delegate, source_handler, event_scheduler);
    (context, shared_hook)
}

fn micro_step_ten() -> MicroStep {
    let mut micro_step_ten = MicroStep::zero();
    for _ in 0..10 {
        micro_step_ten = micro_step_ten.next();
    }
    micro_step_ten
}

#[test]
fn test_executor_context_peek_next_tick_no_event() {
    let current_tick = SimTime::from_ticks(0);
    let next_tick_status = TickStatus::new(SimTime::from_ticks(1), Duration::zero());

    let (context, _) = create_mock_executor_context(current_tick, next_tick_status, SourceHandler::new(), EventScheduler::new());

    let (status, tick_status) = context.peek_next_tick();
    assert_eq!(status, ExecutorStatus::NoMoreEvent);
    assert_eq!(tick_status, next_tick_status);
}

#[test]
fn test_executor_context_peek_next_tick_with_event() {
    let current_tick = SimTime::from_ticks(0);
    let next_tick_status = TickStatus::new(SimTime::from_ticks(1), Duration::zero());
    let mut event_scheduler = EventScheduler::new();
    event_scheduler.schedule(SimTime::from_ticks(5), Duration::ticks(0), EventPriority::minimum(), TestEvent);
    event_scheduler.flush_pending();
    let (context, _) = create_mock_executor_context(current_tick, next_tick_status, SourceHandler::new(), event_scheduler);

    assert_eq!(context.event_scheduler().peek_next_time(), Some(SimTime::from_ticks(5)));

    let (status, tick_status) = context.peek_next_tick();
    assert_eq!(status, ExecutorStatus::ExistsMoreEvent);
    assert_eq!(tick_status, next_tick_status);
}

#[test]
fn test_executor_context_begin_tick() {
    let current_tick = SimTime::from_ticks(0);
    let next_tick_status = TickStatus::new(SimTime::from_ticks(1), Duration::zero());
    let (context, shared_hook) = create_mock_executor_context(current_tick, next_tick_status, SourceHandler::new(), EventScheduler::new());

    let model = TestModel;
    let active_context = context.begin_tick(&model);

    assert_eq!(active_context.current_tick_status(), next_tick_status);
    assert_eq!(active_context.next_micro_step_status(), MicroStepStatus::initialize());
    assert_eq!(shared_hook.get_ref().before_tick_called.borrow().len(), 1);
    assert_eq!(shared_hook.get_ref().before_tick_called.borrow()[0], (SimTime::from_ticks(1), Duration::zero()));
}

#[test]
fn test_executor_context_end_simulation_as_ok() {
    let current_tick = SimTime::from_ticks(10);
    let next_tick_status = TickStatus::new(SimTime::from_ticks(11), Duration::zero());
    let (context, shared_hook) = create_mock_executor_context(current_tick, next_tick_status, SourceHandler::new(), EventScheduler::new());

    let model = TestModel;
    let result = context.end_simulation_as_ok::<&'static str>(model);

    assert!(result.is_ok());
    let output = result.unwrap();
    assert_eq!(output.last_tick(), current_tick);
    assert_eq!(shared_hook.get_ref().after_simulation_called.borrow().len(), 1);
    assert_eq!(shared_hook.get_ref().after_simulation_called.borrow()[0], current_tick);
}

#[test]
fn test_executor_context_end_simulation_as_error() {
    let current_tick = SimTime::from_ticks(10);
    let next_tick_status = TickStatus::new(SimTime::from_ticks(11), Duration::zero());
    let (context, shared_hook) = create_mock_executor_context(current_tick, next_tick_status, SourceHandler::new(), EventScheduler::new());

    let model = TestModel;
    let error_msg = "Simulation failed";
    let result = context.end_simulation_as_error(model, error_msg);

    assert!(result.is_err());
    let error = result.unwrap_err();
    assert_eq!(error.last_tick(), current_tick);
    assert_eq!(error.error(), &error_msg);
    assert_eq!(shared_hook.get_ref().after_simulation_called.borrow().len(), 1);
    assert_eq!(shared_hook.get_ref().after_simulation_called.borrow()[0], current_tick);
}

#[test]
fn test_active_executor_context_begin_micro_step() {
    let current_tick_status = TickStatus::new(SimTime::from_ticks(5), Duration::zero());
    let next_micro_step_status = MicroStepStatus::new(MicroStep::zero());
    let (context, shared_hook) =
        create_mock_active_executor_context(current_tick_status, next_micro_step_status, SourceHandler::new(), EventScheduler::new());

    let model = TestModel;
    let micro_step_handler = context.begin_micro_step(&model);

    assert_eq!(micro_step_handler.ref_context().current_tick_status(), current_tick_status);
    assert_eq!(shared_hook.get_ref().before_micro_step_called.borrow().len(), 1);
    assert_eq!(shared_hook.get_ref().before_micro_step_called.borrow()[0], (SimTime::from_ticks(5), MicroStep::zero()));
}

#[test]
fn test_active_executor_context_end_tick_with_increment_tick() {
    let current_tick_status = TickStatus::new(SimTime::from_ticks(5), Duration::zero());
    let micro_step_ten = micro_step_ten();
    let next_micro_step_status = MicroStepStatus::new(micro_step_ten);
    let (context, shared_hook) =
        create_mock_active_executor_context(current_tick_status, next_micro_step_status, SourceHandler::new(), EventScheduler::new());

    let model = TestModel;
    let next_context = context.end_tick_with_increment_tick(&model);

    assert_eq!(next_context.current_tick(), SimTime::from_ticks(5));
    assert_eq!(next_context.next_tick_status().current(), SimTime::from_ticks(6));
    assert_eq!(next_context.next_tick_status().skipped(), Duration::zero());
    assert_eq!(shared_hook.get_ref().after_tick_called.borrow().len(), 1);
    assert_eq!(shared_hook.get_ref().after_tick_called.borrow()[0], (SimTime::from_ticks(5), micro_step_ten));
}

#[test]
fn test_active_executor_context_end_tick_with_jump_to_next_tick_only_source() {
    let current_tick_status = TickStatus::new(SimTime::from_ticks(5), Duration::zero());
    let micro_step_ten = micro_step_ten();
    let next_micro_step_status = MicroStepStatus::new(micro_step_ten);
    let mut source_handler = SourceHandler::new();
    source_handler.add_source_after_registered_action(
        "test source",
        current_tick_status.current(),
        Some(Duration::ticks(7)),
        TestSource { tick: Duration::ticks(3) },
    );
    source_handler.flush_pending();
    let (context, shared_hook) =
        create_mock_active_executor_context(current_tick_status, next_micro_step_status, source_handler, EventScheduler::new());

    let model = TestModel;
    let next_context = context.end_tick_with_jump_to_next_tick(&model);

    assert_eq!(next_context.current_tick(), SimTime::from_ticks(5));
    assert_eq!(next_context.next_tick_status().current(), SimTime::from_ticks(12));
    assert_eq!(next_context.next_tick_status().skipped(), Duration::ticks(6));
    assert_eq!(shared_hook.get_ref().after_tick_called.borrow().len(), 1);
    assert_eq!(shared_hook.get_ref().after_tick_called.borrow()[0], (SimTime::from_ticks(5), micro_step_ten));
}

#[test]
fn test_active_executor_context_end_tick_with_jump_to_next_tick_only_event() {
    let current_tick_status = TickStatus::new(SimTime::from_ticks(5), Duration::zero());
    let micro_step_ten = micro_step_ten();
    let next_micro_step_status = MicroStepStatus::new(micro_step_ten);
    let mut event_scheduler = EventScheduler::new();
    event_scheduler.schedule(SimTime::from_ticks(5), Duration::ticks(5), EventPriority::minimum(), TestEvent);
    event_scheduler.flush_pending();
    let (context, shared_hook) =
        create_mock_active_executor_context(current_tick_status, next_micro_step_status, SourceHandler::new(), event_scheduler);

    let model = TestModel;
    let next_context = context.end_tick_with_jump_to_next_tick(&model);

    assert_eq!(next_context.current_tick(), SimTime::from_ticks(5));
    assert_eq!(next_context.next_tick_status().current(), SimTime::from_ticks(10));
    assert_eq!(next_context.next_tick_status().skipped(), Duration::ticks(4));
    assert_eq!(shared_hook.get_ref().after_tick_called.borrow().len(), 1);
    assert_eq!(shared_hook.get_ref().after_tick_called.borrow()[0], (SimTime::from_ticks(5), micro_step_ten));
}

#[test]
fn test_active_executor_context_end_tick_with_jump_to_next_tick_both_event_and_source() {
    let current_tick_status = TickStatus::new(SimTime::from_ticks(5), Duration::zero());
    let micro_step_ten = micro_step_ten();
    let next_micro_step_status = MicroStepStatus::new(micro_step_ten);
    let mut source_handler = SourceHandler::new();
    source_handler.add_source_after_registered_action(
        "test source",
        current_tick_status.current(),
        Some(Duration::ticks(7)),
        TestSource { tick: Duration::ticks(3) },
    );
    let mut event_scheduler = EventScheduler::new();
    event_scheduler.schedule(SimTime::from_ticks(5), Duration::ticks(5), EventPriority::minimum(), TestEvent);
    source_handler.flush_pending();
    event_scheduler.flush_pending();
    let (context, shared_hook) =
        create_mock_active_executor_context(current_tick_status, next_micro_step_status, source_handler, event_scheduler);

    let model = TestModel;
    let next_context = context.end_tick_with_jump_to_next_tick(&model);

    assert_eq!(next_context.current_tick(), SimTime::from_ticks(5));
    assert_eq!(next_context.next_tick_status().current(), SimTime::from_ticks(10));
    assert_eq!(next_context.next_tick_status().skipped(), Duration::ticks(4));
    assert_eq!(shared_hook.get_ref().after_tick_called.borrow().len(), 1);
    assert_eq!(shared_hook.get_ref().after_tick_called.borrow()[0], (SimTime::from_ticks(5), micro_step_ten));
}

#[test]
fn test_active_executor_context_end_tick_with_jump_to_next_tick_no_next() {
    let current_tick_status = TickStatus::new(SimTime::from_ticks(5), Duration::zero());
    let micro_step_ten = micro_step_ten();
    let next_micro_step_status = MicroStepStatus::new(micro_step_ten);
    let (context, shared_hook) =
        create_mock_active_executor_context(current_tick_status, next_micro_step_status, SourceHandler::new(), EventScheduler::new());

    let model = TestModel;
    let next_context = context.end_tick_with_jump_to_next_tick(&model);

    assert_eq!(next_context.current_tick(), SimTime::from_ticks(5));
    assert_eq!(next_context.next_tick_status().current(), SimTime::from_ticks(6));
    assert_eq!(next_context.next_tick_status().skipped(), Duration::zero());
    assert_eq!(shared_hook.get_ref().after_tick_called.borrow().len(), 1);
    assert_eq!(shared_hook.get_ref().after_tick_called.borrow()[0], (SimTime::from_ticks(5), micro_step_ten));
}

#[test]
fn test_active_executor_context_discard_remain_micro_step() {
    let current_tick_status = TickStatus::new(SimTime::from_ticks(5), Duration::zero());
    let micro_step_ten = micro_step_ten();
    let next_micro_step_status = MicroStepStatus::new(micro_step_ten);
    let mut source_handler = SourceHandler::new();
    source_handler.add_source_after_registered_action(
        "test source",
        current_tick_status.current(),
        Some(Duration::ticks(0)),
        TestSource { tick: Duration::ticks(3) },
    );
    let mut event_scheduler = EventScheduler::new();
    event_scheduler.schedule(SimTime::from_ticks(5), Duration::ticks(0), EventPriority::minimum(), TestEvent);
    event_scheduler.schedule(SimTime::from_ticks(5), Duration::ticks(0), EventPriority::minimum(), TestEvent);
    source_handler.flush_pending();
    event_scheduler.flush_pending();
    let (mut context, shared_hook) =
        create_mock_active_executor_context(current_tick_status, next_micro_step_status, source_handler, event_scheduler);

    let model = TestModel;
    let (discarded_sources, discarded_events) = context.discard_remain_micro_step(&model);

    assert_eq!(discarded_sources.len(), 1);
    assert_eq!(discarded_sources[0].name(), "test source");

    assert_eq!(discarded_events.len(), 2);
    assert_eq!(discarded_events[0].payload, TestEvent);
    assert_eq!(discarded_events[1].payload, TestEvent);

    assert_eq!(shared_hook.get_ref().on_discard_remain_micro_step_called.borrow().len(), 1);
    assert_eq!(
        shared_hook.get_ref().on_discard_remain_micro_step_called.borrow()[0],
        (SimTime::from_ticks(5), micro_step_ten, 1, 2)
    );
}
