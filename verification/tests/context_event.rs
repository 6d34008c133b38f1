//! The event context: time, source registration, event scheduling and cancellation.
use des_sim::context::{EventContext, SourceContext, UserContext};
use des_sim::event_scheduler::EventScheduler;
use des_sim::modeling::event::{Event, EventPriority};
use des_sim::modeling::hook::instance::{HookDelegate, SharedHook};
use des_sim::modeling::hook::Hook;
use des_sim::modeling::model::Model;
use des_sim::modeling::source::Source;
use des_sim::primitive::time::{Duration, MicroStep, MicroStepStatus, SimTime, TickStatus};
use des_sim::source_handler::{SourceHandler, SourceReadyEntry, SourceView};
use std::cell::RefCell;
use std::fmt::Debug;
use std::rc::Rc;

#[derive(Debug, Clone, PartialEq)]
struct TestEvent;

struct TestModel;

impl Model<TestEvent> for TestModel {
    fn handle_event(&mut self, _event_context: &mut EventContext<TestEvent, Self>, _event: &Event<TestEvent>) {}
}

struct TestSource {
    initial_delay: Duration,
}

impl Source<TestEvent, TestModel> for TestSource {
    fn on_registered(&mut self, context: &mut SourceContext<TestEvent, TestModel>, _model: &TestModel) -> Option<Duration> {
        context.schedule_event(Duration::ticks(5), EventPriority::minimum(), TestEvent);
        Some(self.initial_delay)
    }

    fn fire(&mut self, context: &mut SourceContext<TestEvent, TestModel>, _model: &TestModel) -> Option<Duration> {
        context.schedule_event(Duration::ticks(5), EventPriority::minimum(), TestEvent);
        Some(Duration::ticks(5))
    }
}

/// Records the calls of the hooks a context makes.
#[derive(Default)]
struct MockHook {
    before_register_source_called: Rc<RefCell<Vec<String>>>,
    after_register_source_called: Rc<RefCell<Vec<String>>>,
    cancel_source_called: Rc<RefCell<Vec<String>>>,
    cancel_event_called: Rc<RefCell<Vec<String>>>,
}

impl<E: Debug, M: Model<E>> Hook<E, M> for MockHook {
    fn before_simulation(&self, _model: &M) {
        unreachable!();
    }
    fn after_simulation(&self, _model: &M, _end_tick: SimTime) {
        unreachable!();
    }
    fn before_tick(&self, _model: &M, _current_tick: SimTime, _skipped_duration: Duration) {
        unreachable!();
    }
    fn after_tick(&self, _model: &M, _current_tick: SimTime, _last_micro_step: MicroStep) {
        unreachable!();
    }
    fn before_micro_step(&self, _model: &M, _current_tick: SimTime, _current_micro_step: MicroStep) {
        unreachable!();
    }
    fn after_micro_step(&self, _model: &M, _current_tick: SimTime, _current_micro_step: MicroStep) {
        unreachable!();
    }
    fn on_discard_remain_micro_step(&self, _model: &M, _current_tick: SimTime, _first_discarded_micro_step: MicroStep, _discarded_sources: &[SourceReadyEntry], _discarded_events: &[Event<E>]) {
        unreachable!();
    }
    fn before_register_source(&self, _model: &M, name: &str) {
        self.before_register_source_called.borrow_mut().push(name.to_string());
    }
    fn after_register_source(&self, _model: &M, name: &str) {
        self.after_register_source_called.borrow_mut().push(name.to_string());
    }
    fn before_source_phase(&self, _model: &M, _current_tick: SimTime, _current_micro_step: MicroStep) {
        unreachable!();
    }
    fn before_source(&self, _model: &M, _current_tick: SimTime, _current_micro_step: MicroStep, _source_view: &SourceView) {
        unreachable!();
    }
    fn after_source(&self, _model: &M, _current_tick: SimTime, _current_micro_step: MicroStep, _source_view: &SourceView, _computed_next_fire: Option<SimTime>) {
        unreachable!();
    }
    fn cancel_source(&self, _model: &M, _now: SimTime, _micro_step: MicroStep, _scheduled_at: SimTime, source_view: &SourceView) {
        self.cancel_source_called.borrow_mut().push(source_view.name().to_string());
    }
    fn discard_source(&self, _model: &M, _current_tick: SimTime, _current_micro_step: MicroStep, _source_view: &SourceView) {
        unreachable!();
    }
    fn after_source_phase(&self, _model: &M, _current_tick: SimTime, _current_micro_step: MicroStep) {
        unreachable!();
    }
    fn before_event_phase(&self, _model: &M, _current_tick: SimTime, _current_micro_step: MicroStep) {
        unreachable!();
    }
    fn before_event(&self, _model: &M, _current_tick: SimTime, _current_micro_step: MicroStep, _event: &Event<E>) {
        unreachable!();
    }
    fn after_event(&self, _model: &M, _current_tick: SimTime, _current_micro_step: MicroStep, _event: &Event<E>) {
        unreachable!();
    }
    fn cancel_event(&self, _model: &M, _now: SimTime, _micro_step: MicroStep, _scheduled_at: SimTime, event: &Event<E>) {
        self.cancel_event_called.borrow_mut().push(format!("{:?}", event.payload));
    }
    fn discard_event(&self, _model: &M, _current_tick: SimTime, _current_micro_step: MicroStep, _event: &Event<E>) {
        unreachable!();
    }
    fn after_event_phase(&self, _model: &M, _current_tick: SimTime, _current_micro_step: MicroStep) {
        unreachable!();
    }
}

type TestContext = EventContext<TestEvent, TestModel>;

fn setup() -> (TestContext, SharedHook<TestEvent, TestModel, MockHook>) {
    let shared_hook = SharedHook::new(MockHook::default());
    let mut hook_delegate = HookDelegate::new();
    hook_delegate.add_shared_hook(shared_hook.clone());
    let context = EventContext::new(
        TickStatus::initialize(),
        MicroStepStatus::new(MicroStep::zero()),
        hook_delegate,
        SourceHandler::new(),
        EventScheduler::new(),
    );
    (context, shared_hook)
}

/// Moves the pending source firings and events of `context` into their queues.
fn flush(context: TestContext) -> TestContext {
    let (tick, micro_step, hooks, mut handler, mut scheduler) = context.into_parts();
    handler.flush_pending();
    scheduler.flush_pending();
    EventContext::new(tick, micro_step, hooks, handler, scheduler)
}

#[test]
fn event_test_current_tick() {
    let (context, _) = setup();
    assert_eq!(context.current_tick(), SimTime::from_ticks(0));
}

#[test]
fn event_test_current_micro_step() {
    let (context, _) = setup();
    assert_eq!(context.current_micro_step(), MicroStep::zero());
}

#[test]
fn test_add_source_after() {
    let model = TestModel;
    let (mut context, shared_hook) = setup();
    let initial_sources_count = context.source_handler().ready_queue_len();
    let delay = Duration::ticks(10);

    context.add_source(&model, "test_source", TestSource { initial_delay: delay });
    let context = flush(context);

    assert_eq!(context.source_handler().ready_queue_len(), initial_sources_count + 1);

    let (scheduled_at, scheduled_source) = context.source_handler().peek().unwrap();
    assert_eq!(scheduled_at, SimTime::from_ticks(0) + delay);
    assert_eq!(scheduled_source.source_id.value(), 0);

    assert_eq!(shared_hook.get_ref().before_register_source_called.borrow().len(), 1);
    assert_eq!(shared_hook.get_ref().before_register_source_called.borrow()[0], "test_source");
    assert_eq!(shared_hook.get_ref().after_register_source_called.borrow().len(), 1);
    assert_eq!(shared_hook.get_ref().after_register_source_called.borrow()[0], "test_source");
}

#[test]
fn test_add_source_at_now() {
    let model = TestModel;
    let (mut context, shared_hook) = setup();
    let initial_sources_count = context.source_handler().ready_queue_len();

    context.add_source(&model, "test_source_now", TestSource { initial_delay: Duration::zero() });
    let context = flush(context);

    assert_eq!(context.source_handler().ready_queue_len(), initial_sources_count + 1);

    let (scheduled_at, scheduled_source) = context.source_handler().peek().unwrap();
    assert_eq!(scheduled_at, SimTime::from_ticks(0));
    assert_eq!(scheduled_source.source_id.value(), 0);

    assert_eq!(shared_hook.get_ref().before_register_source_called.borrow().len(), 1);
    assert_eq!(shared_hook.get_ref().before_register_source_called.borrow()[0], "test_source_now");
    assert_eq!(shared_hook.get_ref().after_register_source_called.borrow().len(), 1);
    assert_eq!(shared_hook.get_ref().after_register_source_called.borrow()[0], "test_source_now");
}

#[test]
fn event_test_schedule_event() {
    let (context, _) = setup();

    let (tick, micro_step, hooks, handler, mut scheduler) = context.into_parts();
    scheduler.schedule(SimTime::from_ticks(0), Duration::one(), EventPriority::minimum(), TestEvent);
    scheduler.schedule(SimTime::from_ticks(0), Duration::one(), EventPriority::minimum(), TestEvent);
    scheduler.schedule(SimTime::from_ticks(0), Duration::one(), EventPriority::minimum(), TestEvent);
    scheduler.flush_pending();
    let mut context = EventContext::new(tick, micro_step, hooks, handler, scheduler);

    let initial_scheduled_events_count = context.event_scheduler().ready_queue_len();
    let delay = Duration::ticks(5);
    let priority = EventPriority::new(10);
    let event_payload = TestEvent;

    context.schedule_event(delay, priority, event_payload.clone());
    let context = flush(context);

    assert_eq!(context.event_scheduler().ready_queue_len(), initial_scheduled_events_count + 1);

    let (scheduled_at, event) = context.event_scheduler().peek().unwrap();
    assert_eq!(scheduled_at, SimTime::from_ticks(1));
    assert_eq!(event.priority, EventPriority::minimum());
    assert_eq!(event.payload, TestEvent);
}

#[test]
fn test_cancel_scheduled_events() {
    let (mut context, shared_hook) = setup();
    let model = TestModel;

    context.schedule_event(Duration::ticks(5), EventPriority::minimum(), TestEvent);
    context.schedule_event(Duration::ticks(10), EventPriority::minimum(), TestEvent);
    let mut context = flush(context);

    let canceled_events = context.cancel_scheduled_events(&model, |_, _| true);
    assert_eq!(canceled_events.len(), 2);
    assert_eq!(context.event_scheduler().ready_queue_len(), 0);
    assert_eq!(shared_hook.get_ref().cancel_event_called.borrow().len(), 2);
    assert_eq!(shared_hook.get_ref().cancel_event_called.borrow()[0], "TestEvent");
    assert_eq!(shared_hook.get_ref().cancel_event_called.borrow()[1], "TestEvent");

    context.schedule_event(Duration::ticks(5), EventPriority::minimum(), TestEvent);
    context.schedule_event(Duration::ticks(10), EventPriority::minimum(), TestEvent);
    let mut context = flush(context);

    let canceled_events_filtered =
        context.cancel_scheduled_events(&model, |scheduled_at, _| scheduled_at == SimTime::from_ticks(5));
    assert_eq!(canceled_events_filtered.len(), 1);
    assert_eq!(canceled_events_filtered[0].0, SimTime::from_ticks(5));
    assert_eq!(context.event_scheduler().ready_queue_len(), 1);
    let (remaining_scheduled_at, _) = context.event_scheduler().peek().unwrap();
    assert_eq!(remaining_scheduled_at, SimTime::from_ticks(10));
    assert_eq!(shared_hook.get_ref().cancel_event_called.borrow().len(), 3);
    assert_eq!(shared_hook.get_ref().cancel_event_called.borrow()[2], "TestEvent");
}

#[test]
fn test_cancel_scheduled_sources() {
    let (mut context, shared_hook) = setup();
    let model = TestModel;

    context.add_source(&model, "source1", TestSource { initial_delay: Duration::ticks(5) });
    context.add_source(&model, "source2", TestSource { initial_delay: Duration::ticks(10) });
    let mut context = flush(context);

    let canceled_sources = context.cancel_scheduled_sources::<TestSource, _>(&model, |_, _| true);
    assert_eq!(canceled_sources.len(), 2);
    assert_eq!(context.source_handler().ready_queue_len(), 0);
    assert_eq!(shared_hook.get_ref().cancel_source_called.borrow().len(), 2);
    assert_eq!(shared_hook.get_ref().cancel_source_called.borrow()[0], "source1");
    assert_eq!(shared_hook.get_ref().cancel_source_called.borrow()[1], "source2");

    context.add_source(&model, "source3", TestSource { initial_delay: Duration::ticks(5) });
    context.add_source(&model, "source4", TestSource { initial_delay: Duration::ticks(10) });
    let mut context = flush(context);

    let canceled_sources_filtered = context
        .cancel_scheduled_sources::<TestSource, _>(&model, |scheduled_at, _| scheduled_at == SimTime::from_ticks(5));
    assert_eq!(canceled_sources_filtered.len(), 1);
    assert_eq!(canceled_sources_filtered[0].0, SimTime::from_ticks(5));
    assert_eq!(context.source_handler().ready_queue_len(), 1);
    let (remaining_scheduled_at, _) = context.source_handler().peek().unwrap();
    assert_eq!(remaining_scheduled_at, SimTime::from_ticks(10));
    assert_eq!(shared_hook.get_ref().cancel_source_called.borrow().len(), 3);
    assert_eq!(shared_hook.get_ref().cancel_source_called.borrow()[2], "source3");
}
