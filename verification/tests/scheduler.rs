//! The single-stage scheduler: ordering and collecting.
use des_sim::execution::scheduler::Scheduler;
use des_sim::modeling::event::EventPriority;
use des_sim::primitive::time::{Duration, SimTime};

#[test]
fn scheduler_collect_returns_only_matching_time() {
    let mut scheduler = Scheduler::<&'static str>::new();

    let now = SimTime::from_ticks(0);
    let priority = EventPriority::new(0);
    scheduler.schedule(now, Duration::ticks(10), priority, "t10");
    scheduler.schedule(now, Duration::ticks(20), priority, "t20");
    scheduler.schedule(now, Duration::ticks(30), priority, "t30");

    let events = scheduler.collect(now + Duration::ticks(10));

    assert_eq!(events.len(), 1);
    assert_eq!(events[0].payload, "t10");

    let (time, event) = scheduler.peek().unwrap();
    assert_eq!(time, SimTime::from_ticks(20));
    assert_eq!(event.payload, "t20");
}

#[test]
fn scheduler_collect_orders_by_priority_when_time_is_same() {
    let mut scheduler = Scheduler::<u8>::new();

    let now = SimTime::from_ticks(0);
    let duration = Duration::ticks(10);
    scheduler.schedule(now, duration, EventPriority::new(10), 10);
    scheduler.schedule(now, duration, EventPriority::new(20), 20);
    scheduler.schedule(now, duration, EventPriority::new(30), 30);

    let events = scheduler.collect(now + duration);

    let payloads: Vec<_> = events.into_iter().map(|e| e.payload).collect();

    assert_eq!(payloads, vec![30, 20, 10]);
}

#[test]
fn scheduler_collect_orders_by_time_then_priority() {
    let mut scheduler = Scheduler::<u8>::new();

    let now = SimTime::from_ticks(0);
    let duration = Duration::ticks(10);
    scheduler.schedule(now, duration, EventPriority::new(20), 1);
    scheduler.schedule(now, duration, EventPriority::new(10), 2);
    scheduler.schedule(now, duration + duration, EventPriority::new(5), 3);
    scheduler.schedule(now, duration + duration, EventPriority::new(30), 4);

    let events_10 = scheduler.collect(now + duration);

    let payloads_10: Vec<_> = events_10.into_iter().map(|e| e.payload).collect();

    assert_eq!(payloads_10, vec![1, 2]);

    let events_20 = scheduler.collect(now + duration + duration);

    let payloads_20: Vec<_> = events_20.into_iter().map(|e| e.payload).collect();

    assert_eq!(payloads_20, vec![4, 3]);
}

#[test]
fn scheduler_collect_from_empty_scheduler_returns_empty_vec() {
    let mut scheduler = Scheduler::<()>::new();

    let events = scheduler.collect(SimTime::from_ticks(0));

    assert!(events.is_empty());
}

#[test]
fn scheduler_collect_returns_empty_when_no_event_matches_now() {
    let mut scheduler = Scheduler::<u8>::new();

    let now = SimTime::from_ticks(30);
    let priority = EventPriority::new(0);
    scheduler.schedule(now, Duration::ticks(10), priority, 1);
    scheduler.schedule(now, Duration::ticks(30), priority, 2);
    scheduler.schedule(now, Duration::ticks(40), priority, 3);

    let events = scheduler.collect(SimTime::from_ticks(30));

    assert!(events.is_empty());

    let (time, _) = scheduler.peek().unwrap();
    assert_eq!(time, SimTime::from_ticks(40));
}

#[test]
fn scheduler_collect_orders_by_event_id_when_time_and_priority_are_same() {
    let mut scheduler = Scheduler::<u8>::new();

    let now = SimTime::from_ticks(0);
    let duration = Duration::ticks(10);
    let priority = EventPriority::new(10);
    scheduler.schedule(now, duration, priority, 1);
    scheduler.schedule(now, duration, priority, 2);
    scheduler.schedule(now, duration, priority, 3);

    let events = scheduler.collect(SimTime::from_ticks(10));

    let payloads: Vec<_> = events.into_iter().map(|e| e.payload).collect();

    assert_eq!(payloads, vec![1, 2, 3]);
}

#[test]
fn scheduler_collect_leaves_future_events_in_queue() {
    let mut scheduler = Scheduler::<u8>::new();

    let now = SimTime::from_ticks(0);
    let priority = EventPriority::new(10);
    scheduler.schedule(now, Duration::ticks(10), priority, 1);
    scheduler.schedule(now, Duration::ticks(10), priority, 1);
    scheduler.schedule(now, Duration::ticks(20), priority, 3);

    let events = scheduler.collect(SimTime::from_ticks(10));

    assert_eq!(events.len(), 2);
    assert_eq!(events[0].payload, 1);
    assert_eq!(events[1].payload, 1);

    let (time, event) = scheduler.peek().unwrap();

    assert_eq!(time, SimTime::from_ticks(20));
    assert_eq!(event.payload, 3);
}

#[test]
fn scheduler_collect_reversed_payload() {
    let mut scheduler = Scheduler::<u8>::new();

    let now = SimTime::from_ticks(0);
    let priority = EventPriority::new(10);
    scheduler.schedule(now, Duration::ticks(10), priority, 2);
    scheduler.schedule(now, Duration::ticks(10), priority, 1);
    scheduler.schedule(now, Duration::ticks(20), priority, 3);

    let events = scheduler.collect(SimTime::from_ticks(10));

    assert_eq!(events.len(), 2);
    assert_eq!(events[0].payload, 2);
    assert_eq!(events[1].payload, 1);

    let (time, event) = scheduler.peek().unwrap();

    assert_eq!(time, SimTime::from_ticks(20));
    assert_eq!(event.payload, 3);
}

#[test]
fn scheduler_collect_same_payload_in_queue() {
    let mut scheduler = Scheduler::<u8>::new();

    let now = SimTime::from_ticks(0);
    let priority = EventPriority::new(10);
    scheduler.schedule(now, Duration::ticks(10), priority, 1);
    scheduler.schedule(now, Duration::ticks(10), priority, 2);
    scheduler.schedule(now, Duration::ticks(20), priority, 3);

    let events = scheduler.collect(SimTime::from_ticks(10));

    assert_eq!(events.len(), 2);

    let (time, event) = scheduler.peek().unwrap();

    assert_eq!(time, SimTime::from_ticks(20));
    assert_eq!(event.payload, 3);
}
