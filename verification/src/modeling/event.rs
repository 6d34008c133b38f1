//! Events and their priorities.
use crate::primitive::id::EventId;
use vstd::prelude::*;

verus! {

/// The priority of an event among the events due at the same tick: higher values are
/// handed out first.
#[derive(Clone, Copy, PartialEq, Eq, Structural, Hash, Debug, PartialOrd, Ord)]
pub struct EventPriority(pub u64);

impl EventPriority {
    /// A priority with the given value.
    pub fn new(value: u64) -> (r: EventPriority)
        ensures
            r.0 == value,
    {
        EventPriority(value)
    }

    /// The lowest priority.
    pub fn minimum() -> (r: EventPriority)
        ensures
            r.0 == 0,
    {
        EventPriority(0)
    }

    /// The highest priority.
    pub fn maximum() -> (r: EventPriority)
        ensures
            r.0 == u64::MAX,
    {
        EventPriority(u64::MAX)
    }

    /// The value of the priority.
    pub fn value(&self) -> (r: u64)
        ensures
            r == self.0,
    {
        self.0
    }
}

/// An event: its identifier, its priority and the payload that the model handles.
#[derive(Clone, Debug)]
pub struct Event<E> {
    pub event_id: EventId,
    pub priority: EventPriority,
    pub payload: E,
}

impl<E> Event<E> {
    /// An event with the given parts.
    pub fn new(event_id: EventId, priority: EventPriority, payload: E) -> (r: Event<E>)
        ensures
            r.event_id == event_id,
            r.priority == priority,
            r.payload == payload,
    {
        Event { event_id, priority, payload }
    }
}

} // verus!
