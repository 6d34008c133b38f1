//! Identifiers handed out to events and sources.
use vstd::prelude::*;

verus! {

/// Identifies a scheduled event; handed out in increasing order by the event scheduler.
#[derive(Clone, Copy, PartialEq, Eq, Structural, Hash, Debug, PartialOrd, Ord)]
pub struct EventId(pub u64);

impl EventId {
    /// Creates an identifier from its raw value.
    pub fn new(value: u64) -> (r: EventId)
        ensures
            r.0 == value,
    {
        EventId(value)
    }

    /// Returns the raw value.
    pub fn value(&self) -> (r: u64)
        ensures
            r == self.0,
    {
        self.0
    }
}

/// Identifies a registered source; handed out in registration order.
#[derive(Clone, Copy, PartialEq, Eq, Structural, Hash, Debug, PartialOrd, Ord)]
pub struct SourceId(pub u64);

impl SourceId {
    /// Creates an identifier from its raw value.
    pub fn new(value: u64) -> (r: SourceId)
        ensures
            r.0 == value,
    {
        SourceId(value)
    }

    /// Returns the raw value.
    pub fn value(&self) -> (r: u64)
        ensures
            r == self.0,
    {
        self.0
    }
}

} // verus!
