//! The model: the simulated system, which changes state as it handles events.
use crate::context::EventContext;
use crate::modeling::event::Event;
use vstd::prelude::*;

verus! {

/// A simulated system. The engine hands it each due event; through the context it can schedule
/// further events, register sources and cancel what is scheduled, but it does not move the
/// context in time.
pub trait Model<E>: Sized {
    /// Handles `event` at the context's current tick.
    fn handle_event(&mut self, context: &mut EventContext<E, Self>, event: &Event<E>);
}

} // verus!
