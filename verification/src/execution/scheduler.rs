//! A single-stage event queue: events are scheduled straight into a queue ordered by time, then
//! priority (higher first), then id, and collected tick by tick.
use crate::event_scheduler::{as_events, event_key, ids_below, ScheduledEvent};
use crate::modeling::event::{Event, EventPriority};
use crate::primitive::id::EventId;
use crate::primitive::time::{Duration, SimTime};
use crate::queue::{insert_sorted, Keyed, TimedQueue};
use vstd::prelude::*;

verus! {

/// Scheduled events in one queue, and the id the next one will get.
pub struct Scheduler<E> {
    queue: TimedQueue<ScheduledEvent<E>>,
    next_event_id: u64,
}

impl<E> Scheduler<E> {
    /// The queue is in order and every queued event has an id below the next id.
    pub open spec fn wf(&self) -> bool {
        &&& self.queue().wf()
        &&& ids_below(self.events(), self.next_id())
    }

    /// The queue.
    pub closed spec fn queue(&self) -> TimedQueue<ScheduledEvent<E>> {
        self.queue
    }

    /// The queued events, in order.
    pub open spec fn events(&self) -> Seq<ScheduledEvent<E>> {
        self.queue()@
    }

    /// The id the next scheduled event will get.
    pub closed spec fn next_id(&self) -> u64 {
        self.next_event_id
    }

    /// An empty scheduler whose first event will get id 0.
    pub fn new() -> (r: Self)
        ensures
            r.wf(),
            r.events() == Seq::<ScheduledEvent<E>>::empty(),
            r.next_id() == 0,
    {
        Scheduler { queue: TimedQueue::new(), next_event_id: 0 }
    }

    /// Schedules `event_payload` at `now + delay` with `priority`; it gets the next id and takes
    /// its place in the queue.
    pub fn schedule(&mut self, now: SimTime, delay: Duration, priority: EventPriority, event_payload: E)
        requires
            old(self).wf(),
            now.0 + delay.0 <= u64::MAX,
            old(self).next_id() < u64::MAX,
        ensures
            final(self).wf(),
            final(self).events() == insert_sorted(
                old(self).events(),
                ScheduledEvent {
                    scheduled_at: SimTime((now.0 + delay.0) as u64),
                    event: Event { event_id: EventId(old(self).next_id()), priority, payload: event_payload },
                },
            ),
            final(self).next_id() == old(self).next_id() + 1,
    {
        let time = now + delay;
        let event_id = EventId::new(self.next_event_id);
        self.next_event_id = self.next_event_id + 1;
        let x = ScheduledEvent { scheduled_at: time, event: Event::new(event_id, priority, event_payload) };
        proof {
            let n = self.next_event_id;
            crate::queue::lemma_insert_sorted_elements(self.queue@, x, |y: ScheduledEvent<E>| y.event.event_id.0 < n);
        }
        self.queue.insert(x);
    }

    /// Removes the events due at `now` and returns them in order; no queued event may be due
    /// before `now`.
    pub fn collect(&mut self, now: SimTime) -> (r: Vec<Event<E>>)
        requires
            old(self).wf(),
            forall|i: int| 0 <= i < old(self).events().len() ==> (#[trigger] old(self).events()[i]).scheduled_at.0 >= now.0,
        ensures
            final(self).wf(),
            old(self).events() == old(self).events().take(r@.len() as int) + final(self).events(),
            r@ == as_events(old(self).events().take(r@.len() as int)),
            forall|i: int| 0 <= i < r@.len() ==> (#[trigger] old(self).events()[i]).scheduled_at == now,
            forall|i: int| 0 <= i < final(self).events().len() ==> (#[trigger] final(self).events()[i]).scheduled_at.0 > now.0,
            final(self).next_id() == old(self).next_id(),
    {
        let ghost old_events = self.queue@;
        let mut taken = self.queue.drain_at(now.0);
        let ghost taken_seq = taken@;
        proof {
            let n = self.next_event_id;
            assert forall|i: int| 0 <= i < self.queue@.len() implies (#[trigger] self.queue@[i]).event.event_id.0 < n by {
                assert(self.queue@[i] == old_events[i + taken_seq.len()]);
            }
        }
        let mut events: Vec<Event<E>> = Vec::new();
        let mut i: usize = 0;
        let n = taken.len();
        while taken.len() > 0
            invariant
                taken@ == taken_seq.skip(i as int),
                i <= n,
                n == taken_seq.len(),
                events@ == as_events(taken_seq.take(i as int)),
            decreases taken@.len(),
        {
            let x = taken.remove(0);
            proof {
                assert(taken_seq.take(i + 1) =~= taken_seq.take(i as int).push(x));
            }
            events.push(x.event);
            i = i + 1;
            proof {
                assert(taken@ =~= taken_seq.skip(i as int));
                assert(events@ =~= as_events(taken_seq.take(i as int)));
            }
        }
        proof {
            assert(taken_seq.take(i as int) =~= taken_seq);
            assert(old_events.take(i as int) =~= taken_seq);
            assert forall|k: int| 0 <= k < taken_seq.len() implies (#[trigger] old_events[k]).scheduled_at == now by {
                assert(old_events[k] == taken_seq[k]);
                assert(taken_seq[k].spec_key().time == now.0);
            }
            assert forall|k: int| 0 <= k < self.queue@.len() implies (#[trigger] self.queue@[k]).scheduled_at.0 > now.0 by {
                assert(self.queue@[k].spec_key().time > now.0);
            }
        }
        events
    }

    /// The first queued event and its time, if any.
    pub fn peek(&self) -> (r: Option<(SimTime, &Event<E>)>)
        ensures
            self.events().len() == 0 ==> r is None,
            self.events().len() > 0 ==> (r matches Some((t, e)) && t == self.events()[0].scheduled_at && *e == self.events()[0].event),
    {
        match self.queue.first() {
            Some(x) => Some((x.scheduled_at, &x.event)),
            None => None,
        }
    }
}

} // verus!
