//! The queue of scheduled events.
//!
//! Newly scheduled events wait in a pending list until [`EventScheduler::flush_pending`] moves
//! them into the ready queue; only the ready queue is handed out. The ready queue is ordered by
//! scheduled time, then by priority (higher first), then by event id (earlier first).
use crate::modeling::event::{Event, EventPriority};
use crate::primitive::id::EventId;
use crate::primitive::time::{Duration, SimTime};
use crate::queue::{insert_all, lemma_insert_all, lemma_insert_all_elements, sorted, Keyed, QueueKey};
use crate::staged_queue::{lemma_sorted_first_least, all_satisfy, due_after, due_at_or_after, lemma_sub_multiset_all, StagedQueue, Timed};
use std::collections::VecDeque;
use vstd::prelude::*;

verus! {

broadcast use vstd::seq_lib::group_to_multiset_ensures;

/// An event together with the time at which it is due.
pub struct ScheduledEvent<E> {
    pub scheduled_at: SimTime,
    pub event: Event<E>,
}

/// The ordering key of an event: its time, then its priority reversed, then its id.
pub open spec fn event_key(scheduled_at: SimTime, priority: EventPriority, event_id: EventId) -> QueueKey {
    QueueKey { time: scheduled_at.0, rank: (u64::MAX - priority.0) as u64, seq: event_id.0 }
}

impl<E> Keyed for ScheduledEvent<E> {
    open spec fn spec_key(&self) -> QueueKey {
        event_key(self.scheduled_at, self.event.priority, self.event.event_id)
    }

    fn key(&self) -> (k: QueueKey) {
        QueueKey {
            time: self.scheduled_at.0,
            rank: u64::MAX - self.event.priority.0,
            seq: self.event.event_id.0,
        }
    }
}

impl<E> Timed for ScheduledEvent<E> {
    type Payload = Event<E>;

    open spec fn spec_time(&self) -> SimTime {
        self.scheduled_at
    }

    open spec fn spec_payload(&self) -> Event<E> {
        self.event
    }

    proof fn lemma_key_time(&self) {
    }

    fn time(&self) -> (t: SimTime) {
        self.scheduled_at
    }

    fn payload(&self) -> (p: &Event<E>) {
        &self.event
    }
}

/// Every event of `s` has an id below `n`.
pub open spec fn ids_below<E>(s: Seq<ScheduledEvent<E>>, n: u64) -> bool {
    forall|i: int| 0 <= i < s.len() ==> (#[trigger] s[i]).event.event_id.0 < n
}

/// The events of `s` as `(time, event)` pairs.
pub open spec fn as_pairs<E>(s: Seq<ScheduledEvent<E>>) -> Seq<(SimTime, Event<E>)> {
    s.map_values(|x: ScheduledEvent<E>| (x.scheduled_at, x.event))
}

/// The events of `s` without their times.
pub open spec fn as_events<E>(s: Seq<ScheduledEvent<E>>) -> Seq<Event<E>> {
    s.map_values(|x: ScheduledEvent<E>| x.event)
}

/// Scheduled events: a ready queue in order, pending events not yet flushed into it, and the
/// id the next scheduled event will get.
pub struct EventScheduler<E> {
    queue: StagedQueue<ScheduledEvent<E>>,
    next_event_id: u64,
}

impl<E> EventScheduler<E> {
    /// The ready queue is in order and every queued event has an id below the next id.
    pub open spec fn wf(&self) -> bool {
        &&& self.staged().wf()
        &&& ids_below(self.ready(), self.next_id())
        &&& ids_below(self.pending(), self.next_id())
    }

    /// The two stages of the queue.
    pub closed spec fn staged(&self) -> StagedQueue<ScheduledEvent<E>> {
        self.queue
    }

    /// The events that can be handed out, in order.
    pub open spec fn ready(&self) -> Seq<ScheduledEvent<E>> {
        self.staged().ready()
    }

    /// The events scheduled since the last flush, in the order they were scheduled.
    pub open spec fn pending(&self) -> Seq<ScheduledEvent<E>> {
        self.staged().pending()
    }

    /// The id the next scheduled event will get.
    pub closed spec fn next_id(&self) -> u64 {
        self.next_event_id
    }

    /// Every queued event, ready or pending, is due at or after tick `t`.
    pub open spec fn all_at_or_after(&self, t: u64) -> bool {
        due_at_or_after(self.ready(), t) && due_at_or_after(self.pending(), t)
    }

    /// Whether a event waits in the pending list.
    pub fn has_pending(&self) -> (r: bool)
        ensures
            r == (self.pending().len() > 0),
    {
        self.queue.pending_len() > 0
    }

    /// Whether a ready event is due at `tick`; nothing ready may be due before it.
    pub fn holds_due_at(&self, tick: SimTime) -> (r: bool)
        requires
            self.wf(),
            due_at_or_after(self.ready(), tick.0),
        ensures
            r == !due_after(self.ready(), tick.0),
    {
        self.queue.holds_due_at(tick)
    }

    /// The first ready event is due no later than any other.
    pub proof fn lemma_first_is_least(&self)
        requires
            self.wf(),
        ensures
            self.ready().len() > 0 ==> forall|i: int| 0 <= i < self.ready().len() ==> (#[trigger] self.ready()[i]).scheduled_at.0 >= self.ready()[0].scheduled_at.0,
    {
        if self.ready().len() > 0 {
            lemma_sorted_first_least(self.ready());
        }
    }

    /// The time of the first ready event.
    pub open spec fn next_time(&self) -> Option<SimTime> {
        if self.ready().len() > 0 {
            Some(self.ready()[0].scheduled_at)
        } else {
            None
        }
    }

    /// Whether an event can be scheduled `delay` ticks after `current_tick`: its time and the
    /// next id must be representable.
    pub open spec fn can_schedule(&self, current_tick: SimTime, delay: Duration) -> bool {
        current_tick.0 + delay.0 <= u64::MAX && self.next_id() < u64::MAX
    }

    /// An empty scheduler whose first event will get id 0.
    pub fn new() -> (r: Self)
        ensures
            r.wf(),
            r.ready() == Seq::<ScheduledEvent<E>>::empty(),
            r.pending() == Seq::<ScheduledEvent<E>>::empty(),
            r.next_id() == 0,
    {
        EventScheduler { queue: StagedQueue::new(), next_event_id: 0 }
    }

    /// Whether an event can be scheduled `delay` ticks after `current_tick` (see
    /// [`EventScheduler::can_schedule`]).
    pub fn can_schedule_event(&self, current_tick: SimTime, delay: Duration) -> (r: bool)
        ensures
            r == self.can_schedule(current_tick, delay),
    {
        delay.0 <= u64::MAX - current_tick.0 && self.next_event_id < u64::MAX
    }

    /// Schedules `event_payload` at `current_tick + delay` with `priority`. The event gets the
    /// next id and waits in the pending list until the next flush.
    pub fn schedule(&mut self, current_tick: SimTime, delay: Duration, priority: EventPriority, event_payload: E)
        requires
            old(self).wf(),
            old(self).can_schedule(current_tick, delay),
        ensures
            final(self).wf(),
            final(self).ready() == old(self).ready(),
            final(self).pending() == old(self).pending().push(
                ScheduledEvent {
                    scheduled_at: SimTime((current_tick.0 + delay.0) as u64),
                    event: Event { event_id: EventId(old(self).next_id()), priority, payload: event_payload },
                },
            ),
            final(self).next_id() == old(self).next_id() + 1,
    {
        let time = current_tick + delay;
        let event_id = EventId::new(self.next_event_id);
        self.next_event_id = self.next_event_id + 1;
        self.queue.push_pending(ScheduledEvent { scheduled_at: time, event: Event::new(event_id, priority, event_payload) });
    }

    /// Removes the ready events due at `current_tick` and returns them in order. The ready queue
    /// must hold nothing due before `current_tick`.
    pub fn drain_ready(&mut self, current_tick: SimTime) -> (r: VecDeque<Event<E>>)
        requires
            old(self).wf(),
            due_at_or_after(old(self).ready(), current_tick.0),
        ensures
            final(self).wf(),
            old(self).ready() == old(self).ready().take(r@.len() as int) + final(self).ready(),
            r@ == as_events(old(self).ready().take(r@.len() as int)),
            forall|i: int| 0 <= i < r@.len() ==> (#[trigger] old(self).ready()[i]).scheduled_at == current_tick,
            due_after(final(self).ready(), current_tick.0),
            final(self).pending() == old(self).pending(),
            final(self).next_id() == old(self).next_id(),
    {
        let ghost old_ready = self.queue.ready();
        let mut taken = self.queue.drain_ready(current_tick);
        let ghost taken_seq = taken@;
        proof {
            let n = self.next_event_id;
            assert forall|i: int| 0 <= i < self.queue.ready().len() implies (#[trigger] self.queue.ready()[i]).event.event_id.0 < n by {
                assert(self.queue.ready()[i] == old_ready[i + taken_seq.len()]);
            }
        }
        let mut events: VecDeque<Event<E>> = VecDeque::new();
        let mut i: usize = 0;
        let n = taken.len();
        while taken.len() > 0
            invariant
                taken@ == taken_seq.skip(i as int),
                i <= n,
                n == taken_seq.len(),
                events@ == as_events(taken_seq.take(i as int)),
            decreases taken@.len(),
        {
            let x = taken.remove(0);
            proof {
                assert(taken_seq.take(i + 1) =~= taken_seq.take(i as int).push(x));
            }
            events.push_back(x.event);
            i = i + 1;
            proof {
                assert(taken@ =~= taken_seq.skip(i as int));
                assert(events@ =~= as_events(taken_seq.take(i as int)));
            }
        }
        proof {
            assert(taken_seq.take(i as int) =~= taken_seq);
            assert(old_ready.take(i as int) =~= taken_seq);
        }
        events
    }

    /// The time of the first ready event, if any.
    pub fn peek_next_time(&self) -> (r: Option<SimTime>)
        ensures
            r == self.next_time(),
    {
        match self.queue.first() {
            Some(x) => Some(x.scheduled_at),
            None => None,
        }
    }

    /// The first ready event and its time, if any.
    pub fn peek(&self) -> (r: Option<(SimTime, &Event<E>)>)
        ensures
            self.ready().len() == 0 ==> r is None,
            self.ready().len() > 0 ==> (r matches Some((t, e)) && t == self.ready()[0].scheduled_at && *e == self.ready()[0].event),
    {
        match self.queue.first() {
            Some(x) => Some((x.scheduled_at, &x.event)),
            None => None,
        }
    }

    /// The number of ready events.
    pub fn ready_queue_len(&self) -> (r: usize)
        ensures
            r == self.ready().len(),
    {
        self.queue.ready_len()
    }

    /// Moves the pending events into the ready queue, each after the ready events that come
    /// before it in order.
    pub fn flush_pending(&mut self)
        requires
            old(self).wf(),
        ensures
            final(self).wf(),
            final(self).ready() == insert_all(old(self).ready(), old(self).pending()),
            final(self).pending() == Seq::<ScheduledEvent<E>>::empty(),
            final(self).next_id() == old(self).next_id(),
    {
        proof {
            let n = self.next_event_id;
            lemma_insert_all_elements(self.queue.ready(), self.queue.pending(), |y: ScheduledEvent<E>| y.event.event_id.0 < n);
        }
        self.queue.flush();
    }

    /// Drops the queued events, ready or pending, that are due before `tick`; a scheduler that
    /// holds none is left as it is.
    pub fn retain_from(&mut self, tick: SimTime)
        requires
            old(self).wf(),
        ensures
            final(self).wf(),
            final(self).all_at_or_after(tick.0),
            final(self).next_id() == old(self).next_id(),
            old(self).all_at_or_after(tick.0) ==> *final(self) == *old(self),
    {
        if self.queue.holds_before(tick) {
            let ghost n = self.next_event_id;
            let ghost p = |y: ScheduledEvent<E>| y.event.event_id.0 < n;
            proof {
                assert(all_satisfy(self.queue.ready(), p));
                assert(all_satisfy(self.queue.pending(), p));
            }
            self.queue.drop_before(tick);
            proof {
                assert(all_satisfy(self.queue.ready(), p));
            }
        }
    }

    /// Removes every queued event, ready or pending, for which `pred` holds, and returns them as
    /// `(time, event)` pairs in queue order. The pending events are looked at first, then the ready
    /// ones: `pred` is asked of each in turn until it accepts one, and only then once more of
    /// each, to sort them out.
    pub fn drain_cancel_scheduled<F>(&mut self, pred: F) -> (r: VecDeque<(SimTime, Event<E>)>)
        where
            F: FnMut(SimTime, &Event<E>) -> bool,
        requires
            old(self).wf(),
            forall|t: SimTime, e: &Event<E>| call_requires(pred, (t, e)),
        ensures
            final(self).wf(),
            exists|cancelled: Seq<ScheduledEvent<E>>| {
                &&& r@ == as_pairs(cancelled)
                &&& sorted(cancelled)
                &&& cancelled.to_multiset().add(final(self).staged().contents()) == old(self).staged().contents()
                &&& forall|i: int| 0 <= i < cancelled.len() ==> call_ensures(pred, ((#[trigger] cancelled[i]).scheduled_at, &cancelled[i].event), true)
            },
            forall|i: int| 0 <= i < final(self).ready().len() ==> call_ensures(pred, ((#[trigger] final(self).ready()[i]).scheduled_at, &final(self).ready()[i].event), false),
            forall|i: int| 0 <= i < final(self).pending().len() ==> call_ensures(pred, ((#[trigger] final(self).pending()[i]).scheduled_at, &final(self).pending()[i].event), false),
            final(self).ready().to_multiset().subset_of(old(self).ready().to_multiset()),
            final(self).pending().to_multiset().subset_of(old(self).pending().to_multiset()),
            final(self).next_id() == old(self).next_id(),
            forall|t: u64| #[trigger] old(self).all_at_or_after(t) ==> final(self).all_at_or_after(t),
    {
        let ghost old_ready = self.queue.ready();
        let ghost old_pending = self.queue.pending();
        let mut v = self.queue.drain_cancel(pred);
        let ghost cs = v@;
        proof {
            let all = old_ready + old_pending;
            vstd::seq_lib::lemma_multiset_commutative(old_ready, old_pending);
            assert forall|t: u64| #[trigger] old(self).all_at_or_after(t) implies self.all_at_or_after(t) by {
                let q = |y: ScheduledEvent<E>| y.spec_time().0 >= t;
                assert forall|i: int| 0 <= i < all.len() implies q(#[trigger] all[i]) by {
                    if i < old_ready.len() {
                        assert(all[i] == old_ready[i]);
                    } else {
                        assert(all[i] == old_pending[i - old_ready.len()]);
                    }
                }
                lemma_sub_multiset_all(self.queue.ready(), all, q);
                lemma_sub_multiset_all(self.queue.pending(), all, q);
            }
        }
        proof {
            let n = self.next_event_id;
            let p = |y: ScheduledEvent<E>| y.event.event_id.0 < n;
            let all = old_ready + old_pending;
            vstd::seq_lib::lemma_multiset_commutative(old_ready, old_pending);
            assert forall|i: int| 0 <= i < all.len() implies p(#[trigger] all[i]) by {
                if i < old_ready.len() {
                    assert(all[i] == old_ready[i]);
                } else {
                    assert(all[i] == old_pending[i - old_ready.len()]);
                }
            }
            assert(self.queue.ready().to_multiset().subset_of(all.to_multiset()));
            assert(self.queue.pending().to_multiset().subset_of(all.to_multiset()));
            lemma_sub_multiset_all(self.queue.ready(), all, p);
            lemma_sub_multiset_all(self.queue.pending(), all, p);
        }
        let mut out: VecDeque<(SimTime, Event<E>)> = VecDeque::new();
        #[verifier::loop_isolation(false)]
        while v.len() > 0
            invariant
                cs.len() == v@.len() + out@.len(),
                v@ == cs.take(v@.len() as int),
                out@ == as_pairs(cs.skip(v@.len() as int)),
            decreases v@.len(),
        {
            let ghost n = v@.len();
            let x = v.pop().unwrap();
            proof {
                assert(cs.skip(n - 1) =~= seq![x] + cs.skip(n as int));
                assert(v@ =~= cs.take(n - 1));
            }
            out.push_front((x.scheduled_at, x.event));
            proof {
                assert(out@ =~= as_pairs(cs.skip(v@.len() as int)));
            }
        }
        proof {
            assert(cs.skip(0) =~= cs);
        }
        out
    }
}

/// Flushing loses no event and keeps the ready queue in order: the ready queue after
/// [`EventScheduler::flush_pending`] is in order and holds exactly the events that were ready or
/// pending before.
pub proof fn law_flush_keeps_every_event_in_order<E>(scheduler: EventScheduler<E>)
    requires
        scheduler.wf(),
    ensures
        sorted(insert_all(scheduler.ready(), scheduler.pending())),
        insert_all(scheduler.ready(), scheduler.pending()).to_multiset() == scheduler.staged().contents(),
{
    lemma_insert_all(scheduler.ready(), scheduler.pending());
}

/// The ready queue hands events out by time; at the same time by priority, higher first; at the
/// same time and priority by id, earlier first.
pub proof fn law_ready_order<E>(scheduler: EventScheduler<E>, i: int, j: int)
    requires
        scheduler.wf(),
        0 <= i < j < scheduler.ready().len(),
    ensures
        ({
            let a = scheduler.ready()[i];
            let b = scheduler.ready()[j];
            &&& a.scheduled_at.0 <= b.scheduled_at.0
            &&& a.scheduled_at == b.scheduled_at ==> a.event.priority.0 >= b.event.priority.0
            &&& a.scheduled_at == b.scheduled_at && a.event.priority == b.event.priority ==> a.event.event_id.0 <= b.event.event_id.0
        }),
{
    let a = scheduler.ready()[i];
    let b = scheduler.ready()[j];
    assert(crate::queue::key_le(a.spec_key(), b.spec_key()));
}

/// Draining at a tick takes every ready event due at that tick, and only those: an event is
/// among the taken ones exactly when it was ready and due at the tick. Here `before` is the
/// ready queue before [`EventScheduler::drain_ready`], `n` the number of events it returned and
/// `after` the ready queue after it.
pub proof fn law_drain_takes_exactly_the_due_events<E>(before: Seq<ScheduledEvent<E>>, after: Seq<ScheduledEvent<E>>, n: int, tick: SimTime)
    requires
        0 <= n <= before.len(),
        before == before.take(n) + after,
        forall|i: int| 0 <= i < n ==> (#[trigger] before[i]).scheduled_at == tick,
        due_after(after, tick.0),
    ensures
        forall|i: int| 0 <= i < before.len() ==> (i < n <==> (#[trigger] before[i]).scheduled_at == tick),
{
    assert forall|i: int| 0 <= i < before.len() implies (i < n <==> (#[trigger] before[i]).scheduled_at == tick) by {
        if i >= n {
            assert(before[i] == after[i - n]);
        }
    }
}

} // verus!
