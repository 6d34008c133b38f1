//! The registered sources and the queue of their scheduled firings.
//!
//! Sources are identified by their registration order. A firing waits in a pending list until
//! [`SourceHandler::flush_pending`] moves it into the ready queue, which is ordered by time and
//! then by source id.
use crate::context::SourceContext;
use crate::modeling::model::Model;
use crate::modeling::source::Source;
use crate::primitive::id::SourceId;
use crate::primitive::time::{Duration, SimTime};
use crate::queue::{insert_all, lemma_insert_all_elements, sorted, Keyed, QueueKey};
use crate::staged_queue::{lemma_sorted_first_least, all_satisfy, due_after, due_at_or_after, lemma_sub_multiset_all, StagedQueue, Timed};
use std::collections::VecDeque;
use vstd::prelude::*;

verus! {

broadcast use vstd::seq_lib::group_to_multiset_ensures;

/// A due (or scheduled) firing of a source: the source's id and name.
#[derive(Clone, Copy, Debug)]
pub struct SourceReadyEntry {
    pub source_id: SourceId,
    pub name: &'static str,
}

impl SourceReadyEntry {
    /// An entry for the source `source_id` named `name`.
    pub fn new(source_id: SourceId, name: &'static str) -> (r: SourceReadyEntry)
        ensures
            r.source_id == source_id,
            r.name == name,
    {
        SourceReadyEntry { source_id, name }
    }

    /// The source's id.
    pub fn source_id(&self) -> (r: SourceId)
        ensures
            r == self.source_id,
    {
        self.source_id
    }

    /// The source's name.
    pub fn name(&self) -> (r: &'static str)
        ensures
            r == self.name,
    {
        self.name
    }
}

/// What hooks see of a source: its id and name.
#[derive(Clone, Copy, Debug)]
pub struct SourceView {
    pub source_id: SourceId,
    pub name: &'static str,
}

impl SourceView {
    /// A view of the source `source_id` named `name`.
    pub fn new(source_id: SourceId, name: &'static str) -> (r: SourceView)
        ensures
            r.source_id == source_id,
            r.name == name,
    {
        SourceView { source_id, name }
    }

    /// The source's id.
    pub fn source_id(&self) -> (r: SourceId)
        ensures
            r == self.source_id,
    {
        self.source_id
    }

    /// The source's name.
    pub fn name(&self) -> (r: &'static str)
        ensures
            r == self.name,
    {
        self.name
    }
}

/// A firing of a source together with the time at which it is due.
pub struct ScheduledSource {
    pub scheduled_at: SimTime,
    pub entry: SourceReadyEntry,
}

impl Keyed for ScheduledSource {
    open spec fn spec_key(&self) -> QueueKey {
        QueueKey { time: self.scheduled_at.0, rank: 0, seq: self.entry.source_id.0 }
    }

    fn key(&self) -> (k: QueueKey) {
        QueueKey { time: self.scheduled_at.0, rank: 0, seq: self.entry.source_id.0 }
    }
}

impl Timed for ScheduledSource {
    type Payload = SourceReadyEntry;

    open spec fn spec_time(&self) -> SimTime {
        self.scheduled_at
    }

    open spec fn spec_payload(&self) -> SourceReadyEntry {
        self.entry
    }

    proof fn lemma_key_time(&self) {
    }

    fn time(&self) -> (t: SimTime) {
        self.scheduled_at
    }

    fn payload(&self) -> (p: &SourceReadyEntry) {
        &self.entry
    }
}

/// The entries of `s` without their times.
pub open spec fn as_entries(s: Seq<ScheduledSource>) -> Seq<SourceReadyEntry> {
    s.map_values(|x: ScheduledSource| x.entry)
}

/// The entries of `s` as `(time, entry)` pairs.
pub open spec fn as_source_pairs(s: Seq<ScheduledSource>) -> Seq<(SimTime, SourceReadyEntry)> {
    s.map_values(|x: ScheduledSource| (x.scheduled_at, x.entry))
}

/// The firing `y` belongs to a source named in `names` and carries that source's name.
pub open spec fn named_by(y: ScheduledSource, names: Seq<&'static str>) -> bool {
    y.entry.source_id.0 < names.len() && y.entry.name == names[y.entry.source_id.0 as int]
}

/// Every firing in `s` belongs to a source named in `names` and carries that source's name.
pub open spec fn of_registered(s: Seq<ScheduledSource>, names: Seq<&'static str>) -> bool {
    forall|i: int| 0 <= i < s.len() ==> named_by(#[trigger] s[i], names)
}

/// `after` is the pending list `before` with the next firing of the source `source_id`, named
/// `name`, that fired at `tick` and returned `delay`: due `delay` after `tick` when it returned
/// one and that tick is representable; otherwise nothing was added.
pub open spec fn next_firing_scheduled(
    before: Seq<ScheduledSource>,
    after: Seq<ScheduledSource>,
    tick: SimTime,
    source_id: SourceId,
    name: &'static str,
    delay: Option<Duration>,
) -> bool {
    match delay {
        Some(d) if tick.0 + d.0 <= u64::MAX => after == before.push(
            ScheduledSource { scheduled_at: SimTime((tick.0 + d.0) as u64), entry: SourceReadyEntry { source_id, name } },
        ),
        _ => after == before,
    }
}

/// Every id in `s` is one of the first `count` ids.
pub open spec fn ids_registered(s: Seq<SourceId>, count: nat) -> bool {
    forall|i: int| 0 <= i < s.len() ==> (#[trigger] s[i]).0 < count
}

/// The registered sources, the queue of their firings, and the sources registered before the
/// simulation that still wait for their registration call.
#[verifier::reject_recursive_types(E)]
#[verifier::reject_recursive_types(M)]
pub struct SourceHandler<E, M: Model<E>> {
    sources: Vec<Box<dyn Source<E, M>>>,
    names: Vec<&'static str>,
    source_count: u64,
    queue: StagedQueue<ScheduledSource>,
    awaiting_registration: Vec<SourceId>,
}

impl<E, M: Model<E>> SourceHandler<E, M> {
    /// The number of registered sources; their ids are `0..count`.
    pub closed spec fn count(&self) -> nat {
        self.source_count as nat
    }

    /// The names of the registered sources, by id.
    pub closed spec fn names(&self) -> Seq<&'static str> {
        self.names@
    }

    /// The two stages of the firing queue.
    pub closed spec fn staged(&self) -> StagedQueue<ScheduledSource> {
        self.queue
    }

    /// The sources registered before the simulation whose registration call is still to come.
    pub closed spec fn awaiting(&self) -> Seq<SourceId> {
        self.awaiting_registration@
    }

    /// The firings that can be handed out, in order.
    pub open spec fn ready(&self) -> Seq<ScheduledSource> {
        self.staged().ready()
    }

    /// The firings scheduled since the last flush, in the order they were scheduled.
    pub open spec fn pending(&self) -> Seq<ScheduledSource> {
        self.staged().pending()
    }

    /// The ready queue is in order, every registered source has a name, every queued firing
    /// belongs to a registered source and carries its name, and every awaited registration
    /// belongs to a registered source.
    pub open spec fn wf(&self) -> bool {
        &&& self.staged().wf()
        &&& self.names().len() == self.count()
        &&& of_registered(self.ready(), self.names())
        &&& of_registered(self.pending(), self.names())
        &&& ids_registered(self.awaiting(), self.count())
    }

    /// Every queued firing, ready or pending, is due at or after tick `t`.
    pub open spec fn all_at_or_after(&self, t: u64) -> bool {
        due_at_or_after(self.ready(), t) && due_at_or_after(self.pending(), t)
    }

    /// Whether a firing waits in the pending list.
    pub fn has_pending(&self) -> (r: bool)
        ensures
            r == (self.pending().len() > 0),
    {
        self.queue.pending_len() > 0
    }

    /// Whether a ready firing is due at `tick`; nothing ready may be due before it.
    pub fn holds_due_at(&self, tick: SimTime) -> (r: bool)
        requires
            self.wf(),
            due_at_or_after(self.ready(), tick.0),
        ensures
            r == !due_after(self.ready(), tick.0),
    {
        self.queue.holds_due_at(tick)
    }

    /// The first ready firing is due no later than any other.
    pub proof fn lemma_first_is_least(&self)
        requires
            self.wf(),
        ensures
            self.ready().len() > 0 ==> forall|i: int| 0 <= i < self.ready().len() ==> (#[trigger] self.ready()[i]).scheduled_at.0 >= self.ready()[0].scheduled_at.0,
    {
        if self.ready().len() > 0 {
            lemma_sorted_first_least(self.ready());
        }
    }

    /// The time of the first ready firing.
    pub open spec fn next_time(&self) -> Option<SimTime> {
        if self.ready().len() > 0 {
            Some(self.ready()[0].scheduled_at)
        } else {
            None
        }
    }

    /// No sources.
    pub fn new() -> (r: Self)
        ensures
            r.wf(),
            r.count() == 0,
            r.names() == Seq::<&'static str>::empty(),
            r.ready() == Seq::<ScheduledSource>::empty(),
            r.pending() == Seq::<ScheduledSource>::empty(),
            r.awaiting() == Seq::<SourceId>::empty(),
    {
        SourceHandler { sources: Vec::new(), names: Vec::new(), source_count: 0, queue: StagedQueue::new(), awaiting_registration: Vec::new() }
    }

    /// Whether one more source can get an id.
    pub fn can_register(&self) -> (r: bool)
        ensures
            r == (self.count() < u64::MAX),
    {
        self.source_count < u64::MAX
    }

    /// Whether `source_id` is the id of a registered source.
    pub fn is_registered(&self, source_id: SourceId) -> (r: bool)
        ensures
            r == (source_id.0 < self.count()),
    {
        source_id.0 < self.source_count
    }

    /// Registers `source` as `name` with the next id; its registration call comes when the
    /// simulation begins.
    pub fn add_source_for_before_simulation<S: Source<E, M> + 'static>(&mut self, name: &'static str, source: S)
        requires
            old(self).wf(),
            old(self).count() < u64::MAX,
        ensures
            final(self).wf(),
            final(self).count() == old(self).count() + 1,
            final(self).names() == old(self).names().push(name),
            final(self).awaiting() == old(self).awaiting().push(SourceId(old(self).count() as u64)),
            final(self).staged() == old(self).staged(),
    {
        let id = SourceId::new(self.source_count);
        self.sources.push(Box::new(source));
        self.names.push(name);
        self.source_count = self.source_count + 1;
        self.awaiting_registration.push(id);
    }

    /// Registers `source` as `name` with the next id, its registration call already made; if
    /// that call returned a delay, the first firing is scheduled that long after `current_tick`.
    pub fn add_source_after_registered_action<S: Source<E, M> + 'static>(
        &mut self,
        name: &'static str,
        current_tick: SimTime,
        first_fire_delay: Option<Duration>,
        source: S,
    )
        requires
            old(self).wf(),
            old(self).count() < u64::MAX,
            first_fire_delay matches Some(d) ==> current_tick.0 + d.0 <= u64::MAX,
        ensures
            final(self).wf(),
            final(self).count() == old(self).count() + 1,
            final(self).names() == old(self).names().push(name),
            final(self).awaiting() == old(self).awaiting(),
            final(self).ready() == old(self).ready(),
            final(self).pending() == match first_fire_delay {
                Some(d) => old(self).pending().push(
                    ScheduledSource {
                        scheduled_at: SimTime((current_tick.0 + d.0) as u64),
                        entry: SourceReadyEntry { source_id: SourceId(old(self).count() as u64), name },
                    },
                ),
                None => old(self).pending(),
            },
    {
        let id = SourceId::new(self.source_count);
        self.sources.push(Box::new(source));
        self.names.push(name);
        self.source_count = self.source_count + 1;
        match first_fire_delay {
            Some(d) => {
                self.queue.push_pending(ScheduledSource { scheduled_at: current_tick + d, entry: SourceReadyEntry::new(id, name) });
            },
            None => {},
        }
    }

    /// Hands out the sources whose registration call is still to come, in registration order.
    pub fn take_awaiting_registration(&mut self) -> (r: Vec<SourceId>)
        requires
            old(self).wf(),
        ensures
            final(self).wf(),
            r@ == old(self).awaiting(),
            final(self).awaiting() == Seq::<SourceId>::empty(),
            final(self).count() == old(self).count(),
            final(self).names() == old(self).names(),
            final(self).staged() == old(self).staged(),
    {
        let mut r: Vec<SourceId> = Vec::new();
        std::mem::swap(&mut r, &mut self.awaiting_registration);
        r
    }

    /// The name of the source `source_id`; empty for an id that no source has.
    pub fn name_of(&self, source_id: SourceId) -> (r: &'static str)
        ensures
            source_id.0 < self.names().len() ==> r == self.names()[source_id.0 as int],
            source_id.0 >= self.names().len() ==> r@ == Seq::<char>::empty(),
    {
        if source_id.0 < self.names.len() as u64 {
            self.names[source_id.0 as usize]
        } else {
            proof {
                reveal_strlit("");
            }
            ""
        }
    }

    /// Makes the registration call of the source `source_id`; a source that is not stored makes
    /// none and returns `None`.
    pub fn call_on_registered(&mut self, source_id: SourceId, context: &mut SourceContext<E, M>, model: &M) -> (r: Option<Duration>)
        requires
            old(self).wf(),
            source_id.0 < old(self).count(),
        ensures
            final(self).wf(),
            final(self).count() == old(self).count(),
            final(self).names() == old(self).names(),
            final(self).staged() == old(self).staged(),
            final(self).awaiting() == old(self).awaiting(),
            final(context).tick_status() == old(context).tick_status(),
            final(context).micro_step_status() == old(context).micro_step_status(),
            final(context).hooks() == old(context).hooks(),
            final(context).scheduler().ready() == old(context).scheduler().ready(),
            old(context).scheduler().pending().len() <= final(context).scheduler().pending().len(),
            final(context).scheduler().pending().take(old(context).scheduler().pending().len() as int) == old(context).scheduler().pending(),
    {
        let i = source_id.0 as usize;
        if source_id.0 <= usize::MAX as u64 && i < self.sources.len() {
            self.sources[i].on_registered(context, model)
        } else {
            None
        }
    }

    /// Fires the source `source_id`; a source that is not stored does not fire and returns `None`.
    pub fn call_fire(&mut self, source_id: SourceId, context: &mut SourceContext<E, M>, model: &M) -> (r: Option<Duration>)
        requires
            old(self).wf(),
            source_id.0 < old(self).count(),
        ensures
            final(self).wf(),
            final(self).count() == old(self).count(),
            final(self).names() == old(self).names(),
            final(self).staged() == old(self).staged(),
            final(self).awaiting() == old(self).awaiting(),
            final(context).tick_status() == old(context).tick_status(),
            final(context).micro_step_status() == old(context).micro_step_status(),
            final(context).hooks() == old(context).hooks(),
            final(context).scheduler().ready() == old(context).scheduler().ready(),
            old(context).scheduler().pending().len() <= final(context).scheduler().pending().len(),
            final(context).scheduler().pending().take(old(context).scheduler().pending().len() as int) == old(context).scheduler().pending(),
    {
        let i = source_id.0 as usize;
        if source_id.0 <= usize::MAX as u64 && i < self.sources.len() {
            self.sources[i].fire(context, model)
        } else {
            None
        }
    }

    /// Schedules the next firing of the source `source_id` at `current_tick + delay`, under the
    /// source's name.
    pub fn schedule_next(&mut self, current_tick: SimTime, delay: Duration, source_id: SourceId)
        requires
            old(self).wf(),
            source_id.0 < old(self).count(),
            current_tick.0 + delay.0 <= u64::MAX,
        ensures
            final(self).wf(),
            final(self).count() == old(self).count(),
            final(self).names() == old(self).names(),
            final(self).awaiting() == old(self).awaiting(),
            final(self).ready() == old(self).ready(),
            final(self).pending() == old(self).pending().push(
                ScheduledSource {
                    scheduled_at: SimTime((current_tick.0 + delay.0) as u64),
                    entry: SourceReadyEntry { source_id, name: old(self).names()[source_id.0 as int] },
                },
            ),
    {
        let name = self.name_of(source_id);
        self.queue.push_pending(ScheduledSource { scheduled_at: current_tick + delay, entry: SourceReadyEntry::new(source_id, name) });
    }

    /// Removes the ready firings due at `current_tick` and returns them in order. The ready queue
    /// must hold nothing due before `current_tick`.
    pub fn drain_ready(&mut self, current_tick: SimTime) -> (r: VecDeque<SourceReadyEntry>)
        requires
            old(self).wf(),
            due_at_or_after(old(self).ready(), current_tick.0),
        ensures
            final(self).wf(),
            old(self).ready() == old(self).ready().take(r@.len() as int) + final(self).ready(),
            r@ == as_entries(old(self).ready().take(r@.len() as int)),
            forall|i: int| 0 <= i < r@.len() ==> (#[trigger] old(self).ready()[i]).scheduled_at == current_tick,
            due_after(final(self).ready(), current_tick.0),
            final(self).pending() == old(self).pending(),
            final(self).count() == old(self).count(),
            final(self).names() == old(self).names(),
            final(self).awaiting() == old(self).awaiting(),
    {
        let ghost old_ready = self.queue.ready();
        let mut taken = self.queue.drain_ready(current_tick);
        let ghost taken_seq = taken@;
        proof {
            assert forall|i: int| 0 <= i < self.queue.ready().len() implies named_by(#[trigger] self.queue.ready()[i], self.names()) by {
                assert(self.queue.ready()[i] == old_ready[i + taken_seq.len()]);
            }
        }
        let mut entries: VecDeque<SourceReadyEntry> = VecDeque::new();
        let mut i: usize = 0;
        let n = taken.len();
        while taken.len() > 0
            invariant
                taken@ == taken_seq.skip(i as int),
                i <= n,
                n == taken_seq.len(),
                entries@ == as_entries(taken_seq.take(i as int)),
            decreases taken@.len(),
        {
            let x = taken.remove(0);
            proof {
                assert(taken_seq.take(i + 1) =~= taken_seq.take(i as int).push(x));
            }
            entries.push_back(x.entry);
            i = i + 1;
            proof {
                assert(taken@ =~= taken_seq.skip(i as int));
                assert(entries@ =~= as_entries(taken_seq.take(i as int)));
            }
        }
        proof {
            assert(taken_seq.take(i as int) =~= taken_seq);
            assert(old_ready.take(i as int) =~= taken_seq);
        }
        entries
    }

    /// Drops the ready firings due before `current_tick`, which a handler taken from a context at
    /// a later tick can hold; the firings left are all due at or after `current_tick`.
    pub fn drop_overdue(&mut self, current_tick: SimTime)
        requires
            old(self).wf(),
        ensures
            final(self).wf(),
            due_at_or_after(final(self).ready(), current_tick.0),
            old(self).ready() == old(self).ready().take(old(self).ready().len() - final(self).ready().len()) + final(self).ready(),
            final(self).pending() == old(self).pending(),
            final(self).count() == old(self).count(),
            final(self).names() == old(self).names(),
            final(self).awaiting() == old(self).awaiting(),
    {
        let ghost old_ready = self.queue.ready();
        let taken = self.queue.drain_overdue(current_tick);
        proof {
            assert forall|i: int| 0 <= i < self.queue.ready().len() implies named_by(#[trigger] self.queue.ready()[i], self.names()) by {
                assert(self.queue.ready()[i] == old_ready[i + taken@.len()]);
            }
            assert(old_ready.take(old_ready.len() - self.queue.ready().len()) =~= taken@);
        }
    }

    /// Whether the ready queue holds a firing due before `current_tick`.
    pub fn has_overdue(&self, current_tick: SimTime) -> (r: bool)
        requires
            self.wf(),
        ensures
            r == !due_at_or_after(self.ready(), current_tick.0),
    {
        match self.queue.first() {
            Some(x) => {
                proof {
                    sorted_first_is_least(self.ready());
                }
                x.scheduled_at.0 < current_tick.0
            },
            None => false,
        }
    }

    /// The time of the first ready firing, if any.
    pub fn peek_next_time(&self) -> (r: Option<SimTime>)
        ensures
            r == self.next_time(),
    {
        match self.queue.first() {
            Some(x) => Some(x.scheduled_at),
            None => None,
        }
    }

    /// The first ready firing and its time, if any.
    pub fn peek(&self) -> (r: Option<(SimTime, &SourceReadyEntry)>)
        ensures
            self.ready().len() == 0 ==> r is None,
            self.ready().len() > 0 ==> (r matches Some((t, e)) && t == self.ready()[0].scheduled_at && *e == self.ready()[0].entry),
    {
        match self.queue.first() {
            Some(x) => Some((x.scheduled_at, &x.entry)),
            None => None,
        }
    }

    /// The number of ready firings.
    pub fn ready_queue_len(&self) -> (r: usize)
        ensures
            r == self.ready().len(),
    {
        self.queue.ready_len()
    }

    /// Moves the pending firings into the ready queue, each after the ready firings that come
    /// before it in order.
    pub fn flush_pending(&mut self)
        requires
            old(self).wf(),
        ensures
            final(self).wf(),
            final(self).ready() == insert_all(old(self).ready(), old(self).pending()),
            final(self).pending() == Seq::<ScheduledSource>::empty(),
            final(self).count() == old(self).count(),
            final(self).names() == old(self).names(),
            final(self).awaiting() == old(self).awaiting(),
    {
        proof {
            let ns = self.names();
            lemma_insert_all_elements(self.queue.ready(), self.queue.pending(), |y: ScheduledSource| named_by(y, ns));
        }
        self.queue.flush();
    }

    /// Drops the queued firings, ready or pending, that are due before `tick`; a handler that
    /// holds none is left as it is.
    pub fn retain_from(&mut self, tick: SimTime)
        requires
            old(self).wf(),
        ensures
            final(self).wf(),
            final(self).all_at_or_after(tick.0),
            final(self).count() == old(self).count(),
            final(self).names() == old(self).names(),
            final(self).awaiting() == old(self).awaiting(),
            old(self).all_at_or_after(tick.0) ==> *final(self) == *old(self),
    {
        if self.queue.holds_before(tick) {
            let ghost ns = self.names();
            let ghost p = |y: ScheduledSource| named_by(y, ns);
            proof {
                assert(all_satisfy(self.queue.ready(), p));
                assert(all_satisfy(self.queue.pending(), p));
            }
            self.queue.drop_before(tick);
            proof {
                assert(all_satisfy(self.queue.ready(), p));
            }
        }
    }

    /// Removes every queued firing, ready or pending, for which `pred` holds, and returns them as
    /// `(time, entry)` pairs in queue order. The pending firings are looked at first, then the ready
    /// ones: `pred` is asked of each in turn until it accepts one, and only then once more of
    /// each, to sort them out.
    pub fn drain_cancel_scheduled<F>(&mut self, pred: F) -> (r: Vec<(SimTime, SourceReadyEntry)>)
        where
            F: FnMut(SimTime, &SourceReadyEntry) -> bool,
        requires
            old(self).wf(),
            forall|t: SimTime, e: &SourceReadyEntry| call_requires(pred, (t, e)),
        ensures
            final(self).wf(),
            exists|cancelled: Seq<ScheduledSource>| {
                &&& r@ == as_source_pairs(cancelled)
                &&& sorted(cancelled)
                &&& cancelled.to_multiset().add(final(self).staged().contents()) == old(self).staged().contents()
                &&& forall|i: int| 0 <= i < cancelled.len() ==> call_ensures(pred, ((#[trigger] cancelled[i]).scheduled_at, &cancelled[i].entry), true)
            },
            forall|i: int| 0 <= i < final(self).ready().len() ==> call_ensures(pred, ((#[trigger] final(self).ready()[i]).scheduled_at, &final(self).ready()[i].entry), false),
            forall|i: int| 0 <= i < final(self).pending().len() ==> call_ensures(pred, ((#[trigger] final(self).pending()[i]).scheduled_at, &final(self).pending()[i].entry), false),
            final(self).count() == old(self).count(),
            final(self).names() == old(self).names(),
            final(self).awaiting() == old(self).awaiting(),
            final(self).ready().to_multiset().subset_of(old(self).ready().to_multiset()),
            final(self).pending().to_multiset().subset_of(old(self).pending().to_multiset()),
            forall|t: u64| #[trigger] old(self).all_at_or_after(t) ==> final(self).all_at_or_after(t),
    {
        let ghost old_ready = self.queue.ready();
        let ghost old_pending = self.queue.pending();
        let ghost ns = self.names();
        let mut v = self.queue.drain_cancel(pred);
        let ghost cs = v@;
        proof {
            let all = old_ready + old_pending;
            vstd::seq_lib::lemma_multiset_commutative(old_ready, old_pending);
            assert forall|t: u64| #[trigger] old(self).all_at_or_after(t) implies self.all_at_or_after(t) by {
                let q = |y: ScheduledSource| y.spec_time().0 >= t;
                assert forall|i: int| 0 <= i < all.len() implies q(#[trigger] all[i]) by {
                    if i < old_ready.len() {
                        assert(all[i] == old_ready[i]);
                    } else {
                        assert(all[i] == old_pending[i - old_ready.len()]);
                    }
                }
                lemma_sub_multiset_all(self.queue.ready(), all, q);
                lemma_sub_multiset_all(self.queue.pending(), all, q);
            }
        }
        proof {
            let p = |y: ScheduledSource| named_by(y, ns);
            let all = old_ready + old_pending;
            vstd::seq_lib::lemma_multiset_commutative(old_ready, old_pending);
            assert forall|i: int| 0 <= i < all.len() implies p(#[trigger] all[i]) by {
                if i < old_ready.len() {
                    assert(all[i] == old_ready[i]);
                } else {
                    assert(all[i] == old_pending[i - old_ready.len()]);
                }
            }
            assert(self.queue.ready().to_multiset().subset_of(all.to_multiset()));
            assert(self.queue.pending().to_multiset().subset_of(all.to_multiset()));
            lemma_sub_multiset_all(self.queue.ready(), all, p);
            lemma_sub_multiset_all(self.queue.pending(), all, p);
        }
        let mut out: Vec<(SimTime, SourceReadyEntry)> = Vec::new();
        let mut i: usize = 0;
        #[verifier::loop_isolation(false)]
        while i < v.len()
            invariant
                i <= v@.len(),
                v@ == cs,
                out@ == as_source_pairs(cs.take(i as int)),
            decreases v@.len() - i,
        {
            let x = &v[i];
            out.push((x.scheduled_at, x.entry));
            i = i + 1;
            proof {
                assert(out@ =~= as_source_pairs(cs.take(i as int)));
            }
        }
        proof {
            assert(cs.take(i as int) =~= cs);
        }
        out
    }
}

/// The first entry of a sorted sequence is due no later than any other.
pub proof fn sorted_first_is_least(s: Seq<ScheduledSource>)
    requires
        sorted(s),
        s.len() > 0,
    ensures
        forall|i: int| 0 <= i < s.len() ==> (#[trigger] s[i]).scheduled_at.0 >= s[0].scheduled_at.0,
{
    assert forall|i: int| 0 <= i < s.len() implies (#[trigger] s[i]).scheduled_at.0 >= s[0].scheduled_at.0 by {
        if i > 0 {
            assert(crate::queue::key_le(s[0].spec_key(), s[i].spec_key()));
        }
    }
}

/// The ready queue of a source handler hands firings out by time and, at the same time, by
/// source id, lower first.
pub proof fn law_firing_order<E, M: Model<E>>(handler: SourceHandler<E, M>, i: int, j: int)
    requires
        handler.wf(),
        0 <= i < j < handler.ready().len(),
    ensures
        handler.ready()[i].scheduled_at.0 <= handler.ready()[j].scheduled_at.0,
        handler.ready()[i].scheduled_at == handler.ready()[j].scheduled_at ==> handler.ready()[i].entry.source_id.0
            <= handler.ready()[j].entry.source_id.0,
{
    let a = handler.ready()[i];
    let b = handler.ready()[j];
    assert(crate::queue::key_le(a.spec_key(), b.spec_key()));
}

} // verus!
