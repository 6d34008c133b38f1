//! A queue in two stages: entries are first added to a pending list, and a flush moves them
//! into a ready queue kept in key order. Only the ready queue is handed out.
use crate::primitive::time::SimTime;
use crate::queue::{insert_all, lemma_insert_sorted, lemma_insert_sorted_elements, sorted, Keyed, TimedQueue};
use vstd::multiset::Multiset;
use vstd::prelude::*;

verus! {

broadcast use vstd::seq_lib::group_to_multiset_ensures;

/// A queue entry that is due at a time and carries a payload that predicates look at.
pub trait Timed: Keyed + Sized {
    type Payload;

    spec fn spec_time(&self) -> SimTime;

    spec fn spec_payload(&self) -> Self::Payload;

    /// The key's time is the time the entry is due.
    proof fn lemma_key_time(&self)
        ensures
            self.spec_key().time == self.spec_time().0,
    ;

    fn time(&self) -> (t: SimTime)
        ensures
            t == self.spec_time(),
    ;

    fn payload(&self) -> (p: &Self::Payload)
        ensures
            *p == self.spec_payload(),
    ;
}

/// Every entry of `s` is due at or after tick `t`.
pub open spec fn due_at_or_after<T: Timed>(s: Seq<T>, t: u64) -> bool {
    forall|i: int| 0 <= i < s.len() ==> (#[trigger] s[i]).spec_time().0 >= t
}

/// Every entry of `s` is due after tick `t`.
pub open spec fn due_after<T: Timed>(s: Seq<T>, t: u64) -> bool {
    forall|i: int| 0 <= i < s.len() ==> (#[trigger] s[i]).spec_time().0 > t
}

/// Every entry of `s` satisfies `p`.
pub open spec fn all_satisfy<T>(s: Seq<T>, p: spec_fn(T) -> bool) -> bool {
    forall|i: int| 0 <= i < s.len() ==> p(#[trigger] s[i])
}

/// What every entry of a sequence satisfies, every entry of a sequence with no more
/// occurrences of any entry satisfies too.
pub proof fn lemma_sub_multiset_all<T>(s: Seq<T>, t: Seq<T>, p: spec_fn(T) -> bool)
    requires
        s.to_multiset().subset_of(t.to_multiset()),
        all_satisfy(t, p),
    ensures
        all_satisfy(s, p),
{
    assert forall|i: int| 0 <= i < s.len() implies p(#[trigger] s[i]) by {
        let x = s[i];
        assert(s.contains(x));
        assert(s.to_multiset().count(x) > 0);
        assert(t.to_multiset().count(x) > 0);
        assert(t.contains(x));
        let k = choose|k: int| 0 <= k < t.len() && t[k] == x;
        assert(p(t[k]));
    }
}

/// The first entry of a sequence in key order is due no later than any other.
pub proof fn lemma_sorted_first_least<T: Timed>(s: Seq<T>)
    requires
        sorted(s),
        s.len() > 0,
    ensures
        forall|i: int| 0 <= i < s.len() ==> (#[trigger] s[i]).spec_time().0 >= s[0].spec_time().0,
{
    assert forall|i: int| 0 <= i < s.len() implies (#[trigger] s[i]).spec_time().0 >= s[0].spec_time().0 by {
        s[0].lemma_key_time();
        s[i].lemma_key_time();
        if i > 0 {
            assert(crate::queue::key_le(s[0].spec_key(), s[i].spec_key()));
        }
    }
}

/// Entries in two stages: a pending list in arrival order and a ready queue in key order.
pub struct StagedQueue<T: Timed> {
    ready_queue: TimedQueue<T>,
    pending_queue: Vec<T>,
}

impl<T: Timed> StagedQueue<T> {
    /// The ready queue is in key order.
    pub open spec fn wf(&self) -> bool {
        sorted(self.ready())
    }

    /// The ready entries, in order.
    pub closed spec fn ready(&self) -> Seq<T> {
        self.ready_queue@
    }

    /// The pending entries, in arrival order.
    pub closed spec fn pending(&self) -> Seq<T> {
        self.pending_queue@
    }

    /// The ready and pending entries together.
    pub open spec fn contents(&self) -> Multiset<T> {
        self.ready().to_multiset().add(self.pending().to_multiset())
    }

    /// An empty queue.
    pub fn new() -> (r: Self)
        ensures
            r.wf(),
            r.ready() == Seq::<T>::empty(),
            r.pending() == Seq::<T>::empty(),
    {
        StagedQueue { ready_queue: TimedQueue::new(), pending_queue: Vec::new() }
    }

    /// Adds `x` at the end of the pending list.
    pub fn push_pending(&mut self, x: T)
        requires
            old(self).wf(),
        ensures
            final(self).wf(),
            final(self).ready() == old(self).ready(),
            final(self).pending() == old(self).pending().push(x),
    {
        self.pending_queue.push(x);
    }

    /// The first ready entry, if any.
    pub fn first(&self) -> (r: Option<&T>)
        ensures
            self.ready().len() == 0 ==> r is None,
            self.ready().len() > 0 ==> (r matches Some(x) && *x == self.ready()[0]),
    {
        self.ready_queue.first()
    }

    /// The number of ready entries.
    pub fn ready_len(&self) -> (r: usize)
        ensures
            r == self.ready().len(),
    {
        self.ready_queue.len()
    }

    /// Moves the pending entries, first to last, into the ready queue.
    pub fn flush(&mut self)
        requires
            old(self).wf(),
        ensures
            final(self).wf(),
            final(self).ready() == insert_all(old(self).ready(), old(self).pending()),
            final(self).pending() == Seq::<T>::empty(),
    {
        let ghost old_ready = self.ready_queue@;
        let ghost old_pending = self.pending_queue@;
        let mut items: Vec<T> = Vec::new();
        std::mem::swap(&mut items, &mut self.pending_queue);
        while items.len() > 0
            invariant
                self.ready_queue.wf(),
                insert_all(self.ready_queue@, items@) == insert_all(old_ready, old_pending),
                self.pending_queue@ == Seq::<T>::empty(),
            decreases items@.len(),
        {
            let ghost before = items@;
            let x = items.remove(0);
            proof {
                assert(items@ =~= before.drop_first());
            }
            self.ready_queue.insert(x);
        }
        proof {
            assert(insert_all(self.ready_queue@, items@) == self.ready_queue@);
        }
    }

    /// Removes the ready entries due at `time` and returns them in order. The ready queue must
    /// hold nothing due before `time`.
    pub fn drain_ready(&mut self, time: SimTime) -> (r: Vec<T>)
        requires
            old(self).wf(),
            due_at_or_after(old(self).ready(), time.0),
        ensures
            final(self).wf(),
            r@ + final(self).ready() == old(self).ready(),
            forall|i: int| 0 <= i < r@.len() ==> (#[trigger] r@[i]).spec_time() == time,
            due_after(final(self).ready(), time.0),
            final(self).pending() == old(self).pending(),
    {
        let ghost old_ready = self.ready_queue@;
        assert forall|i: int| 0 <= i < old_ready.len() implies #[trigger] old_ready[i].spec_key().time >= time.0 by {
            old_ready[i].lemma_key_time();
        }
        let taken = self.ready_queue.drain_at(time.0);
        proof {
            assert forall|i: int| 0 <= i < taken@.len() implies (#[trigger] taken@[i]).spec_time() == time by {
                taken@[i].lemma_key_time();
            }
            assert forall|i: int| 0 <= i < self.ready_queue@.len() implies (#[trigger] self.ready_queue@[i]).spec_time().0 > time.0 by {
                self.ready_queue@[i].lemma_key_time();
            }
        }
        taken
    }

    /// Removes every entry, pending or ready, for which `pred` holds of its time and payload, and
    /// returns them in key order. The pending entries are looked at first, then the ready ones:
    /// `pred` is asked of each in turn until it accepts one, and only then once more of each, to
    /// sort them out.
    pub fn drain_cancel<F>(&mut self, mut pred: F) -> (r: Vec<T>)
        where
            F: FnMut(SimTime, &T::Payload) -> bool,
        requires
            old(self).wf(),
            forall|t: SimTime, p: &T::Payload| call_requires(pred, (t, p)),
        ensures
            final(self).wf(),
            sorted(r@),
            r@.to_multiset().add(final(self).contents()) == old(self).contents(),
            forall|i: int| 0 <= i < r@.len() ==> call_ensures(pred, ((#[trigger] r@[i]).spec_time(), &r@[i].spec_payload()), true),
            forall|i: int| 0 <= i < final(self).ready().len() ==> call_ensures(pred, ((#[trigger] final(self).ready()[i]).spec_time(), &final(self).ready()[i].spec_payload()), false),
            forall|i: int| 0 <= i < final(self).pending().len() ==> call_ensures(pred, ((#[trigger] final(self).pending()[i]).spec_time(), &final(self).pending()[i].spec_payload()), false),
            final(self).ready().to_multiset().subset_of(old(self).ready().to_multiset()),
            final(self).pending().to_multiset().subset_of(old(self).pending().to_multiset()),
    {
        let ghost old_ready = self.ready_queue@;
        let ghost old_pending = self.pending_queue@;
        let ghost pred0 = pred;
        let mut cancelled: TimedQueue<T> = TimedQueue::new();

        // Pending entries: when the predicate accepts one of them, keep those it rejects, in
        // their order.
        let mut any_pending = false;
        let mut j: usize = 0;
        while j < self.pending_queue.len()
            invariant_except_break
                !any_pending,
            invariant
                j <= self.pending_queue@.len(),
                self.pending_queue@ == old_pending,
                self.ready_queue@ == old_ready,
                pred == pred0,
                forall|t: SimTime, p: &T::Payload| call_requires(pred, (t, p)),
                forall|k: int| 0 <= k < j ==> call_ensures(pred, ((#[trigger] old_pending[k]).spec_time(), &old_pending[k].spec_payload()), false),
            ensures
                self.pending_queue@ == old_pending,
                self.ready_queue@ == old_ready,
                pred == pred0,
                !any_pending ==> forall|k: int| 0 <= k < old_pending.len() ==> call_ensures(pred, ((#[trigger] old_pending[k]).spec_time(), &old_pending[k].spec_payload()), false),
            decreases self.pending_queue@.len() - j,
        {
            let b = {
                let x = &self.pending_queue[j];
                pred(x.time(), x.payload())
            };
            if b {
                any_pending = true;
                break;
            }
            j = j + 1;
        }
        if any_pending {
            let mut items: Vec<T> = Vec::new();
            std::mem::swap(&mut items, &mut self.pending_queue);
            while items.len() > 0
                invariant
                    cancelled.wf(),
                    self.pending_queue@.to_multiset().add(cancelled@.to_multiset()).add(items@.to_multiset()) == old_pending.to_multiset(),
                    self.ready_queue@ == old_ready,
                    self.ready_queue.wf(),
                    pred == pred0,
                    forall|t: SimTime, p: &T::Payload| call_requires(pred, (t, p)),
                    forall|i: int| 0 <= i < cancelled@.len() ==> call_ensures(pred, ((#[trigger] cancelled@[i]).spec_time(), &cancelled@[i].spec_payload()), true),
                    forall|i: int| 0 <= i < self.pending_queue@.len() ==> call_ensures(pred, ((#[trigger] self.pending_queue@[i]).spec_time(), &self.pending_queue@[i].spec_payload()), false),
                decreases items@.len(),
            {
                let ghost before = items@;
                let ghost c_before = cancelled@;
                let x = items.remove(0);
                proof {
                    assert(before =~= seq![x] + items@);
                    vstd::seq_lib::lemma_multiset_commutative(seq![x], items@);
                    assert(seq![x] =~= Seq::<T>::empty().push(x));
                }
                let b = pred(x.time(), x.payload());
                if b {
                    proof {
                        lemma_insert_sorted(c_before, x);
                        let f = |y: T| call_ensures(pred, (y.spec_time(), &y.spec_payload()), true);
                        lemma_insert_sorted_elements(c_before, x, f);
                    }
                    cancelled.insert(x);
                } else {
                    self.pending_queue.push(x);
                }
            }
        } else {
            proof {
                assert(cancelled@.to_multiset() =~= Multiset::empty());
                assert(self.pending_queue@.to_multiset().add(cancelled@.to_multiset()) =~= old_pending.to_multiset());
            }
        }
        proof {
            assert(self.pending_queue@.to_multiset().subset_of(old_pending.to_multiset()));
        }
        let ghost kept_pending = self.pending_queue@;
        // Ready entries: when the predicate accepts one of them, remove those it accepts; the
        // rest keep their order.
        let mut any_ready = false;
        let mut j: usize = 0;
        while j < self.ready_queue.len()
            invariant_except_break
                !any_ready,
            invariant
                j <= self.ready_queue@.len(),
                self.ready_queue@ == old_ready,
                self.ready_queue.wf(),
                self.pending_queue@ == kept_pending,
                pred == pred0,
                forall|t: SimTime, p: &T::Payload| call_requires(pred, (t, p)),
                forall|k: int| 0 <= k < j ==> call_ensures(pred, ((#[trigger] old_ready[k]).spec_time(), &old_ready[k].spec_payload()), false),
            ensures
                self.ready_queue@ == old_ready,
                self.pending_queue@ == kept_pending,
                pred == pred0,
                !any_ready ==> forall|k: int| 0 <= k < old_ready.len() ==> call_ensures(pred, ((#[trigger] old_ready[k]).spec_time(), &old_ready[k].spec_payload()), false),
            decreases self.ready_queue@.len() - j,
        {
            let b = {
                let x = self.ready_queue.get(j);
                pred(x.time(), x.payload())
            };
            if b {
                any_ready = true;
                break;
            }
            j = j + 1;
        }
        let mut i: usize = if any_ready { 0 } else { self.ready_queue.len() };
        while i < self.ready_queue.len()
            invariant
                cancelled.wf(),
                self.ready_queue.wf(),
                i <= self.ready_queue@.len(),
                self.ready_queue@.to_multiset().add(cancelled@.to_multiset()).add(self.pending_queue@.to_multiset())
                    == old_ready.to_multiset().add(old_pending.to_multiset()),
                pred == pred0,
                forall|t: SimTime, p: &T::Payload| call_requires(pred, (t, p)),
                forall|k: int| 0 <= k < cancelled@.len() ==> call_ensures(pred, ((#[trigger] cancelled@[k]).spec_time(), &cancelled@[k].spec_payload()), true),
                forall|k: int| 0 <= k < self.pending_queue@.len() ==> call_ensures(pred, ((#[trigger] self.pending_queue@[k]).spec_time(), &self.pending_queue@[k].spec_payload()), false),
                forall|k: int| 0 <= k < i ==> call_ensures(pred, ((#[trigger] self.ready_queue@[k]).spec_time(), &self.ready_queue@[k].spec_payload()), false),
                self.pending_queue@ == kept_pending,
                kept_pending.to_multiset().subset_of(old_pending.to_multiset()),
                self.ready_queue@.to_multiset().subset_of(old_ready.to_multiset()),
            decreases self.ready_queue@.len() - i,
        {
            let b = {
                let x = self.ready_queue.get(i);
                pred(x.time(), x.payload())
            };
            if b {
                let ghost before = self.ready_queue@;
                let ghost c_before = cancelled@;
                let x = self.ready_queue.remove(i);
                proof {
                    assert(self.ready_queue@.to_multiset() =~= before.to_multiset().remove(before[i as int]));
                    lemma_insert_sorted(c_before, x);
                    let f = |y: T| call_ensures(pred, (y.spec_time(), &y.spec_payload()), true);
                    lemma_insert_sorted_elements(c_before, x, f);
                    assert forall|k: int| 0 <= k < i implies call_ensures(pred, ((#[trigger] self.ready_queue@[k]).spec_time(), &self.ready_queue@[k].spec_payload()), false) by {
                        assert(self.ready_queue@[k] == before[k]);
                    }
                }
                cancelled.insert(x);
            } else {
                i = i + 1;
            }
        }
        proof {
            assert(cancelled@.to_multiset().add(self.ready_queue@.to_multiset().add(self.pending_queue@.to_multiset()))
                =~= self.ready_queue@.to_multiset().add(cancelled@.to_multiset()).add(self.pending_queue@.to_multiset()));
        }
        cancelled.into_vec()
    }

    /// Removes the ready entries due before `time` and returns them in order.
    pub fn drain_overdue(&mut self, time: SimTime) -> (r: Vec<T>)
        requires
            old(self).wf(),
        ensures
            final(self).wf(),
            r@ + final(self).ready() == old(self).ready(),
            due_at_or_after(final(self).ready(), time.0),
            final(self).pending() == old(self).pending(),
    {
        let taken = self.ready_queue.drain_before(time.0);
        proof {
            assert forall|i: int| 0 <= i < self.ready_queue@.len() implies (#[trigger] self.ready_queue@[i]).spec_time().0 >= time.0 by {
                self.ready_queue@[i].lemma_key_time();
            }
        }
        taken
    }

    /// The number of pending entries.
    pub fn pending_len(&self) -> (r: usize)
        ensures
            r == self.pending().len(),
    {
        self.pending_queue.len()
    }

    /// Whether a ready entry is due at `time`; the ready queue must hold nothing due before it.
    pub fn holds_due_at(&self, time: SimTime) -> (r: bool)
        requires
            self.wf(),
            due_at_or_after(self.ready(), time.0),
        ensures
            r == !due_after(self.ready(), time.0),
    {
        match self.ready_queue.first() {
            Some(x) => {
                proof {
                    lemma_sorted_first_least(self.ready());
                    x.lemma_key_time();
                }
                x.time().0 == time.0
            },
            None => false,
        }
    }

    /// Whether an entry, ready or pending, is due before `time`.
    pub fn holds_before(&self, time: SimTime) -> (r: bool)
        requires
            self.wf(),
        ensures
            r == !(due_at_or_after(self.ready(), time.0) && due_at_or_after(self.pending(), time.0)),
    {
        let first_overdue = match self.ready_queue.first() {
            Some(x) => x.time().0 < time.0,
            None => false,
        };
        proof {
            if self.ready().len() > 0 {
                let s = self.ready();
                assert forall|i: int| 0 <= i < s.len() implies (#[trigger] s[i]).spec_time().0 >= s[0].spec_time().0 by {
                    s[0].lemma_key_time();
                    s[i].lemma_key_time();
                    if i > 0 {
                        assert(crate::queue::key_le(s[0].spec_key(), s[i].spec_key()));
                    }
                }
            }
        }
        if first_overdue {
            return true;
        }
        let mut i: usize = 0;
        while i < self.pending_queue.len()
            invariant
                i <= self.pending_queue@.len(),
                forall|k: int| 0 <= k < i ==> (#[trigger] self.pending_queue@[k]).spec_time().0 >= time.0,
            decreases self.pending_queue@.len() - i,
        {
            if self.pending_queue[i].time().0 < time.0 {
                return true;
            }
            i = i + 1;
        }
        false
    }

    /// Drops every entry, ready or pending, that is due before `time`; the order of the entries
    /// kept is unchanged.
    pub fn drop_before(&mut self, time: SimTime)
        requires
            old(self).wf(),
        ensures
            final(self).wf(),
            due_at_or_after(final(self).ready(), time.0),
            due_at_or_after(final(self).pending(), time.0),
            forall|p: spec_fn(T) -> bool|
                all_satisfy(old(self).ready(), p) && all_satisfy(old(self).pending(), p) ==> #[trigger] all_satisfy(final(self).ready(), p)
                    && all_satisfy(final(self).pending(), p),
    {
        let ghost old_ready = self.ready_queue@;
        let ghost old_pending = self.pending_queue@;
        let taken = self.ready_queue.drain_before(time.0);
        let mut items: Vec<T> = Vec::new();
        std::mem::swap(&mut items, &mut self.pending_queue);
        let mut kept: Vec<T> = Vec::new();
        while items.len() > 0
            invariant
                items@.len() <= old_pending.len(),
                items@ == old_pending.skip(old_pending.len() - items@.len()),
                forall|k: int| 0 <= k < kept@.len() ==> (#[trigger] kept@[k]).spec_time().0 >= time.0,
                forall|k: int| #![trigger kept@[k]] 0 <= k < kept@.len() ==> exists|j: int| #![trigger old_pending[j]] 0 <= j < old_pending.len() && old_pending[j] == kept@[k],
            decreases items@.len(),
        {
            let ghost before = items@;
            let x = items.remove(0);
            proof {
                assert(x == old_pending[old_pending.len() - before.len()]);
                assert(items@ =~= old_pending.skip(old_pending.len() - items@.len()));
            }
            if x.time().0 >= time.0 {
                let ghost kept_before = kept@;
                kept.push(x);
                proof {
                    assert forall|k: int| #![trigger kept@[k]] 0 <= k < kept@.len() implies exists|j: int| #![trigger old_pending[j]] 0 <= j < old_pending.len() && old_pending[j] == kept@[k] by {
                        if k < kept_before.len() {
                            assert(kept@[k] == kept_before[k]);
                        } else {
                            assert(old_pending[old_pending.len() - before.len()] == kept@[k]);
                        }
                    }
                }
            }
        }
        self.pending_queue = kept;
        proof {
            assert forall|i: int| 0 <= i < self.ready_queue@.len() implies (#[trigger] self.ready_queue@[i]).spec_time().0 >= time.0 by {
                self.ready_queue@[i].lemma_key_time();
            }
            assert forall|p: spec_fn(T) -> bool|
                all_satisfy(old_ready, p) && all_satisfy(old_pending, p) implies #[trigger] all_satisfy(self.ready(), p)
                    && all_satisfy(self.pending(), p) by {
                assert forall|i: int| 0 <= i < self.ready().len() implies p(#[trigger] self.ready()[i]) by {
                    assert(self.ready()[i] == old_ready[i + taken@.len()]);
                }
                assert forall|k: int| 0 <= k < self.pending().len() implies p(#[trigger] self.pending()[k]) by {
                    let j = choose|j: int| 0 <= j < old_pending.len() && #[trigger] old_pending[j] == self.pending()[k];
                    assert(p(old_pending[j]));
                }
            }
        }
    }
}

} // verus!
