//! A queue kept in ascending order of a three-part key: the time an entry is due, a rank
//! that orders entries due at the same time, and a sequence number that breaks the
//! remaining ties. Entries with equal keys keep the order in which they were inserted.
use vstd::multiset::Multiset;
use vstd::prelude::*;

verus! {

/// The key by which queued entries are ordered: first `time`, then `rank`, then `seq`.
#[derive(Clone, Copy, PartialEq, Eq, Structural, Debug)]
pub struct QueueKey {
    pub time: u64,
    pub rank: u64,
    pub seq: u64,
}

/// Lexicographic order on keys.
pub open spec fn key_le(a: QueueKey, b: QueueKey) -> bool {
    ||| a.time < b.time
    ||| a.time == b.time && a.rank < b.rank
    ||| a.time == b.time && a.rank == b.rank && a.seq <= b.seq
}

/// Compares two keys.
pub fn key_le_exec(a: &QueueKey, b: &QueueKey) -> (r: bool)
    ensures
        r == key_le(*a, *b),
{
    if a.time != b.time {
        a.time < b.time
    } else if a.rank != b.rank {
        a.rank < b.rank
    } else {
        a.seq <= b.seq
    }
}

/// An entry that carries its own queue key.
pub trait Keyed {
    spec fn spec_key(&self) -> QueueKey;

    fn key(&self) -> (k: QueueKey)
        ensures
            k == self.spec_key(),
    ;
}

/// Every entry's key is at most the key of every later entry.
pub open spec fn sorted<T: Keyed>(s: Seq<T>) -> bool {
    forall|i: int, j: int| 0 <= i < j < s.len() ==> key_le(#[trigger] s[i].spec_key(), #[trigger] s[j].spec_key())
}

/// `s` with `x` placed after every entry whose key is at most `x`'s key, scanning from the back.
pub open spec fn insert_sorted<T: Keyed>(s: Seq<T>, x: T) -> Seq<T>
    decreases s.len(),
{
    if s.len() == 0 {
        seq![x]
    } else if key_le(s.last().spec_key(), x.spec_key()) {
        s.push(x)
    } else {
        insert_sorted(s.drop_last(), x).push(s.last())
    }
}

/// The entries of `xs` inserted one after another, first to last, into `s`.
pub open spec fn insert_all<T: Keyed>(s: Seq<T>, xs: Seq<T>) -> Seq<T>
    decreases xs.len(),
{
    if xs.len() == 0 {
        s
    } else {
        insert_all(insert_sorted(s, xs[0]), xs.drop_first())
    }
}

/// Inserting into a sorted sequence keeps it sorted and adds exactly the inserted entry.
pub proof fn lemma_insert_sorted<T: Keyed>(s: Seq<T>, x: T)
    requires
        sorted(s),
    ensures
        sorted(insert_sorted(s, x)),
        insert_sorted(s, x).to_multiset() =~= s.to_multiset().insert(x),
        insert_sorted(s, x).len() == s.len() + 1,
    decreases s.len(),
{
    broadcast use vstd::seq_lib::group_to_multiset_ensures;
    if s.len() == 0 {
        assert(seq![x] =~= Seq::<T>::empty().push(x));
    } else if key_le(s.last().spec_key(), x.spec_key()) {
        let r = s.push(x);
        assert forall|i: int, j: int| 0 <= i < j < r.len() implies key_le(#[trigger] r[i].spec_key(), #[trigger] r[j].spec_key()) by {
            if j == s.len() {
                assert(key_le(s[i].spec_key(), s.last().spec_key()) || i == s.len() - 1);
            }
        }
    } else {
        let t = s.drop_last();
        lemma_insert_sorted(t, x);
        let r0 = insert_sorted(t, x);
        let r = r0.push(s.last());
        assert(s =~= t.push(s.last()));
        assert forall|i: int, j: int| 0 <= i < j < r.len() implies key_le(#[trigger] r[i].spec_key(), #[trigger] r[j].spec_key()) by {
            if j == r0.len() {
                let y = r0[i];
                assert(r0.to_multiset().contains(y));
                assert(y == x || t.to_multiset().contains(y));
                if y != x {
                    assert(t.contains(y));
                    let k = choose|k: int| 0 <= k < t.len() && t[k] == y;
                    assert(key_le(s[k].spec_key(), s[s.len() - 1].spec_key()));
                }
            }
        }
    }
}

/// Inserting a sequence into a sorted sequence keeps it sorted and adds exactly the inserted entries.
pub proof fn lemma_insert_all<T: Keyed>(s: Seq<T>, xs: Seq<T>)
    requires
        sorted(s),
    ensures
        sorted(insert_all(s, xs)),
        insert_all(s, xs).to_multiset() =~= s.to_multiset().add(xs.to_multiset()),
        insert_all(s, xs).len() == s.len() + xs.len(),
    decreases xs.len(),
{
    broadcast use vstd::seq_lib::group_to_multiset_ensures;
    if xs.len() > 0 {
        lemma_insert_sorted(s, xs[0]);
        lemma_insert_all(insert_sorted(s, xs[0]), xs.drop_first());
        assert(xs =~= seq![xs[0]] + xs.drop_first());
        vstd::seq_lib::lemma_multiset_commutative(seq![xs[0]], xs.drop_first());
        assert(seq![xs[0]].to_multiset() =~= Multiset::empty().insert(xs[0])) by {
            assert(seq![xs[0]] =~= Seq::<T>::empty().push(xs[0]));
        }
    }
}

/// Every entry of an insertion result is the inserted entry or an entry of the sequence it was inserted into.
pub proof fn lemma_insert_sorted_elements<T: Keyed>(s: Seq<T>, x: T, p: spec_fn(T) -> bool)
    requires
        forall|i: int| 0 <= i < s.len() ==> p(#[trigger] s[i]),
        p(x),
    ensures
        forall|i: int| 0 <= i < insert_sorted(s, x).len() ==> p(#[trigger] insert_sorted(s, x)[i]),
    decreases s.len(),
{
    let r = insert_sorted(s, x);
    if s.len() == 0 {
        assert(r[0] == x);
    } else if key_le(s.last().spec_key(), x.spec_key()) {
        assert forall|i: int| 0 <= i < r.len() implies p(#[trigger] r[i]) by {
            if i < s.len() {
                assert(r[i] == s[i]);
            }
        }
    } else {
        let t = s.drop_last();
        assert forall|i: int| 0 <= i < t.len() implies p(#[trigger] t[i]) by {
            assert(t[i] == s[i]);
        }
        lemma_insert_sorted_elements(t, x, p);
        let r0 = insert_sorted(t, x);
        assert(r == r0.push(s.last()));
        assert forall|i: int| 0 <= i < r.len() implies p(#[trigger] r[i]) by {
            if i < r0.len() {
                assert(r[i] == r0[i]);
            } else {
                assert(r[i] == s[s.len() - 1]);
            }
        }
    }
}

/// Every entry of a repeated insertion result is one of the inserted entries or an entry of the
/// sequence it was inserted into.
pub proof fn lemma_insert_all_elements<T: Keyed>(s: Seq<T>, xs: Seq<T>, p: spec_fn(T) -> bool)
    requires
        forall|i: int| 0 <= i < s.len() ==> p(#[trigger] s[i]),
        forall|i: int| 0 <= i < xs.len() ==> p(#[trigger] xs[i]),
    ensures
        forall|i: int| 0 <= i < insert_all(s, xs).len() ==> p(#[trigger] insert_all(s, xs)[i]),
    decreases xs.len(),
{
    if xs.len() > 0 {
        lemma_insert_sorted_elements(s, xs[0], p);
        let t = xs.drop_first();
        assert forall|i: int| 0 <= i < t.len() implies p(#[trigger] t[i]) by {
            assert(t[i] == xs[i + 1]);
        }
        lemma_insert_all_elements(insert_sorted(s, xs[0]), t, p);
        assert(insert_all(s, xs) == insert_all(insert_sorted(s, xs[0]), t));
    }
}

/// A sequence of entries kept in ascending key order.
pub struct TimedQueue<T: Keyed> {
    items: Vec<T>,
}

impl<T: Keyed> View for TimedQueue<T> {
    type V = Seq<T>;

    closed spec fn view(&self) -> Seq<T> {
        self.items@
    }
}

impl<T: Keyed> TimedQueue<T> {
    /// The entries are in ascending key order.
    pub open spec fn wf(&self) -> bool {
        sorted(self@)
    }

    /// An empty queue.
    pub fn new() -> (q: Self)
        ensures
            q@ == Seq::<T>::empty(),
            q.wf(),
    {
        TimedQueue { items: Vec::new() }
    }

    /// The number of entries.
    pub fn len(&self) -> (r: usize)
        ensures
            r == self@.len(),
    {
        self.items.len()
    }

    /// The entry at `i`.
    pub fn get(&self, i: usize) -> (r: &T)
        requires
            i < self@.len(),
        ensures
            *r == self@[i as int],
    {
        &self.items[i]
    }

    /// Gives up the entries, in order.
    pub fn into_vec(self) -> (r: Vec<T>)
        ensures
            r@ == self@,
    {
        self.items
    }

    /// The first entry, if any.
    pub fn first(&self) -> (r: Option<&T>)
        ensures
            self@.len() == 0 ==> r is None,
            self@.len() > 0 ==> (r matches Some(x) && *x == self@[0]),
    {
        if self.items.len() == 0 {
            None
        } else {
            Some(&self.items[0])
        }
    }

    /// Places `x` after every entry whose key is at most its own.
    pub fn insert(&mut self, x: T)
        requires
            old(self).wf(),
        ensures
            final(self).wf(),
            final(self)@ == insert_sorted(old(self)@, x),
    {
        let ghost s = self.items@;
        let kx = x.key();
        let mut p: usize = self.items.len();
        assert(s.take(p as int) =~= s);
        assert(s.skip(p as int) =~= Seq::<T>::empty());
        assert(insert_sorted(s, x) + Seq::<T>::empty() =~= insert_sorted(s, x));
        loop
            invariant_except_break
                s == self.items@,
                sorted(s),
                kx == x.spec_key(),
                p <= s.len(),
                insert_sorted(s, x) == insert_sorted(s.take(p as int), x) + s.skip(p as int),
                forall|j: int| p <= j < s.len() ==> !key_le(#[trigger] s[j].spec_key(), kx),
            ensures
                s == self.items@,
                sorted(s),
                p <= s.len(),
                insert_sorted(s, x) == s.take(p as int).push(x) + s.skip(p as int),
                forall|j: int| p <= j < s.len() ==> !key_le(#[trigger] s[j].spec_key(), kx),
                p > 0 ==> key_le(s[p - 1].spec_key(), kx),
            decreases p,
        {
            if p == 0 {
                assert(s.take(0) =~= Seq::<T>::empty());
                assert(seq![x] =~= Seq::<T>::empty().push(x));
                break;
            }
            let kp = self.items[p - 1].key();
            if key_le_exec(&kp, &kx) {
                let ghost t = s.take(p as int);
                assert(t.last() == s[p - 1]);
                break;
            }
            proof {
                let t = s.take(p as int);
                assert(t.drop_last() =~= s.take(p - 1));
                assert(t.last() == s[p - 1]);
                assert(insert_sorted(t, x) == insert_sorted(s.take(p - 1), x).push(s[p - 1]));
                assert(insert_sorted(s.take(p - 1), x).push(s[p - 1]) + s.skip(p as int) =~= insert_sorted(s.take(p - 1), x) + s.skip(p - 1));
            }
            p = p - 1;
        }
        proof {
            assert(s.take(p as int).push(x) + s.skip(p as int) =~= s.insert(p as int, x));
            assert forall|i: int, j: int| 0 <= i < j < s.len() + 1 implies key_le(#[trigger] s.insert(p as int, x)[i].spec_key(), #[trigger] s.insert(p as int, x)[j].spec_key()) by {
                if i < p && j > p {
                    assert(key_le(s[i].spec_key(), s[p - 1].spec_key()) || i == p - 1);
                } else if i == p {
                } else if j == p {
                    assert(key_le(s[i].spec_key(), s[p - 1].spec_key()) || i == p - 1);
                }
            }
        }
        self.items.insert(p, x);
    }

    /// Removes and returns the entry at `i`.
    pub fn remove(&mut self, i: usize) -> (r: T)
        requires
            old(self).wf(),
            i < old(self)@.len(),
        ensures
            r == old(self)@[i as int],
            final(self).wf(),
            final(self)@ == old(self)@.remove(i as int),
    {
        let ghost s = self.items@;
        assert forall|a: int, b: int| 0 <= a < b < s.len() - 1 implies key_le(#[trigger] s.remove(i as int)[a].spec_key(), #[trigger] s.remove(i as int)[b].spec_key()) by {
            let a2 = if a < i { a } else { a + 1 };
            let b2 = if b < i { b } else { b + 1 };
            assert(key_le(s[a2].spec_key(), s[b2].spec_key()));
        }
        self.items.remove(i)
    }

    /// Removes the leading entries that are due at `time` and returns them in order.
    pub fn drain_at(&mut self, time: u64) -> (r: Vec<T>)
        requires
            old(self).wf(),
            forall|i: int| 0 <= i < old(self)@.len() ==> #[trigger] old(self)@[i].spec_key().time >= time,
        ensures
            r@ + final(self)@ == old(self)@,
            final(self).wf(),
            forall|i: int| 0 <= i < r@.len() ==> #[trigger] r@[i].spec_key().time == time,
            forall|i: int| 0 <= i < final(self)@.len() ==> #[trigger] final(self)@[i].spec_key().time > time,
    {
        let ghost s = self.items@;
        let mut k: usize = 0;
        while k < self.items.len()
            invariant
                s == self.items@,
                k <= s.len(),
                forall|i: int| 0 <= i < k ==> #[trigger] s[i].spec_key().time == time,
            ensures
                k <= s.len(),
                forall|i: int| 0 <= i < k ==> #[trigger] s[i].spec_key().time == time,
                k < s.len() ==> s[k as int].spec_key().time != time,
            decreases s.len() - k,
        {
            let kk = self.items[k].key();
            if kk.time != time {
                break;
            }
            k = k + 1;
        }
        proof {
            assert forall|i: int| k <= i < s.len() implies #[trigger] s[i].spec_key().time > time by {
                assert(s[k as int].spec_key().time != time);
                assert(key_le(s[k as int].spec_key(), s[i].spec_key()) || i == k);
            }
        }
        let mut rest = self.items.split_off(k);
        proof {
            assert forall|a: int, b: int| 0 <= a < b < rest@.len() implies key_le(#[trigger] rest@[a].spec_key(), #[trigger] rest@[b].spec_key()) by {
                assert(rest@[a] == s[a + k]);
                assert(rest@[b] == s[b + k]);
            }
        }
        std::mem::swap(&mut self.items, &mut rest);
        proof {
            assert(rest@ + self.items@ =~= s);
        }
        rest
    }

    /// Removes the leading entries that are due before `time` and returns them in order.
    pub fn drain_before(&mut self, time: u64) -> (r: Vec<T>)
        requires
            old(self).wf(),
        ensures
            r@ + final(self)@ == old(self)@,
            final(self).wf(),
            forall|i: int| 0 <= i < r@.len() ==> #[trigger] r@[i].spec_key().time < time,
            forall|i: int| 0 <= i < final(self)@.len() ==> #[trigger] final(self)@[i].spec_key().time >= time,
    {
        let ghost s = self.items@;
        let mut k: usize = 0;
        while k < self.items.len()
            invariant
                s == self.items@,
                k <= s.len(),
                forall|i: int| 0 <= i < k ==> #[trigger] s[i].spec_key().time < time,
            ensures
                k <= s.len(),
                forall|i: int| 0 <= i < k ==> #[trigger] s[i].spec_key().time < time,
                k < s.len() ==> s[k as int].spec_key().time >= time,
            decreases s.len() - k,
        {
            let kk = self.items[k].key();
            if kk.time >= time {
                break;
            }
            k = k + 1;
        }
        proof {
            assert forall|i: int| k <= i < s.len() implies #[trigger] s[i].spec_key().time >= time by {
                assert(key_le(s[k as int].spec_key(), s[i].spec_key()) || i == k);
            }
        }
        let mut rest = self.items.split_off(k);
        proof {
            assert forall|a: int, b: int| 0 <= a < b < rest@.len() implies key_le(#[trigger] rest@[a].spec_key(), #[trigger] rest@[b].spec_key()) by {
                assert(rest@[a] == s[a + k]);
                assert(rest@[b] == s[b + k]);
            }
        }
        std::mem::swap(&mut self.items, &mut rest);
        proof {
            assert(rest@ + self.items@ =~= s);
        }
        rest
    }
}

} // verus!
