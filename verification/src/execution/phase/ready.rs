//! Taking entries out of the queue of what is due in a phase: the front one, the first that a
//! predicate accepts, or all that it accepts.
use std::collections::VecDeque;
use vstd::prelude::*;

verus! {

/// The entries of `s` whose flag in `flags` is `keep`, in order.
pub open spec fn select<T>(s: Seq<T>, flags: Seq<bool>, keep: bool) -> Seq<T>
    decreases s.len(),
{
    if s.len() == 0 {
        Seq::empty()
    } else {
        let rest = select(s.drop_last(), flags.drop_last(), keep);
        if flags.last() == keep {
            rest.push(s.last())
        } else {
            rest
        }
    }
}

/// Taking the accepted entries out splits a queue in two: the entries taken and the entries
/// left are together exactly the entries of the queue.
pub proof fn law_select_partitions<T>(s: Seq<T>, flags: Seq<bool>)
    requires
        flags.len() == s.len(),
    ensures
        select(s, flags, true).to_multiset().add(select(s, flags, false).to_multiset()) == s.to_multiset(),
        select(s, flags, true).len() + select(s, flags, false).len() == s.len(),
    decreases s.len(),
{
    broadcast use vstd::seq_lib::group_to_multiset_ensures;
    if s.len() > 0 {
        law_select_partitions(s.drop_last(), flags.drop_last());
        assert(s.drop_last().push(s.last()) =~= s);
        let t = select(s.drop_last(), flags.drop_last(), true);
        let k = select(s.drop_last(), flags.drop_last(), false);
        if flags.last() {
            assert(t.push(s.last()).to_multiset().add(k.to_multiset()) =~= t.to_multiset().add(k.to_multiset()).insert(s.last()));
        } else {
            assert(t.to_multiset().add(k.push(s.last()).to_multiset()) =~= t.to_multiset().add(k.to_multiset()).insert(s.last()));
        }
    } else {
        assert(s.to_multiset() =~= vstd::multiset::Multiset::empty());
    }
}

/// Removes and returns the front entry of `q` if `pred` accepts it; `pred` is asked once, if
/// `q` is not empty.
pub fn take_front_matching<T, F: FnOnce(&T) -> bool>(q: &mut VecDeque<T>, pred: F) -> (r: Option<T>)
    requires
        old(q)@.len() > 0 ==> call_requires(pred, (&old(q)@[0],)),
    ensures
        old(q)@.len() == 0 ==> r is None && final(q)@ == old(q)@,
        r matches Some(x) ==> old(q)@.len() > 0 && x == old(q)@[0] && final(q)@ == old(q)@.drop_first()
            && call_ensures(pred, (&old(q)@[0],), true),
        r is None && old(q)@.len() > 0 ==> final(q)@ == old(q)@ && call_ensures(pred, (&old(q)@[0],), false),
{
    if q.len() == 0 {
        return None;
    }
    let accepted = pred(&q[0]);
    if accepted {
        q.pop_front()
    } else {
        None
    }
}

/// Removes and returns the first entry of `q` that `pred` accepts; `pred` is asked about the
/// entries from the front until it accepts one.
#[verifier::loop_isolation(false)]
pub fn take_first_matching<T, F: FnMut(&T) -> bool>(q: &mut VecDeque<T>, mut pred: F) -> (r: Option<T>)
    requires
        forall|x: &T| call_requires(pred, (x,)),
    ensures
        r is None ==> final(q)@ == old(q)@ && forall|i: int| 0 <= i < old(q)@.len() ==> call_ensures(pred, (&(#[trigger] old(q)@[i]),), false),
        r matches Some(x) ==> exists|k: int| #![trigger old(q)@[k]] {
            &&& 0 <= k < old(q)@.len()
            &&& old(q)@[k] == x
            &&& final(q)@ == old(q)@.remove(k)
            &&& call_ensures(pred, (&old(q)@[k],), true)
            &&& forall|i: int| 0 <= i < k ==> call_ensures(pred, (&(#[trigger] old(q)@[i]),), false)
        },
{
    let ghost pred0 = pred;
    let ghost s = q@;
    let mut i: usize = 0;
    while i < q.len()
        invariant
            q@ == s,
            old(q)@ == s,
            i <= s.len(),
            pred == pred0,
            forall|x: &T| call_requires(pred, (x,)),
            forall|k: int| 0 <= k < i ==> call_ensures(pred, (&(#[trigger] s[k]),), false),
        decreases s.len() - i,
    {
        let accepted = pred(&q[i]);
        if accepted {
            let ghost k: int = i as int;
            let x = q.remove(i).unwrap();
            proof {
                assert(s[k] == x);
                assert(q@ =~= s.remove(k));
                assert(old(q)@[k] == x);
            }
            return Some(x);
        }
        i = i + 1;
    }
    None
}

/// Removes from `q` every entry that `pred` accepts and returns them in order; the entries left
/// keep their order. `pred` is asked once per entry, from the front.
pub fn take_all_matching<T, F: FnMut(&T) -> bool>(q: &mut VecDeque<T>, pred: F) -> (r: VecDeque<T>)
    requires
        forall|x: &T| call_requires(pred, (x,)),
    ensures
        exists|flags: Seq<bool>| {
            &&& flags.len() == old(q)@.len()
            &&& forall|i: int| 0 <= i < old(q)@.len() ==> call_ensures(pred, (&(#[trigger] old(q)@[i]),), flags[i])
            &&& r@ == select(old(q)@, flags, true)
            &&& final(q)@ == select(old(q)@, flags, false)
        },
{
    let mut pred = pred;
    let ghost pred0 = pred;
    let ghost s = q@;
    let mut all: VecDeque<T> = VecDeque::new();
    std::mem::swap(&mut all, q);
    let mut taken: VecDeque<T> = VecDeque::new();
    let mut kept: VecDeque<T> = VecDeque::new();
    let ghost mut flags: Seq<bool> = Seq::empty();
    while all.len() > 0
        invariant
            pred == pred0,
            forall|x: &T| call_requires(pred, (x,)),
            flags.len() + all@.len() == s.len(),
            all@ == s.skip(flags.len() as int),
            forall|i: int| 0 <= i < flags.len() ==> call_ensures(pred, (&(#[trigger] s[i]),), flags[i]),
            taken@ == select(s.take(flags.len() as int), flags, true),
            kept@ == select(s.take(flags.len() as int), flags, false),
        decreases all@.len(),
    {
        let ghost n: int = flags.len() as int;
        let x = all.pop_front().unwrap();
        proof {
            assert(x == s[n]);
            assert(all@ =~= s.skip(n + 1));
        }
        let accepted = pred(&x);
        proof {
            let f2 = flags.push(accepted);
            assert(s.take(n + 1).drop_last() =~= s.take(n));
            assert(f2.drop_last() =~= flags);
            flags = f2;
        }
        if accepted {
            taken.push_back(x);
        } else {
            kept.push_back(x);
        }
    }
    proof {
        assert(s.take(flags.len() as int) =~= s);
    }
    std::mem::swap(q, &mut kept);
    taken
}

} // verus!
