//! The numbers of a map, in order.

use std::collections::HashMap;
use vstd::prelude::*;

verus! {

/// Whether each number is larger than the ones before it.
pub open spec fn ascending(s: Seq<u64>) -> bool {
    forall|i: int, j: int| 0 <= i < j < s.len() ==> s[i] < s[j]
}

/// The numbers of a finite set, smallest first.
pub open spec fn in_order(ids: Set<u64>) -> Seq<u64> {
    choose|s: Seq<u64>| ascending(s) && s.to_set() == ids
}

/// A set of numbers has only one order.
pub proof fn order_is_unique(a: Seq<u64>, b: Seq<u64>)
    requires
        ascending(a),
        ascending(b),
        a.to_set() == b.to_set(),
    ensures
        a == b,
    decreases a.len(),
{
    if a.len() == 0 {
        if b.len() > 0 {
            assert(b.to_set().contains(b[0]));
            assert(a.contains(b[0]));
        }
        assert(a =~= b);
    } else {
        assert(a.to_set().contains(a.last()));
        assert(b.contains(a.last()));
        let i = choose|i: int| 0 <= i < b.len() && b[i] == a.last();
        assert(b.to_set().contains(b.last()));
        assert(a.contains(b.last()));
        let j = choose|j: int| 0 <= j < a.len() && a[j] == b.last();
        assert(a.last() == b.last());
        let c = a.drop_last();
        let d = b.drop_last();
        assert forall|x: u64| c.to_set().contains(x) == d.to_set().contains(x) by {
            if c.contains(x) {
                let k = choose|k: int| 0 <= k < c.len() && c[k] == x;
                assert(a[k] == x);
                assert(a.to_set().contains(x));
                assert(b.contains(x));
                let l = choose|l: int| 0 <= l < b.len() && b[l] == x;
                assert(x != b.last());
                assert(d[l] == x);
            }
            if d.contains(x) {
                let k = choose|k: int| 0 <= k < d.len() && d[k] == x;
                assert(b[k] == x);
                assert(b.to_set().contains(x));
                assert(a.contains(x));
                let l = choose|l: int| 0 <= l < a.len() && a[l] == x;
                assert(x != a.last());
                assert(c[l] == x);
            }
        }
        assert(c.to_set() =~= d.to_set());
        order_is_unique(c, d);
        assert(a =~= c.push(a.last()));
        assert(b =~= d.push(b.last()));
    }
}

/// An ascending sequence is the order of its members.
pub proof fn ascending_is_in_order(s: Seq<u64>)
    requires
        ascending(s),
    ensures
        in_order(s.to_set()) == s,
{
    let t = in_order(s.to_set());
    assert(ascending(t) && t.to_set() == s.to_set());
    order_is_unique(s, t);
}

/// One more number has a place among numbers in order.
proof fn place_exists(s: Seq<u64>, k: u64)
    requires
        ascending(s),
        !s.contains(k),
    ensures
        exists|t: Seq<u64>| ascending(t) && #[trigger] t.to_set() == s.to_set().insert(k),
    decreases s.len(),
{
    if s.len() == 0 || s.last() < k {
        s.lemma_push_to_set_commute(k);
        assert(ascending(s.push(k)));
    } else {
        let last = s.last();
        let rest = s.drop_last();
        assert(s =~= rest.push(last));
        rest.lemma_push_to_set_commute(last);
        assert(forall|i: int| 0 <= i < rest.len() ==> rest[i] == s[i]);
        place_exists(rest, k);
        let t = choose|t: Seq<u64>|
            ascending(t) && #[trigger] t.to_set() == rest.to_set().insert(k);
        t.lemma_push_to_set_commute(last);
        assert(s.contains(last));
        assert forall|i: int| 0 <= i < t.len() implies t[i] < last by {
            assert(t.to_set().contains(t[i]));
            if t[i] != k {
                assert(rest.contains(t[i]));
            }
        }
        assert(ascending(t.push(last)));
        assert(t.push(last).to_set() =~= s.to_set().insert(k));
    }
}

/// Every finite set of numbers has an order.
pub proof fn order_exists(ids: Set<u64>)
    requires
        ids.finite(),
    ensures
        ascending(in_order(ids)),
        in_order(ids).to_set() == ids,
    decreases ids.len(),
{
    if ids.len() == 0 {
        assert(ids =~= Set::empty());
        assert(Seq::<u64>::empty().to_set() =~= ids);
        ascending_is_in_order(Seq::<u64>::empty());
    } else {
        let k = ids.choose();
        let rest = ids.remove(k);
        order_exists(rest);
        let s = in_order(rest);
        if s.contains(k) {
            assert(s.to_set().contains(k));
        }
        place_exists(s, k);
        let t = choose|t: Seq<u64>| ascending(t) && #[trigger] t.to_set() == s.to_set().insert(k);
        assert(rest.insert(k) =~= ids);
        ascending_is_in_order(t);
    }
}

/// A number that is larger than all others comes last.
pub proof fn the_largest_comes_last(ids: Set<u64>, k: u64)
    requires
        ids.finite(),
        forall|id: u64| #[trigger] ids.contains(id) ==> id < k,
    ensures
        in_order(ids.insert(k)) == in_order(ids).push(k),
{
    let s = in_order(ids);
    order_exists(ids);
    assert forall|i: int| 0 <= i < s.len() implies s[i] < k by {
        assert(s.to_set().contains(s[i]));
    }
    s.lemma_push_to_set_commute(k);
    assert(ascending(s.push(k)));
    ascending_is_in_order(s.push(k));
}

/// Puts `k` into its place.
fn insert_in_order(v: &mut Vec<u64>, k: u64)
    requires
        ascending(old(v)@),
        !old(v)@.contains(k),
    ensures
        ascending(final(v)@),
        final(v)@.to_set() == old(v)@.to_set().insert(k),
        final(v)@.len() == old(v)@.len() + 1,
{
    let mut i: usize = 0;
    while i < v.len() && v[i] < k
        invariant
            v@ == old(v)@,
            i <= v@.len(),
            forall|j: int| 0 <= j < i ==> v@[j] < k,
        decreases v@.len() - i,
    {
        i = i + 1;
    }
    let ghost before = v@;
    proof {
        if i < v@.len() {
            assert(v@.contains(v@[i as int]));
        }
    }
    v.insert(i, k);
    proof {
        let after = v@;
        assert(after == before.insert(i as int, k));
        assert forall|x: u64| after.to_set().contains(x) == before.to_set().insert(k).contains(x) by {
            if before.contains(x) {
                let j = choose|j: int| 0 <= j < before.len() && before[j] == x;
                if j < i {
                    assert(after[j] == x);
                } else {
                    assert(after[j + 1] == x);
                }
            }
            if x == k {
                assert(after[i as int] == k);
            }
            if after.contains(x) && x != k {
                let j = choose|j: int| 0 <= j < after.len() && after[j] == x;
                if j < i {
                    assert(before[j] == x);
                } else {
                    assert(before[j - 1] == x);
                }
            }
        }
        assert(after.to_set() =~= before.to_set().insert(k));
    }
}

/// The keys of a map, smallest first.
pub fn sorted_keys<V>(m: &HashMap<u64, V>) -> (r: Vec<u64>)
    ensures
        ascending(r@),
        r@.to_set() == m@.dom(),
        r@ == in_order(m@.dom()),
        r@.len() == m@.dom().len(),
{
    broadcast use vstd::std_specs::hash::group_hash_axioms;

    let mut r: Vec<u64> = Vec::new();
    assert(r@.to_set() =~= Set::<u64>::empty());
    for k in it: m.keys()
        invariant
            ascending(r@),
            it.seq() == vstd::std_specs::iter::IteratorSpec::remaining(
                &vstd::std_specs::hash::spec_keys_iter(m),
            ),
            r@.to_set() == it.seq().unref().take(it.index()).to_set(),
            r@.len() == it.index(),
    {
        proof {
            let all = it.seq().unref();
            let seen = all.take(it.index());
            assert(it.seq().no_duplicates());
            if r@.contains(*k) {
                assert(r@.to_set().contains(*k));
                assert(seen.contains(*k));
                let j = choose|j: int| 0 <= j < seen.len() && seen[j] == *k;
                assert(it.seq()[j] == it.seq()[it.index()]);
            }
            assert(all.take(it.index() + 1) =~= seen.push(*k));
            assert(seen.push(*k).to_set() =~= seen.to_set().insert(*k)) by {
                seen.lemma_push_to_set_commute(*k);
            }
        }
        insert_in_order(&mut r, *k);
    }
    proof {
        let all = vstd::std_specs::iter::IteratorSpec::remaining(
                &vstd::std_specs::hash::spec_keys_iter(m),
            ).unref();
        assert(all.take(all.len() as int) =~= all);
        ascending_is_in_order(r@);
    }
    r
}

} // verus!
