//! Ordering by keys of three numbers, compared field by field (the order of `sort_by_key` on a
//! tuple key). Sorting is stable: the insertion sort below puts each new key after every key
//! that is not larger.

use vstd::prelude::*;

verus! {

/// A sort key: compared on the first field, then the second, then the third.
pub type Key3 = (u64, u64, u64);

/// `a` comes no later than `b`.
pub open spec fn key_le(a: Key3, b: Key3) -> bool {
    a.0 < b.0 || (a.0 == b.0 && (a.1 < b.1 || (a.1 == b.1 && a.2 <= b.2)))
}

/// `a` comes strictly before `b`.
pub open spec fn key_lt(a: Key3, b: Key3) -> bool {
    key_le(a, b) && a != b
}

/// Where a stable insertion puts `k` into a sorted sequence: after every key not larger than it.
pub open spec fn insert_pos(sorted: Seq<Key3>, k: Key3) -> int
    decreases sorted.len(),
{
    if sorted.len() == 0 {
        0
    } else if key_le(sorted.last(), k) {
        sorted.len() as int
    } else {
        insert_pos(sorted.drop_last(), k)
    }
}

/// The keys in sorted order, equal keys in the order they came in.
pub open spec fn sorted_keys3(s: Seq<Key3>) -> Seq<Key3>
    decreases s.len(),
{
    if s.len() == 0 {
        s
    } else {
        let r = sorted_keys3(s.drop_last());
        r.insert(insert_pos(r, s.last()), s.last())
    }
}

/// Each key comes no later than the next one.
pub open spec fn is_sorted3(s: Seq<Key3>) -> bool {
    forall|i: int, j: int| 0 <= i < j < s.len() ==> key_le(s[i], s[j])
}

fn key_le_exec(a: Key3, b: Key3) -> (r: bool)
    ensures
        r == key_le(a, b),
{
    a.0 < b.0 || (a.0 == b.0 && (a.1 < b.1 || (a.1 == b.1 && a.2 <= b.2)))
}

/// Sorts keys stably.
pub fn sort_keys3(v: Vec<Key3>) -> (r: Vec<Key3>)
    ensures
        r@ == sorted_keys3(v@),
{
    let mut out: Vec<Key3> = Vec::new();
    let mut i: usize = 0;
    while i < v.len()
        invariant
            i <= v@.len(),
            out@ == sorted_keys3(v@.take(i as int)),
        decreases v.len() - i,
    {
        let k = v[i];
        let mut p: usize = out.len();
        assert(out@.take(p as int) =~= out@);
        while p > 0 && !key_le_exec(out[p - 1], k)
            invariant
                p <= out@.len(),
                insert_pos(out@.take(p as int), k) == insert_pos(out@, k),
            decreases p,
        {
            assert(out@.take(p as int).drop_last() =~= out@.take(p - 1));
            p = p - 1;
        }
        assert(insert_pos(out@.take(p as int), k) == p);
        proof {
            assert(v@.take(i + 1).drop_last() =~= v@.take(i as int));
        }
        out.insert(p, k);
        i = i + 1;
    }
    assert(v@.take(v@.len() as int) =~= v@);
    out
}

/// A stable insertion position lies within the sequence.
pub proof fn lemma_insert_pos_bounds(sorted: Seq<Key3>, k: Key3)
    ensures
        0 <= insert_pos(sorted, k) <= sorted.len(),
    decreases sorted.len(),
{
    if sorted.len() > 0 && !key_le(sorted.last(), k) {
        lemma_insert_pos_bounds(sorted.drop_last(), k);
    }
}

/// In a sorted sequence, the keys before the insertion position are not larger than `k` and the
/// keys from it on are larger.
pub proof fn lemma_insert_pos_splits(sorted: Seq<Key3>, k: Key3)
    requires
        is_sorted3(sorted),
    ensures
        forall|i: int| 0 <= i < insert_pos(sorted, k) ==> key_le(#[trigger] sorted[i], k),
        forall|i: int| insert_pos(sorted, k) <= i < sorted.len() ==> !key_le(#[trigger] sorted[i], k),
    decreases sorted.len(),
{
    lemma_insert_pos_bounds(sorted, k);
    if sorted.len() > 0 {
        if key_le(sorted.last(), k) {
            assert forall|i: int| 0 <= i < sorted.len() implies key_le(#[trigger] sorted[i], k) by {
                if i < sorted.len() - 1 {
                    assert(key_le(sorted[i], sorted.last()));
                }
            }
        } else {
            let d = sorted.drop_last();
            lemma_insert_pos_splits(d, k);
            assert forall|i: int| insert_pos(sorted, k) <= i < sorted.len() implies !key_le(#[trigger] sorted[i], k) by {
                if i < sorted.len() - 1 {
                    assert(sorted[i] == d[i]);
                }
            }
            assert forall|i: int| 0 <= i < insert_pos(sorted, k) implies key_le(#[trigger] sorted[i], k) by {
                assert(sorted[i] == d[i]);
            }
        }
    }
}

/// A stable sort yields the keys in order.
pub proof fn law_sorted_keys_in_order(s: Seq<Key3>)
    ensures
        is_sorted3(sorted_keys3(s)),
    decreases s.len(),
{
    if s.len() > 0 {
        let r = sorted_keys3(s.drop_last());
        law_sorted_keys_in_order(s.drop_last());
        let k = s.last();
        let p = insert_pos(r, k);
        lemma_insert_pos_bounds(r, k);
        lemma_insert_pos_splits(r, k);
        let n = r.insert(p, k);
        assert forall|i: int, j: int| 0 <= i < j < n.len() implies key_le(n[i], n[j]) by {
            if j < p {
                assert(key_le(r[i], r[j]));
            } else if j == p {
                assert(key_le(r[i], k));
            } else if i < p {
                assert(key_le(r[i], r[j - 1]));
            } else if i == p {
                assert(!key_le(r[j - 1], k));
            } else {
                assert(key_le(r[i - 1], r[j - 1]));
            }
        }
    }
}

/// A stable sort keeps every key, as often as it occurs.
pub proof fn law_sorted_keys_permutation(s: Seq<Key3>)
    ensures
        sorted_keys3(s).to_multiset() == s.to_multiset(),
    decreases s.len(),
{
    broadcast use vstd::seq_lib::group_to_multiset_ensures;
    if s.len() > 0 {
        let r = sorted_keys3(s.drop_last());
        law_sorted_keys_permutation(s.drop_last());
        let k = s.last();
        let p = insert_pos(r, k);
        lemma_insert_pos_bounds(r, k);
        vstd::seq_lib::to_multiset_insert(r, p, k);
        assert(s =~= s.drop_last().push(k));
    }
}

} // verus!
