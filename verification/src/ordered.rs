//! Key-ordered traversal of the `BTreeMap`s that the runtime keeps its registries in.

use std::collections::BTreeMap;
use vstd::prelude::*;
use vstd::std_specs::cmp::OrdSpec;
use vstd::std_specs::iter::IteratorSpec;

verus! {

broadcast use map_facts;

/// A sequence of keys in strictly increasing order.
pub open spec fn strictly_increasing(s: Seq<u64>) -> bool {
    forall|i: int, j: int| 0 <= i < j < s.len() ==> s[i] < s[j]
}

/// The keys of a map listed in increasing order.
pub open spec fn lists_keys_in_order<V>(keys: Seq<u64>, m: Map<u64, V>) -> bool {
    &&& strictly_increasing(keys)
    &&& keys.len() == m.dom().len()
    &&& forall|k: u64| keys.contains(k) <==> m.contains_key(k)
}

/// The keys of `m`, smallest first (the order in which `BTreeMap` iterates).
pub fn sorted_keys<V>(m: &BTreeMap<u64, V>) -> (r: Vec<u64>)
    ensures
        lists_keys_in_order(r@, m@),
        r@ == ordered_keys(m@),
{
    let mut out: Vec<u64> = Vec::new();
    let iter = m.iter();
    let ghost s = iter.remaining();
    proof {
        let ks = s.map_values(|kv: (&u64, &V)| *kv.0);
        assert(vstd::std_specs::btree::increasing_seq(ks));
        assert forall|i: int, j: int| 0 <= i < j < s.len() implies *s[i].0 < *s[j].0 by {
            assert(ks[i].cmp_spec(&ks[j]) is Less);
        }
    }
    for (k, v) in it: iter
        invariant
            it.seq() == s,
            s.len() == m@.dom().len(),
            forall|i: int| 0 <= i < s.len() ==> #[trigger] m@.contains_key(*s[i].0),
            forall|k: u64| #[trigger] m@.contains_key(k) ==> s.contains((&k, &m@[k])),
            forall|i: int, j: int| 0 <= i < j < s.len() ==> *s[i].0 < *s[j].0,
            out@.len() == it.index(),
            forall|i: int| 0 <= i < it.index() ==> out@[i] == *s[i].0,
    {
        out.push(*k);
    }
    assert forall|k: u64| out@.contains(k) <==> m@.contains_key(k) by {
        if m@.contains_key(k) {
            let i = choose|i: int| 0 <= i < s.len() && s[i] == (&k, &m@[k]);
            assert(out@[i] == k);
        }
        if out@.contains(k) {
            let i = choose|i: int| 0 <= i < out@.len() && out@[i] == k;
            assert(m@.contains_key(*s[i].0));
        }
    }
    proof {
        lemma_ordered_keys(out@, m@);
    }
    out
}

} // verus!

verus! {

/// The facts about `BTreeMap<u64, _>` that the registries of the runtime rely on.
pub broadcast group map_facts {
    vstd::std_specs::btree::group_btree_axioms,
    vstd::laws_cmp::group_laws_cmp,
}

/// The keys of a finite map, smallest first.
pub open spec fn ordered_keys<V>(m: Map<u64, V>) -> Seq<u64> {
    choose|s: Seq<u64>| lists_keys_in_order(s, m)
}

/// Two increasing sequences over the same keys are the same sequence.
pub proof fn lemma_increasing_unique(s1: Seq<u64>, s2: Seq<u64>)
    requires
        strictly_increasing(s1),
        strictly_increasing(s2),
        forall|k: u64| s1.contains(k) <==> s2.contains(k),
    ensures
        s1 == s2,
    decreases s1.len(),
{
    if s1.len() == 0 {
        if s2.len() > 0 {
            assert(s2.contains(s2[0]));
        }
        assert(s1 =~= s2);
    } else {
        assert(s1.contains(s1.last()));
        assert(s2.len() > 0);
        assert(s2.contains(s2.last()));
        let a = s1.last();
        let b = s2.last();
        let ia = choose|i: int| 0 <= i < s2.len() && s2[i] == a;
        let ib = choose|i: int| 0 <= i < s1.len() && s1[i] == b;
        assert(a <= b);
        assert(b <= a);
        let t1 = s1.drop_last();
        let t2 = s2.drop_last();
        assert forall|k: u64| t1.contains(k) <==> t2.contains(k) by {
            if t1.contains(k) {
                let i = choose|i: int| 0 <= i < t1.len() && t1[i] == k;
                assert(s1.contains(k));
                assert(k < a);
                let j = choose|j: int| 0 <= j < s2.len() && s2[j] == k;
                assert(j != s2.len() - 1);
                assert(t2[j] == k);
            }
            if t2.contains(k) {
                let i = choose|i: int| 0 <= i < t2.len() && t2[i] == k;
                assert(s2.contains(k));
                assert(k < b);
                let j = choose|j: int| 0 <= j < s1.len() && s1[j] == k;
                assert(j != s1.len() - 1);
                assert(t1[j] == k);
            }
        }
        lemma_increasing_unique(t1, t2);
        assert(s1 =~= t1.push(a));
        assert(s2 =~= t2.push(b));
    }
}

/// The keys that `sorted_keys` lists are the map's `ordered_keys`.
pub proof fn lemma_ordered_keys<V>(keys: Seq<u64>, m: Map<u64, V>)
    requires
        lists_keys_in_order(keys, m),
    ensures
        ordered_keys(m) == keys,
{
    let o = ordered_keys(m);
    assert(lists_keys_in_order(o, m));
    lemma_increasing_unique(o, keys);
}

} // verus!

verus! {

/// A finite non-empty set of keys has a largest key.
pub proof fn lemma_max_key_exists(s: Set<u64>)
    requires
        s.finite(),
        s.len() > 0,
    ensures
        exists|x: u64| s.contains(x) && forall|y: u64| s.contains(y) ==> y <= x,
    decreases s.len(),
{
    let a = s.choose();
    let r = s.remove(a);
    if r.len() == 0 {
        assert forall|y: u64| s.contains(y) implies y <= a by {
            if y != a {
                assert(r.contains(y));
            }
        }
    } else {
        lemma_max_key_exists(r);
        let b = choose|x: u64| r.contains(x) && forall|y: u64| r.contains(y) ==> y <= x;
        if a >= b {
            assert forall|y: u64| s.contains(y) implies y <= a by {
                if y != a {
                    assert(r.contains(y));
                }
            }
        } else {
            assert forall|y: u64| s.contains(y) implies y <= b by {
                if y != a {
                    assert(r.contains(y));
                }
            }
        }
    }
}

/// Every finite map has its keys listed in order.
pub proof fn lemma_finite_has_ordered_keys<V>(m: Map<u64, V>)
    requires
        m.dom().finite(),
    ensures
        lists_keys_in_order(ordered_keys(m), m),
    decreases m.dom().len(),
{
    if m.dom().len() == 0 {
        let e = Seq::<u64>::empty();
        assert forall|k: u64| e.contains(k) <==> m.contains_key(k) by {
            if m.contains_key(k) {
                assert(m.dom().contains(k));
            }
        }
        assert(lists_keys_in_order(e, m));
    } else {
        lemma_max_key_exists(m.dom());
        let mx = choose|x: u64| m.dom().contains(x) && forall|y: u64| m.dom().contains(y) ==> y <= x;
        let rest = m.remove(mx);
        assert(rest.dom() =~= m.dom().remove(mx));
        lemma_finite_has_ordered_keys(rest);
        let l = ordered_keys(rest);
        let full = l.push(mx);
        assert forall|k: u64| full.contains(k) <==> m.contains_key(k) by {
            if full.contains(k) && k != mx {
                let i = choose|i: int| 0 <= i < full.len() && full[i] == k;
                assert(l[i] == k);
                assert(l.contains(k));
            }
            if m.contains_key(k) && k != mx {
                assert(rest.contains_key(k));
                assert(l.contains(k));
                let i = choose|i: int| 0 <= i < l.len() && l[i] == k;
                assert(full[i] == k);
            }
            if k == mx {
                assert(full[l.len() as int] == mx);
            }
        }
        assert forall|i: int, j: int| 0 <= i < j < full.len() implies full[i] < full[j] by {
            if j == full.len() - 1 {
                assert(l.contains(full[i]));
                assert(rest.contains_key(full[i]));
                assert(full[i] <= mx);
            }
        }
        assert(lists_keys_in_order(full, m));
    }
}

} // verus!
