//! Vector clocks: one logical counter per node, ordered by causality.

use std::collections::BTreeMap;
use vstd::prelude::*;
use crate::ordered::{sorted_keys, ordered_keys, lists_keys_in_order};
use crate::text::{decimal, join, lemma_join_push, push_char, push_decimal, push_str};

verus! {

broadcast use crate::ordered::map_facts;

/// Ticks that a clock records for `node`; a node it does not list counts as zero.
pub open spec fn tick_of(m: Map<u64, u64>, node: u64) -> nat {
    if m.contains_key(node) {
        m[node] as nat
    } else {
        0
    }
}

/// Every node's tick in `a` is at most its tick in `b`.
pub open spec fn dominated(a: Map<u64, u64>, b: Map<u64, u64>) -> bool {
    forall|k: u64| tick_of(a, k) <= tick_of(b, k)
}

/// `a` causally precedes `b`: never ahead of it, and behind it on some node.
pub open spec fn precedes(a: Map<u64, u64>, b: Map<u64, u64>) -> bool {
    dominated(a, b) && exists|k: u64| tick_of(a, k) < tick_of(b, k)
}

/// Neither clock precedes the other.
pub open spec fn concurrent(a: Map<u64, u64>, b: Map<u64, u64>) -> bool {
    !precedes(a, b) && !precedes(b, a)
}

/// The clock after `merge`: every node of either clock, at the larger of its two ticks.
pub open spec fn merged(a: Map<u64, u64>, b: Map<u64, u64>) -> Map<u64, u64> {
    Map::new(
        |k: u64| a.contains_key(k) || b.contains_key(k),
        |k: u64| if tick_of(a, k) >= tick_of(b, k) { tick_of(a, k) as u64 } else { tick_of(b, k) as u64 },
    )
}

/// `a` with the nodes of `done` raised to their merged tick.
pub open spec fn merged_over(a: Map<u64, u64>, b: Map<u64, u64>, done: Seq<u64>) -> Map<u64, u64> {
    Map::new(
        |k: u64| a.contains_key(k) || done.contains(k),
        |k: u64| if done.contains(k) { merged(a, b)[k] } else { a[k] },
    )
}

/// The clock after `increment(node)`.
pub open spec fn incremented(a: Map<u64, u64>, node: u64) -> Map<u64, u64> {
    a.insert(node, (tick_of(a, node) + 1) as u64)
}

/// The text of one entry, `node:tick`.
pub open spec fn entry_text(node: u64, tick: u64) -> Seq<char> {
    decimal(node as nat) + ":"@ + decimal(tick as nat)
}

/// The text of a clock: its entries in node order, separated by ", ".
pub open spec fn clock_text(m: Map<u64, u64>) -> Seq<char> {
    join(ordered_keys(m).map_values(|k: u64| entry_text(k, m[k])), ", "@)
}

#[derive(Debug)]
pub struct VectorClock {
    pub ticks: BTreeMap<u64, u64>,
}

impl Clone for VectorClock {
    fn clone(&self) -> (r: Self)
        ensures
            r.ticks@ == self.ticks@,
    {
        VectorClock { ticks: self.ticks.clone() }
    }
}

impl VectorClock {
    /// A clock that lists `node_id` at tick zero.
    pub fn new(node_id: u64) -> (r: Self)
        ensures
            r.ticks@ == Map::<u64, u64>::empty().insert(node_id, 0),
    {
        let mut ticks = BTreeMap::new();
        ticks.insert(node_id, 0);
        VectorClock { ticks }
    }

    /// Advances the tick of `node_id` by one, listing it first if needed.
    pub fn increment(&mut self, node_id: u64)
        requires
            tick_of(old(self).ticks@, node_id) < u64::MAX,
        ensures
            final(self).ticks@ == incremented(old(self).ticks@, node_id),
    {
        let cur: u64 = match self.ticks.get(&node_id) {
            Some(t) => *t,
            None => 0,
        };
        self.ticks.insert(node_id, cur + 1);
    }

    /// Raises every node of `self` to at least its tick in `other`.
    pub fn merge(&mut self, other: &VectorClock)
        ensures
            final(self).ticks@ == merged(old(self).ticks@, other.ticks@),
    {
        let keys = sorted_keys(&other.ticks);
        let ghost a = self.ticks@;
        let ghost b = other.ticks@;
        let mut i: usize = 0;
        while i < keys.len()
            invariant
                lists_keys_in_order(keys@, b),
                b == other.ticks@,
                0 <= i <= keys.len(),
                self.ticks@ == merged_over(a, b, keys@.take(i as int)),
            decreases keys.len() - i,
        {
            let k = keys[i];
            assert(b.contains_key(k)) by {
                assert(keys@.contains(k));
            }
            let v: u64 = match other.ticks.get(&k) {
                Some(t) => *t,
                None => 0,
            };
            let cur: u64 = match self.ticks.get(&k) {
                Some(t) => *t,
                None => 0,
            };
            assert(!keys@.take(i as int).contains(k)) by {
                if keys@.take(i as int).contains(k) {
                    let j = choose|j: int| 0 <= j < i && keys@[j] == k;
                }
            }
            assert(tick_of(self.ticks@, k) == tick_of(a, k));
            assert(cur == tick_of(a, k) && v == tick_of(b, k));
            let ghost before = self.ticks@;
            if cur >= v {
                self.ticks.insert(k, cur);
            } else {
                self.ticks.insert(k, v);
            }
            assert(keys@.take(i + 1) =~= keys@.take(i as int).push(k));
            assert(self.ticks@ =~= merged_over(a, b, keys@.take(i + 1))) by {
                let done = keys@.take(i as int);
                let done2 = keys@.take(i + 1);
                assert forall|x: u64| #[trigger] done2.contains(x) <==> done.contains(x) || x == k by {
                    if done2.contains(x) && x != k {
                        let j = choose|j: int| 0 <= j < done2.len() && done2[j] == x;
                        assert(done[j] == x);
                    }
                    if x == k {
                        assert(done2[i as int] == k);
                    }
                }
                assert(self.ticks@ == before.insert(k, merged(a, b)[k]));
            }
            i = i + 1;
        }
        assert(keys@.take(keys.len() as int) =~= keys@);
        assert(self.ticks@ =~= merged(a, b)) by {
            assert forall|k: u64| #[trigger] merged(a, b).contains_key(k) implies self.ticks@.contains_key(k) by {
                if b.contains_key(k) {
                    assert(keys@.contains(k));
                }
            }
        }
    }

    /// Whether `self` causally precedes `other`.
    pub fn happened_before(&self, other: &VectorClock) -> (r: bool)
        ensures
            r == precedes(self.ticks@, other.ticks@),
    {
        let a_keys = sorted_keys(&self.ticks);
        let b_keys = sorted_keys(&other.ticks);
        let ghost a = self.ticks@;
        let ghost b = other.ticks@;
        let mut at_least_one_smaller = false;
        let mut i: usize = 0;
        while i < a_keys.len()
            invariant
                lists_keys_in_order(a_keys@, a),
                a == self.ticks@,
                b == other.ticks@,
                i <= a_keys.len(),
                forall|j: int| 0 <= j < i ==> #[trigger] tick_of(a, a_keys@[j]) <= tick_of(b, a_keys@[j]),
                at_least_one_smaller <==> exists|j: int|
                    0 <= j < i && #[trigger] tick_of(a, a_keys@[j]) < tick_of(b, a_keys@[j]),
            decreases a_keys.len() - i,
        {
            let key = a_keys[i];
            let self_tick: u64 = match self.ticks.get(&key) {
                Some(t) => *t,
                None => 0,
            };
            let other_tick: u64 = match other.ticks.get(&key) {
                Some(t) => *t,
                None => 0,
            };
            assert(tick_of(a, key) == self_tick && tick_of(b, key) == other_tick);
            if self_tick > other_tick {
                assert(!dominated(a, b)) by {
                    assert(tick_of(a, key) > tick_of(b, key));
                }
                return false;
            }
            if self_tick < other_tick {
                at_least_one_smaller = true;
                assert(tick_of(a, a_keys@[i as int]) < tick_of(b, a_keys@[i as int]));
            }
            i = i + 1;
        }
        let mut i: usize = 0;
        while i < b_keys.len()
            invariant
                lists_keys_in_order(a_keys@, a),
                lists_keys_in_order(b_keys@, b),
                a == self.ticks@,
                b == other.ticks@,
                i <= b_keys.len(),
                forall|j: int| 0 <= j < a_keys@.len() ==> #[trigger] tick_of(a, a_keys@[j]) <= tick_of(b, a_keys@[j]),
                forall|j: int| 0 <= j < i ==> #[trigger] tick_of(a, b_keys@[j]) <= tick_of(b, b_keys@[j]),
                at_least_one_smaller <==> (exists|j: int|
                    0 <= j < a_keys@.len() && #[trigger] tick_of(a, a_keys@[j]) < tick_of(b, a_keys@[j]))
                    || (exists|j: int| 0 <= j < i && #[trigger] tick_of(a, b_keys@[j]) < tick_of(b, b_keys@[j])),
            decreases b_keys.len() - i,
        {
            let key = b_keys[i];
            let self_tick: u64 = match self.ticks.get(&key) {
                Some(t) => *t,
                None => 0,
            };
            let other_tick: u64 = match other.ticks.get(&key) {
                Some(t) => *t,
                None => 0,
            };
            assert(tick_of(a, key) == self_tick && tick_of(b, key) == other_tick);
            if self_tick > other_tick {
                assert(!dominated(a, b)) by {
                    assert(tick_of(a, key) > tick_of(b, key));
                }
                return false;
            }
            if self_tick < other_tick {
                at_least_one_smaller = true;
                assert(tick_of(a, b_keys@[i as int]) < tick_of(b, b_keys@[i as int]));
            }
            i = i + 1;
        }
        assert(dominated(a, b)) by {
            assert forall|k: u64| tick_of(a, k) <= tick_of(b, k) by {
                if a.contains_key(k) {
                    assert(a_keys@.contains(k));
                    let j = choose|j: int| 0 <= j < a_keys@.len() && a_keys@[j] == k;
                    assert(tick_of(a, a_keys@[j]) <= tick_of(b, a_keys@[j]));
                } else if b.contains_key(k) {
                    assert(b_keys@.contains(k));
                    let j = choose|j: int| 0 <= j < b_keys@.len() && b_keys@[j] == k;
                    assert(tick_of(a, b_keys@[j]) <= tick_of(b, b_keys@[j]));
                }
            }
        }
        if !at_least_one_smaller {
            assert forall|k: u64| !(tick_of(a, k) < tick_of(b, k)) by {
                if a.contains_key(k) {
                    assert(a_keys@.contains(k));
                    let j = choose|j: int| 0 <= j < a_keys@.len() && a_keys@[j] == k;
                    assert(!(tick_of(a, a_keys@[j]) < tick_of(b, a_keys@[j])));
                } else if b.contains_key(k) {
                    assert(b_keys@.contains(k));
                    let j = choose|j: int| 0 <= j < b_keys@.len() && b_keys@[j] == k;
                    assert(!(tick_of(a, b_keys@[j]) < tick_of(b, b_keys@[j])));
                }
            }
        }
        at_least_one_smaller
    }

    /// Whether neither clock precedes the other.
    pub fn is_concurrent(&self, other: &VectorClock) -> (r: bool)
        ensures
            r == concurrent(self.ticks@, other.ticks@),
    {
        !self.happened_before(other) && !other.happened_before(self)
    }

    /// The entries as `node:tick`, in node order, separated by ", ".
    pub fn to_string(&self) -> (r: String)
        ensures
            r@ == clock_text(self.ticks@),
    {
        let keys = sorted_keys(&self.ticks);
        let ghost m = self.ticks@;
        let ghost parts = keys@.map_values(|k: u64| entry_text(k, m[k]));
        let mut out = String::new();
        let mut i: usize = 0;
        while i < keys.len()
            invariant
                keys@ == ordered_keys(m),
                lists_keys_in_order(keys@, m),
                m == self.ticks@,
                parts == keys@.map_values(|k: u64| entry_text(k, m[k])),
                i <= keys.len(),
                out@ == join(parts.take(i as int), ", "@),
            decreases keys.len() - i,
        {
            let k = keys[i];
            assert(keys@.contains(k));
            let v: u64 = match self.ticks.get(&k) {
                Some(t) => *t,
                None => 0,
            };
            proof {
                lemma_join_push(parts.take(i as int), ", "@, entry_text(k, v));
                assert(parts.take(i + 1) =~= parts.take(i as int).push(entry_text(k, v)));
            }
            if i > 0 {
                push_str(&mut out, ", ");
            }
            push_decimal(&mut out, k);
            push_char(&mut out, ':');
            push_decimal(&mut out, v);
            proof {
                assert(":"@ =~= seq![':']) by {
                    reveal_strlit(":");
                }
                if i == 0 {
                    assert(out@ =~= entry_text(k, v));
                } else {
                    assert(out@ =~= join(parts.take(i as int), ", "@) + ", "@ + entry_text(k, v));
                }
            }
            i = i + 1;
        }
        assert(parts.take(keys.len() as int) =~= parts);
        out
    }
}

} // verus!

verus! {

/// No clock causally precedes itself.
pub proof fn law_precedes_irreflexive(a: Map<u64, u64>)
    ensures
        !precedes(a, a),
{
}

/// Causal precedence is transitive.
pub proof fn law_precedes_transitive(a: Map<u64, u64>, b: Map<u64, u64>, c: Map<u64, u64>)
    requires
        precedes(a, b),
        precedes(b, c),
    ensures
        precedes(a, c),
{
    let k = choose|k: u64| tick_of(a, k) < tick_of(b, k);
    assert(tick_of(b, k) <= tick_of(c, k));
    assert forall|x: u64| tick_of(a, x) <= tick_of(c, x) by {
        assert(tick_of(a, x) <= tick_of(b, x));
        assert(tick_of(b, x) <= tick_of(c, x));
    }
}

/// Two clocks never precede each other.
pub proof fn law_precedes_asymmetric(a: Map<u64, u64>, b: Map<u64, u64>)
    requires
        precedes(a, b),
    ensures
        !precedes(b, a),
{
    let k = choose|k: u64| tick_of(a, k) < tick_of(b, k);
    if precedes(b, a) {
        assert(tick_of(b, k) <= tick_of(a, k));
    }
}

/// Concurrency is symmetric.
pub proof fn law_concurrent_symmetric(a: Map<u64, u64>, b: Map<u64, u64>)
    ensures
        concurrent(a, b) == concurrent(b, a),
{
}

/// The tick of a node after a merge is the larger of its two ticks.
pub proof fn lemma_merged_tick(a: Map<u64, u64>, b: Map<u64, u64>, k: u64)
    ensures
        tick_of(merged(a, b), k) == if tick_of(a, k) >= tick_of(b, k) { tick_of(a, k) } else { tick_of(b, k) },
{
}

/// A merge is an upper bound of both clocks, and the least one: any clock that dominates both
/// dominates their merge.
pub proof fn law_merge_least_upper_bound(a: Map<u64, u64>, b: Map<u64, u64>, c: Map<u64, u64>)
    ensures
        dominated(a, merged(a, b)),
        dominated(b, merged(a, b)),
        dominated(a, c) && dominated(b, c) ==> dominated(merged(a, b), c),
{
    assert forall|k: u64| tick_of(a, k) <= tick_of(merged(a, b), k) && tick_of(b, k) <= tick_of(merged(a, b), k) by {
        lemma_merged_tick(a, b, k);
    }
    if dominated(a, c) && dominated(b, c) {
        assert forall|k: u64| tick_of(merged(a, b), k) <= tick_of(c, k) by {
            lemma_merged_tick(a, b, k);
            assert(tick_of(a, k) <= tick_of(c, k));
            assert(tick_of(b, k) <= tick_of(c, k));
        }
    }
}

/// Merging is commutative.
pub proof fn law_merge_commutative(a: Map<u64, u64>, b: Map<u64, u64>)
    ensures
        merged(a, b) == merged(b, a),
{
    assert(merged(a, b) =~= merged(b, a));
}

/// Merging a clock with itself changes nothing.
pub proof fn law_merge_idempotent(a: Map<u64, u64>)
    ensures
        merged(a, a) == a,
{
    assert(merged(a, a) =~= a);
}

/// Incrementing a node makes the old clock precede the new one.
pub proof fn law_increment_advances(a: Map<u64, u64>, node: u64)
    requires
        tick_of(a, node) < u64::MAX,
    ensures
        precedes(a, incremented(a, node)),
{
    let n = incremented(a, node);
    assert(tick_of(a, node) < tick_of(n, node));
    assert forall|k: u64| tick_of(a, k) <= tick_of(n, k) by {
        if k != node {
            assert(tick_of(a, k) == tick_of(n, k));
        }
    }
}

} // verus!
