//! Choosing and ordering goals by priority.

use vstd::prelude::*;
use crate::sort::{Key3, key_le, key_lt, sort_keys3, sorted_keys3, law_sorted_keys_permutation};
use crate::state::{Goal, GoalStatus, GoalView};

verus! {

/// The key under which the highest-priority pending goal is picked: higher priority first,
/// then the older goal.
pub open spec fn pick_key(g: GoalView) -> Key3 {
    (g.priority, (u64::MAX - g.created_tick) as u64, 0)
}

/// The key of the scheduling order: higher priority first, then the older goal, then the
/// earlier position.
pub open spec fn order_key(g: GoalView, i: int) -> Key3 {
    ((u64::MAX - g.priority) as u64, g.created_tick, i as u64)
}

/// The goals in scheduling order: descending priority, then ascending creation tick, equal
/// goals in the order they came in.
pub open spec fn scheduling_order(goals: Seq<GoalView>) -> Seq<GoalView> {
    sorted_keys3(Seq::new(goals.len(), |i: int| order_key(goals[i], i))).map_values(|k: Key3| goals[k.2 as int])
}

pub struct TaskPrioritizer;

impl TaskPrioritizer {
    /// The pending goal with the highest priority, the oldest among equals; among goals equal in
    /// both, the last one.
    pub fn pick_highest_priority(goals: &[Goal]) -> (r: Option<&Goal>)
        ensures
            match r {
                Some(g) => exists|i: int| {
                    &&& 0 <= i < goals@.len()
                    &&& goals@[i] == *g
                    &&& g.status == GoalStatus::Pending
                    &&& forall|j: int| 0 <= j < goals@.len() && goals@[j].status == GoalStatus::Pending
                        ==> key_le(pick_key(#[trigger] goals@[j]@), pick_key(g@))
                    &&& forall|j: int| i < j < goals@.len() && goals@[j].status == GoalStatus::Pending
                        ==> key_lt(pick_key(#[trigger] goals@[j]@), pick_key(g@))
                },
                None => forall|j: int| 0 <= j < goals@.len() ==> (#[trigger] goals@[j]).status != GoalStatus::Pending,
            },
    {
        let mut best: Option<usize> = None;
        let mut i: usize = 0;
        while i < goals.len()
            invariant
                i <= goals@.len(),
                match best {
                    Some(b) => {
                        &&& b < i
                        &&& goals@[b as int].status == GoalStatus::Pending
                        &&& forall|j: int| 0 <= j < i && goals@[j].status == GoalStatus::Pending
                            ==> key_le(pick_key(#[trigger] goals@[j]@), pick_key(goals@[b as int]@))
                        &&& forall|j: int| b < j < i && goals@[j].status == GoalStatus::Pending
                            ==> key_lt(pick_key(#[trigger] goals@[j]@), pick_key(goals@[b as int]@))
                    },
                    None => forall|j: int| 0 <= j < i ==> (#[trigger] goals@[j]).status != GoalStatus::Pending,
                },
            decreases goals.len() - i,
        {
            if goals[i].status == GoalStatus::Pending {
                let take = match best {
                    None => true,
                    Some(b) => {
                        let p = goals[i].priority;
                        let q = goals[b].priority;
                        let a = u64::MAX - goals[i].created_tick;
                        let c = u64::MAX - goals[b].created_tick;
                        p > q || (p == q && a >= c)
                    },
                };
                if take {
                    best = Some(i);
                }
            }
            i = i + 1;
        }
        match best {
            Some(b) => Some(&goals[b]),
            None => None,
        }
    }

    /// Puts the goals in scheduling order: descending priority, then ascending creation tick,
    /// equal goals keeping their order.
    pub fn order(goals: &mut Vec<Goal>)
        ensures
            final(goals)@.map_values(|g: Goal| g@) == scheduling_order(old(goals)@.map_values(|g: Goal| g@)),
    {
        let ghost views = goals@.map_values(|g: Goal| g@);
        let mut keys: Vec<Key3> = Vec::new();
        let mut i: usize = 0;
        while i < goals.len()
            invariant
                i <= goals@.len(),
                views == goals@.map_values(|g: Goal| g@),
                keys@ == Seq::new(i as nat, |j: int| order_key(views[j], j)),
            decreases goals.len() - i,
        {
            keys.push((u64::MAX - goals[i].priority, goals[i].created_tick, i as u64));
            i = i + 1;
            assert(keys@ =~= Seq::new(i as nat, |j: int| order_key(views[j], j)));
        }
        let ghost unsorted = keys@;
        let sorted = sort_keys3(keys);
        proof {
            law_sorted_keys_permutation(unsorted);
            broadcast use vstd::seq_lib::group_to_multiset_ensures;
            assert forall|n: int| 0 <= n < sorted@.len() implies (#[trigger] sorted@[n]).2 < goals@.len() by {
                let x = sorted@[n];
                assert(sorted@.contains(x));
                assert(sorted@.to_multiset().count(x) > 0);
                assert(unsorted.to_multiset().count(x) > 0);
                assert(unsorted.contains(x));
            }
        }
        let mut out: Vec<Goal> = Vec::new();
        let mut j: usize = 0;
        while j < sorted.len()
            invariant
                j <= sorted@.len(),
                views == goals@.map_values(|g: Goal| g@),
                forall|n: int| 0 <= n < sorted@.len() ==> (#[trigger] sorted@[n]).2 < goals@.len(),
                out@.len() == j,
                forall|n: int| 0 <= n < j ==> (#[trigger] out@[n])@ == views[sorted@[n].2 as int],
            decreases sorted.len() - j,
        {
            assert(sorted@[j as int].2 < goals@.len());
            let key = sorted[j];
            assert(key == sorted@[j as int]);
            assert(key.2 < goals@.len());
            let n = goals.len();
            assert(key.2 < n);
            let idx = key.2 as usize;
            assert(idx as int == key.2 as int);
            let g = goals[idx].clone();
            assert(g@ == views[idx as int]);
            let ghost prev = out@;
            out.push(g);
            assert forall|n: int| 0 <= n < j + 1 implies (#[trigger] out@[n])@ == views[sorted@[n].2 as int] by {
                if n < j {
                    assert(out@[n] == prev[n]);
                } else {
                    assert(out@[n] == g);
                    assert(sorted@[n].2 as int == idx as int);
                }
            }
            j = j + 1;
        }
        assert(out@.map_values(|g: Goal| g@) =~= scheduling_order(views));
        *goals = out;
    }
}

} // verus!
