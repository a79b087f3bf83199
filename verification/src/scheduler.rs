//! Deterministic scheduling of workflows: the next workflow to run is the ready one with the
//! smallest (priority, creation tick, id).

use std::collections::BTreeMap;
use vstd::prelude::*;
use crate::ordered::{sorted_keys, ordered_keys, lists_keys_in_order};
use crate::sort::{Key3, key_le, key_lt, sort_keys3, sorted_keys3, law_sorted_keys_in_order, law_sorted_keys_permutation};

verus! {

broadcast use crate::ordered::map_facts;

#[derive(Debug, Clone, Copy, PartialEq, Eq, PartialOrd, Ord, Structural)]
pub enum WorkflowStatus {
    Pending,
    Ready,
    Running,
    Completed,
    Failed,
}

#[derive(Debug, Clone, Copy, PartialEq, Eq, Structural)]
pub struct WorkflowTask {
    pub workflow_id: u64,
    pub priority: u64,
    pub created_tick: u64,
    pub status: WorkflowStatus,
}

/// The order in which ready tasks run: priority, then creation tick, then id.
pub open spec fn task_key(t: WorkflowTask) -> Key3 {
    (t.priority, t.created_tick, t.workflow_id)
}

/// The keys among `keys` whose task is ready, in the same order.
pub open spec fn ready_among(m: Map<u64, WorkflowTask>, keys: Seq<u64>) -> Seq<u64>
    decreases keys.len(),
{
    if keys.len() == 0 {
        Seq::empty()
    } else {
        let before = ready_among(m, keys.drop_last());
        if m[keys.last()].status == WorkflowStatus::Ready {
            before.push(keys.last())
        } else {
            before
        }
    }
}

/// The ready tasks in the order in which they run.
pub open spec fn ready_order(m: Map<u64, WorkflowTask>) -> Seq<WorkflowTask> {
    sorted_keys3(ready_among(m, ordered_keys(m)).map_values(|k: u64| task_key(m[k]))).map_values(
        |key: Key3| m[key.2],
    )
}

/// Every task is stored under its own id.
pub open spec fn ids_match(m: Map<u64, WorkflowTask>) -> bool {
    forall|k: u64| #[trigger] m.contains_key(k) ==> m[k].workflow_id == k
}

#[derive(Debug)]
pub struct DeterministicScheduler {
    tasks: BTreeMap<u64, WorkflowTask>,
}

impl View for DeterministicScheduler {
    type V = Map<u64, WorkflowTask>;

    closed spec fn view(&self) -> Map<u64, WorkflowTask> {
        self.tasks@
    }
}

impl DeterministicScheduler {
    #[verifier::type_invariant]
    closed spec fn wf(&self) -> bool {
        ids_match(self.tasks@)
    }

    /// Every task is stored under its own id.
    pub fn new() -> (r: Self)
        ensures
            r@ == Map::<u64, WorkflowTask>::empty(),
    {
        DeterministicScheduler { tasks: BTreeMap::new() }
    }

    /// Registers a pending workflow, replacing one of the same id.
    pub fn register_task(&mut self, workflow_id: u64, priority: u64, created_tick: u64)
        ensures
            final(self)@ == old(self)@.insert(
                workflow_id,
                WorkflowTask { workflow_id, priority, created_tick, status: WorkflowStatus::Pending },
            ),
    {
        proof {
            use_type_invariant(&*self);
        }
        let task = WorkflowTask { workflow_id, priority, created_tick, status: WorkflowStatus::Pending };
        let mut tasks = BTreeMap::new();
        std::mem::swap(&mut tasks, &mut self.tasks);
        tasks.insert(workflow_id, task);
        self.tasks = tasks;
    }

    /// Marks a registered workflow ready; an unknown id changes nothing.
    pub fn mark_ready(&mut self, workflow_id: u64)
        ensures
            old(self)@.contains_key(workflow_id) ==> final(self)@ == old(self)@.insert(
                workflow_id,
                WorkflowTask { status: WorkflowStatus::Ready, ..old(self)@[workflow_id] },
            ),
            !old(self)@.contains_key(workflow_id) ==> final(self)@ == old(self)@,
    {
        proof {
            use_type_invariant(&*self);
        }
        let found = match self.tasks.get(&workflow_id) {
            Some(t) => Some(*t),
            None => None,
        };
        if let Some(t) = found {
            let mut tasks = BTreeMap::new();
            std::mem::swap(&mut tasks, &mut self.tasks);
            tasks.insert(workflow_id, WorkflowTask { status: WorkflowStatus::Ready, ..t });
            self.tasks = tasks;
        }
    }

    /// The ready workflow that runs next: the one with the smallest (priority, creation tick,
    /// id), or `None` when no workflow is ready.
    pub fn next_task(&self) -> (r: Option<&WorkflowTask>)
        ensures
            match r {
                Some(t) => {
                    &&& self@.contains_key(t.workflow_id)
                    &&& self@[t.workflow_id] == *t
                    &&& t.status == WorkflowStatus::Ready
                    &&& forall|k: u64| #[trigger] self@.contains_key(k) && self@[k].status == WorkflowStatus::Ready
                        ==> key_le(task_key(*t), task_key(self@[k]))
                },
                None => forall|k: u64| #[trigger] self@.contains_key(k) ==> self@[k].status != WorkflowStatus::Ready,
            },
    {
        proof {
            use_type_invariant(self);
        }
        let keys = sorted_keys(&self.tasks);
        let mut best: Option<&WorkflowTask> = None;
        let mut i: usize = 0;
        while i < keys.len()
            invariant
                lists_keys_in_order(keys@, self.tasks@),
                ids_match(self.tasks@),
                i <= keys@.len(),
                match best {
                    Some(t) => {
                        &&& self.tasks@.contains_key(t.workflow_id)
                        &&& self.tasks@[t.workflow_id] == *t
                        &&& t.status == WorkflowStatus::Ready
                        &&& forall|j: int| 0 <= j < i && self.tasks@[#[trigger] keys@[j]].status == WorkflowStatus::Ready
                            ==> key_le(task_key(*t), task_key(self.tasks@[keys@[j]]))
                    },
                    None => forall|j: int| 0 <= j < i ==> self.tasks@[#[trigger] keys@[j]].status != WorkflowStatus::Ready,
                },
            decreases keys.len() - i,
        {
            let k = keys[i];
            assert(keys@.contains(k));
            let t = match self.tasks.get(&k) {
                Some(t) => t,
                None => {
                    return None;
                },
            };
            if t.status == WorkflowStatus::Ready {
                let better = match best {
                    None => true,
                    Some(b) => t.priority < b.priority || (t.priority == b.priority && (t.created_tick
                        < b.created_tick || (t.created_tick == b.created_tick && t.workflow_id
                        < b.workflow_id))),
                };
                if better {
                    best = Some(t);
                }
            }
            i = i + 1;
        }
        proof {
            assert forall|k: u64| #[trigger] self.tasks@.contains_key(k) implies exists|j: int| 0 <= j < keys@.len() && keys@[j] == k by {
                assert(keys@.contains(k));
            }
        }
        best
    }

    /// How many workflows are registered; they are finitely many.
    pub fn total_tasks(&self) -> (r: usize)
        ensures
            self@.dom().finite(),
            r == self@.dom().len(),
    {
        self.tasks.len()
    }

    /// The ready workflows in the order in which they run: each ready workflow once and no
    /// other, by strictly increasing (priority, creation tick, id).
    pub fn pending_ready_tasks(&self) -> (r: Vec<&WorkflowTask>)
        ensures
            r@.map_values(|t: &WorkflowTask| *t) == ready_order(self@),
            forall|i: int, j: int| 0 <= i < j < r@.len() ==> key_lt(task_key(*#[trigger] r@[i]), task_key(*#[trigger] r@[j])),
            forall|i: int| 0 <= i < r@.len() ==> self@.contains_key((#[trigger] r@[i]).workflow_id)
                && self@[r@[i].workflow_id] == *r@[i] && r@[i].status == WorkflowStatus::Ready,
            forall|k: u64| #[trigger] self@.contains_key(k) && self@[k].status == WorkflowStatus::Ready
                ==> r@.map_values(|t: &WorkflowTask| *t).contains(self@[k]),
            r@.map_values(|t: &WorkflowTask| *t).no_duplicates(),
    {
        proof {
            use_type_invariant(self);
            law_ready_order_sorted(self.tasks@);
        }
        let keys = sorted_keys(&self.tasks);
        let ghost m = self.tasks@;
        let mut ready: Vec<Key3> = Vec::new();
        let mut i: usize = 0;
        while i < keys.len()
            invariant
                lists_keys_in_order(keys@, m),
                keys@ == ordered_keys(m),
                m == self.tasks@,
                i <= keys@.len(),
                ready@ == ready_among(m, keys@.take(i as int)).map_values(|k: u64| task_key(m[k])),
            decreases keys.len() - i,
        {
            let k = keys[i];
            assert(keys@.contains(k));
            assert(keys@.take(i + 1).drop_last() =~= keys@.take(i as int));
            let t = match self.tasks.get(&k) {
                Some(t) => t,
                None => {
                    return Vec::new();
                },
            };
            if t.status == WorkflowStatus::Ready {
                ready.push((t.priority, t.created_tick, t.workflow_id));
            }
            i = i + 1;
            proof {
                let before = ready_among(m, keys@.take(i - 1));
                if t.status == WorkflowStatus::Ready {
                    assert(ready@ =~= before.push(k).map_values(|k: u64| task_key(m[k])));
                }
            }
        }
        assert(keys@.take(keys@.len() as int) =~= keys@);
        let ghost unsorted = ready@;
        proof {
            assert forall|i: int| 0 <= i < keys@.len() implies m.contains_key(#[trigger] keys@[i]) by {
                assert(keys@.contains(keys@[i]));
            }
            lemma_ready_among_in_map(m, keys@);
        }
        let sorted = sort_keys3(ready);
        proof {
            law_sorted_keys_permutation(unsorted);
            broadcast use vstd::seq_lib::group_to_multiset_ensures;
            assert forall|j: int| 0 <= j < sorted@.len() implies m.contains_key((#[trigger] sorted@[j]).2) by {
                let x = sorted@[j];
                assert(sorted@.contains(x));
                assert(sorted@.to_multiset().count(x) > 0);
                assert(unsorted.contains(x));
                let n = choose|n: int| 0 <= n < unsorted.len() && unsorted[n] == x;
                let ra = ready_among(m, keys@);
                assert(m.contains_key(ra[n]));
                assert(ids_match(m));
                assert(x.2 == m[ra[n]].workflow_id);
            }
        }
        let mut out: Vec<&WorkflowTask> = Vec::new();
        let mut j: usize = 0;
        while j < sorted.len()
            invariant
                m == self.tasks@,
                j <= sorted@.len(),
                forall|n: int| 0 <= n < sorted@.len() ==> m.contains_key((#[trigger] sorted@[n]).2),
                out@.len() == j,
                out@.map_values(|t: &WorkflowTask| *t) == sorted@.take(j as int).map_values(|key: Key3| m[key.2]),
            decreases sorted.len() - j,
        {
            let key = sorted[j];
            let t = match self.tasks.get(&key.2) {
                Some(t) => t,
                None => {
                    return Vec::new();
                },
            };
            assert(*t == m[key.2]);
            let ghost prev = out@;
            out.push(t);
            assert(out@ == prev.push(t));
            assert(prev.len() == j);
            j = j + 1;
            assert(sorted@.take(j as int) =~= sorted@.take(j - 1).push(key));
            assert forall|n: int| 0 <= n < j implies *out@[n] == m[sorted@[n].2] by {
                if n < j - 1 {
                    assert(prev.map_values(|t: &WorkflowTask| *t)[n] == sorted@.take(j - 1).map_values(|key: Key3| m[key.2])[n]);
                    assert(out@[n] == prev[n]);
                }
            }
            assert(out@.map_values(|t: &WorkflowTask| *t) =~= sorted@.take(j as int).map_values(|key: Key3| m[key.2]));
        }
        assert(sorted@.take(j as int) =~= sorted@);
        proof {
            let ro = ready_order(self@);
            assert(out@.map_values(|t: &WorkflowTask| *t) == ro);
            assert forall|n: int| 0 <= n < out@.len() implies *out@[n] == ro[n] by {
                assert(out@.map_values(|t: &WorkflowTask| *t)[n] == ro[n]);
            }
            assert forall|a: int, b: int| 0 <= a < b < out@.len() implies key_lt(task_key(*#[trigger] out@[a]), task_key(*#[trigger] out@[b])) by {
                assert(*out@[a] == ro[a]);
                assert(*out@[b] == ro[b]);
                assert(key_lt(task_key(ro[a]), task_key(ro[b])));
            }
            assert forall|n: int| 0 <= n < out@.len() implies self@.contains_key((#[trigger] out@[n]).workflow_id)
                && self@[out@[n].workflow_id] == *out@[n] && out@[n].status == WorkflowStatus::Ready by {
                assert(*out@[n] == ro[n]);
                assert(self@.contains_key(ro[n].workflow_id));
            }
        }
        out
    }
}

/// The ready keys among keys of the map are keys of the map, of ready tasks.
pub proof fn lemma_ready_among_in_map(m: Map<u64, WorkflowTask>, keys: Seq<u64>)
    requires
        forall|i: int| 0 <= i < keys.len() ==> m.contains_key(#[trigger] keys[i]),
    ensures
        forall|i: int| 0 <= i < ready_among(m, keys).len() ==> m.contains_key(#[trigger] ready_among(m, keys)[i])
            && m[ready_among(m, keys)[i]].status == WorkflowStatus::Ready,
        forall|k: u64| #[trigger] ready_among(m, keys).contains(k) <==> (keys.contains(k) && m[k].status == WorkflowStatus::Ready),
    decreases keys.len(),
{
    if keys.len() > 0 {
        let d = keys.drop_last();
        lemma_ready_among_in_map(m, d);
        let before = ready_among(m, d);
        assert forall|k: u64| #[trigger] ready_among(m, keys).contains(k) <==> (keys.contains(k) && m[k].status == WorkflowStatus::Ready) by {
            if keys.contains(k) && !d.contains(k) {
                let i = choose|i: int| 0 <= i < keys.len() && keys[i] == k;
                assert(i == keys.len() - 1) by {
                    if i < keys.len() - 1 {
                        assert(d[i] == k);
                    }
                }
            }
            if d.contains(k) {
                let i = choose|i: int| 0 <= i < d.len() && d[i] == k;
                assert(keys[i] == k);
            }
            if ready_among(m, keys).contains(k) && m[keys.last()].status == WorkflowStatus::Ready {
                let i = choose|i: int| 0 <= i < ready_among(m, keys).len() && ready_among(m, keys)[i] == k;
                if i < before.len() {
                    assert(before[i] == k);
                }
            }
            if m[keys.last()].status == WorkflowStatus::Ready && before.contains(k) {
                let i = choose|i: int| 0 <= i < before.len() && before[i] == k;
                assert(ready_among(m, keys)[i] == k);
            }
            if m[keys.last()].status == WorkflowStatus::Ready && k == keys.last() {
                assert(ready_among(m, keys)[before.len() as int] == k);
            }
        }
    }
}

} // verus!

verus! {

/// The workflow that `next_task` picks is the first of `pending_ready_tasks`: any ready task
/// stored under its id whose key is not larger than the key of any ready task is the first task
/// of the run order, and the run order is empty exactly when no task is ready.
pub proof fn law_next_task_heads_ready_order(m: Map<u64, WorkflowTask>, t: WorkflowTask)
    requires
        ids_match(m),
        m.dom().finite(),
    ensures
        ready_order(m).len() == 0 <==> forall|k: u64| #[trigger] m.contains_key(k) ==> m[k].status != WorkflowStatus::Ready,
        ({
            &&& m.contains_key(t.workflow_id)
            &&& m[t.workflow_id] == t
            &&& t.status == WorkflowStatus::Ready
            &&& forall|k: u64| #[trigger] m.contains_key(k) && m[k].status == WorkflowStatus::Ready ==> key_le(task_key(t), task_key(m[k]))
        }) ==> ready_order(m).len() > 0 && ready_order(m)[0] == t,
{
    broadcast use vstd::seq_lib::group_to_multiset_ensures;
    let keys = ordered_keys(m);
    lemma_ordered_keys_exist(m);
    assert forall|i: int| 0 <= i < keys.len() implies m.contains_key(#[trigger] keys[i]) by {
        assert(keys.contains(keys[i]));
    }
    lemma_ready_among_in_map(m, keys);
    let ra = ready_among(m, keys);
    let triples = ra.map_values(|k: u64| task_key(m[k]));
    let sorted = sorted_keys3(triples);
    law_sorted_keys_in_order(triples);
    law_sorted_keys_permutation(triples);
    assert(sorted.len() == triples.len()) by {
        assert(sorted.to_multiset().len() == triples.to_multiset().len());
    }
    // every sorted key is the key of a ready task stored under its third field
    assert forall|n: int| 0 <= n < sorted.len() implies m.contains_key((#[trigger] sorted[n]).2)
        && task_key(m[sorted[n].2]) == sorted[n] && m[sorted[n].2].status == WorkflowStatus::Ready by {
        let x = sorted[n];
        assert(sorted.contains(x));
        assert(sorted.to_multiset().count(x) > 0);
        assert(triples.to_multiset().count(x) > 0);
        assert(triples.contains(x));
        let q = choose|q: int| 0 <= q < triples.len() && triples[q] == x;
        assert(m.contains_key(ra[q]));
    }
    // every ready task's key is among the sorted keys
    assert forall|k: u64| #[trigger] m.contains_key(k) && m[k].status == WorkflowStatus::Ready implies sorted.contains(task_key(m[k])) by {
        assert(keys.contains(k));
        assert(ra.contains(k));
        let q = choose|q: int| 0 <= q < ra.len() && ra[q] == k;
        assert(triples[q] == task_key(m[k]));
        assert(triples.contains(task_key(m[k])));
        assert(triples.to_multiset().count(task_key(m[k])) > 0);
        assert(sorted.to_multiset().count(task_key(m[k])) > 0);
    }
    if sorted.len() == 0 {
        assert forall|k: u64| #[trigger] m.contains_key(k) implies m[k].status != WorkflowStatus::Ready by {
            if m[k].status == WorkflowStatus::Ready {
                assert(sorted.contains(task_key(m[k])));
            }
        }
    } else {
        let k0 = sorted[0].2;
        assert(m.contains_key(k0) && m[k0].status == WorkflowStatus::Ready);
        if m.contains_key(t.workflow_id) && m[t.workflow_id] == t && t.status == WorkflowStatus::Ready
            && forall|k: u64| #[trigger] m.contains_key(k) && m[k].status == WorkflowStatus::Ready ==> key_le(task_key(t), task_key(m[k])) {
            assert(key_le(task_key(t), task_key(m[k0])));
            assert(sorted.contains(task_key(t)));
            let n = choose|n: int| 0 <= n < sorted.len() && sorted[n] == task_key(t);
            if n > 0 {
                assert(key_le(sorted[0], sorted[n]));
            }
            assert(task_key(m[k0]) == sorted[0]);
            assert(task_key(t) == sorted[0]);
            assert(t.workflow_id == k0);
        }
    }
}

/// The run order of `pending_ready_tasks` lists each ready task of the scheduler once and no
/// other task, by strictly increasing (priority, creation tick, id).
pub proof fn law_ready_order_sorted(m: Map<u64, WorkflowTask>)
    requires
        ids_match(m),
        m.dom().finite(),
    ensures
        forall|i: int, j: int| 0 <= i < j < ready_order(m).len()
            ==> key_lt(task_key(#[trigger] ready_order(m)[i]), task_key(#[trigger] ready_order(m)[j])),
        forall|i: int| 0 <= i < ready_order(m).len() ==> m.contains_key((#[trigger] ready_order(m)[i]).workflow_id)
            && m[ready_order(m)[i].workflow_id] == ready_order(m)[i] && ready_order(m)[i].status == WorkflowStatus::Ready,
        forall|k: u64| #[trigger] m.contains_key(k) && m[k].status == WorkflowStatus::Ready ==> ready_order(m).contains(m[k]),
        ready_order(m).no_duplicates(),
{
    broadcast use vstd::seq_lib::group_to_multiset_ensures;
    let keys = ordered_keys(m);
    lemma_ordered_keys_exist(m);
    assert forall|i: int| 0 <= i < keys.len() implies m.contains_key(#[trigger] keys[i]) by {
        assert(keys.contains(keys[i]));
    }
    lemma_ready_among_in_map(m, keys);
    let ra = ready_among(m, keys);
    let triples = ra.map_values(|k: u64| task_key(m[k]));
    let sorted = sorted_keys3(triples);
    law_sorted_keys_in_order(triples);
    law_sorted_keys_permutation(triples);
    assert(sorted.len() == triples.len()) by {
        assert(sorted.to_multiset().len() == triples.to_multiset().len());
    }
    let ro = ready_order(m);
    assert(ro == sorted.map_values(|key: Key3| m[key.2]));
    assert forall|n: int| 0 <= n < sorted.len() implies m.contains_key((#[trigger] sorted[n]).2)
        && task_key(m[sorted[n].2]) == sorted[n] && m[sorted[n].2].status == WorkflowStatus::Ready by {
        let x = sorted[n];
        assert(sorted.contains(x));
        assert(sorted.to_multiset().count(x) > 0);
        assert(triples.to_multiset().count(x) > 0);
        assert(triples.contains(x));
        let q = choose|q: int| 0 <= q < triples.len() && triples[q] == x;
        assert(m.contains_key(ra[q]));
    }
    assert forall|i: int| 0 <= i < ro.len() implies m.contains_key((#[trigger] ro[i]).workflow_id)
        && m[ro[i].workflow_id] == ro[i] && ro[i].status == WorkflowStatus::Ready by {
        assert(ro[i] == m[sorted[i].2]);
        assert(task_key(m[sorted[i].2]) == sorted[i]);
    }
    assert forall|k: u64| #[trigger] m.contains_key(k) && m[k].status == WorkflowStatus::Ready implies ro.contains(m[k]) by {
        assert(keys.contains(k));
        assert(ra.contains(k));
        let q = choose|q: int| 0 <= q < ra.len() && ra[q] == k;
        assert(triples[q] == task_key(m[k]));
        assert(triples.contains(task_key(m[k])));
        assert(triples.to_multiset().count(task_key(m[k])) > 0);
        assert(sorted.to_multiset().count(task_key(m[k])) > 0);
        assert(sorted.contains(task_key(m[k])));
        let n = choose|n: int| 0 <= n < sorted.len() && sorted[n] == task_key(m[k]);
        assert(sorted[n].2 == k);
        assert(ro[n] == m[k]);
    }
    lemma_ready_among_increasing(m, keys);
    assert(triples.no_duplicates()) by {
        assert forall|i: int, j: int| 0 <= i < triples.len() && 0 <= j < triples.len() && i != j implies triples[i] != triples[j] by {
            assert(m.contains_key(ra[i]) && m.contains_key(ra[j]));
            if i < j {
                assert(ra[i] < ra[j]);
            } else {
                assert(ra[j] < ra[i]);
            }
        }
    }
    triples.lemma_multiset_has_no_duplicates();
    assert forall|x: Key3| sorted.to_multiset().contains(x) implies sorted.to_multiset().count(x) == 1 by {
        assert(triples.to_multiset().contains(x));
    }
    sorted.lemma_multiset_has_no_duplicates_conv();
    assert forall|i: int, j: int| 0 <= i < j < ro.len() implies key_lt(task_key(#[trigger] ro[i]), task_key(#[trigger] ro[j])) by {
        assert(ro[i] == m[sorted[i].2]);
        assert(ro[j] == m[sorted[j].2]);
        assert(task_key(m[sorted[i].2]) == sorted[i]);
        assert(task_key(m[sorted[j].2]) == sorted[j]);
        assert(sorted[i] != sorted[j]);
    }
    assert forall|i: int, j: int| 0 <= i < ro.len() && 0 <= j < ro.len() && i != j implies ro[i] != ro[j] by {
        assert(ro[i] == m[sorted[i].2]);
        assert(ro[j] == m[sorted[j].2]);
        assert(task_key(m[sorted[i].2]) == sorted[i]);
        assert(task_key(m[sorted[j].2]) == sorted[j]);
    }
}

/// The ready keys among strictly increasing keys are strictly increasing.
pub proof fn lemma_ready_among_increasing(m: Map<u64, WorkflowTask>, keys: Seq<u64>)
    requires
        crate::ordered::strictly_increasing(keys),
        forall|i: int| 0 <= i < keys.len() ==> m.contains_key(#[trigger] keys[i]),
    ensures
        crate::ordered::strictly_increasing(ready_among(m, keys)),
    decreases keys.len(),
{
    if keys.len() > 0 {
        let d = keys.drop_last();
        lemma_ready_among_increasing(m, d);
        lemma_ready_among_in_map(m, d);
        let before = ready_among(m, d);
        if m[keys.last()].status == WorkflowStatus::Ready {
            assert forall|i: int| 0 <= i < before.len() implies before[i] < keys.last() by {
                assert(before.contains(before[i]));
                assert(d.contains(before[i]));
                let q = choose|q: int| 0 <= q < d.len() && d[q] == before[i];
                assert(keys[q] == before[i]);
            }
        }
    }
}

/// A finite map has an ordered key listing.
pub proof fn lemma_ordered_keys_exist(m: Map<u64, WorkflowTask>)
    requires
        m.dom().finite(),
    ensures
        lists_keys_in_order(ordered_keys(m), m),
{
    crate::ordered::lemma_finite_has_ordered_keys(m);
}

} // verus!
