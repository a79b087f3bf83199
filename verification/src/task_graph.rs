//! Task graphs: tasks with dependencies, run in id order once their dependencies completed.

use std::collections::BTreeMap;
use vstd::prelude::*;
use crate::ordered::{sorted_keys, lists_keys_in_order};
use crate::state::copy_ids;

verus! {

broadcast use crate::ordered::map_facts;

#[derive(Debug, Clone, Copy, PartialEq, Eq, Structural)]
pub enum TaskStatus {
    Pending,
    Running,
    Completed,
    Failed,
    Repaired,
}

#[derive(Debug)]
pub struct Task {
    pub id: u64,
    pub description: String,
    pub agent: String,
    pub status: TaskStatus,
    pub depends_on: Vec<u64>,
    pub result: Option<String>,
}

/// A task with its text and lists taken as sequences.
pub struct TaskView {
    pub id: u64,
    pub description: Seq<char>,
    pub agent: Seq<char>,
    pub status: TaskStatus,
    pub depends_on: Seq<u64>,
    pub result: Option<Seq<char>>,
}

impl View for Task {
    type V = TaskView;

    open spec fn view(&self) -> TaskView {
        TaskView {
            id: self.id,
            description: self.description@,
            agent: self.agent@,
            status: self.status,
            depends_on: self.depends_on@,
            result: match self.result {
                Some(r) => Some(r@),
                None => None,
            },
        }
    }
}

impl Clone for Task {
    fn clone(&self) -> (r: Self)
        ensures
            r@ == self@,
    {
        let result = match &self.result {
            Some(r) => Some(r.clone()),
            None => None,
        };
        Task {
            id: self.id,
            description: self.description.clone(),
            agent: self.agent.clone(),
            status: self.status,
            depends_on: copy_ids(&self.depends_on),
            result,
        }
    }
}

/// Every dependency of `t` is a task of the graph that completed.
pub open spec fn dependencies_done(m: Map<u64, TaskView>, t: TaskView) -> bool {
    forall|i: int|
        0 <= i < t.depends_on.len() ==> m.contains_key(#[trigger] t.depends_on[i]) && m[t.depends_on[i]].status
            == TaskStatus::Completed
}

/// The task can start: it is pending and its dependencies are done.
pub open spec fn is_ready(m: Map<u64, TaskView>, k: u64) -> bool {
    m.contains_key(k) && m[k].status == TaskStatus::Pending && dependencies_done(m, m[k])
}

pub struct TaskGraph {
    tasks: BTreeMap<u64, Task>,
    next_id: u64,
}

impl TaskGraph {
    /// The tasks by id.
    pub closed spec fn tasks(&self) -> Map<u64, TaskView> {
        self.tasks@.map_values(|t: Task| t@)
    }

    /// The id that the next added task gets.
    pub closed spec fn next(&self) -> u64 {
        self.next_id
    }

    #[verifier::type_invariant]
    closed spec fn wf(&self) -> bool {
        &&& forall|k: u64| #[trigger] self.tasks@.contains_key(k) ==> self.tasks@[k].id == k && k < self.next_id
        &&& self.next_id >= 1
    }

    pub fn new() -> (r: Self)
        ensures
            r.tasks() == Map::<u64, TaskView>::empty(),
            r.next() == 1,
    {
        let r = TaskGraph { tasks: BTreeMap::new(), next_id: 1 };
        assert(r.tasks() =~= Map::<u64, TaskView>::empty());
        r
    }

    /// Adds a pending task and returns its id, which no task of the graph had.
    pub fn add_task(&mut self, description: String, agent: String, depends_on: Vec<u64>) -> (id: u64)
        requires
            old(self).next() < u64::MAX,
        ensures
            id == old(self).next(),
            !old(self).tasks().contains_key(id),
            final(self).next() == id + 1,
            final(self).tasks() == old(self).tasks().insert(id, new_task(id, (description@, agent@, depends_on@))),
    {
        proof {
            use_type_invariant(&*self);
        }
        let id = self.next_id;
        let task = Task { id, description, agent, status: TaskStatus::Pending, depends_on, result: None };
        let ghost tv = task@;
        let mut tasks = BTreeMap::new();
        std::mem::swap(&mut tasks, &mut self.tasks);
        tasks.insert(id, task);
        self.next_id = id + 1;
        self.tasks = tasks;
        assert(self.tasks() =~= old(self).tasks().insert(id, tv));
        id
    }

    /// Changes the status of task `id`, if there is one.
    fn set_status(&mut self, id: u64, status: TaskStatus, result: Option<String>)
        ensures
            final(self).next() == old(self).next(),
            old(self).tasks().contains_key(id) ==> final(self).tasks() == old(self).tasks().insert(
                id,
                TaskView {
                    status,
                    result: match result {
                        Some(r) => Some(r@),
                        None => old(self).tasks()[id].result,
                    },
                    ..old(self).tasks()[id]
                },
            ),
            !old(self).tasks().contains_key(id) ==> final(self).tasks() == old(self).tasks(),
    {
        proof {
            use_type_invariant(&*self);
        }
        let mut tasks = BTreeMap::new();
        std::mem::swap(&mut tasks, &mut self.tasks);
        match tasks.remove(&id) {
            Some(mut t) => {
                let ghost before = t@;
                t.status = status;
                match result {
                    Some(r) => {
                        t.result = Some(r);
                    },
                    None => {},
                }
                let ghost after = t@;
                tasks.insert(id, t);
                self.tasks = tasks;
                assert(self.tasks() =~= old(self).tasks().insert(id, after));
            },
            None => {
                self.tasks = tasks;
                assert(self.tasks() =~= old(self).tasks());
            },
        }
    }

    pub fn mark_running(&mut self, id: u64)
        ensures
            final(self).next() == old(self).next(),
            old(self).tasks().contains_key(id) ==> final(self).tasks() == old(self).tasks().insert(
                id,
                TaskView { status: TaskStatus::Running, ..old(self).tasks()[id] },
            ),
            !old(self).tasks().contains_key(id) ==> final(self).tasks() == old(self).tasks(),
    {
        self.set_status(id, TaskStatus::Running, None);
    }

    /// Marks task `id` completed with its result.
    pub fn mark_completed(&mut self, id: u64, result: String)
        ensures
            final(self).next() == old(self).next(),
            old(self).tasks().contains_key(id) ==> final(self).tasks() == old(self).tasks().insert(
                id,
                TaskView { status: TaskStatus::Completed, result: Some(result@), ..old(self).tasks()[id] },
            ),
            !old(self).tasks().contains_key(id) ==> final(self).tasks() == old(self).tasks(),
    {
        self.set_status(id, TaskStatus::Completed, Some(result));
    }

    pub fn mark_failed(&mut self, id: u64)
        ensures
            final(self).next() == old(self).next(),
            old(self).tasks().contains_key(id) ==> final(self).tasks() == old(self).tasks().insert(
                id,
                TaskView { status: TaskStatus::Failed, ..old(self).tasks()[id] },
            ),
            !old(self).tasks().contains_key(id) ==> final(self).tasks() == old(self).tasks(),
    {
        self.set_status(id, TaskStatus::Failed, None);
    }

    pub fn mark_repaired(&mut self, id: u64)
        ensures
            final(self).next() == old(self).next(),
            old(self).tasks().contains_key(id) ==> final(self).tasks() == old(self).tasks().insert(
                id,
                TaskView { status: TaskStatus::Repaired, ..old(self).tasks()[id] },
            ),
            !old(self).tasks().contains_key(id) ==> final(self).tasks() == old(self).tasks(),
    {
        self.set_status(id, TaskStatus::Repaired, None);
    }

    /// Whether every dependency of `t` is a completed task of the graph.
    fn deps_done(&self, t: &Task) -> (r: bool)
        ensures
            r == dependencies_done(self.tasks(), t@),
    {
        let mut i: usize = 0;
        while i < t.depends_on.len()
            invariant
                i <= t.depends_on@.len(),
                forall|j: int|
                    0 <= j < i ==> self.tasks().contains_key(#[trigger] t.depends_on@[j])
                        && self.tasks()[t.depends_on@[j]].status == TaskStatus::Completed,
            decreases t.depends_on.len() - i,
        {
            let d = t.depends_on[i];
            match self.tasks.get(&d) {
                Some(dep) => {
                    if dep.status != TaskStatus::Completed {
                        return false;
                    }
                },
                None => {
                    return false;
                },
            }
            i = i + 1;
        }
        true
    }

    /// The smallest id of a pending task whose dependencies all completed.
    pub fn get_next_ready(&self) -> (r: Option<u64>)
        ensures
            match r {
                Some(id) => is_ready(self.tasks(), id) && forall|k: u64| k < id ==> !is_ready(self.tasks(), k),
                None => forall|k: u64| !is_ready(self.tasks(), k),
            },
    {
        proof {
            use_type_invariant(self);
        }
        let keys = sorted_keys(&self.tasks);
        let mut i: usize = 0;
        while i < keys.len()
            invariant
                lists_keys_in_order(keys@, self.tasks@),
                i <= keys@.len(),
                forall|j: int| 0 <= j < i ==> !is_ready(self.tasks(), #[trigger] keys@[j]),
            decreases keys.len() - i,
        {
            let k = keys[i];
            assert(keys@.contains(k));
            match self.tasks.get(&k) {
                Some(t) => {
                    if t.status == TaskStatus::Pending && self.deps_done(t) {
                        proof {
                            assert forall|x: u64| x < k implies !is_ready(self.tasks(), x) by {
                                if self.tasks().contains_key(x) {
                                    assert(keys@.contains(x));
                                    let j = choose|j: int| 0 <= j < keys@.len() && keys@[j] == x;
                                    if j >= i {
                                        if j > i {
                                            assert(keys@[i as int] < keys@[j]);
                                        }
                                    }
                                }
                            }
                        }
                        return Some(k);
                    }
                },
                None => {},
            }
            i = i + 1;
        }
        proof {
            assert forall|x: u64| !is_ready(self.tasks(), x) by {
                if self.tasks().contains_key(x) {
                    assert(keys@.contains(x));
                }
            }
        }
        None
    }

    /// Whether every task completed.
    pub fn all_completed(&self) -> (r: bool)
        ensures
            r == forall|k: u64| #[trigger] self.tasks().contains_key(k) ==> self.tasks()[k].status == TaskStatus::Completed,
    {
        let keys = sorted_keys(&self.tasks);
        let mut i: usize = 0;
        while i < keys.len()
            invariant
                lists_keys_in_order(keys@, self.tasks@),
                i <= keys@.len(),
                forall|j: int| 0 <= j < i ==> self.tasks()[#[trigger] keys@[j]].status == TaskStatus::Completed,
            decreases keys.len() - i,
        {
            let k = keys[i];
            assert(keys@.contains(k));
            match self.tasks.get(&k) {
                Some(t) => {
                    if t.status != TaskStatus::Completed {
                        assert(self.tasks().contains_key(k));
                        assert(self.tasks()[k] == t@);
                        return false;
                    }
                },
                None => {},
            }
            i = i + 1;
        }
        proof {
            assert forall|x: u64| #[trigger] self.tasks().contains_key(x) implies self.tasks()[x].status == TaskStatus::Completed by {
                assert(keys@.contains(x));
                let j = choose|j: int| 0 <= j < keys@.len() && keys@[j] == x;
                assert(self.tasks()[keys@[j]].status == TaskStatus::Completed);
            }
        }
        true
    }
}

/// The pending task that `add_task` makes from a description, an agent and dependencies.
pub open spec fn new_task(id: u64, entry: (Seq<char>, Seq<char>, Seq<u64>)) -> TaskView {
    TaskView {
        id,
        description: entry.0,
        agent: entry.1,
        status: TaskStatus::Pending,
        depends_on: entry.2,
        result: None,
    }
}

/// The tasks and the next id after adding `entries` in order, starting from tasks `m` and next
/// id `next`.
pub open spec fn after_additions(
    m: Map<u64, TaskView>,
    next: u64,
    entries: Seq<(Seq<char>, Seq<char>, Seq<u64>)>,
) -> (Map<u64, TaskView>, u64)
    decreases entries.len(),
{
    if entries.len() == 0 {
        (m, next)
    } else {
        let p = after_additions(m, next, entries.drop_last());
        (p.0.insert(p.1, new_task(p.1, entries.last())), (p.1 + 1) as u64)
    }
}

/// From a new graph, adding `entries` in order hands out the ids 1, 2, ...: entry `i` is the
/// pending task with id `i + 1`, no id is handed out twice, and the next id is one more than the
/// number of entries.
pub proof fn law_additions_from_new(entries: Seq<(Seq<char>, Seq<char>, Seq<u64>)>)
    requires
        entries.len() < u64::MAX,
    ensures
        ({
            let r = after_additions(Map::empty(), 1, entries);
            &&& r.1 == entries.len() + 1
            &&& forall|k: u64| #[trigger] r.0.contains_key(k) <==> 1 <= k <= entries.len()
            &&& forall|i: int| 0 <= i < entries.len() ==> r.0[(i + 1) as u64] == new_task((i + 1) as u64, #[trigger] entries[i])
        }),
    decreases entries.len(),
{
    if entries.len() > 0 {
        let init = entries.drop_last();
        law_additions_from_new(init);
        let r = after_additions(Map::empty(), 1, entries);
        assert forall|i: int| 0 <= i < entries.len() implies r.0[(i + 1) as u64] == new_task((i + 1) as u64, #[trigger] entries[i]) by {
            if i < init.len() {
                assert(init[i] == entries[i]);
            }
        }
    }
}

} // verus!
