//! The application state that reducers build from events.

use std::collections::BTreeMap;
use vstd::prelude::*;
use crate::event::Event;
use crate::ordered::{sorted_keys, lists_keys_in_order};
use crate::text::str_eq;

verus! {

broadcast use crate::ordered::map_facts;

#[derive(Debug, Clone, Copy, PartialEq, Eq, Structural)]
pub enum WorkflowState {
    Pending,
    Ready,
    Running,
    Completed,
    Failed,
}

#[derive(Debug, Clone, Copy, PartialEq, Eq, Structural)]
pub enum GoalStatus {
    Pending,
    Active,
    Completed,
    Failed,
}

#[derive(Debug)]
pub struct WorkflowInstance {
    pub workflow_id: u64,
    pub definition_hash: String,
    pub state: WorkflowState,
    pub created_tick: u64,
    pub updated_tick: u64,
}

/// A workflow instance with its text taken as characters.
pub struct WorkflowInstanceView {
    pub workflow_id: u64,
    pub definition_hash: Seq<char>,
    pub state: WorkflowState,
    pub created_tick: u64,
    pub updated_tick: u64,
}

impl View for WorkflowInstance {
    type V = WorkflowInstanceView;

    open spec fn view(&self) -> WorkflowInstanceView {
        WorkflowInstanceView {
            workflow_id: self.workflow_id,
            definition_hash: self.definition_hash@,
            state: self.state,
            created_tick: self.created_tick,
            updated_tick: self.updated_tick,
        }
    }
}

impl Clone for WorkflowInstance {
    fn clone(&self) -> (r: Self)
        ensures
            r@ == self@,
    {
        WorkflowInstance {
            workflow_id: self.workflow_id,
            definition_hash: self.definition_hash.clone(),
            state: self.state,
            created_tick: self.created_tick,
            updated_tick: self.updated_tick,
        }
    }
}

impl WorkflowInstance {
    /// Whether both instances hold the same values.
    pub fn same_as(&self, other: &WorkflowInstance) -> (r: bool)
        ensures
            r == (self@ == other@),
    {
        self.workflow_id == other.workflow_id && str_eq(self.definition_hash.as_str(), other.definition_hash.as_str())
            && self.state == other.state && self.created_tick == other.created_tick
            && self.updated_tick == other.updated_tick
    }
}

#[derive(Debug)]
pub struct Goal {
    pub id: u64,
    pub description: String,
    pub status: GoalStatus,
    pub priority: u64,
    pub parent_id: Option<u64>,
    pub children: Vec<u64>,
    pub depends_on: Vec<u64>,
    pub created_tick: u64,
    pub updated_tick: u64,
}

/// A goal with its text and lists taken as sequences.
pub struct GoalView {
    pub id: u64,
    pub description: Seq<char>,
    pub status: GoalStatus,
    pub priority: u64,
    pub parent_id: Option<u64>,
    pub children: Seq<u64>,
    pub depends_on: Seq<u64>,
    pub created_tick: u64,
    pub updated_tick: u64,
}

impl View for Goal {
    type V = GoalView;

    open spec fn view(&self) -> GoalView {
        GoalView {
            id: self.id,
            description: self.description@,
            status: self.status,
            priority: self.priority,
            parent_id: self.parent_id,
            children: self.children@,
            depends_on: self.depends_on@,
            created_tick: self.created_tick,
            updated_tick: self.updated_tick,
        }
    }
}

/// Copies a list of ids.
pub fn copy_ids(v: &Vec<u64>) -> (r: Vec<u64>)
    ensures
        r@ == v@,
{
    let mut out: Vec<u64> = Vec::new();
    let mut i: usize = 0;
    while i < v.len()
        invariant
            i <= v.len(),
            out@ == v@.take(i as int),
        decreases v.len() - i,
    {
        out.push(v[i]);
        i = i + 1;
        assert(out@ =~= v@.take(i as int));
    }
    assert(v@.take(v.len() as int) =~= v@);
    out
}

/// Whether two lists of ids are equal.
pub fn same_ids(a: &Vec<u64>, b: &Vec<u64>) -> (r: bool)
    ensures
        r == (a@ == b@),
{
    if a.len() != b.len() {
        return false;
    }
    let mut i: usize = 0;
    while i < a.len()
        invariant
            a.len() == b.len(),
            i <= a.len(),
            forall|j: int| 0 <= j < i ==> a@[j] == b@[j],
        decreases a.len() - i,
    {
        if a[i] != b[i] {
            return false;
        }
        i = i + 1;
    }
    assert(a@ =~= b@);
    true
}

impl Clone for Goal {
    fn clone(&self) -> (r: Self)
        ensures
            r@ == self@,
    {
        Goal {
            id: self.id,
            description: self.description.clone(),
            status: self.status,
            priority: self.priority,
            parent_id: self.parent_id,
            children: copy_ids(&self.children),
            depends_on: copy_ids(&self.depends_on),
            created_tick: self.created_tick,
            updated_tick: self.updated_tick,
        }
    }
}

impl Default for Goal {
    fn default() -> (r: Self)
        ensures
            r@ == (GoalView {
                id: 0,
                description: Seq::empty(),
                status: GoalStatus::Pending,
                priority: 1,
                parent_id: None,
                children: Seq::empty(),
                depends_on: Seq::empty(),
                created_tick: 0,
                updated_tick: 0,
            }),
    {
        Goal {
            id: 0,
            description: String::new(),
            status: GoalStatus::Pending,
            priority: 1,
            parent_id: None,
            children: Vec::new(),
            depends_on: Vec::new(),
            created_tick: 0,
            updated_tick: 0,
        }
    }
}

impl Goal {
    /// Whether both goals hold the same values.
    pub fn same_as(&self, other: &Goal) -> (r: bool)
        ensures
            r == (self@ == other@),
    {
        self.id == other.id && str_eq(self.description.as_str(), other.description.as_str())
            && self.status == other.status && self.priority == other.priority
            && self.parent_id == other.parent_id && same_ids(&self.children, &other.children)
            && same_ids(&self.depends_on, &other.depends_on) && self.created_tick == other.created_tick
            && self.updated_tick == other.updated_tick
    }
}

/// The whole state, with text taken as characters. The counter is an unbounded integer so that
/// replays can be stated without wrap-around.
pub struct AppStateView {
    pub counter: int,
    pub last_tick: u64,
    pub history: Seq<Seq<char>>,
    pub workflows: Map<u64, WorkflowInstanceView>,
    pub goals: Map<u64, GoalView>,
}

#[derive(Debug)]
pub struct AppState {
    pub counter: u64,
    pub last_tick: u64,
    pub history: Vec<String>,
    pub workflows: BTreeMap<u64, WorkflowInstance>,
    pub goals: BTreeMap<u64, Goal>,
}

impl View for AppState {
    type V = AppStateView;

    open spec fn view(&self) -> AppStateView {
        AppStateView {
            counter: self.counter as int,
            last_tick: self.last_tick,
            history: self.history@.map_values(|s: String| s@),
            workflows: self.workflows@.map_values(|w: WorkflowInstance| w@),
            goals: self.goals@.map_values(|g: Goal| g@),
        }
    }
}

/// The empty state that a replay starts from.
pub open spec fn initial_state() -> AppStateView {
    AppStateView {
        counter: 0,
        last_tick: 0,
        history: Seq::empty(),
        workflows: Map::empty(),
        goals: Map::empty(),
    }
}

/// The state after `events` were applied in order: the counter grows by one per event and the
/// history gains each payload; nothing else changes.
pub open spec fn replay_events(s: AppStateView, events: Seq<Event>) -> AppStateView {
    AppStateView {
        counter: s.counter + events.len(),
        history: s.history + events.map_values(|e: Event| e.payload@),
        ..s
    }
}

/// The state after one event was applied.
pub open spec fn applied(s: AppStateView, e: Event) -> AppStateView {
    replay_events(s, seq![e])
}

/// Replaying one more event applies it to the replay of the ones before.
pub proof fn lemma_replay_push(s: AppStateView, events: Seq<Event>, e: Event)
    ensures
        replay_events(s, events.push(e)) == applied(replay_events(s, events), e),
{
    assert(events.push(e).map_values(|e: Event| e.payload@) =~= events.map_values(|e: Event| e.payload@).push(e.payload@));
    assert(seq![e].map_values(|e: Event| e.payload@) =~= seq![e.payload@]);
    assert(s.history + events.push(e).map_values(|e: Event| e.payload@) =~= s.history + events.map_values(
        |e: Event| e.payload@,
    ) + seq![e].map_values(|e: Event| e.payload@));
}

/// Copies the history.
fn copy_history(v: &Vec<String>) -> (r: Vec<String>)
    ensures
        r@.map_values(|s: String| s@) == v@.map_values(|s: String| s@),
{
    let mut out: Vec<String> = Vec::new();
    let mut i: usize = 0;
    while i < v.len()
        invariant
            i <= v.len(),
            out@.len() == i,
            forall|j: int| 0 <= j < i ==> out@[j]@ == v@[j]@,
        decreases v.len() - i,
    {
        out.push(v[i].clone());
        i = i + 1;
    }
    assert(out@.map_values(|s: String| s@) =~= v@.map_values(|s: String| s@));
    out
}

impl Clone for AppState {
    fn clone(&self) -> (r: Self)
        ensures
            r@ == self@,
    {
        AppState {
            counter: self.counter,
            last_tick: self.last_tick,
            history: copy_history(&self.history),
            workflows: self.workflows.clone(),
            goals: self.goals.clone(),
        }
    }
}

impl Default for AppState {
    fn default() -> (r: Self)
        ensures
            r@ == initial_state(),
    {
        let r = AppState {
            counter: 0,
            last_tick: 0,
            history: Vec::new(),
            workflows: BTreeMap::new(),
            goals: BTreeMap::new(),
        };
        assert(r@.history =~= Seq::<Seq<char>>::empty());
        assert(r@.workflows =~= Map::<u64, WorkflowInstanceView>::empty());
        assert(r@.goals =~= Map::<u64, GoalView>::empty());
        r
    }
}

impl AppState {
    /// Counts the event and records its payload in the history.
    pub fn apply_event(&mut self, event: &Event)
        requires
            old(self).counter < u64::MAX,
        ensures
            final(self)@ == applied(old(self)@, *event),
    {
        self.counter = self.counter + 1;
        self.history.push(event.payload.clone());
        proof {
            assert(seq![*event].map_values(|e: Event| e.payload@) =~= seq![event.payload@]);
            assert(self@.history =~= old(self)@.history + seq![*event].map_values(|e: Event| e.payload@));
        }
    }

    /// Whether both states hold the same values.
    pub fn same_as(&self, other: &AppState) -> (r: bool)
        ensures
            r == (self@ == other@),
    {
        if self.counter != other.counter || self.last_tick != other.last_tick {
            return false;
        }
        if self.history.len() != other.history.len() {
            assert(self@.history.len() != other@.history.len());
            return false;
        }
        let mut i: usize = 0;
        while i < self.history.len()
            invariant
                self.history.len() == other.history.len(),
                i <= self.history.len(),
                forall|j: int| 0 <= j < i ==> self.history@[j]@ == other.history@[j]@,
            decreases self.history.len() - i,
        {
            if !str_eq(self.history[i].as_str(), other.history[i].as_str()) {
                assert(self@.history[i as int] != other@.history[i as int]);
                return false;
            }
            i = i + 1;
        }
        assert(self@.history =~= other@.history);
        if !same_workflows(&self.workflows, &other.workflows) {
            return false;
        }
        if !same_goals(&self.goals, &other.goals) {
            return false;
        }
        true
    }
}

/// Whether two workflow tables hold the same instances under the same ids.
fn same_workflows(a: &BTreeMap<u64, WorkflowInstance>, b: &BTreeMap<u64, WorkflowInstance>) -> (r: bool)
    ensures
        r == (a@.map_values(|w: WorkflowInstance| w@) == b@.map_values(|w: WorkflowInstance| w@)),
{
    let ka = sorted_keys(a);
    let kb = sorted_keys(b);
    let ghost va = a@.map_values(|w: WorkflowInstance| w@);
    let ghost vb = b@.map_values(|w: WorkflowInstance| w@);
    if ka.len() != kb.len() {
        assert(va.dom() =~= a@.dom());
        assert(vb.dom() =~= b@.dom());
        return false;
    }
    let mut i: usize = 0;
    while i < ka.len()
        invariant
            lists_keys_in_order(ka@, a@),
            lists_keys_in_order(kb@, b@),
            va == a@.map_values(|w: WorkflowInstance| w@),
            vb == b@.map_values(|w: WorkflowInstance| w@),
            ka.len() == kb.len(),
            i <= ka.len(),
            forall|j: int| 0 <= j < i ==> ka@[j] == kb@[j],
            forall|j: int| 0 <= j < i ==> va.contains_key(ka@[j]) && #[trigger] va[ka@[j]] == vb[ka@[j]],
        decreases ka.len() - i,
    {
        if ka[i] != kb[i] {
            proof {
                if va == vb {
                    assert forall|k: u64| ka@.contains(k) <==> kb@.contains(k) by {
                        assert(va.contains_key(k) == a@.contains_key(k));
                        assert(vb.contains_key(k) == b@.contains_key(k));
                    }
                    crate::ordered::lemma_increasing_unique(ka@, kb@);
                }
            }
            return false;
        }
        assert(forall|j: int| 0 <= j < i ==> va[ka@[j]] == vb[ka@[j]]);
        let k = ka[i];
        assert(ka@.contains(k));
        assert(kb@.contains(k));
        let x = match a.get(&k) {
            Some(x) => x,
            None => {
                return false;
            },
        };
        let y = match b.get(&k) {
            Some(y) => y,
            None => {
                return false;
            },
        };
        assert(va[k] == x@);
        assert(vb[k] == y@);
        if !x.same_as(y) {
            return false;
        }
        assert(va.contains_key(ka@[i as int]));
        assert(va[ka@[i as int]] == vb[ka@[i as int]]);
        i = i + 1;
    }
    assert(ka@ =~= kb@);
    assert(va =~= vb) by {
        assert forall|k: u64| va.contains_key(k) <==> vb.contains_key(k) by {
            assert(a@.contains_key(k) <==> ka@.contains(k));
            assert(b@.contains_key(k) <==> kb@.contains(k));
        }
        assert forall|k: u64| #[trigger] va.contains_key(k) implies va[k] == vb[k] by {
            assert(ka@.contains(k));
            let j = choose|j: int| 0 <= j < ka@.len() && ka@[j] == k;
            assert(va[ka@[j]] == vb[ka@[j]]);
        }
    }
    true
}

/// Whether two goal tables hold the same goals under the same ids.
fn same_goals(a: &BTreeMap<u64, Goal>, b: &BTreeMap<u64, Goal>) -> (r: bool)
    ensures
        r == (a@.map_values(|g: Goal| g@) == b@.map_values(|g: Goal| g@)),
{
    let ka = sorted_keys(a);
    let kb = sorted_keys(b);
    let ghost va = a@.map_values(|g: Goal| g@);
    let ghost vb = b@.map_values(|g: Goal| g@);
    if ka.len() != kb.len() {
        assert(va.dom() =~= a@.dom());
        assert(vb.dom() =~= b@.dom());
        return false;
    }
    let mut i: usize = 0;
    while i < ka.len()
        invariant
            lists_keys_in_order(ka@, a@),
            lists_keys_in_order(kb@, b@),
            va == a@.map_values(|g: Goal| g@),
            vb == b@.map_values(|g: Goal| g@),
            ka.len() == kb.len(),
            i <= ka.len(),
            forall|j: int| 0 <= j < i ==> ka@[j] == kb@[j],
            forall|j: int| 0 <= j < i ==> va.contains_key(ka@[j]) && #[trigger] va[ka@[j]] == vb[ka@[j]],
        decreases ka.len() - i,
    {
        if ka[i] != kb[i] {
            proof {
                if va == vb {
                    assert forall|k: u64| ka@.contains(k) <==> kb@.contains(k) by {
                        assert(va.contains_key(k) == a@.contains_key(k));
                        assert(vb.contains_key(k) == b@.contains_key(k));
                    }
                    crate::ordered::lemma_increasing_unique(ka@, kb@);
                }
            }
            return false;
        }
        assert(forall|j: int| 0 <= j < i ==> va[ka@[j]] == vb[ka@[j]]);
        let k = ka[i];
        assert(ka@.contains(k));
        assert(kb@.contains(k));
        let x = match a.get(&k) {
            Some(x) => x,
            None => {
                return false;
            },
        };
        let y = match b.get(&k) {
            Some(y) => y,
            None => {
                return false;
            },
        };
        assert(va[k] == x@);
        assert(vb[k] == y@);
        if !x.same_as(y) {
            return false;
        }
        assert(va.contains_key(ka@[i as int]));
        assert(va[ka@[i as int]] == vb[ka@[i as int]]);
        i = i + 1;
    }
    assert(ka@ =~= kb@);
    assert(va =~= vb) by {
        assert forall|k: u64| va.contains_key(k) <==> vb.contains_key(k) by {
            assert(a@.contains_key(k) <==> ka@.contains(k));
            assert(b@.contains_key(k) <==> kb@.contains(k));
        }
        assert forall|k: u64| #[trigger] va.contains_key(k) implies va[k] == vb[k] by {
            assert(ka@.contains(k));
            let j = choose|j: int| 0 <= j < ka@.len() && ka@[j] == k;
            assert(va[ka@[j]] == vb[ka@[j]]);
        }
    }
    true
}

} // verus!
