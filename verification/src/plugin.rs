//! Plugin agents: named helpers registered at run time under fresh ids.

use std::collections::BTreeMap;
use vstd::prelude::*;
use crate::ordered::{sorted_keys, ordered_keys, lists_keys_in_order};

verus! {

broadcast use crate::ordered::map_facts;

/// The first id that a registry hands out.
pub const FIRST_PLUGIN_ID: u64 = 300;

#[derive(Debug)]
pub struct PluginAgent {
    pub agent_id: u64,
    pub name: String,
    pub description: String,
}

impl Clone for PluginAgent {
    fn clone(&self) -> (r: Self)
        ensures
            r == *self,
    {
        PluginAgent { agent_id: self.agent_id, name: self.name.clone(), description: self.description.clone() }
    }
}

/// Registered plugin agents by id; ids are handed out in increasing order.
#[derive(Debug)]
pub struct PluginRegistry {
    agents: BTreeMap<u64, PluginAgent>,
    next_id: u64,
}

impl PluginRegistry {
    /// The agents by id.
    pub closed spec fn agents(&self) -> Map<u64, PluginAgent> {
        self.agents@
    }

    /// The id that the next registration gets.
    pub closed spec fn next_id(&self) -> u64 {
        self.next_id
    }

    #[verifier::type_invariant]
    closed spec fn wf(&self) -> bool {
        &&& FIRST_PLUGIN_ID <= self.next_id
        &&& forall|k: u64| #[trigger] self.agents@.contains_key(k) ==> FIRST_PLUGIN_ID <= k < self.next_id
        &&& forall|k: u64| #[trigger] self.agents@.contains_key(k) ==> self.agents@[k].agent_id == k
    }

    pub fn new() -> (r: Self)
        ensures
            r.agents() == Map::<u64, PluginAgent>::empty(),
            r.next_id() == FIRST_PLUGIN_ID,
    {
        PluginRegistry { agents: BTreeMap::new(), next_id: FIRST_PLUGIN_ID }
    }

    /// Registers an agent under the next id and returns that id.
    pub fn register(&mut self, name: String, description: String) -> (id: u64)
        requires
            old(self).next_id() < u64::MAX,
        ensures
            id == old(self).next_id(),
            !old(self).agents().contains_key(id),
            final(self).next_id() == id + 1,
            final(self).agents() == old(self).agents().insert(
                id,
                PluginAgent { agent_id: id, name: name, description: description },
            ),
    {
        proof {
            use_type_invariant(&*self);
        }
        let id = self.next_id;
        let agent = PluginAgent { agent_id: id, name, description };
        let mut agents = BTreeMap::new();
        std::mem::swap(&mut agents, &mut self.agents);
        agents.insert(id, agent);
        *self = PluginRegistry { agents, next_id: id + 1 };
        id
    }

    /// The registered agents, smallest id first.
    pub fn list(&self) -> (r: Vec<&PluginAgent>)
        ensures
            r@.len() == ordered_keys(self.agents()).len(),
            lists_keys_in_order(ordered_keys(self.agents()), self.agents()),
            forall|i: int| 0 <= i < r@.len() ==> *r@[i] == self.agents()[ordered_keys(self.agents())[i]],
            forall|i: int| 0 <= i < r@.len() ==> (#[trigger] r@[i]).agent_id == ordered_keys(self.agents())[i],
    {
        proof {
            use_type_invariant(self);
        }
        let ids = sorted_keys(&self.agents);
        let mut out: Vec<&PluginAgent> = Vec::new();
        let mut i: usize = 0;
        while i < ids.len()
            invariant
                ids@ == ordered_keys(self.agents@),
                lists_keys_in_order(ids@, self.agents@),
                i <= ids@.len(),
                out@.len() == i,
                forall|j: int| 0 <= j < i ==> *out@[j] == self.agents@[ids@[j]],
            decreases ids.len() - i,
        {
            let id = ids[i];
            assert(self.agents@.contains_key(id)) by {
                assert(ids@.contains(id));
            }
            match self.agents.get(&id) {
                Some(a) => out.push(a),
                None => {
                    assert(false);
                },
            }
            i = i + 1;
        }
        assert forall|i: int| 0 <= i < out@.len() implies (#[trigger] out@[i]).agent_id == ordered_keys(self.agents())[i] by {
            assert(ids@.contains(ids@[i]));
        }
        out
    }
}

/// The agents and the next id after registering `entries` (name and description) in order,
/// starting from agents `a` and next id `next`.
pub open spec fn after_registrations(
    a: Map<u64, PluginAgent>,
    next: u64,
    entries: Seq<(String, String)>,
) -> (Map<u64, PluginAgent>, u64)
    decreases entries.len(),
{
    if entries.len() == 0 {
        (a, next)
    } else {
        let p = after_registrations(a, next, entries.drop_last());
        let e = entries.last();
        (p.0.insert(p.1, PluginAgent { agent_id: p.1, name: e.0, description: e.1 }), (p.1 + 1) as u64)
    }
}

/// From a fresh registry, registering `entries` in order hands out the ids 300, 301, ...:
/// entry `i` is the agent with id `300 + i`, the ids are consecutive and never reused, and the
/// next id is `300` plus the number of entries.
pub proof fn law_registrations_from_fresh(entries: Seq<(String, String)>)
    requires
        FIRST_PLUGIN_ID + entries.len() <= u64::MAX,
    ensures
        ({
            let r = after_registrations(Map::empty(), FIRST_PLUGIN_ID, entries);
            &&& r.1 == FIRST_PLUGIN_ID + entries.len()
            &&& forall|k: u64| #[trigger] r.0.contains_key(k) <==> FIRST_PLUGIN_ID <= k < FIRST_PLUGIN_ID + entries.len()
            &&& forall|i: int| 0 <= i < entries.len() ==> r.0[(FIRST_PLUGIN_ID + i) as u64] == (PluginAgent {
                agent_id: (FIRST_PLUGIN_ID + i) as u64,
                name: (#[trigger] entries[i]).0,
                description: entries[i].1,
            })
        }),
    decreases entries.len(),
{
    if entries.len() > 0 {
        let init = entries.drop_last();
        law_registrations_from_fresh(init);
        let r = after_registrations(Map::empty(), FIRST_PLUGIN_ID, entries);
        assert forall|i: int| 0 <= i < entries.len() implies r.0[(FIRST_PLUGIN_ID + i) as u64] == (PluginAgent {
            agent_id: (FIRST_PLUGIN_ID + i) as u64,
            name: (#[trigger] entries[i]).0,
            description: entries[i].1,
        }) by {
            if i < init.len() {
                assert(init[i] == entries[i]);
            }
        }
    }
}

} // verus!
