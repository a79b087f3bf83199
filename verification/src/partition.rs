//! Partitions: each holds the events of its own log; the manager rebuilds the state from all of
//! them.

use std::collections::BTreeMap;
use vstd::prelude::*;
use crate::event::Event;
use crate::journal::DeliveryJournal;
use crate::ordered::{sorted_keys, ordered_keys, lists_keys_in_order};
use crate::reducer::{event_ids, idempotent_reduce, idempotent_replay, law_counter_counts_distinct_ids};
use crate::sort::{Key3, sort_keys3, sorted_keys3, law_sorted_keys_permutation};
use crate::state::{AppState, AppStateView, initial_state};

verus! {

broadcast use crate::ordered::map_facts;

/// A logical partition with its own event log.
#[derive(Debug)]
pub struct Partition {
    pub partition_id: u64,
    pub owner_node: u64,
    pub events: Vec<Event>,
}

pub struct PartitionView {
    pub partition_id: u64,
    pub owner_node: u64,
    pub events: Seq<Event>,
}

impl View for Partition {
    type V = PartitionView;

    open spec fn view(&self) -> PartitionView {
        PartitionView { partition_id: self.partition_id, owner_node: self.owner_node, events: self.events@ }
    }
}

/// Copies a list of events.
pub fn copy_events(v: &Vec<Event>) -> (r: Vec<Event>)
    ensures
        r@ == v@,
{
    let mut out: Vec<Event> = Vec::new();
    let mut i: usize = 0;
    while i < v.len()
        invariant
            i <= v@.len(),
            out@ == v@.take(i as int),
        decreases v.len() - i,
    {
        out.push(v[i].clone());
        i = i + 1;
        assert(out@ =~= v@.take(i as int));
    }
    assert(v@.take(v@.len() as int) =~= v@);
    out
}

impl Clone for Partition {
    fn clone(&self) -> (r: Self)
        ensures
            r@ == self@,
    {
        Partition { partition_id: self.partition_id, owner_node: self.owner_node, events: copy_events(&self.events) }
    }
}

impl Partition {
    pub fn new(partition_id: u64, owner_node: u64) -> (r: Self)
        ensures
            r@ == (PartitionView { partition_id, owner_node, events: Seq::empty() }),
    {
        Partition { partition_id, owner_node, events: Vec::new() }
    }

    /// Adds an event at the end of the partition's log (the caller has written it to the log on
    /// disk first).
    pub fn push_event(&mut self, event: Event)
        ensures
            final(self)@ == (PartitionView { events: old(self)@.events.push(event), ..old(self)@ }),
    {
        self.events.push(event);
    }
}

/// `BTreeMap::get_mut`: the value under `k`, to change in place.
#[verifier::external_body]
fn slot_mut(m: &mut BTreeMap<u64, Partition>, k: u64) -> (r: Option<&mut Partition>)
    ensures
        match r {
            Some(p) => old(m)@.contains_key(k) && *p == old(m)@[k] && final(m)@ == old(m)@.insert(k, *final(p)),
            None => !old(m)@.contains_key(k) && final(m)@ == old(m)@,
        },
{
    m.get_mut(&k)
}

/// The events of the given logs, one log after another.
pub open spec fn concat_logs(logs: Seq<Seq<Event>>) -> Seq<Event>
    decreases logs.len(),
{
    if logs.len() == 0 {
        Seq::empty()
    } else {
        concat_logs(logs.drop_last()) + logs.last()
    }
}

/// The events of all partitions, partition by partition in id order.
pub open spec fn all_events(parts: Map<u64, PartitionView>) -> Seq<Event> {
    concat_logs(ordered_keys(parts).map_values(|k: u64| parts[k].events))
}

/// The sort key of the event at position `i`: its tick, then its id, then its position.
pub open spec fn tick_keys(events: Seq<Event>) -> Seq<Key3> {
    Seq::new(events.len(), |i: int| (events[i].tick, events[i].id, i as u64))
}

/// The events ordered by tick, then id; equal pairs keep their order.
pub open spec fn in_tick_order(events: Seq<Event>) -> Seq<Event> {
    sorted_keys3(tick_keys(events)).map_values(|k: Key3| events[k.2 as int])
}

/// The state rebuilt from the partitions: an idempotent fold, from the empty state and an empty
/// journal, of all their events in tick order.
pub open spec fn rebuilt_state(parts: Map<u64, PartitionView>) -> AppStateView {
    idempotent_replay(initial_state(), Map::empty(), in_tick_order(all_events(parts))).0
}

pub struct PartitionManager {
    partitions: BTreeMap<u64, Partition>,
    local_node: u64,
}

impl PartitionManager {
    /// The partitions by id.
    pub closed spec fn parts(&self) -> Map<u64, PartitionView> {
        self.partitions@.map_values(|p: Partition| p@)
    }

    /// The node this manager runs on.
    pub closed spec fn node(&self) -> u64 {
        self.local_node
    }

    pub fn new(local_node: u64) -> (r: Self)
        ensures
            r.parts() == Map::<u64, PartitionView>::empty(),
            r.node() == local_node,
    {
        let r = PartitionManager { partitions: BTreeMap::new(), local_node };
        assert(r.parts() =~= Map::<u64, PartitionView>::empty());
        r
    }

    /// Creates partition `partition_id`, owned by `owner_node`, replacing one of that id.
    pub fn assign_partition(&mut self, partition_id: u64, owner_node: u64)
        ensures
            final(self).parts() == old(self).parts().insert(
                partition_id,
                PartitionView { partition_id, owner_node, events: Seq::empty() },
            ),
            final(self).node() == old(self).node(),
    {
        let partition = Partition::new(partition_id, owner_node);
        self.partitions.insert(partition_id, partition);
        assert(self.parts() =~= old(self).parts().insert(
            partition_id,
            PartitionView { partition_id, owner_node, events: Seq::empty() },
        ));
    }

    pub fn get_partition(&self, partition_id: u64) -> (r: Option<&Partition>)
        ensures
            match r {
                Some(p) => self.parts().contains_key(partition_id) && p@ == self.parts()[partition_id],
                None => !self.parts().contains_key(partition_id),
            },
    {
        self.partitions.get(&partition_id)
    }

    pub fn get_partition_mut(&mut self, partition_id: u64) -> (r: Option<&mut Partition>)
        ensures
            match r {
                Some(p) => {
                    &&& old(self).parts().contains_key(partition_id)
                    &&& p@ == old(self).parts()[partition_id]
                    &&& final(self).parts() == old(self).parts().insert(partition_id, final(p)@)
                },
                None => !old(self).parts().contains_key(partition_id) && final(self).parts() == old(self).parts(),
            },
            final(self).node() == old(self).node(),
    {
        slot_mut(&mut self.partitions, partition_id)
    }

    /// Whether partition `partition_id` exists and belongs to this node.
    pub fn is_owned(&self, partition_id: u64) -> (r: bool)
        ensures
            r == (self.parts().contains_key(partition_id) && self.parts()[partition_id].owner_node == self.node()),
    {
        match self.partitions.get(&partition_id) {
            Some(p) => p.owner_node == self.local_node,
            None => false,
        }
    }

    /// Adds an event to partition `partition_id`; nothing happens if there is no such partition.
    pub fn push_to(&mut self, partition_id: u64, event: Event)
        ensures
            old(self).parts().contains_key(partition_id) ==> final(self).parts() == old(self).parts().insert(
                partition_id,
                PartitionView {
                    events: old(self).parts()[partition_id].events.push(event),
                    ..old(self).parts()[partition_id]
                },
            ),
            !old(self).parts().contains_key(partition_id) ==> final(self).parts() == old(self).parts(),
            final(self).node() == old(self).node(),
    {
        match slot_mut(&mut self.partitions, partition_id) {
            Some(p) => {
                p.push_event(event);
            },
            None => {},
        }
        assert(self.parts() =~= if old(self).parts().contains_key(partition_id) {
            old(self).parts().insert(
                partition_id,
                PartitionView {
                    events: old(self).parts()[partition_id].events.push(event),
                    ..old(self).parts()[partition_id]
                },
            )
        } else {
            old(self).parts()
        });
    }

    /// Gathers the events of all partitions, partition by partition in id order.
    fn gather_events(&self) -> (r: Vec<Event>)
        ensures
            r@ == all_events(self.parts()),
    {
        let keys = sorted_keys(&self.partitions);
        let ghost parts = self.parts();
        let ghost logs = keys@.map_values(|k: u64| parts[k].events);
        let mut all: Vec<Event> = Vec::new();
        let mut i: usize = 0;
        while i < keys.len()
            invariant
                keys@ == ordered_keys(self.partitions@),
                lists_keys_in_order(keys@, self.partitions@),
                parts == self.parts(),
                logs == keys@.map_values(|k: u64| parts[k].events),
                i <= keys@.len(),
                all@ == concat_logs(logs.take(i as int)),
            decreases keys.len() - i,
        {
            let k = keys[i];
            assert(keys@.contains(k));
            let p = match self.partitions.get(&k) {
                Some(p) => p,
                None => {
                    return all;
                },
            };
            let ghost before = all@;
            let mut j: usize = 0;
            while j < p.events.len()
                invariant
                    j <= p.events@.len(),
                    all@ == before + p.events@.take(j as int),
                decreases p.events.len() - j,
            {
                all.push(p.events[j].clone());
                j = j + 1;
                assert(all@ =~= before + p.events@.take(j as int));
            }
            assert(p.events@.take(j as int) =~= p.events@);
            assert(logs.take(i + 1).drop_last() =~= logs.take(i as int));
            assert(logs[i as int] == p.events@);
            i = i + 1;
        }
        assert(logs.take(keys@.len() as int) =~= logs);
        proof {
            crate::ordered::lemma_ordered_keys(keys@, self.partitions@);
            assert(parts.dom() =~= self.partitions@.dom());
            assert(lists_keys_in_order(keys@, parts));
            crate::ordered::lemma_ordered_keys(keys@, parts);
        }
        all
    }

    /// Rebuilds the state from every partition: all events ordered by tick, then id (equal pairs
    /// in partition order), reduced once per id.
    pub fn rebuild_state(&self) -> (r: AppState)
        requires
            all_events(self.parts()).len() <= u64::MAX,
        ensures
            r@ == rebuilt_state(self.parts()),
    {
        let all = self.gather_events();
        let mut keys: Vec<Key3> = Vec::new();
        let mut i: usize = 0;
        while i < all.len()
            invariant
                i <= all@.len(),
                keys@ == tick_keys(all@).take(i as int),
            decreases all.len() - i,
        {
            keys.push((all[i].tick, all[i].id, i as u64));
            i = i + 1;
            assert(keys@ =~= tick_keys(all@).take(i as int));
        }
        assert(tick_keys(all@).take(all@.len() as int) =~= tick_keys(all@));
        let ghost unsorted = keys@;
        let sorted = sort_keys3(keys);
        proof {
            law_sorted_keys_permutation(unsorted);
            assert forall|j: int| 0 <= j < sorted@.len() implies (#[trigger] sorted@[j]).2 < all@.len() by {
                let x = sorted@[j];
                assert(sorted@.to_multiset().count(x) > 0) by {
                    broadcast use vstd::seq_lib::group_to_multiset_ensures;
                    assert(sorted@.contains(x));
                }
                assert(unsorted.to_multiset().count(x) > 0);
                assert(unsorted.contains(x)) by {
                    broadcast use vstd::seq_lib::group_to_multiset_ensures;
                }
                let m = choose|m: int| 0 <= m < unsorted.len() && unsorted[m] == x;
                assert(x.2 == m as u64);
            }
            assert(sorted@.len() == all@.len()) by {
                assert(sorted@.to_multiset().len() == unsorted.to_multiset().len());
                broadcast use vstd::seq_lib::group_to_multiset_ensures;
            }
        }
        let ghost order = in_tick_order(all@);
        let mut journal = DeliveryJournal::new();
        let mut state = AppState::default();
        let mut j: usize = 0;
        while j < sorted.len()
            invariant
                j <= sorted@.len(),
                sorted@.len() == all@.len(),
                all@.len() <= u64::MAX,
                sorted@ == sorted_keys3(tick_keys(all@)),
                forall|m: int| 0 <= m < sorted@.len() ==> (#[trigger] sorted@[m]).2 < all@.len(),
                order == sorted@.map_values(|k: Key3| all@[k.2 as int]),
                state.counter <= j,
                (state@, journal@) == idempotent_replay(initial_state(), Map::empty(), order.take(j as int)),
            decreases sorted.len() - j,
        {
            let idx = sorted[j].2 as usize;
            let ghost before = order.take(j as int);
            assert(order.take(j + 1).drop_last() =~= before);
            assert(order[j as int] == all@[idx as int]);
            state = idempotent_reduce(state, &all[idx], &mut journal);
            j = j + 1;
        }
        assert(order.take(j as int) =~= order);
        state
    }
}

/// Ordering the events by tick keeps the same ids.
pub proof fn lemma_tick_order_same_ids(all: Seq<Event>)
    requires
        all.len() <= u64::MAX,
    ensures
        event_ids(in_tick_order(all)) == event_ids(all),
{
    broadcast use vstd::seq_lib::group_to_multiset_ensures;
    let keys = tick_keys(all);
    let sorted = sorted_keys3(keys);
    let ord = in_tick_order(all);
    law_sorted_keys_permutation(keys);
    assert(sorted.len() == keys.len()) by {
        assert(sorted.to_multiset().len() == keys.to_multiset().len());
    }
    assert forall|id: u64| event_ids(ord).contains(id) implies event_ids(all).contains(id) by {
        let n = choose|n: int| 0 <= n < ord.len() && ord[n].id == id;
        let x = sorted[n];
        assert(sorted.contains(x));
        assert(sorted.to_multiset().count(x) > 0);
        assert(keys.to_multiset().count(x) > 0);
        assert(keys.contains(x));
        let q = choose|q: int| 0 <= q < keys.len() && keys[q] == x;
        assert(x.2 == q as u64);
        assert(ord[n] == all[q]);
    }
    assert forall|id: u64| event_ids(all).contains(id) implies event_ids(ord).contains(id) by {
        let q = choose|q: int| 0 <= q < all.len() && all[q].id == id;
        let x = keys[q];
        assert(keys.contains(x));
        assert(keys.to_multiset().count(x) > 0);
        assert(sorted.to_multiset().count(x) > 0);
        assert(sorted.contains(x));
        let n = choose|n: int| 0 <= n < sorted.len() && sorted[n] == x;
        assert(ord[n] == all[q]);
    }
    assert(event_ids(in_tick_order(all)) =~= event_ids(all));
}

/// The state rebuilt from the partitions counts each event id once, whichever partition holds
/// it and however often it was delivered: its counter is the number of distinct ids among the
/// events of all partitions.
pub proof fn law_rebuilt_counts_distinct_ids(parts: Map<u64, PartitionView>)
    requires
        all_events(parts).len() <= u64::MAX,
    ensures
        rebuilt_state(parts).counter == event_ids(all_events(parts)).len(),
{
    law_counter_counts_distinct_ids(in_tick_order(all_events(parts)));
    lemma_tick_order_same_ids(all_events(parts));
}

} // verus!
