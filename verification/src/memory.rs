//! Replay-safe cognitive memory: records that never change once stored.

use std::collections::BTreeMap;
use vstd::prelude::*;

verus! {

broadcast use crate::ordered::map_facts;

#[derive(Debug, Clone, Copy, PartialEq, Eq, PartialOrd, Ord, Structural)]
pub enum MemoryType {
    Episodic,
    Semantic,
    Working,
}

/// One memory, with a deterministic id and the logical tick it was made at.
#[derive(Debug)]
pub struct MemoryRecord {
    pub memory_id: u64,
    pub memory_type: MemoryType,
    pub content: String,
    pub created_tick: u64,
}

impl Clone for MemoryRecord {
    fn clone(&self) -> (r: Self)
        ensures
            r == *self,
    {
        MemoryRecord {
            memory_id: self.memory_id,
            memory_type: self.memory_type,
            content: self.content.clone(),
            created_tick: self.created_tick,
        }
    }
}

/// Memories by id.
#[derive(Debug)]
pub struct MemoryGraph {
    memories: BTreeMap<u64, MemoryRecord>,
}

impl View for MemoryGraph {
    type V = Map<u64, MemoryRecord>;

    closed spec fn view(&self) -> Map<u64, MemoryRecord> {
        self.memories@
    }
}

impl MemoryGraph {
    pub fn new() -> (r: Self)
        ensures
            r@ == Map::<u64, MemoryRecord>::empty(),
    {
        MemoryGraph { memories: BTreeMap::new() }
    }

    /// Stores a memory under its id. A record is immutable once recorded: when the id is taken,
    /// the stored record stays and the new one is dropped.
    pub fn store(&mut self, memory: MemoryRecord)
        ensures
            final(self)@ == after_store(old(self)@, memory),
    {
        if !self.memories.contains_key(&memory.memory_id) {
            self.memories.insert(memory.memory_id, memory);
        }
    }

    /// A copy of memory `memory_id`, which must be stored.
    pub fn get(&self, memory_id: u64) -> (r: MemoryRecord)
        requires
            self@.contains_key(memory_id),
        ensures
            r == self@[memory_id],
    {
        match self.memories.get(&memory_id) {
            Some(m) => m.clone(),
            None => {
                assert(false);
                MemoryRecord { memory_id, memory_type: MemoryType::Working, content: String::new(), created_tick: 0 }
            },
        }
    }

    /// How many memories are stored; they are finitely many.
    pub fn total_memories(&self) -> (r: usize)
        ensures
            self@.dom().finite(),
            r == self@.dom().len(),
    {
        self.memories.len()
    }
}

/// The memories after `rec` was stored: it is added under its id unless the id is taken.
pub open spec fn after_store(m: Map<u64, MemoryRecord>, rec: MemoryRecord) -> Map<u64, MemoryRecord> {
    if m.contains_key(rec.memory_id) {
        m
    } else {
        m.insert(rec.memory_id, rec)
    }
}

/// What is stored under a free id can be read back, and no later store changes it: a record is
/// immutable once recorded.
pub proof fn law_store_then_get(m: Map<u64, MemoryRecord>, rec: MemoryRecord, other: MemoryRecord)
    requires
        !m.contains_key(rec.memory_id),
    ensures
        after_store(m, rec)[rec.memory_id] == rec,
        after_store(after_store(m, rec), other)[rec.memory_id] == rec,
        after_store(after_store(m, rec), other).dom() == after_store(m, rec).dom().insert(other.memory_id),
{
    assert(after_store(after_store(m, rec), other).dom() =~= after_store(m, rec).dom().insert(other.memory_id));
}

/// Storing a memory under a free id adds one memory; under a taken id the count stays.
pub proof fn law_store_count(m: Map<u64, MemoryRecord>, rec: MemoryRecord)
    requires
        m.dom().finite(),
    ensures
        after_store(m, rec).dom().len() == m.dom().len() + (if m.contains_key(rec.memory_id) { 0int } else { 1int }),
{
}

/// A recorded memory stays as it is, whatever is stored afterwards.
pub proof fn law_recorded_is_immutable(m: Map<u64, MemoryRecord>, id: u64, rec: MemoryRecord)
    requires
        m.contains_key(id),
    ensures
        after_store(m, rec).contains_key(id),
        after_store(m, rec)[id] == m[id],
{
}

} // verus!
