//! The effect outbox: side effects requested by the runtime, waiting to be carried out.

use std::collections::BTreeMap;
use vstd::prelude::*;
use crate::ordered::{sorted_keys, ordered_keys, lists_keys_in_order};

verus! {

broadcast use crate::ordered::map_facts;

#[derive(Debug, Clone, Copy, PartialEq, Eq, PartialOrd, Ord, Structural)]
pub enum EffectType {
    Subprocess,
    ApiCall,
    LlmInference,
}

#[derive(Debug)]
pub struct EffectRequest {
    pub id: u64,
    pub tick: u64,
    pub effect_type: EffectType,
    pub payload: String,
}

impl Clone for EffectRequest {
    fn clone(&self) -> (r: Self)
        ensures
            r == *self,
    {
        EffectRequest { id: self.id, tick: self.tick, effect_type: self.effect_type, payload: self.payload.clone() }
    }
}

/// Makes an id for a new effect: the first half of a fresh time-ordered (version 7) UUID.
#[verifier::external_body]
pub(crate) fn fresh_effect_id() -> u64 {
    uuid::Uuid::now_v7().as_u64_pair().0
}

/// The outbox after one shell command was queued under some fresh id, at tick 0.
pub open spec fn queued(before: Map<u64, EffectRequest>, after: Map<u64, EffectRequest>, command: Seq<char>) -> bool {
    exists|e: EffectRequest|
        #![trigger after[e.id]]
        e.tick == 0 && e.effect_type == EffectType::Subprocess && e.payload@ == command && after == before.insert(e.id, e)
}

/// Queues a shell command under a fresh id, at tick 0.
pub(crate) fn enqueue_command(outbox: &mut EffectOutbox, command: String)
    ensures
        queued(old(outbox)@, final(outbox)@, command@),
{
    let e = EffectRequest { id: fresh_effect_id(), tick: 0, effect_type: EffectType::Subprocess, payload: command };
    outbox.enqueue(e);
    assert(outbox@[e.id] == e);
}

/// Pending effects by id.
#[derive(Debug)]
pub struct EffectOutbox {
    pending: BTreeMap<u64, EffectRequest>,
}

impl View for EffectOutbox {
    type V = Map<u64, EffectRequest>;

    closed spec fn view(&self) -> Map<u64, EffectRequest> {
        self.pending@
    }
}

impl EffectOutbox {
    pub fn new() -> (r: Self)
        ensures
            r@ == Map::<u64, EffectRequest>::empty(),
    {
        EffectOutbox { pending: BTreeMap::new() }
    }

    /// Queues an effect under its id, replacing a pending effect of the same id.
    pub fn enqueue(&mut self, effect: EffectRequest)
        ensures
            final(self)@ == old(self)@.insert(effect.id, effect),
    {
        self.pending.insert(effect.id, effect);
    }

    /// Takes the effect `effect_id` out of the outbox.
    pub fn complete(&mut self, effect_id: u64) -> (r: Option<EffectRequest>)
        ensures
            final(self)@ == old(self)@.remove(effect_id),
            match r {
                Some(e) => old(self)@.contains_key(effect_id) && e == old(self)@[effect_id],
                None => !old(self)@.contains_key(effect_id),
            },
    {
        self.pending.remove(&effect_id)
    }

    /// How many effects are pending; the pending effects are finitely many.
    pub fn pending_count(&self) -> (r: usize)
        ensures
            self@.dom().finite(),
            r == self@.dom().len(),
    {
        self.pending.len()
    }

    pub fn contains(&self, effect_id: u64) -> (r: bool)
        ensures
            r == self@.contains_key(effect_id),
    {
        self.pending.contains_key(&effect_id)
    }

    /// The ids of all pending effects, smallest first.
    pub fn pending_ids(&self) -> (r: Vec<u64>)
        ensures
            r@ == ordered_keys(self@),
            lists_keys_in_order(r@, self@),
    {
        sorted_keys(&self.pending)
    }
}

/// Queuing an effect under a new id adds one pending effect; under a pending id it replaces that
/// effect and the count stays.
pub proof fn law_enqueue_count(m: Map<u64, EffectRequest>, e: EffectRequest)
    requires
        m.dom().finite(),
    ensures
        m.insert(e.id, e).dom().len() == m.dom().len() + (if m.contains_key(e.id) { 0int } else { 1int }),
{
    if m.contains_key(e.id) {
        assert(m.insert(e.id, e).dom() =~= m.dom());
    }
}

/// A queued effect can be taken back out, unchanged.
pub proof fn law_enqueue_then_complete(m: Map<u64, EffectRequest>, e: EffectRequest)
    ensures
        m.insert(e.id, e).contains_key(e.id),
        m.insert(e.id, e)[e.id] == e,
        m.insert(e.id, e).remove(e.id) == m.remove(e.id),
{
    assert(m.insert(e.id, e).remove(e.id) =~= m.remove(e.id));
}

} // verus!
