//! The delivery journal: which event ids were already reduced, and at which count.
//!
//! For each reduced id the journal keeps its mark: the count of the state right after the event
//! was reduced. A state whose count has reached the mark already holds the event; a state that
//! has not (such as a fresh state handed to the same journal) does not, and the event is reduced
//! into it.

use std::collections::BTreeMap;
use vstd::prelude::*;

verus! {

broadcast use crate::ordered::map_facts;

/// The journal holds the delivery of `id` to a state that has counted `count` events: the id was
/// reduced, at a mark that `count` has reached.
pub open spec fn holds_delivery(marks: Map<u64, int>, id: u64, count: int) -> bool {
    marks.contains_key(id) && marks[id] <= count
}

pub struct DeliveryJournal {
    marks: BTreeMap<u64, u64>,
}

impl View for DeliveryJournal {
    type V = Map<u64, int>;

    closed spec fn view(&self) -> Map<u64, int> {
        self.marks@.map_values(|m: u64| m as int)
    }
}

impl DeliveryJournal {
    pub fn new() -> (r: Self)
        ensures
            r@ == Map::<u64, int>::empty(),
    {
        let r = DeliveryJournal { marks: BTreeMap::new() };
        assert(r@ =~= Map::<u64, int>::empty());
        r
    }

    /// Whether the id was ever reduced with this journal.
    pub fn already_processed(&self, id: u64) -> (r: bool)
        ensures
            r == self@.contains_key(id),
    {
        self.marks.contains_key(&id)
    }

    /// Whether a state that has counted `count` events already holds the event `id`.
    pub fn holds_delivery(&self, id: u64, count: u64) -> (r: bool)
        ensures
            r == holds_delivery(self@, id, count as int),
    {
        match self.marks.get(&id) {
            Some(mark) => *mark <= count,
            None => false,
        }
    }

    /// Records that `id` was reduced into a state that then counted `mark` events.
    pub fn record(&mut self, id: u64, mark: u64)
        ensures
            final(self)@ == old(self)@.insert(id, mark as int),
    {
        self.marks.insert(id, mark);
        assert(self@ =~= old(self)@.insert(id, mark as int));
    }
}

} // verus!
