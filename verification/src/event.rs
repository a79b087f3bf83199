//! Events: the facts that the runtime records and replays.

use vstd::prelude::*;

verus! {

/// One recorded fact.
#[derive(Debug)]
pub struct Event {
    pub id: u64,
    pub tick: u64,
    pub event_type: String,
    pub payload: String,
    pub parent_id: Option<u64>,
    pub vector_clock: String,
}

impl Clone for Event {
    fn clone(&self) -> (r: Self)
        ensures
            r == *self,
    {
        Event {
            id: self.id,
            tick: self.tick,
            event_type: self.event_type.clone(),
            payload: self.payload.clone(),
            parent_id: self.parent_id,
            vector_clock: self.vector_clock.clone(),
        }
    }
}

} // verus!
