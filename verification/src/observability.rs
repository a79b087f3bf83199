//! Counters that the metrics endpoint reports.

use vstd::prelude::*;

verus! {

#[derive(Debug)]
pub struct Metrics {
    pub events_processed: u64,
    pub api_requests: u64,
    pub replays_count: u64,
}

impl Metrics {
    /// All counters at zero.
    pub fn new() -> (r: Self)
        ensures
            r.events_processed == 0,
            r.api_requests == 0,
            r.replays_count == 0,
    {
        Metrics { events_processed: 0, api_requests: 0, replays_count: 0 }
    }
}

} // verus!
