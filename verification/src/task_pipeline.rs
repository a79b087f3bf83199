//! The task pipeline, which is to run goals one after another through the cognitive loop; it
//! does not run anything yet.

use vstd::prelude::*;
use crate::state::AppState;

verus! {

pub struct TaskPipeline;

impl TaskPipeline {
    /// Runs the goals in order; for now nothing is run and nothing changes.
    pub fn run_sequential(_goals: Vec<u64>, _state: &AppState) {
    }
}

} // verus!
