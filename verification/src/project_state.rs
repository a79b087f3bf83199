//! The state of a project that the agents build: its files, its task graph and its logs.

use std::collections::BTreeMap;
use vstd::prelude::*;
use crate::task_graph::{TaskGraph, TaskView};

verus! {

pub struct ProjectState {
    pub files: BTreeMap<String, String>,
    pub task_graph: TaskGraph,
    pub execution_history: Vec<String>,
    pub diagnostics: Vec<String>,
}

impl ProjectState {
    /// An empty project: no files, no tasks, nothing run and nothing diagnosed.
    pub fn new() -> (r: Self)
        ensures
            r.files@ == Map::<String, String>::empty(),
            r.task_graph.tasks() == Map::<u64, TaskView>::empty(),
            r.task_graph.next() == 1,
            r.execution_history@ == Seq::<String>::empty(),
            r.diagnostics@ == Seq::<String>::empty(),
    {
        ProjectState {
            files: BTreeMap::new(),
            task_graph: TaskGraph::new(),
            execution_history: Vec::new(),
            diagnostics: Vec::new(),
        }
    }
}

} // verus!
