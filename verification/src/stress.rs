//! The stress test: a long deterministic stream of events, and the verdict on its replay.

use vstd::prelude::*;
use crate::event::Event;
use crate::proving::{rebuilt, replay_agrees, snapshot_view, unreplayed};
use crate::reducer::idempotent_replay;
use crate::state::{AppState, WorkflowState, initial_state};

verus! {

/// What a step of the stress stream does.
#[derive(Debug, Clone, Copy, PartialEq, Eq, Structural)]
pub enum StressKind {
    /// Registers a new workflow.
    RegisterWorkflow(u64),
    /// Moves the latest registered workflow to a state.
    Transition(u64, WorkflowState),
    /// Asks for a side command (`EXEC:spawn_subprocess`).
    SideCommand,
    /// Plain traffic (`stress_event_{i}`).
    Filler(u64),
}

/// One step of the stress stream.
#[derive(Debug, Clone, Copy, PartialEq, Eq, Structural)]
pub struct StressStep {
    pub id: u64,
    pub tick: u64,
    pub kind: StressKind,
}

/// What step `i` does: every 200th step registers the next workflow; after the first 200,
/// every 50th step moves the latest workflow to `Ready` or `Running` in turn; every 13th step
/// asks for a side command; the others are plain traffic.
pub open spec fn stress_kind(i: nat) -> StressKind {
    if i % 200 == 0 {
        StressKind::RegisterWorkflow((i / 200 + 1) as u64)
    } else if i >= 200 && i % 50 == 0 {
        StressKind::Transition(
            (i / 200 + 1) as u64,
            if (i / 50) % 2 == 0 { WorkflowState::Ready } else { WorkflowState::Running },
        )
    } else if i % 13 == 0 {
        StressKind::SideCommand
    } else {
        StressKind::Filler(i as u64)
    }
}

/// The stress stream of `count` steps for `seed`: step `i` has id `seed * 1000 + i` and tick
/// `i + 1`.
pub fn generate_deterministic_events(count: u64, seed: u64) -> (r: Vec<StressStep>)
    requires
        count == 0 || seed * 1000 + count - 1 <= u64::MAX,
    ensures
        r@.len() == count,
        forall|i: int|
            0 <= i < count ==> #[trigger] r@[i] == (StressStep {
                id: (seed * 1000 + i) as u64,
                tick: (i + 1) as u64,
                kind: stress_kind(i as nat),
            }),
{
    let mut steps: Vec<StressStep> = Vec::new();
    let mut wf_counter: u64 = 1;
    let mut i: u64 = 0;
    while i < count
        invariant
            count == 0 || seed * 1000 + count - 1 <= u64::MAX,
            i <= count,
            steps@.len() == i,
            wf_counter == (i + 199) / 200 + 1,
            forall|j: int|
                0 <= j < i ==> #[trigger] steps@[j] == (StressStep {
                    id: (seed * 1000 + j) as u64,
                    tick: (j + 1) as u64,
                    kind: stress_kind(j as nat),
                }),
        decreases count - i,
    {
        let id = seed * 1000 + i;
        let tick = i + 1;
        let kind;
        if i % 200 == 0 {
            let wf_id = wf_counter;
            wf_counter = wf_counter + 1;
            assert((i + 199) / 200 == i / 200) by (nonlinear_arith)
                requires i % 200 == 0;
            assert((i + 1 + 199) / 200 == i / 200 + 1) by (nonlinear_arith)
                requires i % 200 == 0;
            kind = StressKind::RegisterWorkflow(wf_id);
        } else {
            assert((i + 199) / 200 == i / 200 + 1) by (nonlinear_arith)
                requires i % 200 != 0;
            assert((i + 1 + 199) / 200 == (i + 199) / 200) by (nonlinear_arith)
                requires i % 200 != 0;
            if i >= 200 && i % 50 == 0 {
                let wf_id = wf_counter - 1;
                let new_state = if (i / 50) % 2 == 0 { WorkflowState::Ready } else { WorkflowState::Running };
                kind = StressKind::Transition(wf_id, new_state);
            } else if i % 13 == 0 {
                kind = StressKind::SideCommand;
            } else {
                kind = StressKind::Filler(i);
            }
        }
        steps.push(StressStep { id, tick, kind });
        i = i + 1;
    }
    steps
}

/// The verdict of a stress run: whether the state rebuilt from the log (and the snapshot, when
/// there is one) is the live state of the events.
pub fn run_stress_test(events: &Vec<Event>, log: &Vec<Event>, snapshot: Option<(AppState, usize)>) -> (r: bool)
    requires
        events@.len() <= u64::MAX,
        match snapshot {
            Some((s, n)) => s.counter + unreplayed(log@.len(), n as nat) <= u64::MAX,
            None => log@.len() <= u64::MAX,
        },
    ensures
        r == (idempotent_replay(initial_state(), Map::empty(), events@).0 == rebuilt(snapshot_view(snapshot), log@)),
{
    replay_agrees(events, log, snapshot)
}

} // verus!
