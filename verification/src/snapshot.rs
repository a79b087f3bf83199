//! Snapshots of the state: full ones, and incremental ones taken between two ticks.

use vstd::prelude::*;
use crate::state::AppState;
use crate::text::{decimal, push_decimal, push_str, str_eq};

verus! {

/// A full snapshot: the state at a tick, its hash and how many events it covers.
#[derive(Debug)]
pub struct Snapshot {
    pub tick: u64,
    pub state: AppState,
    pub state_hash: String,
    pub event_count: usize,
}

/// An incremental snapshot: the change since the full snapshot at `base_tick`.
#[derive(Debug)]
pub struct IncrementalSnapshot {
    pub base_tick: u64,
    pub new_tick: u64,
    pub delta_events: usize,
    pub state_delta: String,
    pub state_hash: String,
}

impl Clone for IncrementalSnapshot {
    fn clone(&self) -> (r: Self)
        ensures
            r == *self,
    {
        IncrementalSnapshot {
            base_tick: self.base_tick,
            new_tick: self.new_tick,
            delta_events: self.delta_events,
            state_delta: self.state_delta.clone(),
            state_hash: self.state_hash.clone(),
        }
    }
}

/// Where the incremental snapshot from `base_tick` to `new_tick` is kept.
pub open spec fn incremental_path(base_tick: u64, new_tick: u64) -> Seq<char> {
    "snapshots_delta/inc_"@ + decimal(base_tick as nat) + seq!['_'] + decimal(new_tick as nat) + ".json"@
}

/// The file of the incremental snapshot from `base_tick` to `new_tick`.
pub fn incremental_file_name(base_tick: u64, new_tick: u64) -> (r: String)
    ensures
        r@ == incremental_path(base_tick, new_tick),
{
    let mut r = String::new();
    push_str(&mut r, "snapshots_delta/inc_");
    push_decimal(&mut r, base_tick);
    crate::text::push_char(&mut r, '_');
    push_decimal(&mut r, new_tick);
    push_str(&mut r, ".json");
    assert(r@ =~= incremental_path(base_tick, new_tick));
    r
}

/// `c[i]` is the one that `load_incremental_after(base_tick)` keeps among `c`: it starts from
/// `base_tick`, no candidate from `base_tick` reaches a later tick, and none before it reaches
/// the same tick.
pub open spec fn is_latest(c: Seq<IncrementalSnapshot>, base_tick: u64, i: int) -> bool {
    &&& 0 <= i < c.len()
    &&& c[i].base_tick == base_tick
    &&& forall|j: int| 0 <= j < c.len() && #[trigger] c[j].base_tick == base_tick ==> c[j].new_tick <= c[i].new_tick
    &&& forall|j: int| 0 <= j < i && #[trigger] c[j].base_tick == base_tick ==> c[j].new_tick < c[i].new_tick
}

/// Chooses, among incremental snapshots in the order they were read, the one from `base_tick`
/// that reaches the latest tick (the first of them on a tie); none when no snapshot starts
/// from `base_tick`.
pub fn latest_incremental(candidates: &Vec<IncrementalSnapshot>, base_tick: u64) -> (r: Option<IncrementalSnapshot>)
    ensures
        match r {
            Some(s) => exists|i: int| is_latest(candidates@, base_tick, i) && #[trigger] candidates@[i] == s,
            None => forall|j: int| 0 <= j < candidates@.len() ==> #[trigger] candidates@[j].base_tick != base_tick,
        },
{
    let mut best: Option<usize> = None;
    let mut i: usize = 0;
    while i < candidates.len()
        invariant
            i <= candidates@.len(),
            match best {
                Some(b) => b < i && is_latest(candidates@.take(i as int), base_tick, b as int),
                None => forall|j: int| 0 <= j < i ==> #[trigger] candidates@[j].base_tick != base_tick,
            },
        decreases candidates.len() - i,
    {
        let c = &candidates[i];
        if c.base_tick == base_tick {
            match best {
                Some(b) => {
                    if c.new_tick > candidates[b].new_tick {
                        best = Some(i);
                    }
                },
                None => {
                    best = Some(i);
                },
            }
        }
        proof {
            let t = candidates@.take(i + 1);
            match best {
                Some(b) => {
                    assert forall|j: int| 0 <= j < t.len() && #[trigger] t[j].base_tick == base_tick implies t[j].new_tick <= t[b as int].new_tick by {
                        if j < i {
                            assert(candidates@.take(i as int)[j] == t[j]);
                        }
                    }
                    assert forall|j: int| 0 <= j < b && #[trigger] t[j].base_tick == base_tick implies t[j].new_tick < t[b as int].new_tick by {
                        assert(candidates@.take(i as int)[j] == t[j]);
                    }
                },
                None => {},
            }
        }
        i = i + 1;
    }
    assert(candidates@.take(i as int) =~= candidates@);
    match best {
        Some(b) => Some(candidates[b].clone()),
        None => None,
    }
}

/// Checks a recovery: the snapshot must have passed its validation and the state replayed from
/// the log must hash as the snapshot says; then the replayed state is the recovered one.
pub fn recover_runtime(snapshot: &Snapshot, snapshot_valid: bool, replayed_state: AppState, replay_hash: &str) -> (r: Result<AppState, String>)
    ensures
        !snapshot_valid ==> (r matches Err(msg) && msg@ == "SNAPSHOT INTEGRITY FAILURE"@),
        snapshot_valid && replay_hash@ != snapshot.state_hash@ ==> (r matches Err(msg) && msg@
            == "RECOVERY DIVERGENCE DETECTED"@),
        snapshot_valid && replay_hash@ == snapshot.state_hash@ ==> (r matches Ok(s) && s == replayed_state),
{
    if !snapshot_valid {
        let mut msg = String::new();
        push_str(&mut msg, "SNAPSHOT INTEGRITY FAILURE");
        return Err(msg);
    }
    if !str_eq(replay_hash, snapshot.state_hash.as_str()) {
        let mut msg = String::new();
        push_str(&mut msg, "RECOVERY DIVERGENCE DETECTED");
        return Err(msg);
    }
    Ok(replayed_state)
}

} // verus!
