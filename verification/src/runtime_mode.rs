//! The execution mode of the runtime. In replay mode the runtime only rebuilds its state: it
//! carries out no effect, calls no model and touches no outside system.

use vstd::prelude::*;

verus! {

/// The mode switch; it starts in live mode.
#[derive(Debug)]
pub struct RuntimeMode {
    replaying: bool,
}

impl RuntimeMode {
    /// Whether the switch is in replay mode.
    pub closed spec fn replaying(&self) -> bool {
        self.replaying
    }

    /// A switch in live mode.
    pub fn new() -> (r: Self)
        ensures
            !r.replaying(),
    {
        RuntimeMode { replaying: false }
    }
}

/// Whether the runtime is replaying.
pub fn is_replay_mode(mode: &RuntimeMode) -> (r: bool)
    ensures
        r == mode.replaying(),
{
    mode.replaying
}

/// Switches to replay mode.
pub fn enable_replay_mode(mode: &mut RuntimeMode)
    ensures
        final(mode).replaying(),
{
    mode.replaying = true;
}

/// Switches back to live mode.
pub fn disable_replay_mode(mode: &mut RuntimeMode)
    ensures
        !final(mode).replaying(),
{
    mode.replaying = false;
}

} // verus!
