//! The replay switch: whether the runtime rebuilds its state from the log instead of running live.

use vstd::prelude::*;

verus! {

/// The mode switch; it starts in live mode.
#[derive(Debug)]
pub struct ReplayMode {
    replaying: bool,
}

impl ReplayMode {
    /// Whether the switch is in replay mode.
    pub closed spec fn replaying(&self) -> bool {
        self.replaying
    }

    /// A switch in live mode.
    pub fn new() -> (r: Self)
        ensures
            !r.replaying(),
    {
        ReplayMode { replaying: false }
    }
}

/// Whether the runtime is replaying.
pub fn is_replay_mode(mode: &ReplayMode) -> (r: bool)
    ensures
        r == mode.replaying(),
{
    mode.replaying
}

/// Switches to replay mode.
pub fn enable_replay_mode(mode: &mut ReplayMode)
    ensures
        final(mode).replaying(),
{
    mode.replaying = true;
}

/// Switches back to live mode.
pub fn disable_replay_mode(mode: &mut ReplayMode)
    ensures
        !final(mode).replaying(),
{
    mode.replaying = false;
}

} // verus!
