//! The replay engine: rebuilds the state from the recorded events.

use vstd::prelude::*;
use crate::event::Event;
use crate::reducer::reduce;
use crate::proving::hashes_to;
use crate::state::{AppState, AppStateView, applied, initial_state, replay_events, lemma_replay_push};

verus! {

/// The recorded events, in the order of the log.
pub struct ReplayEngine {
    events: Vec<Event>,
}

impl View for ReplayEngine {
    type V = Seq<Event>;

    closed spec fn view(&self) -> Seq<Event> {
        self.events@
    }
}

impl ReplayEngine {
    /// An engine over the events read from the log.
    pub fn new(events: Vec<Event>) -> (r: Self)
        ensures
            r@ == events@,
    {
        ReplayEngine { events }
    }

    /// Reduces every event, in order, from the empty state; returns the state and how many events
    /// were reduced.
    pub fn replay_full(&self) -> (r: (AppState, usize))
        requires
            self@.len() <= u64::MAX,
        ensures
            r.0@ == replay_events(initial_state(), self@),
            r.1 == self@.len(),
    {
        let mut state = AppState::default();
        let mut processed: usize = 0;
        while processed < self.events.len()
            invariant
                processed <= self.events@.len(),
                self.events@.len() <= u64::MAX,
                state@ == replay_events(initial_state(), self.events@.take(processed as int)),
            decreases self.events.len() - processed,
        {
            let ghost before = self.events@.take(processed as int);
            proof {
                lemma_replay_push(initial_state(), before, self.events@[processed as int]);
                assert(self.events@.take(processed + 1) =~= before.push(self.events@[processed as int]));
            }
            state = reduce(state, &self.events[processed]);
            processed = processed + 1;
        }
        assert(self.events@.take(processed as int) =~= self.events@);
        (state, processed)
    }

    /// Whether the state replayed from the log hashes, by `hash_state`, to the hash of the live
    /// state.
    pub fn validate_determinism<H: Fn(&AppState) -> String>(&self, live_hash: &str, hash_state: H) -> (r: bool)
        requires
            self@.len() <= u64::MAX,
            forall|s: &AppState| #[trigger] hash_state.requires((s,)),
        ensures
            exists|replayed: AppState, h: String|
                #![trigger hashes_to(hash_state, replayed, h)]
                {
                    &&& replayed@ == replay_events(initial_state(), self@)
                    &&& hashes_to(hash_state, replayed, h)
                    &&& r == (live_hash@ == h@)
                },
    {
        let (replayed, _) = self.replay_full();
        let replayed_hash = hash_state(&replayed);
        assert(hashes_to(hash_state, replayed, replayed_hash));
        crate::text::str_eq(live_hash, replayed_hash.as_str())
    }

    /// How many events the log holds.
    pub fn stream_count(&self) -> (r: usize)
        ensures
            r == self@.len(),
    {
        self.events.len()
    }
}

/// The state after applying the events one at a time, as the live store does.
pub open spec fn applied_in_turn(s: AppStateView, events: Seq<Event>) -> AppStateView
    decreases events.len(),
{
    if events.len() == 0 {
        s
    } else {
        applied(applied_in_turn(s, events.drop_last()), events.last())
    }
}

/// Replay equals live: applying the events one at a time, as they arrive, gives the state that
/// a replay of the log rebuilds.
pub proof fn law_live_equals_replay(s: AppStateView, events: Seq<Event>)
    ensures
        applied_in_turn(s, events) == replay_events(s, events),
    decreases events.len(),
{
    if events.len() == 0 {
        assert(replay_events(s, events).history =~= s.history);
    } else {
        law_live_equals_replay(s, events.drop_last());
        lemma_replay_push(s, events.drop_last(), events.last());
        assert(events.drop_last().push(events.last()) =~= events);
    }
}

} // verus!
