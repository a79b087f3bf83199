//! The live state of the node.

use vstd::prelude::*;
use crate::event::Event;
use crate::state::{AppState, AppStateView, applied, initial_state, replay_events, lemma_replay_push};

verus! {

pub struct StateStore {
    state: AppState,
}

impl View for StateStore {
    type V = AppStateView;

    closed spec fn view(&self) -> AppStateView {
        self.state@
    }
}

impl StateStore {
    pub fn new() -> (r: Self)
        ensures
            r@ == initial_state(),
    {
        StateStore { state: AppState::default() }
    }

    /// A copy of the current state.
    pub fn read_state(&self) -> (r: AppState)
        ensures
            r@ == self@,
    {
        self.state.clone()
    }

    /// Applies an event to the live state.
    pub fn apply_event(&mut self, event: &Event)
        requires
            old(self)@.counter < u64::MAX,
        ensures
            final(self)@ == applied(old(self)@, *event),
    {
        self.state.apply_event(event);
    }

    /// Replaces the live state with the replay of the events read from the log.
    pub fn rebuild_from_log(&mut self, events: &Vec<Event>)
        requires
            events@.len() <= u64::MAX,
        ensures
            final(self)@ == replay_events(initial_state(), events@),
    {
        let mut new_state = AppState::default();
        let mut i: usize = 0;
        while i < events.len()
            invariant
                i <= events@.len(),
                events@.len() <= u64::MAX,
                new_state@ == replay_events(initial_state(), events@.take(i as int)),
            decreases events.len() - i,
        {
            proof {
                lemma_replay_push(initial_state(), events@.take(i as int), events@[i as int]);
                assert(events@.take(i + 1) =~= events@.take(i as int).push(events@[i as int]));
            }
            new_state.apply_event(&events[i]);
            i = i + 1;
        }
        assert(events@.take(i as int) =~= events@);
        self.state = new_state;
    }
}

} // verus!
