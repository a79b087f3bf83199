//! Reducers: the functions that fold events into the application state.

use vstd::prelude::*;
use crate::event::Event;
use crate::journal::{DeliveryJournal, holds_delivery};
use crate::state::{AppState, AppStateView, applied, replay_events};
use crate::strmap::StrMap;
use crate::text::push_str;

verus! {

/// Named reducers, each a function from a state and an event to the next state.
pub struct ReducerRegistry<F: Fn(AppState, &Event) -> AppState> {
    reducers: StrMap<F>,
}

impl<F: Fn(AppState, &Event) -> AppState> View for ReducerRegistry<F> {
    type V = Map<Seq<char>, F>;

    closed spec fn view(&self) -> Map<Seq<char>, F> {
        self.reducers@
    }
}

impl<F: Fn(AppState, &Event) -> AppState> ReducerRegistry<F> {
    pub fn new() -> (r: Self)
        ensures
            r@ == Map::<Seq<char>, F>::empty(),
    {
        ReducerRegistry { reducers: StrMap::new() }
    }

    /// Registers `f` under `name`, replacing an earlier reducer of that name.
    pub fn register(&mut self, name: &'static str, f: F)
        ensures
            final(self)@ == old(self)@.insert(name@, f),
    {
        let mut key = String::new();
        push_str(&mut key, name);
        assert(key@ =~= name@);
        self.reducers.insert(key, f);
    }

    /// Runs the reducer registered under `name`, which must be registered.
    pub fn dispatch(&self, name: &str, state: AppState, event: &Event) -> (r: AppState)
        requires
            self@.contains_key(name@),
            self@[name@].requires((state, event)),
        ensures
            self@[name@].ensures((state, event), r),
    {
        match self.reducers.get(name) {
            Some(f) => f(state, event),
            None => {
                assert(false);
                state
            },
        }
    }
}

/// Counts the event and records its payload.
pub fn core_reducer(state: AppState, event: &Event) -> (r: AppState)
    requires
        state.counter < u64::MAX,
    ensures
        r@ == applied(state@, *event),
{
    let mut s = state;
    s.apply_event(event);
    s
}

/// The reducer of the runtime.
pub fn reduce(state: AppState, event: &Event) -> (r: AppState)
    requires
        state.counter < u64::MAX,
    ensures
        r@ == applied(state@, *event),
{
    core_reducer(state, event)
}

/// One step of an idempotent fold: an event whose delivery the journal holds for this state
/// leaves everything as it is; any other is applied, and the journal marks its id with the new
/// count.
pub open spec fn idempotent_step(s: AppStateView, seen: Map<u64, int>, e: Event) -> (AppStateView, Map<u64, int>) {
    if holds_delivery(seen, e.id, s.counter) {
        (s, seen)
    } else {
        (applied(s, e), seen.insert(e.id, applied(s, e).counter))
    }
}

/// An idempotent fold of `events` in order.
pub open spec fn idempotent_replay(s: AppStateView, seen: Map<u64, int>, events: Seq<Event>) -> (AppStateView, Map<u64, int>)
    decreases events.len(),
{
    if events.len() == 0 {
        (s, seen)
    } else {
        let p = idempotent_replay(s, seen, events.drop_last());
        idempotent_step(p.0, p.1, events.last())
    }
}

/// Every mark of the journal has been reached by the state: the journal holds a delivery to
/// the state exactly for the ids it holds.
pub open spec fn marks_reached(seen: Map<u64, int>, s: AppStateView) -> bool {
    forall|id: u64| #[trigger] seen.contains_key(id) ==> seen[id] <= s.counter
}

/// Reduces the event unless the journal holds its delivery to this state (its id was reduced at
/// a count that the state has reached), and records the id with the count it brings the state to.
pub fn idempotent_reduce(state: AppState, event: &Event, journal: &mut DeliveryJournal) -> (r: AppState)
    requires
        !holds_delivery(old(journal)@, event.id, state.counter as int) ==> state.counter < u64::MAX,
    ensures
        (r@, final(journal)@) == idempotent_step(state@, old(journal)@, *event),
{
    if journal.holds_delivery(event.id, state.counter) {
        return state;
    }
    let r = reduce(state, event);
    journal.record(event.id, r.counter);
    r
}

/// The ids of a sequence of events.
pub open spec fn event_ids(events: Seq<Event>) -> Set<u64> {
    Set::new(|id: u64| exists|i: int| 0 <= i < events.len() && events[i].id == id)
}

/// The events whose ids are neither in `seen` nor on an earlier event: what an idempotent fold
/// reduces.
pub open spec fn first_deliveries(seen: Set<u64>, events: Seq<Event>) -> Seq<Event>
    decreases events.len(),
{
    if events.len() == 0 {
        Seq::empty()
    } else {
        let e = events.last();
        let before = first_deliveries(seen, events.drop_last());
        if seen.contains(e.id) || event_ids(events.drop_last()).contains(e.id) {
            before
        } else {
            before.push(e)
        }
    }
}

/// Reducing an event a second time changes nothing: the idempotent step is idempotent.
pub proof fn law_idempotent_step_twice(s: AppStateView, seen: Map<u64, int>, e: Event)
    ensures
        ({
            let once = idempotent_step(s, seen, e);
            idempotent_step(once.0, once.1, e) == once
        }),
{
}

/// Reduction is deterministic under a shared journal: reducing an event into a state, then
/// reducing it again into that same state with the journal the first call left, gives the same
/// state both times.
pub proof fn law_shared_journal_determinism(s: AppStateView, seen: Map<u64, int>, e: Event)
    ensures
        idempotent_step(s, idempotent_step(s, seen, e).1, e).0 == idempotent_step(s, seen, e).0,
{
}

/// An idempotent fold, with a journal whose marks the state has reached, reduces each id once,
/// at its first delivery: its state is the plain replay of the first deliveries, its journal
/// gains every id of the stream, and the state still reaches every mark.
pub proof fn law_idempotent_replay(s: AppStateView, seen: Map<u64, int>, events: Seq<Event>)
    requires
        marks_reached(seen, s),
    ensures
        idempotent_replay(s, seen, events).0 == replay_events(s, first_deliveries(seen.dom(), events)),
        idempotent_replay(s, seen, events).1.dom() == seen.dom().union(event_ids(events)),
        marks_reached(idempotent_replay(s, seen, events).1, idempotent_replay(s, seen, events).0),
        idempotent_replay(s, seen, events).0.counter >= s.counter,
    decreases events.len(),
{
    if events.len() == 0 {
        assert(event_ids(events) =~= Set::<u64>::empty());
        assert(seen.dom().union(event_ids(events)) =~= seen.dom());
        assert(replay_events(s, Seq::<Event>::empty()).history =~= s.history);
    } else {
        let init = events.drop_last();
        let e = events.last();
        law_idempotent_replay(s, seen, init);
        assert(event_ids(events) =~= event_ids(init).insert(e.id)) by {
            assert forall|id: u64| event_ids(events).contains(id) implies event_ids(init).insert(e.id).contains(id) by {
                let i = choose|i: int| 0 <= i < events.len() && events[i].id == id;
                if i < init.len() {
                    assert(init[i].id == id);
                }
            }
            assert forall|id: u64| event_ids(init).insert(e.id).contains(id) implies event_ids(events).contains(id) by {
                if id == e.id {
                    assert(events[events.len() - 1].id == id);
                } else {
                    let i = choose|i: int| 0 <= i < init.len() && init[i].id == id;
                    assert(events[i].id == id);
                }
            }
        }
        let p = idempotent_replay(s, seen, init);
        let f = first_deliveries(seen.dom(), init);
        if seen.dom().contains(e.id) || event_ids(init).contains(e.id) {
            assert(p.1.contains_key(e.id));
            assert(holds_delivery(p.1, e.id, p.0.counter));
            assert(seen.dom().union(event_ids(init)).insert(e.id) =~= seen.dom().union(event_ids(init)));
        } else {
            assert(!p.1.contains_key(e.id));
            crate::state::lemma_replay_push(s, f, e);
            let q = idempotent_replay(s, seen, events);
            assert(q.1.dom() =~= p.1.dom().insert(e.id));
            assert forall|id: u64| #[trigger] q.1.contains_key(id) implies q.1[id] <= q.0.counter by {
                if id != e.id {
                    assert(p.1.contains_key(id));
                }
            }
        }
        assert(seen.dom().union(event_ids(events)) =~= seen.dom().union(event_ids(init)).insert(e.id));
    }
}

} // verus!

verus! {

/// Ids of a stream form a finite set, one larger with each new id.
pub proof fn lemma_event_ids_push(events: Seq<Event>, e: Event)
    ensures
        event_ids(events.push(e)) == event_ids(events).insert(e.id),
        event_ids(events).finite(),
    decreases events.len(),
{
    let p = events.push(e);
    assert forall|id: u64| event_ids(p).contains(id) <==> event_ids(events).insert(e.id).contains(id) by {
        if event_ids(p).contains(id) {
            let i = choose|i: int| 0 <= i < p.len() && p[i].id == id;
            if i < events.len() {
                assert(events[i].id == id);
            }
        }
        if event_ids(events).contains(id) {
            let i = choose|i: int| 0 <= i < events.len() && events[i].id == id;
            assert(p[i].id == id);
        }
        if id == e.id {
            assert(p[events.len() as int].id == id);
        }
    }
    assert(event_ids(p) =~= event_ids(events).insert(e.id));
    if events.len() == 0 {
        assert(event_ids(events) =~= Set::<u64>::empty());
    } else {
        lemma_event_ids_push(events.drop_last(), events.last());
        assert(events.drop_last().push(events.last()) =~= events);
    }
}

/// The counter of a replay from the empty state counts the distinct ids of the stream: a
/// redelivered event is not counted again.
pub proof fn law_counter_counts_distinct_ids(events: Seq<Event>)
    ensures
        idempotent_replay(crate::state::initial_state(), Map::empty(), events).0.counter == event_ids(events).len(),
    decreases events.len(),
{
    law_idempotent_replay(crate::state::initial_state(), Map::empty(), events);
    if events.len() == 0 {
        assert(event_ids(events) =~= Set::<u64>::empty());
    } else {
        let init = events.drop_last();
        let e = events.last();
        law_counter_counts_distinct_ids(init);
        law_idempotent_replay(crate::state::initial_state(), Map::empty(), init);
        lemma_event_ids_push(init, e);
        assert(init.push(e) =~= events);
    }
}

} // verus!
