//! Reducers chosen by the type of the event.

use vstd::prelude::*;
use crate::event::Event;
use crate::state::AppState;
use crate::strmap::StrMap;

verus! {

/// Handlers keyed by event type, each a function from a state and an event to the next state.
pub struct ReducerRegistry<H: Fn(&AppState, &Event) -> AppState> {
    reducers: StrMap<H>,
}

impl<H: Fn(&AppState, &Event) -> AppState> View for ReducerRegistry<H> {
    type V = Map<Seq<char>, H>;

    closed spec fn view(&self) -> Map<Seq<char>, H> {
        self.reducers@
    }
}

impl<H: Fn(&AppState, &Event) -> AppState> ReducerRegistry<H> {
    pub fn new() -> (r: Self)
        ensures
            r@ == Map::<Seq<char>, H>::empty(),
    {
        ReducerRegistry { reducers: StrMap::new() }
    }

    /// Registers `handler` for events of type `event_type`, replacing an earlier one.
    pub fn register(&mut self, event_type: String, handler: H)
        ensures
            final(self)@ == old(self)@.insert(event_type@, handler),
    {
        self.reducers.insert(event_type, handler);
    }

    /// Runs the handler of the event's type; an event of a type with no handler leaves the state
    /// as it is.
    pub fn dispatch(&self, state: &AppState, event: &Event) -> (r: AppState)
        requires
            self@.contains_key(event.event_type@) ==> self@[event.event_type@].requires((state, event)),
        ensures
            self@.contains_key(event.event_type@) ==> self@[event.event_type@].ensures((state, event), r),
            !self@.contains_key(event.event_type@) ==> r@ == state@,
    {
        match self.reducers.get(event.event_type.as_str()) {
            Some(handler) => handler(state, event),
            None => state.clone(),
        }
    }

    /// How many event types have a handler.
    pub fn total_reducers(&self) -> (r: usize)
        ensures
            self@.dom().finite(),
            r == self@.dom().len(),
    {
        self.reducers.len()
    }
}

/// The handlers after registering `regs` (event type and handler) in order, starting from `m`.
pub open spec fn after_registrations<H>(
    m: Map<Seq<char>, H>,
    regs: Seq<(Seq<char>, H)>,
) -> Map<Seq<char>, H>
    decreases regs.len(),
{
    if regs.len() == 0 {
        m
    } else {
        after_registrations(m, regs.drop_last()).insert(regs.last().0, regs.last().1)
    }
}

/// The event types named in `regs`.
pub open spec fn registered_types<H>(regs: Seq<(Seq<char>, H)>) -> Set<Seq<char>> {
    Set::new(|t: Seq<char>| exists|i: int| 0 <= i < regs.len() && regs[i].0 == t)
}

/// From a new registry, registering `regs` in order gives a handler to exactly the types named,
/// so `total_reducers` counts the distinct types (a type registered again keeps one handler);
/// each type holds the handler of its last registration.
pub proof fn law_registrations_count_distinct_types<H>(regs: Seq<(Seq<char>, H)>)
    ensures
        after_registrations(Map::empty(), regs).dom() == registered_types(regs),
        after_registrations(Map::empty(), regs).dom().len() == registered_types(regs).len(),
        forall|i: int| 0 <= i < regs.len()
            && (forall|j: int| i < j < regs.len() ==> regs[j].0 != regs[i].0)
            ==> after_registrations(Map::empty(), regs)[#[trigger] regs[i].0] == regs[i].1,
    decreases regs.len(),
{
    if regs.len() > 0 {
        let init = regs.drop_last();
        law_registrations_count_distinct_types(init);
        assert(registered_types(regs) =~= registered_types(init).insert(regs.last().0)) by {
            assert forall|t: Seq<char>| registered_types(regs).contains(t) implies registered_types(init).insert(regs.last().0).contains(t) by {
                let i = choose|i: int| 0 <= i < regs.len() && regs[i].0 == t;
                if i < init.len() {
                    assert(init[i].0 == t);
                }
            }
            assert forall|t: Seq<char>| registered_types(init).insert(regs.last().0).contains(t) implies registered_types(regs).contains(t) by {
                if t == regs.last().0 {
                    assert(regs[regs.len() - 1].0 == t);
                } else {
                    let i = choose|i: int| 0 <= i < init.len() && init[i].0 == t;
                    assert(regs[i].0 == t);
                }
            }
        }
        assert forall|i: int| 0 <= i < regs.len()
            && (forall|j: int| i < j < regs.len() ==> regs[j].0 != regs[i].0)
            implies after_registrations(Map::empty(), regs)[#[trigger] regs[i].0] == regs[i].1 by {
            if i < init.len() {
                assert(init[i] == regs[i]);
                assert(regs[regs.len() - 1].0 != regs[i].0);
                assert forall|j: int| i < j < init.len() implies init[j].0 != init[i].0 by {
                    assert(init[j] == regs[j]);
                }
            }
        }
    }
}

} // verus!
