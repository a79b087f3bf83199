//! The invariants that every reducer transition must keep.

use vstd::prelude::*;
use crate::event::Event;
use crate::state::{AppState, AppStateView, applied};
use crate::text::{decimal, push_decimal, push_str};

verus! {

/// The message that names the first invariant a transition breaks, or `None` when it keeps all:
/// the counter grows by exactly one, the clock does not go back, the state's tick is the event's
/// tick, and the history grows by exactly one entry.
pub open spec fn transition_error(previous: AppStateView, next: AppStateView, event: Event) -> Option<Seq<char>> {
    if next.counter != previous.counter + 1 {
        Some("invalid counter transition at event "@ + decimal(event.id as nat))
    } else if next.last_tick < previous.last_tick {
        Some("logical clock regression at event "@ + decimal(event.id as nat))
    } else if next.last_tick != event.tick {
        Some("state tick mismatch at event "@ + decimal(event.id as nat))
    } else if next.history.len() != previous.history.len() + 1 {
        Some("history corruption at event "@ + decimal(event.id as nat))
    } else {
        None
    }
}

fn message(prefix: &str, id: u64) -> (r: String)
    ensures
        r@ == prefix@ + decimal(id as nat),
{
    let mut s = String::new();
    push_str(&mut s, prefix);
    push_decimal(&mut s, id);
    assert(s@ =~= prefix@ + decimal(id as nat));
    s
}

/// Checks a transition from `previous` to `next` on `event` against the reducer invariants.
pub fn validate_transition(previous: &AppState, next: &AppState, event: &Event) -> (r: Result<(), String>)
    requires
        previous.counter < u64::MAX,
        previous.history.len() < usize::MAX,
    ensures
        match r {
            Ok(()) => transition_error(previous@, next@, *event) is None,
            Err(m) => transition_error(previous@, next@, *event) == Some(m@),
        },
{
    if next.counter != previous.counter + 1 {
        return Err(message("invalid counter transition at event ", event.id));
    }
    if next.last_tick < previous.last_tick {
        return Err(message("logical clock regression at event ", event.id));
    }
    if next.last_tick != event.tick {
        return Err(message("state tick mismatch at event ", event.id));
    }
    if next.history.len() != previous.history.len() + 1 {
        return Err(message("history corruption at event ", event.id));
    }
    Ok(())
}

/// The core reducer keeps the counter, history and clock invariants, so the guard accepts its
/// transition exactly when the event carries the tick that the state is at (the reducer leaves
/// the state's tick as it was).
pub proof fn law_core_transition_guarded(s: AppStateView, e: Event)
    ensures
        transition_error(s, applied(s, e), e) is None <==> e.tick == s.last_tick,
{
}

/// The guard accepts a transition exactly when it keeps all four invariants: the counter grows
/// by exactly one, the clock does not go back, the state's tick is the event's tick, and the
/// history grows by exactly one entry.
pub proof fn law_guard_accepts_exactly(previous: AppStateView, next: AppStateView, event: Event)
    ensures
        transition_error(previous, next, event) is None <==> {
            &&& next.counter == previous.counter + 1
            &&& next.last_tick >= previous.last_tick
            &&& next.last_tick == event.tick
            &&& next.history.len() == previous.history.len() + 1
        },
{
}

/// A transition whose counter does not grow by exactly one (stays, goes back, or jumps) is
/// refused with the counter error naming the event, whatever else holds; a refusal of a
/// transition whose counter grows by one names another invariant.
pub proof fn law_counter_error(previous: AppStateView, next: AppStateView, event: Event)
    ensures
        next.counter != previous.counter + 1 ==> transition_error(previous, next, event) == Some(
            "invalid counter transition at event "@ + decimal(event.id as nat),
        ),
        next.counter == previous.counter + 1 ==> transition_error(previous, next, event) != Some(
            "invalid counter transition at event "@ + decimal(event.id as nat),
        ),
{
    let d = decimal(event.id as nat);
    reveal_strlit("invalid counter transition at event ");
    reveal_strlit("logical clock regression at event ");
    reveal_strlit("state tick mismatch at event ");
    reveal_strlit("history corruption at event ");
    assert(("invalid counter transition at event "@ + d)[0] == 'i');
    assert(("logical clock regression at event "@ + d)[0] == 'l');
    assert(("state tick mismatch at event "@ + d)[0] == 's');
    assert(("history corruption at event "@ + d)[0] == 'h');
}

} // verus!
