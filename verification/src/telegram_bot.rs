//! The texts of the Telegram bot.

use vstd::prelude::*;
use crate::state::AppState;
use crate::text::{decimal, push_decimal, push_str};

verus! {

/// The reply to `/status`: the counter and the number of recorded events.
pub open spec fn status_reply(counter: u64, events: nat) -> Seq<char> {
    "Counter: "@ + decimal(counter as nat) + "\nEvents: "@ + decimal(events)
}

/// The reply to `/status` for a state.
pub fn status_text(state: &AppState) -> (r: String)
    ensures
        r@ == status_reply(state.counter, state.history@.len()),
{
    let mut r = String::new();
    push_str(&mut r, "Counter: ");
    push_decimal(&mut r, state.counter);
    push_str(&mut r, "\nEvents: ");
    push_decimal(&mut r, state.history.len() as u64);
    assert(r@ =~= status_reply(state.counter, state.history@.len()));
    r
}

/// The reply to `/start`.
pub fn start_text() -> (r: String)
    ensures
        r@ == "🤖 SPS Embryo ready. Use /status to see system state."@,
{
    let mut r = String::new();
    push_str(&mut r, "🤖 SPS Embryo ready. Use /status to see system state.");
    r
}

} // verus!
