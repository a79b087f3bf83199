//! The start-up guard: the runtime refuses to start when its event log cannot be read.

use vstd::prelude::*;
use crate::text::push_str;

verus! {

pub struct RuntimeGuard;

impl RuntimeGuard {
    /// Decides from the outcome of reading the event log (`Err` with the reader's message when
    /// it failed) whether the runtime may start.
    pub fn verify(log_read: Result<(), String>) -> (r: Result<(), String>)
        ensures
            match log_read {
                Ok(()) => r is Ok,
                Err(e) => r matches Err(msg) && msg@ == "EventLog not accessible: "@ + e@,
            },
    {
        match log_read {
            Ok(()) => Ok(()),
            Err(e) => {
                let mut msg = String::new();
                push_str(&mut msg, "EventLog not accessible: ");
                push_str(&mut msg, e.as_str());
                Err(msg)
            },
        }
    }
}

} // verus!
