//! Carrying out the effects of the outbox.

use vstd::prelude::*;
use crate::ordered::{ordered_keys, lists_keys_in_order};
use crate::outbox::{EffectOutbox, EffectRequest, EffectType};
use crate::text::push_str;
use crate::runtime_mode::{RuntimeMode, is_replay_mode};

verus! {

/// What running a shell command reports: its output when it succeeded, `Error: {stderr}` when
/// it failed, and `Command failed: {reason}` when it could not be started.
pub open spec fn command_report_text(outcome: Result<(bool, String, String), String>) -> Seq<char> {
    match outcome {
        Ok((true, stdout, _)) => stdout@,
        Ok((false, _, stderr)) => "Error: "@ + stderr@,
        Err(reason) => "Command failed: "@ + reason@,
    }
}

/// Turns the outcome of a shell command (success, stdout, stderr; or why it could not start)
/// into the text that the effect reports.
pub fn command_report(outcome: Result<(bool, String, String), String>) -> (r: String)
    ensures
        r@ == command_report_text(outcome),
{
    match outcome {
        Ok((success, stdout, stderr)) => {
            if success {
                stdout
            } else {
                let mut r = String::new();
                push_str(&mut r, "Error: ");
                push_str(&mut r, stderr.as_str());
                r
            }
        },
        Err(reason) => {
            let mut r = String::new();
            push_str(&mut r, "Command failed: ");
            push_str(&mut r, reason.as_str());
            r
        },
    }
}

/// Carries out one effect: a subprocess through `run_command`, a model call through `chat`;
/// an API call is only simulated and reports `API call to {payload} (simulated)`.
pub fn execute_effect<R: Fn(&str) -> String, L: Fn(&str) -> String>(effect: &EffectRequest, run_command: R, chat: L) -> (r: String)
    requires
        forall|s: &str| #[trigger] run_command.requires((s,)),
        forall|s: &str| #[trigger] chat.requires((s,)),
    ensures
        match effect.effect_type {
            EffectType::Subprocess => exists|s: &str| s@ == effect.payload@ && #[trigger] run_command.ensures((s,), r),
            EffectType::ApiCall => r@ == "API call to "@ + effect.payload@ + " (simulated)"@,
            EffectType::LlmInference => exists|s: &str| s@ == effect.payload@ && #[trigger] chat.ensures((s,), r),
        },
{
    match effect.effect_type {
        EffectType::Subprocess => {
            let s = effect.payload.as_str();
            let r = run_command(s);
            assert(run_command.ensures((s,), r));
            r
        },
        EffectType::ApiCall => {
            let mut r = String::new();
            push_str(&mut r, "API call to ");
            push_str(&mut r, effect.payload.as_str());
            push_str(&mut r, " (simulated)");
            r
        },
        EffectType::LlmInference => {
            let s = effect.payload.as_str();
            let r = chat(s);
            assert(chat.ensures((s,), r));
            r
        },
    }
}

/// `answer` is a reply that `chat` may give to a prompt with the text `prompt`.
pub open spec fn answers<L: Fn(&str) -> String>(chat: L, prompt: Seq<char>, answer: String) -> bool {
    exists|p: &str| p@ == prompt && #[trigger] chat.ensures((p,), answer)
}

/// Asks the local model server; the answer comes from `chat`.
pub fn call_ollama<L: Fn(&str) -> String>(prompt: &str, chat: L) -> (r: Result<String, String>)
    requires
        chat.requires((prompt,)),
    ensures
        r matches Ok(answer) && chat.ensures((prompt,), answer),
{
    Ok(chat(prompt))
}

/// Asks the hosted model; the answer comes from `chat`.
pub fn call_groq_via_curl<L: Fn(&str) -> String>(prompt: &str, chat: L) -> (r: Result<String, String>)
    requires
        chat.requires((prompt,)),
    ensures
        r matches Ok(answer) && chat.ensures((prompt,), answer),
{
    Ok(chat(prompt))
}

/// Takes every pending effect out of the outbox, smallest id first, and carries it out with
/// `execute`; returns what each run reported, in the same order. In replay mode no effect is
/// carried out: the outbox stays as it is and nothing is reported.
pub fn process_pending_effects<F: Fn(&EffectRequest) -> String>(
    mode: &RuntimeMode,
    outbox: &mut EffectOutbox,
    execute: F,
) -> (r: Vec<String>)
    requires
        forall|e: &EffectRequest| #[trigger] execute.requires((e,)),
    ensures
        mode.replaying() ==> r@.len() == 0 && final(outbox)@ == old(outbox)@,
        !mode.replaying() ==> final(outbox)@ == Map::<u64, EffectRequest>::empty(),
        !mode.replaying() ==> r@.len() == ordered_keys(old(outbox)@).len(),
        !mode.replaying() ==> forall|i: int|
            0 <= i < r@.len() ==> execute.ensures((&old(outbox)@[ordered_keys(old(outbox)@)[i]],), #[trigger] r@[i]),
{
    let mut results: Vec<String> = Vec::new();
    if is_replay_mode(mode) {
        return results;
    }
    let pending_ids = outbox.pending_ids();
    let ghost start = outbox@;
    let mut i: usize = 0;
    while i < pending_ids.len()
        invariant
            pending_ids@ == ordered_keys(start),
            lists_keys_in_order(pending_ids@, start),
            forall|e: &EffectRequest| #[trigger] execute.requires((e,)),
            i <= pending_ids@.len(),
            results@.len() == i,
            forall|j: int| 0 <= j < i ==> execute.ensures((&start[pending_ids@[j]],), #[trigger] results@[j]),
            forall|k: u64| #[trigger] outbox@.contains_key(k) <==> (start.contains_key(k) && !pending_ids@.take(i as int).contains(k)),
            forall|k: u64| #[trigger] outbox@.contains_key(k) ==> outbox@[k] == start[k],
        decreases pending_ids.len() - i,
    {
        let id = pending_ids[i];
        assert(start.contains_key(id)) by {
            assert(pending_ids@.contains(id));
        }
        assert(!pending_ids@.take(i as int).contains(id)) by {
            if pending_ids@.take(i as int).contains(id) {
                let j = choose|j: int| 0 <= j < i && pending_ids@[j] == id;
            }
        }
        assert(pending_ids@.take(i + 1) =~= pending_ids@.take(i as int).push(id));
        match outbox.complete(id) {
            Some(effect) => {
                let result = execute(&effect);
                results.push(result);
            },
            None => {
                assert(false);
            },
        }
        proof {
            let t0 = pending_ids@.take(i as int);
            let t1 = pending_ids@.take(i + 1);
            assert forall|k: u64| #[trigger] outbox@.contains_key(k) <==> (start.contains_key(k) && !t1.contains(k)) by {
                assert(t1.contains(k) <==> (t0.contains(k) || k == id)) by {
                    if t1.contains(k) && k != id {
                        let j = choose|j: int| 0 <= j < t1.len() && t1[j] == k;
                        assert(t0[j] == k);
                    }
                    if t0.contains(k) {
                        let j = choose|j: int| 0 <= j < t0.len() && t0[j] == k;
                        assert(t1[j] == k);
                    }
                    if k == id {
                        assert(t1[i as int] == k);
                    }
                }
            }
        }
        i = i + 1;
    }
    assert(pending_ids@.take(i as int) =~= pending_ids@);
    assert(outbox@ =~= Map::<u64, EffectRequest>::empty()) by {
        assert forall|k: u64| !outbox@.contains_key(k) by {
            if start.contains_key(k) {
                assert(pending_ids@.contains(k));
            }
        }
    }
    results
}

} // verus!
