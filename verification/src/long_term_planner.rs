//! Long-term planning: breaking goals down into steps with a model.

use vstd::prelude::*;
use crate::sandbox::answers;
use crate::state::AppState;
use crate::text::push_str;

verus! {

/// What `serde_json::from_str::<Vec<String>>` gives for `text`: the strings of a JSON array of
/// strings, or the text of the parse error.
pub uninterp spec fn json_string_list(text: Seq<char>) -> Result<Seq<Seq<char>>, Seq<char>>;

/// The texts of a list of strings.
pub open spec fn texts(v: Seq<String>) -> Seq<Seq<char>> {
    v.map_values(|s: String| s@)
}

/// Parses a JSON array of strings (`serde_json::from_str::<Vec<String>>`; the error is the
/// parser's message).
#[verifier::external_body]
fn parse_json_string_list(text: &str) -> (r: Result<Vec<String>, String>)
    ensures
        match r {
            Ok(v) => json_string_list(text@) == Ok::<Seq<Seq<char>>, Seq<char>>(texts(v@)),
            Err(e) => json_string_list(text@) == Err::<Seq<Seq<char>>, Seq<char>>(e@),
        },
{
    match serde_json::from_str::<Vec<String>>(text) {
        Ok(v) => Ok(v),
        Err(e) => Err(e.to_string()),
    }
}

/// `r` is what parsing `reply` as a list of strings gives.
pub open spec fn parsed_steps(r: Result<Vec<String>, String>, reply: Seq<char>) -> bool {
    match r {
        Ok(v) => json_string_list(reply) == Ok::<Seq<Seq<char>>, Seq<char>>(texts(v@)),
        Err(e) => json_string_list(reply) == Err::<Seq<Seq<char>>, Seq<char>>(e@),
    }
}

/// The request to break a goal down into numbered steps.
pub open spec fn plan_prompt(goal: Seq<char>) -> Seq<char> {
    "Break down this goal into concrete steps as JSON array: [{'step':int,'task':str}]. Goal: "@
        + goal
        + ".\nOutput ONLY JSON."@
}

/// The text of `plan_prompt`.
fn plan_prompt_text(goal: &str) -> (r: String)
    ensures
        r@ == plan_prompt(goal@),
{
    let mut p = String::new();
    push_str(&mut p, "Break down this goal into concrete steps as JSON array: [{'step':int,'task':str}]. Goal: ");
    push_str(&mut p, goal);
    push_str(&mut p, ".\nOutput ONLY JSON.");
    assert(p@ =~= plan_prompt(goal@));
    p
}

/// The request to break the description of a goal down into a few steps.
pub open spec fn decompose_prompt(description: Seq<char>) -> Seq<char> {
    "Break down goal: '"@
        + description
        + "' into 3-5 concrete steps. Output JSON array of strings."@
}

/// The text of `decompose_prompt`.
fn decompose_prompt_text(description: &str) -> (r: String)
    ensures
        r@ == decompose_prompt(description@),
{
    let mut p = String::new();
    push_str(&mut p, "Break down goal: '");
    push_str(&mut p, description);
    push_str(&mut p, "' into 3-5 concrete steps. Output JSON array of strings.");
    assert(p@ =~= decompose_prompt(description@));
    p
}

pub struct LongTermPlanner;

impl LongTermPlanner {
    /// Asks `chat` for a plan of `goal` and returns its answer.
    pub fn create_plan<L: Fn(&str) -> String>(goal: &str, chat: L) -> (r: String)
        requires
            forall|s: &str| #[trigger] chat.requires((s,)),
        ensures
            answers(chat, plan_prompt(goal@), r),
    {
        let p = plan_prompt_text(goal);
        let ps = p.as_str();
        let r = chat(ps);
        assert(chat.ensures((ps,), r));
        r
    }

    /// Breaks goal `goal_id` of `state` down into steps: asks `chat` and reads its answer as a
    /// JSON array of strings. A goal that `state` does not hold gives `Goal not found`.
    pub fn decompose<L: Fn(&str) -> String>(goal_id: u64, state: &AppState, chat: L) -> (r: Result<Vec<String>, String>)
        requires
            forall|s: &str| #[trigger] chat.requires((s,)),
        ensures
            !state@.goals.contains_key(goal_id) ==> (r matches Err(e) && e@ == "Goal not found"@),
            state@.goals.contains_key(goal_id) ==> exists|reply: String|
                answers(chat, decompose_prompt(state@.goals[goal_id].description), reply) && #[trigger] parsed_steps(r, reply@),
    {
        match state.goals.get(&goal_id) {
            None => {
                let mut e = String::new();
                push_str(&mut e, "Goal not found");
                Err(e)
            },
            Some(goal) => {
                let p = decompose_prompt_text(goal.description.as_str());
                let ps = p.as_str();
                let reply = chat(ps);
                assert(chat.ensures((ps,), reply));
                let r = parse_json_string_list(reply.as_str());
                assert(parsed_steps(r, reply@));
                r
            },
        }
    }
}

} // verus!
