//! Repair of failed generated code by asking a model for a corrected version.

use vstd::prelude::*;
use crate::sandbox::answers;
use crate::text::push_str;

verus! {

/// The request to fix failing code: the error, the task and the code.
pub open spec fn repair_prompt(task: Seq<char>, failed_code: Seq<char>, error: Seq<char>) -> Seq<char> {
    "Fix this Python code that has the following error.\nError: "@
        + error
        + "\nTask: "@
        + task
        + "\nCode:\n"@
        + failed_code
        + "\nOutput only corrected Python code."@
}

/// The text of `repair_prompt`.
fn repair_prompt_text(task: &str, failed_code: &str, error: &str) -> (r: String)
    ensures
        r@ == repair_prompt(task@, failed_code@, error@),
{
    let mut p = String::new();
    push_str(&mut p, "Fix this Python code that has the following error.\nError: ");
    push_str(&mut p, error);
    push_str(&mut p, "\nTask: ");
    push_str(&mut p, task);
    push_str(&mut p, "\nCode:\n");
    push_str(&mut p, failed_code);
    push_str(&mut p, "\nOutput only corrected Python code.");
    assert(p@ =~= repair_prompt(task@, failed_code@, error@));
    p
}

pub struct SelfRepairAgent;

impl SelfRepairAgent {
    /// Asks `chat` to fix `failed_code`, which failed with `error` while doing `task`, and
    /// returns its answer.
    pub fn attempt_repair<L: Fn(&str) -> String>(task: &str, failed_code: &str, error: &str, chat: L) -> (r: String)
        requires
            forall|s: &str| #[trigger] chat.requires((s,)),
        ensures
            answers(chat, repair_prompt(task@, failed_code@, error@), r),
    {
        let p = repair_prompt_text(task, failed_code, error);
        let ps = p.as_str();
        let r = chat(ps);
        assert(chat.ensures((ps,), r));
        r
    }
}

} // verus!
