//! The project lifecycle: analysis, plan, code, evaluation and polish, each asked of a model.

use vstd::prelude::*;
use crate::sandbox::answers;
use crate::text::push_str;
use crate::site_builder::fits_at;

verus! {

/// The texts of a list of strings.
pub open spec fn texts(v: Seq<String>) -> Seq<Seq<char>> {
    v.map_values(|s: String| s@)
}

/// How many requests a lifecycle makes.
pub const LIFECYCLE_STEPS: usize = 8;

/// The request of step `step` of the lifecycle of `description`, given the replies to the
/// earlier steps (analysis, plan, HTML, CSS, script, evaluation, improved HTML, improved CSS).
pub open spec fn lifecycle_prompt(step: int, description: Seq<char>, replies: Seq<Seq<char>>) -> Seq<char> {
    if step == 0 {
        "Analyze this project: "@ + description + ". Identify features, tech stack, challenges."@
    } else if step == 1 {
        "Create a step-by-step plan to build: "@ + description + ". Analysis: "@ + replies[0]
    } else if step == 2 {
        "Create COMPLETE HTML for: "@ + description + ". Plan: "@ + replies[1]
    } else if step == 3 {
        "Create professional CSS for this HTML. Modern, responsive."@
    } else if step == 4 {
        "Create interactive JS for this HTML. Smooth, accessible."@
    } else if step == 5 {
        "Rate this project 1-10 for design, responsiveness, accessibility. Output JSON."@
    } else if step == 6 {
        "Improve this HTML for UX: "@ + replies[2]
    } else {
        "Add SEO best practices to this CSS: "@ + replies[3]
    }
}

/// The request of step `step`, from the replies so far.
fn lifecycle_prompt_text(step: usize, description: &str, replies: &Vec<String>) -> (r: String)
    requires
        step < LIFECYCLE_STEPS,
        replies@.len() >= step,
    ensures
        r@ == lifecycle_prompt(step as int, description@, texts(replies@)),
{
    let mut p = String::new();
    if step == 0 {
        push_str(&mut p, "Analyze this project: ");
        push_str(&mut p, description);
        push_str(&mut p, ". Identify features, tech stack, challenges.");
    } else if step == 1 {
        push_str(&mut p, "Create a step-by-step plan to build: ");
        push_str(&mut p, description);
        push_str(&mut p, ". Analysis: ");
        push_str(&mut p, replies[0].as_str());
    } else if step == 2 {
        push_str(&mut p, "Create COMPLETE HTML for: ");
        push_str(&mut p, description);
        push_str(&mut p, ". Plan: ");
        push_str(&mut p, replies[1].as_str());
    } else if step == 3 {
        push_str(&mut p, "Create professional CSS for this HTML. Modern, responsive.");
    } else if step == 4 {
        push_str(&mut p, "Create interactive JS for this HTML. Smooth, accessible.");
    } else if step == 5 {
        push_str(&mut p, "Rate this project 1-10 for design, responsiveness, accessibility. Output JSON.");
    } else if step == 6 {
        push_str(&mut p, "Improve this HTML for UX: ");
        push_str(&mut p, replies[2].as_str());
    } else {
        push_str(&mut p, "Add SEO best practices to this CSS: ");
        push_str(&mut p, replies[3].as_str());
    }
    assert(p@ =~= lifecycle_prompt(step as int, description@, texts(replies@)));
    p
}

/// Each reply answers the request of its step, made from the replies before it.
pub open spec fn lifecycle_answered<L: Fn(&str) -> String>(chat: L, description: Seq<char>, replies: Seq<String>) -> bool {
    forall|i: int|
        0 <= i < replies.len() ==> answers(chat, lifecycle_prompt(i, description, texts(replies.take(i))), #[trigger] replies[i])
}

pub struct RuntimeOrchestrator;

impl RuntimeOrchestrator {
    /// Runs the lifecycle of the project `description`: eight requests to `chat`, each made from
    /// the earlier replies, and returns the improved HTML, the improved CSS and the script.
    /// The analysis (the first reply) is shown in the progress log by its first 50 bytes, so an
    /// analysis that `chat` may give must not have a character split by that cut.
    pub fn run_project_lifecycle<L: Fn(&str) -> String>(description: &str, chat: L) -> (r: (String, String, String))
        requires
            forall|s: &str| #[trigger] chat.requires((s,)),
            forall|p: &str, a: String|
                p@ == lifecycle_prompt(0, description@, Seq::empty()) && #[trigger] chat.ensures((p,), a) ==> fits_at(a@, 50),
        ensures
            exists|replies: Seq<String>|
                #![trigger lifecycle_answered(chat, description@, replies)]
                replies.len() == LIFECYCLE_STEPS && lifecycle_answered(chat, description@, replies) && r.0 == replies[6]
                    && r.1 == replies[7] && r.2 == replies[4],
    {
        let mut replies: Vec<String> = Vec::new();
        let mut step: usize = 0;
        while step < LIFECYCLE_STEPS
            invariant
                forall|s: &str| #[trigger] chat.requires((s,)),
                step <= LIFECYCLE_STEPS,
                replies@.len() == step,
                lifecycle_answered(chat, description@, replies@),
            decreases LIFECYCLE_STEPS - step,
        {
            let p = lifecycle_prompt_text(step, description, &replies);
            let ps = p.as_str();
            let reply = chat(ps);
            assert(chat.ensures((ps,), reply));
            let ghost before = replies@;
            replies.push(reply);
            proof {
                assert(replies@.take(step as int) =~= before);
                assert forall|i: int| 0 <= i < replies@.len() implies answers(
                    chat,
                    lifecycle_prompt(i, description@, texts(replies@.take(i))),
                    #[trigger] replies@[i],
                ) by {
                    if i < step {
                        assert(replies@.take(i) =~= before.take(i));
                        assert(replies@[i] == before[i]);
                    }
                }
            }
            step = step + 1;
        }
        let ghost all = replies@;
        let css = replies.pop().unwrap();
        let html = replies.pop().unwrap();
        let _evaluation = replies.pop().unwrap();
        let js = replies.pop().unwrap();
        assert(lifecycle_answered(chat, description@, all));
        (html, css, js)
    }
}

} // verus!
