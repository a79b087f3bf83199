//! User-experience improvement of generated pages by a model.

use vstd::prelude::*;
use crate::sandbox::answers;
use crate::text::push_str;

verus! {

/// The request for the user-experience improvements of a page.
pub open spec fn ux_prompt(html: Seq<char>) -> Seq<char> {
    r#"You are a UX expert with 15 years of experience.
Analyze this HTML page and improve its user experience.

Page:
"#@
        + html
        + r#"

Improvements to apply:
1. Add proper ARIA labels for accessibility
2. Improve loading speed (optimize images, lazy loading)
3. Add micro-interactions (hover effects, transitions)
4. Ensure keyboard navigation works
5. Add skip-to-content link
6. Improve form validation with real-time feedback
7. Add loading states for buttons
8. Optimize for mobile touch targets (min 44px)

Output the COMPLETE improved HTML code. No explanations."#@
}

/// The text of `ux_prompt`.
fn ux_prompt_text(html: &str) -> (r: String)
    ensures
        r@ == ux_prompt(html@),
{
    let mut p = String::new();
    push_str(&mut p, r#"You are a UX expert with 15 years of experience.
Analyze this HTML page and improve its user experience.

Page:
"#);
    push_str(&mut p, html);
    push_str(&mut p, r#"

Improvements to apply:
1. Add proper ARIA labels for accessibility
2. Improve loading speed (optimize images, lazy loading)
3. Add micro-interactions (hover effects, transitions)
4. Ensure keyboard navigation works
5. Add skip-to-content link
6. Improve form validation with real-time feedback
7. Add loading states for buttons
8. Optimize for mobile touch targets (min 44px)

Output the COMPLETE improved HTML code. No explanations."#);
    assert(p@ =~= ux_prompt(html@));
    p
}

pub struct UXOptimizerAgent;

impl UXOptimizerAgent {
    /// Asks `chat` to improve the user experience of `html`, and returns its answer.
    pub fn optimize_page<L: Fn(&str) -> String>(html: &str, chat: L) -> (r: String)
        requires
            forall|s: &str| #[trigger] chat.requires((s,)),
        ensures
            answers(chat, ux_prompt(html@), r),
    {
        let p = ux_prompt_text(html);
        let ps = p.as_str();
        let r = chat(ps);
        assert(chat.ensures((ps,), r));
        r
    }
}

} // verus!
