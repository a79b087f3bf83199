//! The UI designer: the requests with which a model designs a page and then rates it.
//! The rating is a decimal score, so the decision to redesign is made outside the library.

use vstd::prelude::*;
use crate::text::{join, lemma_join_push, push_str, str_eq};

verus! {

/// A remembered record: (role, content).
pub type Record = (Seq<char>, Seq<char>);

/// The contents of the records whose role is `design`, in order.
pub open spec fn design_contents(records: Seq<Record>) -> Seq<Seq<char>>
    decreases records.len(),
{
    if records.len() == 0 {
        Seq::empty()
    } else {
        let before = design_contents(records.drop_last());
        if records.last().0 == "design"@ {
            before.push(records.last().1)
        } else {
            before
        }
    }
}

/// The records held as strings, taken by their text.
pub open spec fn record_views(v: Seq<(String, String)>) -> Seq<Record> {
    v.map_values(|r: (String, String)| (r.0@, r.1@))
}

/// The earlier designs among remembered records, one per line.
pub fn past_designs(records: &Vec<(String, String)>) -> (r: String)
    ensures
        r@ == join(design_contents(record_views(records@)), "\n"@),
{
    let ghost rv = record_views(records@);
    let mut out = String::new();
    let mut count: usize = 0;
    let mut i: usize = 0;
    while i < records.len()
        invariant
            i <= records@.len(),
            rv == record_views(records@),
            count == design_contents(rv.take(i as int)).len(),
            count <= i,
            out@ == join(design_contents(rv.take(i as int)), "\n"@),
        decreases records.len() - i,
    {
        let (role, content) = &records[i];
        proof {
            assert(rv.take(i + 1).drop_last() =~= rv.take(i as int));
            assert(rv.take(i + 1).last() == (role@, content@));
        }
        if str_eq(role.as_str(), "design") {
            proof {
                lemma_join_push(design_contents(rv.take(i as int)), "\n"@, content@);
            }
            if count > 0 {
                push_str(&mut out, "\n");
            }
            push_str(&mut out, content.as_str());
            count = count + 1;
        }
        i = i + 1;
        proof {
            assert(out@ =~= join(design_contents(rv.take(i as int)), "\n"@));
        }
    }
    assert(rv.take(i as int) =~= rv);
    out
}

/// The request for a complete page, with earlier designs as inspiration.
pub open spec fn design_prompt(past_designs: Seq<char>, project_description: Seq<char>) -> Seq<char> {
    r#"You are a world-class UI designer with 20 years of experience.
Your designs are always rated 10/10 for aesthetics and usability.

Past successful designs (for inspiration):
"#@
        + past_designs
        + r#"

Project: "#@
        + project_description
        + r#"

Requirements:
- Create a COMPLETE, production-ready HTML page.
- Use Tailwind CSS CDN for styling.
- Include these elements (tailor to the project):
  - Responsive navigation bar with logo and links
  - Hero section with headline, subtext, and CTA button
  - Features/services section with cards/icons
  - About/Testimonials section
  - Pricing section (if applicable)
  - Contact form with validation
  - Footer with social links
- Add smooth scroll behavior and fade-in animations.
- Use a professional color palette (dark/light mode compatible).
- Ensure mobile responsiveness (all breakpoints).
- Output ONLY the complete HTML code. No explanations.
- The code MUST be ready to deploy immediately.

HTML Code:"#@
}

/// The text of `design_prompt`.
pub fn design_prompt_text(past_designs: &str, project_description: &str) -> (r: String)
    ensures
        r@ == design_prompt(past_designs@, project_description@),
{
    let mut p = String::new();
    push_str(&mut p, r#"You are a world-class UI designer with 20 years of experience.
Your designs are always rated 10/10 for aesthetics and usability.

Past successful designs (for inspiration):
"#);
    push_str(&mut p, past_designs);
    push_str(&mut p, r#"

Project: "#);
    push_str(&mut p, project_description);
    push_str(&mut p, r#"

Requirements:
- Create a COMPLETE, production-ready HTML page.
- Use Tailwind CSS CDN for styling.
- Include these elements (tailor to the project):
  - Responsive navigation bar with logo and links
  - Hero section with headline, subtext, and CTA button
  - Features/services section with cards/icons
  - About/Testimonials section
  - Pricing section (if applicable)
  - Contact form with validation
  - Footer with social links
- Add smooth scroll behavior and fade-in animations.
- Use a professional color palette (dark/light mode compatible).
- Ensure mobile responsiveness (all breakpoints).
- Output ONLY the complete HTML code. No explanations.
- The code MUST be ready to deploy immediately.

HTML Code:"#);
    assert(p@ =~= design_prompt(past_designs@, project_description@));
    p
}

/// The request to rate a design and list its issues as JSON.
pub open spec fn critique_prompt(design: Seq<char>) -> Seq<char> {
    r#"You are a strict UI critic. Rate this design on a scale of 1-10 for:
- Visual appeal
- Professional look
- Responsive design
- Code quality

Design:
"#@
        + design
        + r#"

Output ONLY a JSON with: { "score": <number>, "issues": [<list of problems>], "improved": false }"#@
}

/// The text of `critique_prompt`.
pub fn critique_prompt_text(design: &str) -> (r: String)
    ensures
        r@ == critique_prompt(design@),
{
    let mut p = String::new();
    push_str(&mut p, r#"You are a strict UI critic. Rate this design on a scale of 1-10 for:
- Visual appeal
- Professional look
- Responsive design
- Code quality

Design:
"#);
    push_str(&mut p, design);
    push_str(&mut p, r#"

Output ONLY a JSON with: { "score": <number>, "issues": [<list of problems>], "improved": false }"#);
    assert(p@ =~= critique_prompt(design@));
    p
}

pub struct UIDesignerAgent;

} // verus!
