//! Search-engine optimisation of generated pages by a model.

use vstd::prelude::*;
use crate::sandbox::answers;
use crate::text::push_str;

verus! {

/// The request for the SEO improvements of a page, for the target keywords.
pub open spec fn seo_prompt(target_keywords: Seq<char>, html: Seq<char>) -> Seq<char> {
    r#"You are an SEO expert who always achieves 100/100 on Google Lighthouse.

Target Keywords: "#@
        + target_keywords
        + r#"

HTML Page:
"#@
        + html
        + r#"

Apply these SEO improvements:
1. Add proper meta tags (title, description, keywords, viewport)
2. Add Open Graph tags (og:title, og:description, og:image, og:url, og:type)
3. Add Twitter Card tags
4. Add Schema.org structured data (JSON-LD) for Organization/Website
5. Add semantic HTML5 elements (header, main, nav, footer, article, section)
6. Use proper heading hierarchy (h1 → h2 → h3)
7. Add alt text to all images
8. Create a sitemap.xml and robots.txt links

Output the COMPLETE improved HTML code. No explanations."#@
}

/// The text of `seo_prompt`.
fn seo_prompt_text(target_keywords: &str, html: &str) -> (r: String)
    ensures
        r@ == seo_prompt(target_keywords@, html@),
{
    let mut p = String::new();
    push_str(&mut p, r#"You are an SEO expert who always achieves 100/100 on Google Lighthouse.

Target Keywords: "#);
    push_str(&mut p, target_keywords);
    push_str(&mut p, r#"

HTML Page:
"#);
    push_str(&mut p, html);
    push_str(&mut p, r#"

Apply these SEO improvements:
1. Add proper meta tags (title, description, keywords, viewport)
2. Add Open Graph tags (og:title, og:description, og:image, og:url, og:type)
3. Add Twitter Card tags
4. Add Schema.org structured data (JSON-LD) for Organization/Website
5. Add semantic HTML5 elements (header, main, nav, footer, article, section)
6. Use proper heading hierarchy (h1 → h2 → h3)
7. Add alt text to all images
8. Create a sitemap.xml and robots.txt links

Output the COMPLETE improved HTML code. No explanations."#);
    assert(p@ =~= seo_prompt(target_keywords@, html@));
    p
}

pub struct SEOAgent;

impl SEOAgent {
    /// Asks `chat` to apply the SEO improvements to `html` for `target_keywords`, and returns
    /// its answer.
    pub fn optimize_seo<L: Fn(&str) -> String>(html: &str, target_keywords: &str, chat: L) -> (r: String)
        requires
            forall|s: &str| #[trigger] chat.requires((s,)),
        ensures
            answers(chat, seo_prompt(target_keywords@, html@), r),
    {
        let p = seo_prompt_text(target_keywords, html);
        let ps = p.as_str();
        let r = chat(ps);
        assert(chat.ensures((ps,), r));
        r
    }
}

} // verus!
