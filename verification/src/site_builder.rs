//! The site builder: brand, sections, style sheets and script of a site, each asked of a
//! model, and the assembly of the page. Scoring the result takes decimal numbers, so the
//! rounds of polish and the saving of the files are driven outside the library.

use vstd::prelude::*;
use vstd::string::{StrSliceExecFns, StringSliceAdditionalSpecFns};
use vstd::utf8::{decode_utf8, encode_utf8, is_char_boundary};
use crate::sandbox::answers;
use crate::text::{
    char_index_from, find_char, find_str, join, lemma_join_push, push_str, rfind, rfind_str, trim_string, trimmed,
    find_from,
};

verus! {

/// The brand of a site.
#[derive(Debug)]
pub struct BrandDNA {
    pub brand_name: String,
    pub tagline: String,
    pub personality: String,
    pub color_palette: String,
    pub typography: String,
    pub animation_mood: String,
    pub layout_style: String,
    pub unique_hook: String,
}

/// The files of a site.
#[derive(Debug)]
pub struct SiteBundle {
    pub html: String,
    pub css: String,
    pub animations_css: String,
    pub utilities_css: String,
    pub js: String,
}

/// What `serde_json` reads from `text` for `key`: `None` when `text` is no JSON; otherwise the
/// field `key` as a string, `None` when it is missing or no string.
pub uninterp spec fn json_string_field(text: Seq<char>, key: Seq<char>) -> Option<Option<Seq<char>>>;

pub open spec fn opt_text_view(o: Option<Option<String>>) -> Option<Option<Seq<char>>> {
    match o {
        None => None,
        Some(None) => Some(None),
        Some(Some(s)) => Some(Some(s@)),
    }
}

/// Reads `text` as JSON (`serde_json::from_str::<Value>`) and takes field `key` (`as_str`).
#[verifier::external_body]
fn read_json_string_field(text: &str, key: &str) -> (r: Option<Option<String>>)
    ensures
        opt_text_view(r) == json_string_field(text@, key@),
{
    match serde_json::from_str::<serde_json::Value>(text) {
        Ok(json) => Some(json[key].as_str().map(str::to_owned)),
        Err(_) => None,
    }
}

/// Where the JSON of a reply is looked for when the whole reply is no JSON: from the first `{`
/// (or the start) to one past the last `}` (or the end).
pub open spec fn brace_start(s: Seq<char>) -> int {
    if char_index_from(s, '{', 0) < s.len() { char_index_from(s, '{', 0) } else { 0 }
}

pub open spec fn brace_end(s: Seq<char>) -> int {
    match rfind(s, seq!['}']) {
        Some(i) => i + 1,
        None => s.len() as int,
    }
}

/// The field `key` of the brand in a reply: from the whole reply when it is JSON, else from
/// its braced part; empty when neither holds it as a string.
pub open spec fn brand_field(raw: Seq<char>, key: Seq<char>) -> Seq<char> {
    let part = match json_string_field(raw, key) {
        Some(f) => f,
        None => match json_string_field(raw.subrange(brace_start(raw), brace_end(raw)), key) {
            Some(f) => f,
            None => None,
        },
    };
    match part {
        Some(v) => v,
        None => Seq::empty(),
    }
}

/// The part of a reply that is read as the brand when the whole reply is no JSON.
fn brace_bounds(raw: &str) -> (r: (usize, usize))
    ensures
        r.0 == brace_start(raw@),
        r.1 == brace_end(raw@),
        r.1 <= raw@.len(),
{
    let n = raw.unicode_len();
    let open = find_char(raw, '{', 0);
    let start = if open < n { open } else { 0 };
    proof {
        reveal_strlit("}");
        assert("}"@ =~= seq!['}']);
    }
    let end = match rfind_str(raw, "}") {
        Some(i) => i + 1,
        None => n,
    };
    (start, end)
}

/// Reads one field of the brand; `None` when the reply is no JSON and its braced part is
/// badly ordered.
fn read_brand_field(raw: &str, key: &str) -> (r: Option<String>)
    ensures
        match r {
            Some(v) => v@ == brand_field(raw@, key@) && (json_string_field(raw@, key@) is Some || brace_start(raw@)
                <= brace_end(raw@)),
            None => json_string_field(raw@, key@) is None && brace_start(raw@) > brace_end(raw@),
        },
{
    let whole = read_json_string_field(raw, key);
    let part = match whole {
        Some(f) => f,
        None => {
            let (start, end) = brace_bounds(raw);
            if start > end {
                return None;
            }
            match read_json_string_field(raw.substring_char(start, end), key) {
                Some(f) => f,
                None => None,
            }
        },
    };
    match part {
        Some(v) => Some(v),
        None => Some(String::new()),
    }
}

/// The fields of a brand, in the order of `BrandDNA`.
pub open spec fn brand_keys() -> Seq<Seq<char>> {
    seq![
        "brand_name"@,
        "tagline"@,
        "personality"@,
        "color_palette"@,
        "typography"@,
        "animation_mood"@,
        "layout_style"@,
        "unique_hook"@,
    ]
}

/// A reply can be read: its braced part is well ordered, or the whole reply is JSON.
pub open spec fn brand_readable(raw: Seq<char>) -> bool {
    brace_start(raw) <= brace_end(raw) || forall|i: int| 0 <= i < 8 ==> #[trigger] json_string_field(raw, brand_keys()[i]) is Some
}

/// The brand read from a reply.
pub open spec fn brand_of(raw: Seq<char>, dna: BrandDNA) -> bool {
    &&& dna.brand_name@ == brand_field(raw, "brand_name"@)
    &&& dna.tagline@ == brand_field(raw, "tagline"@)
    &&& dna.personality@ == brand_field(raw, "personality"@)
    &&& dna.color_palette@ == brand_field(raw, "color_palette"@)
    &&& dna.typography@ == brand_field(raw, "typography"@)
    &&& dna.animation_mood@ == brand_field(raw, "animation_mood"@)
    &&& dna.layout_style@ == brand_field(raw, "layout_style"@)
    &&& dna.unique_hook@ == brand_field(raw, "unique_hook"@)
}

/// Reads the brand from a reply, as the whole reply or as its part from the first `{` to the
/// last `}`; `None` when that part is badly ordered and the whole reply is no JSON.
pub fn brand_dna_from_reply(raw: &str) -> (r: Option<BrandDNA>)
    ensures
        match r {
            Some(dna) => brand_readable(raw@) && brand_of(raw@, dna),
            None => !brand_readable(raw@),
        },
{
    let ghost k = brand_keys();
    let brand_name = match read_brand_field(raw, "brand_name") {
        Some(v) => v,
        None => {
            assert(k[0] == "brand_name"@);
            assert(json_string_field(raw@, brand_keys()[0]) is None);
            return None;
        },
    };
    let tagline = match read_brand_field(raw, "tagline") {
        Some(v) => v,
        None => {
            assert(k[1] == "tagline"@);
            assert(json_string_field(raw@, brand_keys()[1]) is None);
            return None;
        },
    };
    let personality = match read_brand_field(raw, "personality") {
        Some(v) => v,
        None => {
            assert(k[2] == "personality"@);
            assert(json_string_field(raw@, brand_keys()[2]) is None);
            return None;
        },
    };
    let color_palette = match read_brand_field(raw, "color_palette") {
        Some(v) => v,
        None => {
            assert(k[3] == "color_palette"@);
            assert(json_string_field(raw@, brand_keys()[3]) is None);
            return None;
        },
    };
    let typography = match read_brand_field(raw, "typography") {
        Some(v) => v,
        None => {
            assert(k[4] == "typography"@);
            assert(json_string_field(raw@, brand_keys()[4]) is None);
            return None;
        },
    };
    let animation_mood = match read_brand_field(raw, "animation_mood") {
        Some(v) => v,
        None => {
            assert(k[5] == "animation_mood"@);
            assert(json_string_field(raw@, brand_keys()[5]) is None);
            return None;
        },
    };
    let layout_style = match read_brand_field(raw, "layout_style") {
        Some(v) => v,
        None => {
            assert(k[6] == "layout_style"@);
            assert(json_string_field(raw@, brand_keys()[6]) is None);
            return None;
        },
    };
    let unique_hook = match read_brand_field(raw, "unique_hook") {
        Some(v) => v,
        None => {
            assert(k[7] == "unique_hook"@);
            assert(json_string_field(raw@, brand_keys()[7]) is None);
            return None;
        },
    };
    let dna = BrandDNA { brand_name, tagline, personality, color_palette, typography, animation_mood, layout_style, unique_hook };
    assert(brand_readable(raw@)) by {
        if brace_start(raw@) > brace_end(raw@) {
            assert forall|i: int| 0 <= i < 8 implies #[trigger] json_string_field(raw@, brand_keys()[i]) is Some by {
                assert(k[0] == "brand_name"@ && k[1] == "tagline"@ && k[2] == "personality"@ && k[3] == "color_palette"@);
                assert(k[4] == "typography"@ && k[5] == "animation_mood"@ && k[6] == "layout_style"@ && k[7] == "unique_hook"@);
            }
        }
    }
    Some(dna)
}

/// What `serde_json` reads from `text` for the array field `key`: `None` when `text` is no JSON;
/// `Some(None)` when the field is missing or no array; otherwise each item as a string, `None`
/// for an item that is no string.
pub uninterp spec fn json_string_items(text: Seq<char>, key: Seq<char>) -> Option<Option<Seq<Option<Seq<char>>>>>;

pub open spec fn items_view(o: Option<Option<Vec<Option<String>>>>) -> Option<Option<Seq<Option<Seq<char>>>>> {
    match o {
        None => None,
        Some(None) => Some(None),
        Some(Some(v)) => Some(Some(v@.map_values(|x: Option<String>| match x {
            Some(s) => Some(s@),
            None => None,
        }))),
    }
}

/// Reads `text` as JSON (`serde_json::from_str::<Value>`) and takes the items of the array field
/// `key` (`as_array`), each as a string (`as_str`).
#[verifier::external_body]
fn read_json_string_items(text: &str, key: &str) -> (r: Option<Option<Vec<Option<String>>>>)
    ensures
        items_view(r) == json_string_items(text@, key@),
{
    match serde_json::from_str::<serde_json::Value>(text) {
        Ok(json) => Some(json[key].as_array().map(|a| a.iter().map(|v| v.as_str().map(str::to_owned)).collect())),
        Err(_) => None,
    }
}

/// The strings among `items`, in order.
pub open spec fn strings_among(items: Seq<Option<Seq<char>>>) -> Seq<Seq<char>>
    decreases items.len(),
{
    if items.len() == 0 {
        Seq::empty()
    } else {
        let before = strings_among(items.drop_last());
        match items.last() {
            Some(s) => before.push(s),
            None => before,
        }
    }
}

/// The improvements that a council reply lists: the strings of the array `improvements` of
/// its part from the first `{` to one past the last `}`; none when that part is no JSON or has
/// no such array.
pub open spec fn reply_improvements(raw: Seq<char>) -> Seq<Seq<char>> {
    match json_string_items(raw.subrange(brace_start(raw), brace_end(raw)), "improvements"@) {
        Some(Some(items)) => strings_among(items),
        _ => Seq::empty(),
    }
}

/// The improvements of all replies, reply by reply.
pub open spec fn council_improvements_of(replies: Seq<Seq<char>>) -> Seq<Seq<char>>
    decreases replies.len(),
{
    if replies.len() == 0 {
        Seq::empty()
    } else {
        council_improvements_of(replies.drop_last()) + reply_improvements(replies.last())
    }
}

/// The improvements that the council's replies list, in order. Each reply's braced part must be
/// well ordered (no `}` before the first `{` with none after it).
pub fn council_improvements(critiques: &Vec<String>) -> (r: Vec<String>)
    requires
        forall|i: int| 0 <= i < critiques@.len() ==> brace_start((#[trigger] critiques@[i])@) <= brace_end(critiques@[i]@),
    ensures
        r@.map_values(|s: String| s@) == council_improvements_of(critiques@.map_values(|s: String| s@)),
{
    let ghost views = critiques@.map_values(|s: String| s@);
    let mut out: Vec<String> = Vec::new();
    let mut i: usize = 0;
    while i < critiques.len()
        invariant
            i <= critiques@.len(),
            views == critiques@.map_values(|s: String| s@),
            forall|j: int| 0 <= j < critiques@.len() ==> brace_start((#[trigger] critiques@[j])@) <= brace_end(critiques@[j]@),
            out@.map_values(|s: String| s@) == council_improvements_of(views.take(i as int)),
        decreases critiques.len() - i,
    {
        let raw = critiques[i].as_str();
        let ghost before = out@.map_values(|s: String| s@);
        let (start, end) = brace_bounds(raw);
        proof {
            reveal_strlit("improvements");
        }
        let items = read_json_string_items(raw.substring_char(start, end), "improvements");
        let ghost found: Seq<Seq<char>> = reply_improvements(raw@);
        match items {
            Some(Some(list)) => {
                let ghost lv = list@.map_values(|x: Option<String>| match x {
                    Some(s) => Some(s@),
                    None => None,
                });
                let mut k: usize = 0;
                while k < list.len()
                    invariant
                        k <= list@.len(),
                        lv == list@.map_values(|x: Option<String>| match x {
                            Some(s) => Some(s@),
                            None => None,
                        }),
                        out@.map_values(|s: String| s@) == before + strings_among(lv.take(k as int)),
                    decreases list.len() - k,
                {
                    assert(lv.take(k + 1).drop_last() =~= lv.take(k as int));
                    match &list[k] {
                        Some(s) => {
                            out.push(s.clone());
                            assert(out@.map_values(|s: String| s@) =~= (before + strings_among(lv.take(k as int))).push(s@));
                        },
                        None => {},
                    }
                    k = k + 1;
                }
                assert(lv.take(k as int) =~= lv);
            },
            _ => {
                assert(before + Seq::<Seq<char>>::empty() =~= before);
            },
        }
        assert(views.take(i + 1).drop_last() =~= views.take(i as int));
        assert(views[i as int] == raw@);
        assert(out@.map_values(|s: String| s@) =~= before + found);
        i = i + 1;
    }
    assert(views.take(i as int) =~= views);
    out
}


/// The first `n` bytes of the UTF-8 text `s` taken as characters (all of `s` when it is
/// shorter).
pub open spec fn byte_prefix(s: Seq<char>, n: nat) -> Seq<char> {
    if encode_utf8(s).len() <= n {
        s
    } else {
        decode_utf8(encode_utf8(s).subrange(0, n as int))
    }
}

/// Cutting `s` after `n` bytes does not split a character (`&s[..n]` would panic otherwise).
pub open spec fn fits_at(s: Seq<char>, n: nat) -> bool {
    encode_utf8(s).len() <= n || is_char_boundary(encode_utf8(s), n as int)
}

/// The first `n` bytes of `s` (`&s[..s.len().min(n)]`).
pub fn byte_prefix_str(s: &str, n: usize) -> (r: &str)
    requires
        fits_at(s@, n as nat),
    ensures
        r@ == byte_prefix(s@, n as nat),
{
    if s.as_bytes().len() <= n {
        s
    } else {
        assert(is_char_boundary(s.spec_bytes(), n as int));
        let (head, _) = s.split_at(n);
        proof {
            vstd::utf8::encode_utf8_decode_utf8(head@);
            assert(head.spec_bytes() == encode_utf8(head@));
            assert(encode_utf8(head@) =~= encode_utf8(s@).subrange(0, n as int));
        }
        head
    }
}

/// Where the content of the body starts: after the `>` that closes `<body` (right at `<body`
/// when nothing closes it).
pub open spec fn body_content_start(s: Seq<char>, b: int) -> int {
    if char_index_from(s, '>', b) < s.len() { char_index_from(s, '>', b) + 1 } else { b }
}

/// Where the content of the body ends: at the last `</body>`, or at the end.
pub open spec fn body_content_end(s: Seq<char>) -> int {
    match rfind(s, "</body>"@) {
        Some(e) => e,
        None => s.len() as int,
    }
}

/// Stripping `s` cuts a well-ordered stretch (the cut panics otherwise).
pub open spec fn strip_defined(s: Seq<char>) -> bool {
    match find_from(s, "<body"@, 0) {
        None => true,
        Some(b) => body_content_start(s, b) <= body_content_end(s),
    }
}

/// A fragment without its document boilerplate: when it holds `<body`, the trimmed content of
/// the body; otherwise the fragment as it is.
pub open spec fn stripped_html(s: Seq<char>) -> Seq<char> {
    match find_from(s, "<body"@, 0) {
        None => s,
        Some(b) => trimmed(s.subrange(body_content_start(s, b), body_content_end(s))),
    }
}

/// Whether stripping `html` cuts a well-ordered stretch.
pub fn strip_is_defined(html: &str) -> (r: bool)
    ensures
        r == strip_defined(html@),
{
    match find_str(html, "<body", 0) {
        Some(b) => {
            let n = html.unicode_len();
            let close = find_char(html, '>', b);
            let start = if close < n { close + 1 } else { b };
            let end = match rfind_str(html, "</body>") {
                Some(e) => e,
                None => n,
            };
            start <= end
        },
        None => true,
    }
}

/// Keeps only the content of the body of a generated fragment.
pub fn strip_html_boilerplate(html: &str) -> (r: String)
    requires
        strip_defined(html@),
    ensures
        r@ == stripped_html(html@),
{
    match find_str(html, "<body", 0) {
        Some(b) => {
            let n = html.unicode_len();
            let close = find_char(html, '>', b);
            let start = if close < n { close + 1 } else { b };
            let end = match rfind_str(html, "</body>") {
                Some(e) => e,
                None => n,
            };
            trim_string(html.substring_char(start, end))
        },
        None => {
            let mut r = String::new();
            push_str(&mut r, html);
            assert(r@ =~= html@);
            r
        },
    }
}

/// The improvements, one per line.
pub open spec fn improvement_lines(improvements: Seq<String>) -> Seq<char> {
    join(improvements.map_values(|s: String| s@), "\n"@)
}

/// Joins the improvements with line breaks.
fn join_lines(improvements: &Vec<String>) -> (r: String)
    ensures
        r@ == improvement_lines(improvements@),
{
    let ghost parts = improvements@.map_values(|s: String| s@);
    let mut out = String::new();
    let mut i: usize = 0;
    while i < improvements.len()
        invariant
            i <= improvements@.len(),
            parts == improvements@.map_values(|s: String| s@),
            out@ == join(parts.take(i as int), "\n"@),
        decreases improvements.len() - i,
    {
        proof {
            lemma_join_push(parts.take(i as int), "\n"@, improvements@[i as int]@);
            assert(parts.take(i + 1) =~= parts.take(i as int).push(improvements@[i as int]@));
        }
        if i > 0 {
            push_str(&mut out, "\n");
        }
        push_str(&mut out, improvements[i].as_str());
        i = i + 1;
    }
    assert(parts.take(i as int) =~= parts);
    out
}

/// The request for the brand of a client brief, as JSON.
pub open spec fn brand_prompt(description: Seq<char>) -> Seq<char> {
    r#"You are a world-class brand strategist and creative director.

CLIENT BRIEF:
"#@
        + description
        + r#"

Output ONLY valid JSON:
{
  "brand_name": "...",
  "tagline": "...",
  "personality": "...",
  "color_palette": "...",
  "typography": "...",
  "animation_mood": "...",
  "layout_style": "...",
  "unique_hook": "..."
}"#@
}

/// The request for the navigation bar and the hero section.
pub open spec fn nav_hero_prompt(description: Seq<char>, dna: BrandDNA) -> Seq<char> {
    r#"Generate ONLY NAVBAR + HERO SECTION.

PROJECT:
"#@
        + description
        + r#"

BRAND:
"#@
        + dna.brand_name@
        + r#"

TAGLINE:
"#@
        + dna.tagline@
        + r#"

PERSONALITY:
"#@
        + dna.personality@
        + r#"

UNIQUE HOOK:
"#@
        + dna.unique_hook@
        + r#"

REQUIREMENTS:
- cinematic hero
- glass navbar
- animated gradients
- glowing buttons
- floating elements
- premium SaaS quality
- responsive
- semantic HTML5

OUTPUT ONLY COMPLETE HTML."#@
}

/// The request for the features and statistics sections.
pub open spec fn features_stats_prompt(description: Seq<char>, dna: BrandDNA) -> Seq<char> {
    r#"Generate FEATURES + STATS sections.

PROJECT:
"#@
        + description
        + r#"

STYLE:
"#@
        + dna.personality@
        + r#"

REQUIREMENTS:
- 6 feature cards
- hover effects
- glowing borders
- responsive grid
- animated counters
- modern premium layout

OUTPUT ONLY HTML."#@
}

/// The request for the showcase and call-to-action sections.
pub open spec fn showcase_cta_prompt(description: Seq<char>, dna: BrandDNA) -> Seq<char> {
    r#"Generate SHOWCASE + CTA sections.

PROJECT:
"#@
        + description
        + r#"

STYLE:
"#@
        + dna.personality@
        + r#"

HOOK:
"#@
        + dna.unique_hook@
        + r#"

REQUIREMENTS:
- showcase cards
- cinematic layout
- hover animations
- dramatic CTA
- premium UI

OUTPUT ONLY HTML."#@
}

/// The request for the footer.
pub open spec fn footer_prompt(description: Seq<char>, dna: BrandDNA) -> Seq<char> {
    r#"Generate premium FOOTER.

PROJECT:
"#@
        + description
        + r#"

BRAND:
"#@
        + dna.brand_name@
        + r#"

REQUIREMENTS:
- 4 column footer
- social icons
- responsive
- copyright
- elegant dark style

OUTPUT ONLY FOOTER HTML."#@
}

/// The request for the main style sheet, with the first 5000 bytes of the page.
pub open spec fn main_css_prompt(html: Seq<char>, dna: BrandDNA) -> Seq<char> {
    r#"Generate COMPLETE premium cinematic CSS.

PERSONALITY:
"#@
        + dna.personality@
        + r#"

LAYOUT:
"#@
        + dna.layout_style@
        + r#"

TYPOGRAPHY:
"#@
        + dna.typography@
        + r#"

PALETTE:
"#@
        + dna.color_palette@
        + r#"

HTML:
"#@
        + byte_prefix(html, 5000)
        + r#"

REQUIREMENTS:
- glassmorphism
- animated gradients
- responsive
- hover effects
- cinematic layout
- mobile first
- modern SaaS style

OUTPUT ONLY CSS."#@
}

/// The request for the animations style sheet.
pub open spec fn animations_css_prompt(dna: BrandDNA) -> Seq<char> {
    r#"Generate COMPLETE animations.css.

MOOD:
"#@
        + dna.animation_mood@
        + r#"

REQUIREMENTS:
- fadeInUp
- fadeInLeft
- fadeInRight
- scaleIn
- glowPulse
- gradientShift
- floatY
- ripple
- shimmer
- reveal animations

OUTPUT ONLY CSS."#@
}

/// The request for the utilities style sheet.
pub open spec fn utilities_css_prompt(dna: BrandDNA) -> Seq<char> {
    r#"Generate COMPLETE utilities.css.

PALETTE:
"#@
        + dna.color_palette@
        + r#"

INCLUDE:
- containers
- spacing
- grids
- flex helpers
- typography helpers
- responsive helpers
- utility classes

OUTPUT ONLY CSS."#@
}

/// The request for the script of the page, with the first 4000 bytes of the page.
pub open spec fn advanced_js_prompt(html: Seq<char>, dna: BrandDNA) -> Seq<char> {
    r#"Generate COMPLETE professional JavaScript.

PERSONALITY:
"#@
        + dna.personality@
        + r#"

HOOK:
"#@
        + dna.unique_hook@
        + r#"

FEATURES:
- mobile menu
- smooth scroll
- reveal animations
- intersection observer
- animated counters
- active nav links
- particles
- ripple effects
- scroll progress bar
- parallax
- footer year update

HTML:
"#@
        + byte_prefix(html, 4000)
        + r#"

OUTPUT ONLY JAVASCRIPT."#@
}

/// The UX director's request, with the first 3000 bytes of the page and of its style sheet.
pub open spec fn ux_council_prompt(html: Seq<char>, css: Seq<char>) -> Seq<char> {
    r#"You are a UX Director.

Rate this design from 1-10.

HTML:
"#@
        + byte_prefix(html, 3000)
        + r#"

CSS:
"#@
        + byte_prefix(css, 3000)
        + r#"

OUTPUT JSON:
{
  "score": 0,
  "improvements": [
    "...",
    "...",
    "..."
  ]
}"#@
}

/// The motion designer's request.
pub open spec fn motion_council_prompt(dna: BrandDNA) -> Seq<char> {
    r#"You are a Motion Designer.

Animation mood:
"#@
        + dna.animation_mood@
        + r#"

Rate this design.

OUTPUT JSON."#@
}

/// The brand strategist's request.
pub open spec fn brand_council_prompt(dna: BrandDNA) -> Seq<char> {
    r#"You are a Brand Strategist.

Personality:
"#@
        + dna.personality@
        + r#"

Hook:
"#@
        + dna.unique_hook@
        + r#"

Rate consistency and uniqueness.

OUTPUT JSON."#@
}

/// The request to improve the page, with the improvements one per line.
pub open spec fn improve_html_prompt(improvements: Seq<char>, html: Seq<char>, css: Seq<char>) -> Seq<char> {
    r#"Improve this design.

IMPROVEMENTS:
"#@
        + improvements
        + r#"

HTML:
"#@
        + html
        + r#"

CSS:
"#@
        + css
        + r#"

OUTPUT COMPLETE IMPROVED HTML."#@
}

/// The request to improve the style sheet.
pub open spec fn improve_css_prompt(improvements: Seq<char>, css: Seq<char>) -> Seq<char> {
    r#"Improve this CSS.

IMPROVEMENTS:
"#@
        + improvements
        + r#"

CSS:
"#@
        + css
        + r#"

OUTPUT COMPLETE IMPROVED CSS."#@
}

/// The request for the final pass over the page.
pub open spec fn final_html_prompt(html: Seq<char>) -> Seq<char> {
    r#"Final consistency pass.

Ensure:
- accessibility
- responsive structure
- semantic HTML
- valid structure
- animation hooks
- meta tags
- mobile support

HTML:
"#@
        + html
        + r#"

OUTPUT COMPLETE HTML."#@
}

/// The request for the final pass over the style sheet.
pub open spec fn final_css_prompt(css: Seq<char>) -> Seq<char> {
    r#"Final CSS cleanup.

Ensure:
- no duplicate rules
- valid responsive breakpoints
- consistent variables
- keyboard focus styles

CSS:
"#@
        + css
        + r#"

OUTPUT COMPLETE CSS."#@
}

/// The page made of four generated fragments, each stripped of its document boilerplate.
pub open spec fn assembled_html(nav_hero: Seq<char>, features_stats: Seq<char>, showcase_cta: Seq<char>, footer: Seq<char>) -> Seq<char> {
    r#"<!DOCTYPE html>
<html lang="en">
<head>
<meta charset="UTF-8">
<meta name="viewport" content="width=device-width, initial-scale=1.0">
<title>Generated Site</title>

<link rel="stylesheet" href="style.css">
<link rel="stylesheet" href="animations.css">
<link rel="stylesheet" href="utilities.css">
</head>

<body>

"#@
        + stripped_html(nav_hero)
        + r#"

"#@
        + stripped_html(features_stats)
        + r#"

"#@
        + stripped_html(showcase_cta)
        + r#"

"#@
        + stripped_html(footer)
        + r#"

<script src="script.js"></script>
</body>
</html>"#@
}

/// The request to improve the page.
pub fn improve_html_request(improvements: &Vec<String>, html: &str, css: &str) -> (r: String)
    ensures
        r@ == improve_html_prompt(improvement_lines(improvements@), html@, css@),
{
    let ghost old_improvements = improvements@;
    let lines = join_lines(improvements);
    let improvements = lines.as_str();
    let mut p = String::new();
    push_str(&mut p, r#"Improve this design.

IMPROVEMENTS:
"#);
    push_str(&mut p, improvements);
    push_str(&mut p, r#"

HTML:
"#);
    push_str(&mut p, html);
    push_str(&mut p, r#"

CSS:
"#);
    push_str(&mut p, css);
    push_str(&mut p, r#"

OUTPUT COMPLETE IMPROVED HTML."#);
    assert(p@ =~= improve_html_prompt(improvement_lines(old_improvements), html@, css@));
    p
}

/// The request to improve the style sheet.
pub fn improve_css_request(improvements: &Vec<String>, css: &str) -> (r: String)
    ensures
        r@ == improve_css_prompt(improvement_lines(improvements@), css@),
{
    let ghost old_improvements = improvements@;
    let lines = join_lines(improvements);
    let improvements = lines.as_str();
    let mut p = String::new();
    push_str(&mut p, r#"Improve this CSS.

IMPROVEMENTS:
"#);
    push_str(&mut p, improvements);
    push_str(&mut p, r#"

CSS:
"#);
    push_str(&mut p, css);
    push_str(&mut p, r#"

OUTPUT COMPLETE IMPROVED CSS."#);
    assert(p@ =~= improve_css_prompt(improvement_lines(old_improvements), css@));
    p
}

pub struct SiteBuilderAgent;

impl SiteBuilderAgent {
    /// Asks `chat` for the brand of the brief `description` and reads it from the reply;
    /// `None` when the reply cannot be read (see `brand_dna_from_reply`).
    pub fn generate_brand_dna<L: Fn(&str) -> String>(description: &str, chat: L) -> (r: Option<BrandDNA>)
        requires
            forall|s: &str| #[trigger] chat.requires((s,)),
        ensures
            exists|raw: String|
                answers(chat, brand_prompt(description@), raw) && match r {
                    Some(dna) => brand_readable(raw@) && brand_of(raw@, dna),
                    None => !brand_readable(raw@),
                },
    {
        let mut p = String::new();
        push_str(&mut p, r#"You are a world-class brand strategist and creative director.

CLIENT BRIEF:
"#);
        push_str(&mut p, description);
        push_str(&mut p, r#"

Output ONLY valid JSON:
{
  "brand_name": "...",
  "tagline": "...",
  "personality": "...",
  "color_palette": "...",
  "typography": "...",
  "animation_mood": "...",
  "layout_style": "...",
  "unique_hook": "..."
}"#);
        assert(p@ =~= brand_prompt(description@));
        let ps = p.as_str();
        let raw = chat(ps);
        assert(chat.ensures((ps,), raw));
        let r = brand_dna_from_reply(raw.as_str());
        assert(answers(chat, brand_prompt(description@), raw));
        r
    }

    /// Asks `chat` for the navigation bar and the hero section.
    pub fn generate_nav_hero<L: Fn(&str) -> String>(description: &str, dna: &BrandDNA, chat: L) -> (r: String)
        requires
            forall|s: &str| #[trigger] chat.requires((s,)),
        ensures
            answers(chat, nav_hero_prompt(description@, *dna), r),
    {
        let mut p = String::new();
        push_str(&mut p, r#"Generate ONLY NAVBAR + HERO SECTION.

PROJECT:
"#);
        push_str(&mut p, description);
        push_str(&mut p, r#"

BRAND:
"#);
        push_str(&mut p, dna.brand_name.as_str());
        push_str(&mut p, r#"

TAGLINE:
"#);
        push_str(&mut p, dna.tagline.as_str());
        push_str(&mut p, r#"

PERSONALITY:
"#);
        push_str(&mut p, dna.personality.as_str());
        push_str(&mut p, r#"

UNIQUE HOOK:
"#);
        push_str(&mut p, dna.unique_hook.as_str());
        push_str(&mut p, r#"

REQUIREMENTS:
- cinematic hero
- glass navbar
- animated gradients
- glowing buttons
- floating elements
- premium SaaS quality
- responsive
- semantic HTML5

OUTPUT ONLY COMPLETE HTML."#);
        assert(p@ =~= nav_hero_prompt(description@, *dna));
        let ps = p.as_str();
        let r = chat(ps);
        assert(chat.ensures((ps,), r));
        r
    }

    /// Asks `chat` for the features and statistics sections.
    pub fn generate_features_stats<L: Fn(&str) -> String>(description: &str, dna: &BrandDNA, chat: L) -> (r: String)
        requires
            forall|s: &str| #[trigger] chat.requires((s,)),
        ensures
            answers(chat, features_stats_prompt(description@, *dna), r),
    {
        let mut p = String::new();
        push_str(&mut p, r#"Generate FEATURES + STATS sections.

PROJECT:
"#);
        push_str(&mut p, description);
        push_str(&mut p, r#"

STYLE:
"#);
        push_str(&mut p, dna.personality.as_str());
        push_str(&mut p, r#"

REQUIREMENTS:
- 6 feature cards
- hover effects
- glowing borders
- responsive grid
- animated counters
- modern premium layout

OUTPUT ONLY HTML."#);
        assert(p@ =~= features_stats_prompt(description@, *dna));
        let ps = p.as_str();
        let r = chat(ps);
        assert(chat.ensures((ps,), r));
        r
    }

    /// Asks `chat` for the showcase and call-to-action sections.
    pub fn generate_showcase_cta<L: Fn(&str) -> String>(description: &str, dna: &BrandDNA, chat: L) -> (r: String)
        requires
            forall|s: &str| #[trigger] chat.requires((s,)),
        ensures
            answers(chat, showcase_cta_prompt(description@, *dna), r),
    {
        let mut p = String::new();
        push_str(&mut p, r#"Generate SHOWCASE + CTA sections.

PROJECT:
"#);
        push_str(&mut p, description);
        push_str(&mut p, r#"

STYLE:
"#);
        push_str(&mut p, dna.personality.as_str());
        push_str(&mut p, r#"

HOOK:
"#);
        push_str(&mut p, dna.unique_hook.as_str());
        push_str(&mut p, r#"

REQUIREMENTS:
- showcase cards
- cinematic layout
- hover animations
- dramatic CTA
- premium UI

OUTPUT ONLY HTML."#);
        assert(p@ =~= showcase_cta_prompt(description@, *dna));
        let ps = p.as_str();
        let r = chat(ps);
        assert(chat.ensures((ps,), r));
        r
    }

    /// Asks `chat` for the footer.
    pub fn generate_footer<L: Fn(&str) -> String>(description: &str, dna: &BrandDNA, chat: L) -> (r: String)
        requires
            forall|s: &str| #[trigger] chat.requires((s,)),
        ensures
            answers(chat, footer_prompt(description@, *dna), r),
    {
        let mut p = String::new();
        push_str(&mut p, r#"Generate premium FOOTER.

PROJECT:
"#);
        push_str(&mut p, description);
        push_str(&mut p, r#"

BRAND:
"#);
        push_str(&mut p, dna.brand_name.as_str());
        push_str(&mut p, r#"

REQUIREMENTS:
- 4 column footer
- social icons
- responsive
- copyright
- elegant dark style

OUTPUT ONLY FOOTER HTML."#);
        assert(p@ =~= footer_prompt(description@, *dna));
        let ps = p.as_str();
        let r = chat(ps);
        assert(chat.ensures((ps,), r));
        r
    }

    /// Asks `chat` for the main style sheet of `html`.
    pub fn generate_main_css<L: Fn(&str) -> String>(html: &str, dna: &BrandDNA, chat: L) -> (r: String)
        requires
            fits_at(html@, 5000),
            forall|s: &str| #[trigger] chat.requires((s,)),
        ensures
            answers(chat, main_css_prompt(html@, *dna), r),
    {
        let head = byte_prefix_str(html, 5000);
        let mut p = String::new();
        push_str(&mut p, r#"Generate COMPLETE premium cinematic CSS.

PERSONALITY:
"#);
        push_str(&mut p, dna.personality.as_str());
        push_str(&mut p, r#"

LAYOUT:
"#);
        push_str(&mut p, dna.layout_style.as_str());
        push_str(&mut p, r#"

TYPOGRAPHY:
"#);
        push_str(&mut p, dna.typography.as_str());
        push_str(&mut p, r#"

PALETTE:
"#);
        push_str(&mut p, dna.color_palette.as_str());
        push_str(&mut p, r#"

HTML:
"#);
        push_str(&mut p, head);
        push_str(&mut p, r#"

REQUIREMENTS:
- glassmorphism
- animated gradients
- responsive
- hover effects
- cinematic layout
- mobile first
- modern SaaS style

OUTPUT ONLY CSS."#);
        assert(p@ =~= main_css_prompt(html@, *dna));
        let ps = p.as_str();
        let r = chat(ps);
        assert(chat.ensures((ps,), r));
        r
    }

    /// Asks `chat` for the animations style sheet.
    pub fn generate_animations_css<L: Fn(&str) -> String>(dna: &BrandDNA, chat: L) -> (r: String)
        requires
            forall|s: &str| #[trigger] chat.requires((s,)),
        ensures
            answers(chat, animations_css_prompt(*dna), r),
    {
        let mut p = String::new();
        push_str(&mut p, r#"Generate COMPLETE animations.css.

MOOD:
"#);
        push_str(&mut p, dna.animation_mood.as_str());
        push_str(&mut p, r#"

REQUIREMENTS:
- fadeInUp
- fadeInLeft
- fadeInRight
- scaleIn
- glowPulse
- gradientShift
- floatY
- ripple
- shimmer
- reveal animations

OUTPUT ONLY CSS."#);
        assert(p@ =~= animations_css_prompt(*dna));
        let ps = p.as_str();
        let r = chat(ps);
        assert(chat.ensures((ps,), r));
        r
    }

    /// Asks `chat` for the utilities style sheet.
    pub fn generate_utilities_css<L: Fn(&str) -> String>(dna: &BrandDNA, chat: L) -> (r: String)
        requires
            forall|s: &str| #[trigger] chat.requires((s,)),
        ensures
            answers(chat, utilities_css_prompt(*dna), r),
    {
        let mut p = String::new();
        push_str(&mut p, r#"Generate COMPLETE utilities.css.

PALETTE:
"#);
        push_str(&mut p, dna.color_palette.as_str());
        push_str(&mut p, r#"

INCLUDE:
- containers
- spacing
- grids
- flex helpers
- typography helpers
- responsive helpers
- utility classes

OUTPUT ONLY CSS."#);
        assert(p@ =~= utilities_css_prompt(*dna));
        let ps = p.as_str();
        let r = chat(ps);
        assert(chat.ensures((ps,), r));
        r
    }

    /// Asks `chat` for the script of `html`.
    pub fn generate_advanced_js<L: Fn(&str) -> String>(html: &str, dna: &BrandDNA, chat: L) -> (r: String)
        requires
            fits_at(html@, 4000),
            forall|s: &str| #[trigger] chat.requires((s,)),
        ensures
            answers(chat, advanced_js_prompt(html@, *dna), r),
    {
        let head = byte_prefix_str(html, 4000);
        let mut p = String::new();
        push_str(&mut p, r#"Generate COMPLETE professional JavaScript.

PERSONALITY:
"#);
        push_str(&mut p, dna.personality.as_str());
        push_str(&mut p, r#"

HOOK:
"#);
        push_str(&mut p, dna.unique_hook.as_str());
        push_str(&mut p, r#"

FEATURES:
- mobile menu
- smooth scroll
- reveal animations
- intersection observer
- animated counters
- active nav links
- particles
- ripple effects
- scroll progress bar
- parallax
- footer year update

HTML:
"#);
        push_str(&mut p, head);
        push_str(&mut p, r#"

OUTPUT ONLY JAVASCRIPT."#);
        assert(p@ =~= advanced_js_prompt(html@, *dna));
        let ps = p.as_str();
        let r = chat(ps);
        assert(chat.ensures((ps,), r));
        r
    }

    /// The page made of the four fragments, each stripped of its document boilerplate.
    pub fn assemble_html(nav_hero: &str, features_stats: &str, showcase_cta: &str, footer: &str) -> (r: String)
        requires
            strip_defined(nav_hero@),
            strip_defined(features_stats@),
            strip_defined(showcase_cta@),
            strip_defined(footer@),
        ensures
            r@ == assembled_html(nav_hero@, features_stats@, showcase_cta@, footer@),
    {
        let a = strip_html_boilerplate(nav_hero);
        let b = strip_html_boilerplate(features_stats);
        let c = strip_html_boilerplate(showcase_cta);
        let d = strip_html_boilerplate(footer);
        let mut p = String::new();
        push_str(&mut p, r#"<!DOCTYPE html>
<html lang="en">
<head>
<meta charset="UTF-8">
<meta name="viewport" content="width=device-width, initial-scale=1.0">
<title>Generated Site</title>

<link rel="stylesheet" href="style.css">
<link rel="stylesheet" href="animations.css">
<link rel="stylesheet" href="utilities.css">
</head>

<body>

"#);
        push_str(&mut p, a.as_str());
        push_str(&mut p, r#"

"#);
        push_str(&mut p, b.as_str());
        push_str(&mut p, r#"

"#);
        push_str(&mut p, c.as_str());
        push_str(&mut p, r#"

"#);
        push_str(&mut p, d.as_str());
        push_str(&mut p, r#"

<script src="script.js"></script>
</body>
</html>"#);
        assert(p@ =~= assembled_html(nav_hero@, features_stats@, showcase_cta@, footer@));
        p
    }

    /// Asks the design council (UX director, motion designer, brand strategist) about a page
    /// and its style sheet; returns their three replies in that order.
    pub fn design_council_critique<L: Fn(&str) -> String>(html: &str, css: &str, dna: &BrandDNA, chat: L) -> (r: Vec<String>)
        requires
            fits_at(html@, 3000),
            fits_at(css@, 3000),
            forall|s: &str| #[trigger] chat.requires((s,)),
        ensures
            r@.len() == 3,
            answers(chat, ux_council_prompt(html@, css@), r@[0]),
            answers(chat, motion_council_prompt(*dna), r@[1]),
            answers(chat, brand_council_prompt(*dna), r@[2]),
    {
        let html_head = byte_prefix_str(html, 3000);
        let css_head = byte_prefix_str(css, 3000);
        let mut p = String::new();
        push_str(&mut p, r#"You are a UX Director.

Rate this design from 1-10.

HTML:
"#);
        push_str(&mut p, html_head);
        push_str(&mut p, r#"

CSS:
"#);
        push_str(&mut p, css_head);
        push_str(&mut p, r#"

OUTPUT JSON:
{
  "score": 0,
  "improvements": [
    "...",
    "...",
    "..."
  ]
}"#);
        assert(p@ =~= ux_council_prompt(html@, css@));
        let ux = p;
        let mut p = String::new();
        push_str(&mut p, r#"You are a Motion Designer.

Animation mood:
"#);
        push_str(&mut p, dna.animation_mood.as_str());
        push_str(&mut p, r#"

Rate this design.

OUTPUT JSON."#);
        assert(p@ =~= motion_council_prompt(*dna));
        let motion = p;
        let mut p = String::new();
        push_str(&mut p, r#"You are a Brand Strategist.

Personality:
"#);
        push_str(&mut p, dna.personality.as_str());
        push_str(&mut p, r#"

Hook:
"#);
        push_str(&mut p, dna.unique_hook.as_str());
        push_str(&mut p, r#"

Rate consistency and uniqueness.

OUTPUT JSON."#);
        assert(p@ =~= brand_council_prompt(*dna));
        let brand = p;
        let s0 = ux.as_str();
        let r0 = chat(s0);
        assert(chat.ensures((s0,), r0));
        let s1 = motion.as_str();
        let r1 = chat(s1);
        assert(chat.ensures((s1,), r1));
        let s2 = brand.as_str();
        let r2 = chat(s2);
        assert(chat.ensures((s2,), r2));
        let mut r: Vec<String> = Vec::new();
        r.push(r0);
        r.push(r1);
        r.push(r2);
        r
    }

    /// The final pass: asks `chat` to review the page and the style sheet of `bundle`, and
    /// returns the final page and style sheet.
    pub fn final_consistency_pass<L: Fn(&str) -> String>(bundle: &SiteBundle, chat: L) -> (r: (String, String))
        requires
            forall|s: &str| #[trigger] chat.requires((s,)),
        ensures
            answers(chat, final_html_prompt(bundle.html@), r.0),
            answers(chat, final_css_prompt(bundle.css@), r.1),
    {
        let html = bundle.html.as_str();
        let css = bundle.css.as_str();
        let mut p = String::new();
        push_str(&mut p, r#"Final consistency pass.

Ensure:
- accessibility
- responsive structure
- semantic HTML
- valid structure
- animation hooks
- meta tags
- mobile support

HTML:
"#);
        push_str(&mut p, html);
        push_str(&mut p, r#"

OUTPUT COMPLETE HTML."#);
        assert(p@ =~= final_html_prompt(bundle.html@));
        let html_prompt = p;
        let mut p = String::new();
        push_str(&mut p, r#"Final CSS cleanup.

Ensure:
- no duplicate rules
- valid responsive breakpoints
- consistent variables
- keyboard focus styles

CSS:
"#);
        push_str(&mut p, css);
        push_str(&mut p, r#"

OUTPUT COMPLETE CSS."#);
        assert(p@ =~= final_css_prompt(bundle.css@));
        let css_prompt = p;
        let s0 = html_prompt.as_str();
        let final_html = chat(s0);
        assert(chat.ensures((s0,), final_html));
        let s1 = css_prompt.as_str();
        let final_css = chat(s1);
        assert(chat.ensures((s1,), final_css));
        (final_html, final_css)
    }
}

/// `sub` occurs in `s` at position `i`.
pub open spec fn occurs_at(s: Seq<char>, sub: Seq<char>, i: int) -> bool {
    0 <= i && i + sub.len() <= s.len() && s.subrange(i, i + sub.len()) == sub
}

/// The tag that loads the style sheet `file`.
pub open spec fn stylesheet_link(file: Seq<char>) -> Seq<char> {
    "<link rel=\"stylesheet\" href=\""@ + file + "\">"@
}

/// The assembled page loads every style sheet that the builder writes: its head, which closes
/// before any fragment begins, links `style.css`, `animations.css` and `utilities.css`, in that
/// order, whatever the fragments are.
pub proof fn law_page_links_style_sheets(nav_hero: Seq<char>, features_stats: Seq<char>, showcase_cta: Seq<char>, footer: Seq<char>)
    ensures
        ({
            let page = assembled_html(nav_hero, features_stats, showcase_cta, footer);
            exists|i: int, j: int, k: int, h: int|
                #![trigger occurs_at(page, stylesheet_link("style.css"@), i), occurs_at(page, stylesheet_link("animations.css"@), j), occurs_at(page, stylesheet_link("utilities.css"@), k), occurs_at(page, "</head>"@, h)]
                {
                    &&& occurs_at(page, stylesheet_link("style.css"@), i)
                    &&& occurs_at(page, stylesheet_link("animations.css"@), j)
                    &&& occurs_at(page, stylesheet_link("utilities.css"@), k)
                    &&& occurs_at(page, "</head>"@, h)
                    &&& i < j < k < h
                    &&& h + "</head>"@.len() <= 314 && occurs_at(page, stripped_html(nav_hero), 314)
                    &&& forall|m: int| 0 <= m < h ==> !occurs_at(page, "</head>"@, m)
                }
        }),
{
    let head = r#"<!DOCTYPE html>
<html lang="en">
<head>
<meta charset="UTF-8">
<meta name="viewport" content="width=device-width, initial-scale=1.0">
<title>Generated Site</title>

<link rel="stylesheet" href="style.css">
<link rel="stylesheet" href="animations.css">
<link rel="stylesheet" href="utilities.css">
</head>

<body>

"#@;
    reveal_strlit(r#"<!DOCTYPE html>
<html lang="en">
<head>
<meta charset="UTF-8">
<meta name="viewport" content="width=device-width, initial-scale=1.0">
<title>Generated Site</title>

<link rel="stylesheet" href="style.css">
<link rel="stylesheet" href="animations.css">
<link rel="stylesheet" href="utilities.css">
</head>

<body>

"#);
    reveal_strlit("<link rel=\"stylesheet\" href=\"");
    reveal_strlit("\">");
    reveal_strlit("style.css");
    reveal_strlit("animations.css");
    reveal_strlit("utilities.css");
    reveal_strlit("</head>");
    let page = assembled_html(nav_hero, features_stats, showcase_cta, footer);
    let rest = page.skip(head.len() as int);
    assert(head.len() == 314);
    assert(page == head + rest);
    assert(page.subrange(0, 314) =~= head);
    assert(page.subrange(165, 205) =~= head.subrange(165, 205));
    assert(page.subrange(206, 251) =~= head.subrange(206, 251));
    assert(page.subrange(252, 296) =~= head.subrange(252, 296));
    assert(page.subrange(297, 304) =~= head.subrange(297, 304));
    assert(head.subrange(165, 205) =~= stylesheet_link("style.css"@));
    assert(head.subrange(206, 251) =~= stylesheet_link("animations.css"@));
    assert(head.subrange(252, 296) =~= stylesheet_link("utilities.css"@));
    assert(head.subrange(297, 304) =~= "</head>"@);
    assert forall|m: int| 0 <= m < 297 implies !occurs_at(page, "</head>"@, m) by {
        if occurs_at(page, "</head>"@, m) {
            assert(page.subrange(m, m + 7) =~= head.subrange(m, m + 7));
            assert(head.subrange(m, m + 7)[0] == '<');
            assert(head.subrange(m, m + 7)[1] == '/');
            assert(head.subrange(m, m + 7)[2] == 'h');
        }
    }
    assert(occurs_at(page, stylesheet_link("style.css"@), 165));
    assert(occurs_at(page, stylesheet_link("animations.css"@), 206));
    assert(occurs_at(page, stylesheet_link("utilities.css"@), 252));
    assert(occurs_at(page, "</head>"@, 297));
    assert(page.subrange(314, 314 + stripped_html(nav_hero).len() as int) =~= stripped_html(nav_hero));
}

} // verus!
