//! Self-update: reading the version that the update server announces in its headers.

use vstd::prelude::*;
use vstd::string::StrSliceExecFns;
use crate::text::{char_index_from, find_char, push_str, str_eq, trim_string, trimmed};

verus! {

/// `c` with an ASCII capital turned into its small letter.
pub open spec fn ascii_lower(c: char) -> char {
    if 'A' <= c && c <= 'Z' { ((c as u32) + 32) as char } else { c }
}

/// The header name that announces the version, with its colon.
pub open spec fn version_header() -> Seq<char> {
    seq!['x', '-', 'v', 'e', 'r', 's', 'i', 'o', 'n', ':']
}

/// A header line announces the version: it opens with `x-version:` in any case.
pub open spec fn announces_version(line: Seq<char>) -> bool {
    line.len() >= 10 && forall|i: int| 0 <= i < 10 ==> ascii_lower(#[trigger] line[i]) == version_header()[i]
}

/// The version that an announcing line carries: the text after the first colon, up to the
/// next one, trimmed.
pub open spec fn announced_version(line: Seq<char>) -> Seq<char> {
    trimmed(line.subrange(10, char_index_from(line, ':', 10)))
}

/// The line of `s` that starts at `start`: up to the next line feed, without the carriage
/// return before it.
pub open spec fn line_at(s: Seq<char>, start: int) -> Seq<char> {
    let e = char_index_from(s, '\n', start);
    let line = s.subrange(start, e);
    if e < s.len() && line.len() > 0 && line.last() == '\r' { line.drop_last() } else { line }
}

/// The version carried by the first announcing line at or after `start`.
pub open spec fn version_from(s: Seq<char>, start: int) -> Option<Seq<char>>
    decreases s.len() - start,
{
    if start < 0 || start >= s.len() {
        None
    } else if announces_version(line_at(s, start)) {
        Some(announced_version(line_at(s, start)))
    } else if char_index_from(s, '\n', start) >= s.len() {
        None
    } else {
        proof {
            lemma_char_index_from_bounds(s, '\n', start);
        }
        version_from(s, char_index_from(s, '\n', start) + 1)
    }
}

/// The version that response headers announce, or `unknown`.
pub open spec fn latest_version_of(headers: Seq<char>) -> Seq<char> {
    match version_from(headers, 0) {
        Some(v) => v,
        None => "unknown"@,
    }
}

/// `char_index_from` never goes back.
pub proof fn lemma_char_index_from_bounds(s: Seq<char>, c: char, start: int)
    requires
        0 <= start <= s.len(),
    ensures
        start <= char_index_from(s, c, start) <= s.len(),
    decreases s.len() - start,
{
    if start < s.len() && s[start] != c {
        lemma_char_index_from_bounds(s, c, start + 1);
    }
}

/// Whether a header line announces the version.
fn is_version_line(line: &str) -> (r: bool)
    ensures
        r == announces_version(line@),
{
    let n = line.unicode_len();
    if n < 10 {
        return false;
    }
    let header = "x-version:";
    proof {
        reveal_strlit("x-version:");
        assert(header@ =~= version_header());
    }
    let mut i: usize = 0;
    while i < 10
        invariant
            n == line@.len(),
            n >= 10,
            header@ == version_header(),
            i <= 10,
            forall|j: int| 0 <= j < i ==> ascii_lower(#[trigger] line@[j]) == version_header()[j],
        decreases 10 - i,
    {
        let c = line.get_char(i);
        let lower = if 'A' <= c && c <= 'Z' { ((c as u32) + 32) as u8 as char } else { c };
        assert(lower == ascii_lower(c)) by {
            if 'A' <= c && c <= 'Z' {
                assert(((c as u32) + 32) < 256);
            }
        }
        if lower != header.get_char(i) {
            return false;
        }
        i = i + 1;
    }
    true
}

/// The version that the response headers announce: the value of the first `x-version` line
/// (the header name in any case), or `unknown`.
pub fn latest_version(headers: &str) -> (r: String)
    ensures
        r@ == latest_version_of(headers@),
{
    let n = headers.unicode_len();
    let mut start: usize = 0;
    while start < n
        invariant
            n == headers@.len(),
            start <= n,
            version_from(headers@, 0) == version_from(headers@, start as int),
        decreases n - start,
    {
        let e = find_char(headers, '\n', start);
        let mut end = e;
        if e < n && e > start && headers.get_char(e - 1) == '\r' {
            end = e - 1;
        }
        let line = headers.substring_char(start, end);
        proof {
            assert(line@ =~= line_at(headers@, start as int));
        }
        if is_version_line(line) {
            let stop = find_char(line, ':', 10);
            return trim_string(line.substring_char(10, stop));
        }
        start = if e < n { e + 1 } else { n };
    }
    let mut r = String::new();
    push_str(&mut r, "unknown");
    r
}

/// Whether the server announces another version than `current_version`.
pub fn needs_update(current_version: &str, headers: &str) -> (r: bool)
    ensures
        r == (latest_version_of(headers@) != current_version@),
{
    let latest = latest_version(headers);
    !str_eq(latest.as_str(), current_version)
}

} // verus!
