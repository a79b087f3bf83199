//! The context that the unified memory hands to the cognitive loop.

use vstd::prelude::*;
use crate::memory_system::{ShortTermMemory, message_line};
use crate::text::{join, lemma_join_push, push_char, push_str};

verus! {

/// A remembered record as `[role] content`.
pub open spec fn record_line(r: (Seq<char>, Seq<char>)) -> Seq<char> {
    seq!['['] + r.0 + "] "@ + r.1
}

/// The context: the short-term memory, then the most important long-term records, one per line.
pub open spec fn context_of(short_term: Seq<char>, records: Seq<(Seq<char>, Seq<char>)>) -> Seq<char> {
    "STM:\n"@ + short_term + "\n\nLTM:\n"@ + join(records.map_values(|r: (Seq<char>, Seq<char>)| record_line(r)), "\n"@)
}

/// The records held as strings, taken by their text.
pub open spec fn record_views(v: Seq<(String, String)>) -> Seq<(Seq<char>, Seq<char>)> {
    v.map_values(|r: (String, String)| (r.0@, r.1@))
}

/// The context for the cognitive loop from the short-term memory and the top long-term
/// records (role, content).
pub fn retrieve_context(short_term: &ShortTermMemory, long_term_top: &Vec<(String, String)>) -> (r: String)
    ensures
        r@ == context_of(
            join(short_term.messages().map_values(|m: (Seq<char>, Seq<char>)| message_line(m)), "\n"@),
            record_views(long_term_top@),
        ),
{
    let stm = short_term.formatted();
    let ghost lines = record_views(long_term_top@).map_values(|r: (Seq<char>, Seq<char>)| record_line(r));
    let mut ltm = String::new();
    let mut i: usize = 0;
    while i < long_term_top.len()
        invariant
            i <= long_term_top@.len(),
            lines == record_views(long_term_top@).map_values(|r: (Seq<char>, Seq<char>)| record_line(r)),
            ltm@ == join(lines.take(i as int), "\n"@),
        decreases long_term_top.len() - i,
    {
        let (role, content) = &long_term_top[i];
        proof {
            lemma_join_push(lines.take(i as int), "\n"@, record_line((role@, content@)));
            assert(lines.take(i + 1) =~= lines.take(i as int).push(record_line((role@, content@))));
        }
        if i > 0 {
            push_str(&mut ltm, "\n");
        }
        push_char(&mut ltm, '[');
        push_str(&mut ltm, role.as_str());
        push_str(&mut ltm, "] ");
        push_str(&mut ltm, content.as_str());
        i = i + 1;
        proof {
            assert(ltm@ =~= join(lines.take(i as int), "\n"@));
        }
    }
    assert(lines.take(i as int) =~= lines);
    let mut r = String::new();
    push_str(&mut r, "STM:\n");
    push_str(&mut r, stm.as_str());
    push_str(&mut r, "\n\nLTM:\n");
    push_str(&mut r, ltm.as_str());
    assert(r@ =~= context_of(
        join(short_term.messages().map_values(|m: (Seq<char>, Seq<char>)| message_line(m)), "\n"@),
        record_views(long_term_top@),
    ));
    r
}

} // verus!
