//! Short-term memory: the latest messages of the conversation, up to a capacity.

use std::collections::VecDeque;
use vstd::prelude::*;
use crate::text::{join, lemma_join_push, push_str};

verus! {

/// A message as (role, content).
pub type Message = (Seq<char>, Seq<char>);

/// The messages after adding `m` to `msgs` under `capacity`: when the memory is full the oldest
/// message goes first.
pub open spec fn added(msgs: Seq<Message>, capacity: nat, m: Message) -> Seq<Message> {
    (if msgs.len() >= capacity && msgs.len() > 0 {
        msgs.drop_first()
    } else {
        msgs
    }).push(m)
}

/// The messages held as strings, taken by their text.
pub open spec fn message_views(s: Seq<(String, String)>) -> Seq<Message> {
    s.map_values(|p: (String, String)| (p.0@, p.1@))
}

/// The text of a message, `role: content`.
pub open spec fn message_line(m: Message) -> Seq<char> {
    m.0 + ": "@ + m.1
}

pub struct ShortTermMemory {
    messages: VecDeque<(String, String)>,
    capacity: usize,
}

impl ShortTermMemory {
    /// The messages, oldest first.
    pub closed spec fn messages(&self) -> Seq<Message> {
        message_views(self.messages@)
    }

    pub closed spec fn capacity(&self) -> nat {
        self.capacity as nat
    }

    pub fn new(capacity: usize) -> (r: Self)
        ensures
            r.messages() == Seq::<Message>::empty(),
            r.capacity() == capacity,
    {
        let r = ShortTermMemory { messages: VecDeque::with_capacity(capacity), capacity };
        assert(r.messages() =~= Seq::<Message>::empty());
        r
    }

    /// Adds a message, dropping the oldest one when the memory is full.
    pub fn add(&mut self, role: &str, content: &str)
        ensures
            final(self).messages() == added(old(self).messages(), old(self).capacity(), (role@, content@)),
            final(self).capacity() == old(self).capacity(),
    {
        if self.messages.len() >= self.capacity {
            self.messages.pop_front();
        }
        let mut r = String::new();
        push_str(&mut r, role);
        let mut c = String::new();
        push_str(&mut c, content);
        assert(r@ =~= role@ && c@ =~= content@);
        self.messages.push_back((r, c));
        assert(self.messages() =~= added(old(self).messages(), old(self).capacity(), (role@, content@)));
    }

    /// Copies of the messages, oldest first.
    pub fn context(&self) -> (r: Vec<(String, String)>)
        ensures
            message_views(r@) == self.messages(),
    {
        broadcast use vstd::std_specs::vecdeque::group_vec_dequeue_axioms;
        let mut out: Vec<(String, String)> = Vec::new();
        let mut i: usize = 0;
        while i < self.messages.len()
            invariant
                i <= self.messages@.len(),
                message_views(out@) == self.messages().take(i as int),
            decreases self.messages.len() - i,
        {
            let pair = &self.messages[i];
            let item = (pair.0.clone(), pair.1.clone());
            assert(item.0@ == self.messages()[i as int].0 && item.1@ == self.messages()[i as int].1);
            let ghost before = out@;
            out.push(item);
            proof {
                assert(out@ == before.push(item));
                assert(message_views(out@) =~= message_views(before).push((item.0@, item.1@)));
            }
            i = i + 1;
            assert(message_views(out@) =~= self.messages().take(i as int));
        }
        assert(self.messages().take(i as int) =~= self.messages());
        out
    }

    /// The messages as `role: content` lines, oldest first.
    pub fn formatted(&self) -> (r: String)
        ensures
            r@ == join(self.messages().map_values(|m: Message| message_line(m)), "\n"@),
    {
        let ghost lines = self.messages().map_values(|m: Message| message_line(m));
        let mut out = String::new();
        let mut i: usize = 0;
        while i < self.messages.len()
            invariant
                i <= self.messages@.len(),
                lines == self.messages().map_values(|m: Message| message_line(m)),
                out@ == join(lines.take(i as int), "\n"@),
            decreases self.messages.len() - i,
        {
            let (r, c) = &self.messages[i];
            proof {
                lemma_join_push(lines.take(i as int), "\n"@, message_line((r@, c@)));
                assert(lines.take(i + 1) =~= lines.take(i as int).push(message_line((r@, c@))));
            }
            if i > 0 {
                push_str(&mut out, "\n");
            }
            push_str(&mut out, r.as_str());
            push_str(&mut out, ": ");
            push_str(&mut out, c.as_str());
            i = i + 1;
            proof {
                assert(out@ =~= join(lines.take(i as int), "\n"@));
            }
        }
        assert(lines.take(i as int) =~= lines);
        out
    }
}

/// A memory with room for at least one message never holds more than its capacity, and holds
/// the latest messages: after an add, the stored messages are the last ones of the old messages
/// followed by the new one, and the new one is last.
pub proof fn law_keeps_latest(msgs: Seq<Message>, capacity: nat, m: Message)
    requires
        capacity >= 1,
        msgs.len() <= capacity,
    ensures
        added(msgs, capacity, m).len() <= capacity,
        added(msgs, capacity, m).last() == m,
        added(msgs, capacity, m) == msgs.push(m).subrange(
            if msgs.len() + 1 > capacity { msgs.len() + 1 - capacity } else { 0int },
            (msgs.len() + 1) as int,
        ),
{
    let a = added(msgs, capacity, m);
    if msgs.len() >= capacity {
        assert(a =~= msgs.push(m).subrange(1int, (msgs.len() + 1) as int));
    } else {
        assert(a =~= msgs.push(m).subrange(0int, (msgs.len() + 1) as int));
    }
}

} // verus!
