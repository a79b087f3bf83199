//! The swarm bus: mailboxes of messages between agents, and replies to requests.

use vstd::prelude::*;
use crate::strmap::StrMap;
use crate::text::push_str;

verus! {

/// The text of a list of strings.
pub open spec fn texts(v: Seq<String>) -> Seq<Seq<char>> {
    v.map_values(|s: String| s@)
}

/// The mailboxes after `message` was sent to `target`: it goes last in the target's mailbox,
/// which is opened if there was none.
pub open spec fn after_send(
    bus: Map<Seq<char>, Seq<Seq<char>>>,
    target: Seq<char>,
    message: Seq<char>,
) -> Map<Seq<char>, Seq<Seq<char>>> {
    let queue = if bus.contains_key(target) { bus[target] } else { Seq::empty() };
    bus.insert(target, queue.push(message))
}

/// What `fetch_messages(agent)` hands out: the agent's mailbox, or nothing when it has none.
pub open spec fn mailbox(bus: Map<Seq<char>, Seq<Seq<char>>>, agent: Seq<char>) -> Seq<Seq<char>> {
    if bus.contains_key(agent) {
        bus[agent]
    } else {
        Seq::empty()
    }
}

/// The text of a request: its id, `||`, then the payload.
pub open spec fn request_text(request_id: Seq<char>, payload: Seq<char>) -> Seq<char> {
    request_id + seq!['|', '|'] + payload
}

/// Makes a fresh request id (a random version 4 UUID in its hyphenated text form).
#[verifier::external_body]
fn fresh_request_id() -> String {
    uuid::Uuid::new_v4().to_string()
}

fn owned(s: &str) -> (r: String)
    ensures
        r@ == s@,
{
    let mut r = String::new();
    push_str(&mut r, s);
    assert(r@ =~= s@);
    r
}

pub struct SwarmBus {
    bus: StrMap<Vec<String>>,
    replies: StrMap<String>,
}

impl SwarmBus {
    /// The mailboxes: agent name to the messages waiting for it, oldest first.
    pub closed spec fn mailboxes(&self) -> Map<Seq<char>, Seq<Seq<char>>> {
        self.bus@.map_values(|v: Vec<String>| texts(v@))
    }

    /// The replies: request id to reply.
    pub closed spec fn replies(&self) -> Map<Seq<char>, Seq<char>> {
        self.replies@.map_values(|s: String| s@)
    }

    pub fn new() -> (r: Self)
        ensures
            r.mailboxes() == Map::<Seq<char>, Seq<Seq<char>>>::empty(),
            r.replies() == Map::<Seq<char>, Seq<char>>::empty(),
    {
        let r = SwarmBus { bus: StrMap::new(), replies: StrMap::new() };
        assert(r.mailboxes() =~= Map::<Seq<char>, Seq<Seq<char>>>::empty());
        assert(r.replies() =~= Map::<Seq<char>, Seq<char>>::empty());
        r
    }

    /// Puts `message` last in the mailbox of `target`.
    fn post(&mut self, target: &str, message: String)
        ensures
            final(self).mailboxes() == after_send(old(self).mailboxes(), target@, message@),
            final(self).replies() == old(self).replies(),
    {
        let ghost before = self.mailboxes();
        let mut queue = match self.bus.remove(target) {
            Some(q) => q,
            None => Vec::new(),
        };
        assert(texts(queue@) == mailbox(before, target@));
        let ghost m = message@;
        queue.push(message);
        assert(texts(queue@) =~= mailbox(before, target@).push(m));
        self.bus.insert(owned(target), queue);
        assert(self.mailboxes() =~= after_send(before, target@, m));
    }

    /// Sends `message` to `target` and reports `Message sent to {target}`.
    pub fn send(&mut self, target: &str, message: &str) -> (r: Result<String, String>)
        ensures
            final(self).mailboxes() == after_send(old(self).mailboxes(), target@, message@),
            final(self).replies() == old(self).replies(),
            r matches Ok(text) && text@ == "Message sent to "@ + target@,
    {
        self.post(target, owned(message));
        let mut text = String::new();
        push_str(&mut text, "Message sent to ");
        push_str(&mut text, target);
        Ok(text)
    }

    /// Sends a request to `target` under a fresh id, as `{id}||{payload}`, and returns the id.
    pub fn send_request(&mut self, target: &str, payload: &str) -> (id: String)
        ensures
            final(self).mailboxes() == after_send(old(self).mailboxes(), target@, request_text(id@, payload@)),
            final(self).replies() == old(self).replies(),
    {
        let id = fresh_request_id();
        let mut text = String::new();
        push_str(&mut text, id.as_str());
        push_str(&mut text, "||");
        push_str(&mut text, payload);
        proof {
            reveal_strlit("||");
        }
        assert(text@ =~= request_text(id@, payload@));
        self.post(target, text);
        id
    }

    /// The reply to request `request_id`, once there is one.
    pub fn poll_reply(&self, request_id: &str) -> (r: Option<String>)
        ensures
            match r {
                Some(text) => self.replies().contains_key(request_id@) && text@ == self.replies()[request_id@],
                None => !self.replies().contains_key(request_id@),
            },
    {
        match self.replies.get(request_id) {
            Some(text) => Some(text.clone()),
            None => None,
        }
    }

    /// Records the reply to request `request_id`, replacing an earlier one.
    pub fn reply(&mut self, request_id: &str, message: &str) -> (r: Result<(), String>)
        ensures
            final(self).replies() == old(self).replies().insert(request_id@, message@),
            final(self).mailboxes() == old(self).mailboxes(),
            r is Ok,
    {
        self.replies.insert(owned(request_id), owned(message));
        assert(self.replies() =~= old(self).replies().insert(request_id@, message@));
        Ok(())
    }

    /// The agents that have a mailbox.
    pub fn list_agents(&self) -> (r: Vec<String>)
        ensures
            texts(r@).no_duplicates(),
            forall|a: Seq<char>| texts(r@).contains(a) <==> self.mailboxes().contains_key(a),
    {
        let r = self.bus.keys();
        assert(texts(r@) == r@.map_values(|s: String| s@));
        r
    }

    /// Takes the mailbox of `agent` out of the bus: its messages, oldest first.
    pub fn fetch_messages(&mut self, agent: &str) -> (r: Vec<String>)
        ensures
            texts(r@) == mailbox(old(self).mailboxes(), agent@),
            final(self).mailboxes() == old(self).mailboxes().remove(agent@),
            final(self).replies() == old(self).replies(),
    {
        let r = match self.bus.remove(agent) {
            Some(q) => q,
            None => Vec::new(),
        };
        assert(self.mailboxes() =~= old(self).mailboxes().remove(agent@));
        assert(texts(r@) =~= mailbox(old(self).mailboxes(), agent@));
        r
    }
}

/// A message sent to an agent is the last one that the agent fetches next, after the ones that
/// were already waiting, and fetching empties the mailbox.
pub proof fn law_send_then_fetch(bus: Map<Seq<char>, Seq<Seq<char>>>, target: Seq<char>, message: Seq<char>)
    ensures
        mailbox(after_send(bus, target, message), target) == mailbox(bus, target).push(message),
        !after_send(bus, target, message).remove(target).contains_key(target),
        mailbox(after_send(bus, target, message).remove(target), target) == Seq::<Seq<char>>::empty(),
{
}

/// Sending to one agent leaves the other mailboxes as they were.
pub proof fn law_send_leaves_others(
    bus: Map<Seq<char>, Seq<Seq<char>>>,
    target: Seq<char>,
    message: Seq<char>,
    other: Seq<char>,
)
    requires
        other != target,
    ensures
        mailbox(after_send(bus, target, message), other) == mailbox(bus, other),
{
}

/// The mailboxes after the messages `sent` (target and text) were sent in order.
pub open spec fn after_sends(
    bus: Map<Seq<char>, Seq<Seq<char>>>,
    sent: Seq<(Seq<char>, Seq<char>)>,
) -> Map<Seq<char>, Seq<Seq<char>>>
    decreases sent.len(),
{
    if sent.len() == 0 {
        bus
    } else {
        after_send(after_sends(bus, sent.drop_last()), sent.last().0, sent.last().1)
    }
}

/// The texts of the messages of `sent` addressed to `agent`, in the order they were sent.
pub open spec fn sent_to(sent: Seq<(Seq<char>, Seq<char>)>, agent: Seq<char>) -> Seq<Seq<char>>
    decreases sent.len(),
{
    if sent.len() == 0 {
        Seq::empty()
    } else if sent.last().0 == agent {
        sent_to(sent.drop_last(), agent).push(sent.last().1)
    } else {
        sent_to(sent.drop_last(), agent)
    }
}

/// After any sequence of sends, an agent fetches the messages that were waiting, then the
/// messages sent to it, in the order they were sent; messages to other agents do not reach it.
pub proof fn law_sends_then_fetch(
    bus: Map<Seq<char>, Seq<Seq<char>>>,
    sent: Seq<(Seq<char>, Seq<char>)>,
    agent: Seq<char>,
)
    ensures
        mailbox(after_sends(bus, sent), agent) == mailbox(bus, agent) + sent_to(sent, agent),
    decreases sent.len(),
{
    if sent.len() == 0 {
        assert(mailbox(bus, agent) + Seq::<Seq<char>>::empty() =~= mailbox(bus, agent));
    } else {
        law_sends_then_fetch(bus, sent.drop_last(), agent);
        if sent.last().0 == agent {
            assert(mailbox(bus, agent) + sent_to(sent.drop_last(), agent).push(sent.last().1) =~= (mailbox(
                bus,
                agent,
            ) + sent_to(sent.drop_last(), agent)).push(sent.last().1));
        }
    }
}

} // verus!
