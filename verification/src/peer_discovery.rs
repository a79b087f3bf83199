//! Peer discovery: the table of known peers and the text of the discovery announcements.

use std::collections::BTreeMap;
use vstd::prelude::*;
use vstd::string::StrSliceExecFns;
use crate::ordered::{sorted_keys, ordered_keys, lists_keys_in_order};
use crate::text::{
    decimal, parse_u64, parsed_u64, push_char, push_decimal, push_str, starts_with, is_digit,
    all_digits, lemma_decimal_digits, char_index_from, lemma_char_index_from, find_char,
};

verus! {

broadcast use crate::ordered::map_facts;

/// The text that opens every discovery announcement.
pub open spec fn discovery_prefix() -> Seq<char> {
    seq!['S', 'P', 'S', '_', 'D', 'I', 'S', 'C', 'O', 'V', 'E', 'R', ':']
}

/// The announcement of node `node_id` at `address`: `SPS_DISCOVER:{node_id}:{address}`.
pub open spec fn discovery_text(node_id: u64, address: Seq<char>) -> Seq<char> {
    discovery_prefix() + decimal(node_id as nat) + seq![':'] + address
}

/// What a listener reads from an announcement: the message must open with the prefix and hold
/// at least two more `:`-separated fields; the first must be a `u64`, the second is the address
/// (up to the next `:`).
pub open spec fn parsed_discovery(m: Seq<char>) -> Option<(u64, Seq<char>)> {
    let p = discovery_prefix().len() as int;
    if m.len() >= p && m.take(p) == discovery_prefix() {
        let e1 = char_index_from(m, ':', p);
        if e1 < m.len() {
            match parsed_u64(m.subrange(p, e1)) {
                Some(id) => Some((id, m.subrange(e1 + 1, char_index_from(m, ':', e1 + 1)))),
                None => None,
            }
        } else {
            None
        }
    } else {
        None
    }
}

/// Copies a string slice into a new `String`.
fn owned(s: &str) -> (r: String)
    ensures
        r@ == s@,
{
    let mut r = String::new();
    push_str(&mut r, s);
    assert(r@ =~= s@);
    r
}

/// The announcement that node `node_id` broadcasts for `address`.
pub fn discovery_message(node_id: u64, address: &str) -> (r: String)
    ensures
        r@ == discovery_text(node_id, address@),
{
    let mut m = String::new();
    push_str(&mut m, "SPS_DISCOVER:");
    proof {
        reveal_strlit("SPS_DISCOVER:");
    }
    assert(m@ =~= discovery_prefix());
    push_decimal(&mut m, node_id);
    push_char(&mut m, ':');
    push_str(&mut m, address);
    assert(m@ =~= discovery_text(node_id, address@));
    m
}

/// Reads an announcement: the node id and the address it carries, if it is one.
pub fn parse_discovery_message(msg: &str) -> (r: Option<(u64, String)>)
    ensures
        match r {
            Some((id, address)) => parsed_discovery(msg@) == Some((id, address@)),
            None => parsed_discovery(msg@) is None,
        },
{
    proof {
        reveal_strlit("SPS_DISCOVER:");
    }
    let p: usize = 13;
    if !starts_with(msg, "SPS_DISCOVER:") {
        assert("SPS_DISCOVER:"@ =~= discovery_prefix());
        return None;
    }
    assert("SPS_DISCOVER:"@ =~= discovery_prefix());
    let n = msg.unicode_len();
    let e1 = find_char(msg, ':', p);
    if e1 >= n {
        return None;
    }
    let id_text = msg.substring_char(p, e1);
    match parse_u64(id_text) {
        Some(id) => {
            let e2 = find_char(msg, ':', e1 + 1);
            let address = owned(msg.substring_char(e1 + 1, e2));
            Some((id, address))
        },
        None => None,
    }
}

/// A listener reads back the node id and address of an announcement, for every address
/// without a `:` (the listener cuts the address at its first `:`).
pub proof fn law_discovery_round_trip(node_id: u64, address: Seq<char>)
    requires
        !address.contains(':'),
    ensures
        parsed_discovery(discovery_text(node_id, address)) == Some((node_id, address)),
{
    let m = discovery_text(node_id, address);
    let d = decimal(node_id as nat);
    let p = discovery_prefix().len() as int;
    lemma_decimal_digits(node_id as nat);
    assert(m.take(p) =~= discovery_prefix());
    let e1 = p + d.len();
    assert forall|j: int| p <= j < e1 implies m[j] != ':' by {
        assert(m[j] == d[j - p]);
        assert(is_digit(d[j - p]));
    }
    assert(m[e1] == ':');
    lemma_char_index_from(m, ':', p, e1);
    assert(m.subrange(p, e1) =~= d);
    assert(!(d.len() > 0 && d[0] == '+')) by {
        assert(is_digit(d[0]));
    }
    assert(all_digits(d));
    assert(parsed_u64(d) == Some(node_id));
    assert forall|j: int| e1 + 1 <= j < m.len() implies m[j] != ':' by {
        assert(m[j] == address[j - e1 - 1]);
        if address[j - e1 - 1] == ':' {
            assert(address.contains(':'));
        }
    }
    lemma_char_index_from(m, ':', e1 + 1, m.len() as int);
    assert(m.subrange(e1 + 1, m.len() as int) =~= address);
}

/// The peers that a node knows of, by node id.
#[derive(Debug)]
pub struct PeerDiscovery {
    peers: BTreeMap<u64, String>,
    local_node_id: u64,
    local_address: String,
}

impl PeerDiscovery {
    /// The known peers: node id to address.
    pub closed spec fn peers(&self) -> Map<u64, Seq<char>> {
        self.peers@.map_values(|a: String| a@)
    }

    pub closed spec fn local_node_id(&self) -> u64 {
        self.local_node_id
    }

    pub closed spec fn local_address(&self) -> Seq<char> {
        self.local_address@
    }

    pub fn new(node_id: u64, address: &str) -> (r: Self)
        ensures
            r.peers() == Map::<u64, Seq<char>>::empty(),
            r.local_node_id() == node_id,
            r.local_address() == address@,
    {
        let r = PeerDiscovery { peers: BTreeMap::new(), local_node_id: node_id, local_address: owned(address) };
        assert(r.peers() =~= Map::<u64, Seq<char>>::empty());
        r
    }

    /// Records the address of a peer, replacing an earlier one.
    pub fn add_peer(&mut self, node_id: u64, address: &str)
        ensures
            final(self).peers() == old(self).peers().insert(node_id, address@),
            final(self).local_node_id() == old(self).local_node_id(),
            final(self).local_address() == old(self).local_address(),
    {
        self.peers.insert(node_id, owned(address));
        assert(self.peers() =~= old(self).peers().insert(node_id, address@));
    }

    /// Forgets a peer.
    pub fn remove_peer(&mut self, node_id: u64)
        ensures
            final(self).peers() == old(self).peers().remove(node_id),
            final(self).local_node_id() == old(self).local_node_id(),
            final(self).local_address() == old(self).local_address(),
    {
        self.peers.remove(&node_id);
        assert(self.peers() =~= old(self).peers().remove(node_id));
    }

    /// The announcement that this node broadcasts.
    pub fn announcement(&self) -> (r: String)
        ensures
            r@ == discovery_text(self.local_node_id(), self.local_address()),
    {
        discovery_message(self.local_node_id, self.local_address.as_str())
    }

    /// The known peers as (node id, address), smallest id first.
    pub fn list_peers(&self) -> (r: Vec<(u64, String)>)
        ensures
            r@.len() == ordered_keys(self.peers()).len(),
            lists_keys_in_order(ordered_keys(self.peers()), self.peers()),
            forall|i: int|
                0 <= i < r@.len() ==> r@[i].0 == ordered_keys(self.peers())[i] && #[trigger] r@[i].1@
                    == self.peers()[ordered_keys(self.peers())[i]],
    {
        let ids = sorted_keys(&self.peers);
        proof {
            assert(self.peers().dom() =~= self.peers@.dom());
            assert(lists_keys_in_order(ids@, self.peers()));
            crate::ordered::lemma_ordered_keys(ids@, self.peers());
        }
        let mut out: Vec<(u64, String)> = Vec::new();
        let mut i: usize = 0;
        while i < ids.len()
            invariant
                ids@ == ordered_keys(self.peers@),
                lists_keys_in_order(ids@, self.peers@),
                i <= ids@.len(),
                out@.len() == i,
                forall|j: int| 0 <= j < i ==> (#[trigger] out@[j]).0 == ids@[j] && out@[j].1@ == self.peers()[ids@[j]],
                ids@ == ordered_keys(self.peers()),
            decreases ids.len() - i,
        {
            let id = ids[i];
            assert(self.peers@.contains_key(id)) by {
                assert(ids@.contains(id));
            }
            match self.peers.get(&id) {
                Some(a) => {
                    let c = a.clone();
                    assert(c@ == self.peers()[id]);
                    out.push((id, c));
                },
                None => {
                    assert(false);
                },
            }
            i = i + 1;
        }
        out
    }
}

} // verus!
