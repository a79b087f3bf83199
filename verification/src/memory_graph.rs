//! A small knowledge graph: nodes with properties, and labelled edges.

use vstd::prelude::*;
use crate::strmap::StrMap;
use crate::text::str_eq;

verus! {

/// One edge: from, to, relation.
pub type Edge = (String, String, String);

/// The neighbours of `node` among `edges`, in edge order: for an edge leaving `node`, its target
/// and relation; for an edge entering it, its source and relation.
pub open spec fn neighbours(edges: Seq<(Seq<char>, Seq<char>, Seq<char>)>, node: Seq<char>) -> Seq<(Seq<char>, Seq<char>)>
    decreases edges.len(),
{
    if edges.len() == 0 {
        Seq::empty()
    } else {
        let before = neighbours(edges.drop_last(), node);
        let (from, to, rel) = edges.last();
        if from == node {
            before.push((to, rel))
        } else if to == node {
            before.push((from, rel))
        } else {
            before
        }
    }
}

pub open spec fn edge_view(e: Edge) -> (Seq<char>, Seq<char>, Seq<char>) {
    (e.0@, e.1@, e.2@)
}

pub struct KnowledgeGraph {
    nodes: StrMap<Vec<String>>,
    edges: Vec<Edge>,
}

impl KnowledgeGraph {
    /// The nodes with their properties.
    pub closed spec fn node_map(&self) -> Map<Seq<char>, Seq<Seq<char>>> {
        self.nodes@.map_values(|p: Vec<String>| p@.map_values(|s: String| s@))
    }

    /// The edges in the order they were added.
    pub closed spec fn edge_list(&self) -> Seq<(Seq<char>, Seq<char>, Seq<char>)> {
        self.edges@.map_values(|e: Edge| edge_view(e))
    }

    pub fn new() -> (r: Self)
        ensures
            r.node_map() == Map::<Seq<char>, Seq<Seq<char>>>::empty(),
            r.edge_list() == Seq::<(Seq<char>, Seq<char>, Seq<char>)>::empty(),
    {
        let r = KnowledgeGraph { nodes: StrMap::new(), edges: Vec::new() };
        assert(r.node_map() =~= Map::<Seq<char>, Seq<Seq<char>>>::empty());
        assert(r.edge_list() =~= Seq::<(Seq<char>, Seq<char>, Seq<char>)>::empty());
        r
    }

    /// Sets the properties of node `id`, replacing earlier ones.
    pub fn add_node(&mut self, id: &str, properties: Vec<String>)
        ensures
            final(self).node_map() == old(self).node_map().insert(id@, properties@.map_values(|s: String| s@)),
            final(self).edge_list() == old(self).edge_list(),
    {
        let mut key = String::new();
        crate::text::push_str(&mut key, id);
        assert(key@ =~= id@);
        let ghost props = properties@;
        self.nodes.insert(key, properties);
        assert(self.node_map() =~= old(self).node_map().insert(id@, props.map_values(|s: String| s@)));
    }

    /// Adds an edge.
    pub fn add_edge(&mut self, from: &str, to: &str, relation: &str)
        ensures
            final(self).node_map() == old(self).node_map(),
            final(self).edge_list() == old(self).edge_list().push((from@, to@, relation@)),
    {
        let mut f = String::new();
        crate::text::push_str(&mut f, from);
        let mut t = String::new();
        crate::text::push_str(&mut t, to);
        let mut r = String::new();
        crate::text::push_str(&mut r, relation);
        assert(f@ =~= from@ && t@ =~= to@ && r@ =~= relation@);
        self.edges.push((f, t, r));
        assert(self.edge_list() =~= old(self).edge_list().push((from@, to@, relation@)));
    }

    /// The neighbours of `node_id` with the relation to each, in edge order.
    pub fn query(&self, node_id: &str) -> (r: Vec<(String, String)>)
        ensures
            r@.map_values(|p: (String, String)| (p.0@, p.1@)) == neighbours(self.edge_list(), node_id@),
    {
        let mut out: Vec<(String, String)> = Vec::new();
        let ghost el = self.edge_list();
        let mut i: usize = 0;
        while i < self.edges.len()
            invariant
                i <= self.edges@.len(),
                el == self.edge_list(),
                out@.map_values(|p: (String, String)| (p.0@, p.1@)) == neighbours(el.take(i as int), node_id@),
            decreases self.edges.len() - i,
        {
            let (from, to, rel) = &self.edges[i];
            let ghost before = out@;
            assert(el.take(i + 1).drop_last() =~= el.take(i as int));
            assert(el.take(i + 1).last() == (from@, to@, rel@));
            if str_eq(from.as_str(), node_id) {
                out.push((to.clone(), rel.clone()));
                assert(out@.map_values(|p: (String, String)| (p.0@, p.1@)) =~= before.map_values(
                    |p: (String, String)| (p.0@, p.1@),
                ).push((to@, rel@)));
            } else if str_eq(to.as_str(), node_id) {
                out.push((from.clone(), rel.clone()));
                assert(out@.map_values(|p: (String, String)| (p.0@, p.1@)) =~= before.map_values(
                    |p: (String, String)| (p.0@, p.1@),
                ).push((from@, rel@)));
            }
            i = i + 1;
        }
        assert(el.take(i as int) =~= el);
        out
    }
}

/// How many episodes the cognitive graph keeps.
pub const EPISODE_CAPACITY: usize = 1000;

/// The episodes after one more was recorded: the oldest goes when there are too many.
pub open spec fn after_episode(episodes: Seq<Seq<char>>, description: Seq<char>) -> Seq<Seq<char>> {
    let e = episodes.push(description);
    if e.len() > EPISODE_CAPACITY { e.drop_first() } else { e }
}

/// The latest `limit` episodes, latest first.
pub open spec fn latest_episodes(episodes: Seq<Seq<char>>, limit: nat) -> Seq<Seq<char>> {
    let k = if limit < episodes.len() { limit } else { episodes.len() };
    Seq::new(k, |i: int| episodes[episodes.len() - 1 - i])
}

/// The relations of a subject after one more: `predicate object` goes last.
pub open spec fn after_relation(
    semantic: Map<Seq<char>, Seq<Seq<char>>>,
    subject: Seq<char>,
    predicate: Seq<char>,
    object: Seq<char>,
) -> Map<Seq<char>, Seq<Seq<char>>> {
    let before = if semantic.contains_key(subject) { semantic[subject] } else { Seq::empty() };
    semantic.insert(subject, before.push(predicate + seq![' '] + object))
}

/// The semantic and episodic memory of the cognitive loop.
pub struct CognitiveMemoryGraph {
    semantic: StrMap<Vec<String>>,
    episodic: Vec<String>,
}

impl CognitiveMemoryGraph {
    /// Subject to its relations, each `predicate object`, in the order they were added.
    pub closed spec fn semantic(&self) -> Map<Seq<char>, Seq<Seq<char>>> {
        self.semantic@.map_values(|v: Vec<String>| v@.map_values(|s: String| s@))
    }

    /// The episodes, oldest first.
    pub closed spec fn episodes(&self) -> Seq<Seq<char>> {
        self.episodic@.map_values(|s: String| s@)
    }

    #[verifier::type_invariant]
    closed spec fn wf(&self) -> bool {
        self.episodic@.len() <= EPISODE_CAPACITY
    }

    pub fn new() -> (r: Self)
        ensures
            r.semantic() == Map::<Seq<char>, Seq<Seq<char>>>::empty(),
            r.episodes() == Seq::<Seq<char>>::empty(),
    {
        let r = CognitiveMemoryGraph { semantic: StrMap::new(), episodic: Vec::new() };
        assert(r.semantic() =~= Map::<Seq<char>, Seq<Seq<char>>>::empty());
        assert(r.episodes() =~= Seq::<Seq<char>>::empty());
        r
    }

    /// Records that `subject` stands in `predicate` to `object`.
    pub fn add_semantic_relation(&mut self, subject: &str, predicate: &str, object: &str)
        ensures
            final(self).semantic() == after_relation(old(self).semantic(), subject@, predicate@, object@),
            final(self).episodes() == old(self).episodes(),
    {
        proof {
            use_type_invariant(&*self);
        }
        let ghost before = self.semantic();
        let mut semantic: StrMap<Vec<String>> = StrMap::new();
        std::mem::swap(&mut semantic, &mut self.semantic);
        let mut list = match semantic.remove(subject) {
            Some(v) => v,
            None => Vec::new(),
        };
        let mut entry = String::new();
        crate::text::push_str(&mut entry, predicate);
        crate::text::push_char(&mut entry, ' ');
        crate::text::push_str(&mut entry, object);
        assert(entry@ =~= predicate@ + seq![' '] + object@);
        let ghost old_list = list@;
        list.push(entry);
        let mut key = String::new();
        crate::text::push_str(&mut key, subject);
        assert(key@ =~= subject@);
        proof {
            let prev = if before.contains_key(subject@) { before[subject@] } else { Seq::<Seq<char>>::empty() };
            assert(old_list.map_values(|s: String| s@) =~= prev);
            assert(list@.map_values(|s: String| s@) =~= prev.push(predicate@ + seq![' '] + object@));
        }
        semantic.insert(key, list);
        self.semantic = semantic;
        assert(self.semantic() =~= after_relation(before, subject@, predicate@, object@));
    }

    /// Records an episode; beyond the capacity the oldest one is forgotten.
    pub fn record_episode(&mut self, description: &str)
        ensures
            final(self).episodes() == after_episode(old(self).episodes(), description@),
            final(self).episodes().len() <= EPISODE_CAPACITY,
            final(self).semantic() == old(self).semantic(),
    {
        proof {
            use_type_invariant(&*self);
        }
        let mut d = String::new();
        crate::text::push_str(&mut d, description);
        assert(d@ =~= description@);
        let mut episodic: Vec<String> = Vec::new();
        std::mem::swap(&mut episodic, &mut self.episodic);
        let ghost before = episodic@;
        episodic.push(d);
        if episodic.len() > EPISODE_CAPACITY {
            episodic.remove(0);
        }
        proof {
            let pushed = before.push(d);
            if pushed.len() > EPISODE_CAPACITY {
                assert(episodic@ =~= pushed.drop_first());
                assert(pushed.drop_first().map_values(|s: String| s@) =~= pushed.map_values(|s: String| s@).drop_first());
            } else {
                assert(episodic@ =~= pushed);
            }
            assert(pushed.map_values(|s: String| s@) =~= before.map_values(|s: String| s@).push(description@));
        }
        self.episodic = episodic;
    }

    /// The latest `limit` episodes, latest first.
    pub fn recall_episodes(&self, limit: usize) -> (r: Vec<String>)
        ensures
            r@.map_values(|s: String| s@) == latest_episodes(self.episodes(), limit as nat),
    {
        let n = self.episodic.len();
        let k = if limit < n { limit } else { n };
        let mut out: Vec<String> = Vec::new();
        let mut i: usize = 0;
        while i < k
            invariant
                n == self.episodic@.len(),
                k <= n,
                i <= k,
                out@.len() == i,
                forall|j: int| 0 <= j < i ==> #[trigger] out@[j]@ == self.episodic@[n - 1 - j]@,
            decreases k - i,
        {
            out.push(self.episodic[n - 1 - i].clone());
            i = i + 1;
        }
        assert(out@.map_values(|s: String| s@) =~= latest_episodes(self.episodes(), limit as nat));
        out
    }
}

} // verus!
