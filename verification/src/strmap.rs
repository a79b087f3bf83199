//! A map keyed by text, for the registries whose keys are names. Entries keep the order in
//! which their keys were first inserted.

use vstd::prelude::*;
use crate::text::str_eq;

verus! {

pub struct StrMap<V> {
    entries: Vec<(String, V)>,
}

/// No key occurs twice among the entries.
pub open spec fn keys_unique<V>(s: Seq<(String, V)>) -> bool {
    forall|i: int, j: int| 0 <= i < j < s.len() ==> s[i].0@ != s[j].0@
}

/// The map that a list of entries with distinct keys stands for.
pub open spec fn entries_map<V>(s: Seq<(String, V)>) -> Map<Seq<char>, V> {
    Map::new(
        |k: Seq<char>| exists|i: int| 0 <= i < s.len() && s[i].0@ == k,
        |k: Seq<char>| s[choose|i: int| 0 <= i < s.len() && s[i].0@ == k].1,
    )
}

/// In a list with distinct keys, the entry at `i` is what the map holds under its key.
pub proof fn lemma_entry_in_map<V>(s: Seq<(String, V)>, i: int)
    requires
        keys_unique(s),
        0 <= i < s.len(),
    ensures
        entries_map(s).contains_key(s[i].0@),
        entries_map(s)[s[i].0@] == s[i].1,
{
    let k = s[i].0@;
    assert(exists|j: int| 0 <= j < s.len() && s[j].0@ == k);
    let j = choose|j: int| 0 <= j < s.len() && s[j].0@ == k;
    if j != i {
        if j < i {
            assert(s[j].0@ != s[i].0@);
        } else {
            assert(s[i].0@ != s[j].0@);
        }
    }
}

/// The keys of a list with distinct keys are the keys of its map, each once.
pub proof fn lemma_keys_of_entries<V>(s: Seq<(String, V)>)
    requires
        keys_unique(s),
    ensures
        s.map_values(|e: (String, V)| e.0@).no_duplicates(),
        s.map_values(|e: (String, V)| e.0@).len() == entries_map(s).dom().len(),
        forall|k: Seq<char>| s.map_values(|e: (String, V)| e.0@).contains(k) <==> entries_map(s).contains_key(k),
        entries_map(s).dom().finite(),
{
    let ks = s.map_values(|e: (String, V)| e.0@);
    assert forall|k: Seq<char>| ks.contains(k) <==> entries_map(s).contains_key(k) by {
        if ks.contains(k) {
            let i = choose|i: int| 0 <= i < ks.len() && ks[i] == k;
            assert(s[i].0@ == k);
        }
        if entries_map(s).contains_key(k) {
            let i = choose|i: int| 0 <= i < s.len() && s[i].0@ == k;
            assert(ks[i] == k);
        }
    }
    assert(ks.no_duplicates());
    ks.unique_seq_to_set();
    assert(ks.to_set() =~= entries_map(s).dom());
    assert(ks.to_set().finite()) by {
        broadcast use vstd::seq_lib::seq_to_set_is_finite;
    }
}

impl<V> View for StrMap<V> {
    type V = Map<Seq<char>, V>;

    closed spec fn view(&self) -> Map<Seq<char>, V> {
        entries_map(self.entries@)
    }
}

impl<V> StrMap<V> {
    #[verifier::type_invariant]
    closed spec fn wf(&self) -> bool {
        keys_unique(self.entries@)
    }

    /// The keys in the order in which they were first inserted.
    pub closed spec fn key_order(&self) -> Seq<Seq<char>> {
        self.entries@.map_values(|e: (String, V)| e.0@)
    }

    pub fn new() -> (r: Self)
        ensures
            r@ == Map::<Seq<char>, V>::empty(),
            r.key_order() == Seq::<Seq<char>>::empty(),
    {
        let r = StrMap { entries: Vec::new() };
        assert(r@ =~= Map::<Seq<char>, V>::empty());
        assert(r.key_order() =~= Seq::<Seq<char>>::empty());
        r
    }

    /// The keys, in the order in which they were first inserted.
    pub fn keys(&self) -> (r: Vec<String>)
        ensures
            r@.map_values(|s: String| s@) == self.key_order(),
            self.key_order().no_duplicates(),
            forall|k: Seq<char>| self.key_order().contains(k) <==> self@.contains_key(k),
    {
        proof {
            use_type_invariant(self);
            lemma_keys_of_entries(self.entries@);
        }
        let mut out: Vec<String> = Vec::new();
        let mut i: usize = 0;
        while i < self.entries.len()
            invariant
                i <= self.entries@.len(),
                out@.len() == i,
                forall|j: int| 0 <= j < i ==> out@[j]@ == self.entries@[j].0@,
            decreases self.entries.len() - i,
        {
            out.push(self.entries[i].0.clone());
            i = i + 1;
        }
        assert(out@.map_values(|s: String| s@) =~= self.key_order());
        out
    }

    /// Position of the entry under `key`, if there is one.
    fn find(&self, key: &str) -> (r: Option<usize>)
        ensures
            match r {
                Some(i) => i < self.entries@.len() && self.entries@[i as int].0@ == key@,
                None => !self@.contains_key(key@),
            },
    {
        let mut i: usize = 0;
        while i < self.entries.len()
            invariant
                i <= self.entries@.len(),
                forall|j: int| 0 <= j < i ==> self.entries@[j].0@ != key@,
            decreases self.entries.len() - i,
        {
            if str_eq(self.entries[i].0.as_str(), key) {
                return Some(i);
            }
            i = i + 1;
        }
        None
    }

    pub fn len(&self) -> (r: usize)
        ensures
            self@.dom().finite(),
            r == self@.dom().len(),
    {
        proof {
            use_type_invariant(self);
            lemma_keys_of_entries(self.entries@);
        }
        self.entries.len()
    }

    pub fn contains_key(&self, key: &str) -> (r: bool)
        ensures
            r == self@.contains_key(key@),
    {
        proof {
            use_type_invariant(self);
        }
        match self.find(key) {
            Some(i) => {
                proof {
                    lemma_entry_in_map(self.entries@, i as int);
                }
                true
            },
            None => false,
        }
    }

    pub fn get(&self, key: &str) -> (r: Option<&V>)
        ensures
            match r {
                Some(v) => self@.contains_key(key@) && *v == self@[key@],
                None => !self@.contains_key(key@),
            },
    {
        proof {
            use_type_invariant(self);
        }
        match self.find(key) {
            Some(i) => {
                proof {
                    lemma_entry_in_map(self.entries@, i as int);
                }
                Some(&self.entries[i].1)
            },
            None => None,
        }
    }

    /// Puts `value` under `key`, replacing what was there; a new key goes last in the key
    /// order, a present one keeps its place.
    pub fn insert(&mut self, key: String, value: V)
        ensures
            final(self)@ == old(self)@.insert(key@, value),
            old(self)@.contains_key(key@) ==> final(self).key_order() == old(self).key_order(),
            !old(self)@.contains_key(key@) ==> final(self).key_order() == old(self).key_order().push(key@),
    {
        proof {
            use_type_invariant(&*self);
        }
        let ghost old_entries = self.entries@;
        match self.find(key.as_str()) {
            Some(i) => {
                let ghost kv = key@;
                proof {
                    lemma_entry_in_map(old_entries, i as int);
                }
                let mut entries: Vec<(String, V)> = Vec::new();
                std::mem::swap(&mut entries, &mut self.entries);
                entries.set(i, (key, value));
                let ghost ne = entries@;
                assert(keys_unique(ne)) by {
                    assert forall|a: int, b: int| 0 <= a < b < ne.len() implies ne[a].0@ != ne[b].0@ by {
                        if a == i {
                            assert(old_entries[i as int].0@ == ne[a].0@);
                        }
                        if b == i {
                            assert(old_entries[i as int].0@ == ne[b].0@);
                        }
                    }
                }
                self.entries = entries;
                proof {
                    assert forall|k: Seq<char>| #[trigger] self@.contains_key(k) <==> old(self)@.insert(kv, value).contains_key(k) by {
                        if self@.contains_key(k) {
                            let j = choose|j: int| 0 <= j < ne.len() && ne[j].0@ == k;
                            if j != i {
                                lemma_entry_in_map(old_entries, j);
                            }
                        }
                        if old(self)@.contains_key(k) {
                            let j = choose|j: int| 0 <= j < old_entries.len() && old_entries[j].0@ == k;
                            if j != i {
                                assert(ne[j].0@ == k);
                            } else {
                                assert(ne[i as int].0@ == k);
                            }
                        }
                        if k == kv {
                            assert(ne[i as int].0@ == k);
                        }
                    }
                    assert forall|k: Seq<char>| #[trigger] self@.contains_key(k) implies self@[k] == old(self)@.insert(kv, value)[k] by {
                        let j = choose|j: int| 0 <= j < ne.len() && ne[j].0@ == k;
                        lemma_entry_in_map(ne, j);
                        if j != i {
                            lemma_entry_in_map(old_entries, j);
                        }
                    }
                    assert(self@ =~= old(self)@.insert(kv, value));
                    assert(self.key_order() =~= old(self).key_order());
                }
            },
            None => {
                let ghost kv = key@;
                let mut entries: Vec<(String, V)> = Vec::new();
                std::mem::swap(&mut entries, &mut self.entries);
                entries.push((key, value));
                let ghost ne = entries@;
                proof {
                    assert forall|a: int| 0 <= a < old_entries.len() implies old_entries[a].0@ != kv by {
                        if old_entries[a].0@ == kv {
                            assert(old(self)@.contains_key(kv));
                        }
                    }
                    assert(keys_unique(ne));
                }
                self.entries = entries;
                proof {
                    assert forall|a: int| 0 <= a < old_entries.len() implies old_entries[a].0@ != kv by {
                        if old_entries[a].0@ == kv {
                            assert(old(self)@.contains_key(kv));
                        }
                    }
                    assert(keys_unique(ne));
                    assert forall|k: Seq<char>| #[trigger] self@.contains_key(k) <==> old(self)@.insert(kv, value).contains_key(k) by {
                        if self@.contains_key(k) {
                            let j = choose|j: int| 0 <= j < ne.len() && ne[j].0@ == k;
                            if j < old_entries.len() {
                                assert(old_entries[j].0@ == k);
                            }
                        }
                        if old(self)@.contains_key(k) {
                            let j = choose|j: int| 0 <= j < old_entries.len() && old_entries[j].0@ == k;
                            assert(ne[j].0@ == k);
                        }
                        if k == kv {
                            assert(ne[old_entries.len() as int].0@ == k);
                        }
                    }
                    assert forall|k: Seq<char>| #[trigger] self@.contains_key(k) implies self@[k] == old(self)@.insert(kv, value)[k] by {
                        let j = choose|j: int| 0 <= j < ne.len() && ne[j].0@ == k;
                        lemma_entry_in_map(ne, j);
                        if j < old_entries.len() {
                            lemma_entry_in_map(old_entries, j);
                        }
                    }
                    assert(self@ =~= old(self)@.insert(kv, value));
                    assert(self.key_order() =~= old(self).key_order().push(kv));
                }
            },
        }
    }

    /// Takes the entry under `key` out of the map.
    pub fn remove(&mut self, key: &str) -> (r: Option<V>)
        ensures
            final(self)@ == old(self)@.remove(key@),
            match r {
                Some(v) => old(self)@.contains_key(key@) && v == old(self)@[key@],
                None => !old(self)@.contains_key(key@),
            },
    {
        proof {
            use_type_invariant(&*self);
        }
        let ghost old_entries = self.entries@;
        match self.find(key) {
            Some(i) => {
                proof {
                    lemma_entry_in_map(old_entries, i as int);
                }
                let mut entries: Vec<(String, V)> = Vec::new();
                std::mem::swap(&mut entries, &mut self.entries);
                let (_, v) = entries.remove(i);
                let ghost ne = entries@;
                assert(ne =~= old_entries.remove(i as int));
                assert(keys_unique(ne)) by {
                    assert forall|a: int, b: int| 0 <= a < b < ne.len() implies ne[a].0@ != ne[b].0@ by {
                        let oa = if a < i { a } else { a + 1 };
                        let ob = if b < i { b } else { b + 1 };
                        assert(ne[a] == old_entries[oa]);
                        assert(ne[b] == old_entries[ob]);
                    }
                }
                self.entries = entries;
                proof {
                    let kv = key@;
                    assert forall|k: Seq<char>| #[trigger] self@.contains_key(k) <==> old(self)@.remove(kv).contains_key(k) by {
                        if self@.contains_key(k) {
                            let j = choose|j: int| 0 <= j < ne.len() && ne[j].0@ == k;
                            let oj = if j < i { j } else { j + 1 };
                            assert(old_entries[oj].0@ == k);
                            assert(oj != i);
                            if k == kv {
                                if oj < i {
                                    assert(old_entries[oj].0@ != old_entries[i as int].0@);
                                } else {
                                    assert(old_entries[i as int].0@ != old_entries[oj].0@);
                                }
                            }
                        }
                        if old(self)@.remove(kv).contains_key(k) {
                            let j = choose|j: int| 0 <= j < old_entries.len() && old_entries[j].0@ == k;
                            assert(j != i);
                            let nj = if j < i { j } else { j - 1 };
                            assert(ne[nj].0@ == k);
                        }
                    }
                    assert forall|k: Seq<char>| #[trigger] self@.contains_key(k) implies self@[k] == old(self)@.remove(kv)[k] by {
                        let j = choose|j: int| 0 <= j < ne.len() && ne[j].0@ == k;
                        lemma_entry_in_map(ne, j);
                        let oj = if j < i { j } else { j + 1 };
                        assert(old_entries[oj] == ne[j]);
                        lemma_entry_in_map(old_entries, oj);
                    }
                    assert(self@ =~= old(self)@.remove(kv));
                }
                Some(v)
            },
            None => {
                proof {
                    let kv = key@;
                    assert(old(self)@.remove(kv) =~= old(self)@);
                }
                None
            },
        }
    }
}

} // verus!
