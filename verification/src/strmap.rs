use vstd::prelude::*;
use crate::text::str_equal;

verus! {

/// A map keyed by text, kept as a list of entries with distinct keys in the
/// order they were first inserted.
pub struct StrMap<V> {
    entries: Vec<(String, V)>,
}

/// The keys of a list of entries.
pub open spec fn entry_keys<V>(e: Seq<(String, V)>) -> Seq<Seq<char>> {
    e.map_values(|p: (String, V)| p.0@)
}

impl<V: View> StrMap<V> {
    /// The keys in list order.
    pub closed spec fn keys(&self) -> Seq<Seq<char>> {
        entry_keys(self.entries@)
    }

    /// The values in list order.
    pub closed spec fn values(&self) -> Seq<V::V> {
        self.entries@.map_values(|p: (String, V)| p.1@)
    }

    /// The map from keys to value views.
    pub closed spec fn map(&self) -> Map<Seq<char>, V::V> {
        Map::new(
            |k: Seq<char>| self.keys().contains(k),
            |k: Seq<char>| self.values()[self.keys().index_of(k)],
        )
    }

    /// Keys are distinct.
    pub closed spec fn wf(&self) -> bool {
        self.keys().no_duplicates()
    }

    /// Lemma: the map is the keys paired with the values.
    pub proof fn lemma_map_entries(&self)
        requires
            self.wf(),
        ensures
            self.keys().len() == self.values().len(),
            forall|i: int| 0 <= i < self.keys().len() ==> #[trigger] self.map()[self.keys()[i]] == self.values()[i],
            forall|k: Seq<char>| #[trigger] self.map().contains_key(k) <==> self.keys().contains(k),
            self.map().dom().finite(),
            self.map().dom().len() == self.keys().len(),
    {
        assert forall|i: int| 0 <= i < self.keys().len() implies #[trigger] self.map()[self.keys()[i]]
            == self.values()[i] by {
            assert(self.keys().contains(self.keys()[i]));
            self.keys().index_of_first_ensures(self.keys()[i]);
            let j = self.keys().index_of(self.keys()[i]);
        }
        assert(self.map().dom() =~= self.keys().to_set());
        self.keys().unique_seq_to_set();
    }

    /// Lemma: the keys are distinct.
    pub proof fn lemma_keys_distinct(&self)
        requires
            self.wf(),
        ensures
            self.keys().no_duplicates(),
    {
    }

    /// An empty map.
    pub fn new() -> (m: Self)
        ensures
            m.wf(),
            m.map() == Map::<Seq<char>, V::V>::empty(),
            m.keys() == Seq::<Seq<char>>::empty(),
    {
        let m = StrMap { entries: Vec::new() };
        assert(m.map() =~= Map::<Seq<char>, V::V>::empty());
        assert(m.keys() =~= Seq::<Seq<char>>::empty());
        m
    }

    /// The position of a key, if present.
    fn find(&self, key: &str) -> (r: Option<usize>)
        requires
            self.wf(),
        ensures
            match r {
                Some(i) => i < self.keys().len() && self.keys()[i as int] == key@,
                None => !self.keys().contains(key@),
            },
    {
        let mut i: usize = 0;
        while i < self.entries.len()
            invariant
                i <= self.entries@.len(),
                forall|j: int| 0 <= j < i ==> self.keys()[j] != key@,
            decreases self.entries@.len() - i,
        {
            if str_equal(self.entries[i].0.as_str(), key) {
                return Some(i);
            }
            i = i + 1;
        }
        None
    }

    /// The value under a key, if any.
    pub fn get(&self, key: &str) -> (r: Option<&V>)
        requires
            self.wf(),
        ensures
            match r {
                Some(v) => self.map().contains_key(key@) && v@ == self.map()[key@],
                None => !self.map().contains_key(key@),
            },
    {
        proof {
            self.lemma_map_entries();
        }
        match self.find(key) {
            Some(i) => Some(&self.entries[i].1),
            None => None,
        }
    }

    /// Whether a key is present.
    pub fn contains_key(&self, key: &str) -> (r: bool)
        requires
            self.wf(),
        ensures
            r == self.map().contains_key(key@),
    {
        proof {
            self.lemma_map_entries();
        }
        self.find(key).is_some()
    }

    /// Stores a value under a key: in place when the key is present, at the
    /// end otherwise.
    pub fn insert(&mut self, key: String, value: V)
        requires
            old(self).wf(),
        ensures
            final(self).wf(),
            final(self).map() == old(self).map().insert(key@, value@),
            final(self).keys() == (if old(self).keys().contains(key@) {
                old(self).keys()
            } else {
                old(self).keys().push(key@)
            }),
    {
        proof {
            self.lemma_map_entries();
        }
        match self.find(key.as_str()) {
            Some(i) => {
                let ghost k = key@;
                self.entries.set(i, (key, value));
                assert(self.keys() =~= old(self).keys());
                proof {
                    self.lemma_map_entries();
                    assert forall|j: int| 0 <= j < self.keys().len() && j != i implies self.values()[j]
                        == old(self).values()[j] by {}
                }
                assert(self.map() =~= old(self).map().insert(k, value@));
            },
            None => {
                let ghost k = key@;
                self.entries.push((key, value));
                assert(self.keys() =~= old(self).keys().push(k));
                assert(self.values() =~= old(self).values().push(value@));
                proof {
                    self.lemma_map_entries();
                    assert(self.keys()[self.keys().len() - 1] == k);
                    assert(self.map()[k] == value@);
                    assert forall|x: Seq<char>| #[trigger] self.map().contains_key(x) == (old(self).map().contains_key(x)
                        || x == k) by {
                        if old(self).keys().contains(x) {
                            let j = choose|j: int| 0 <= j < old(self).keys().len() && old(self).keys()[j] == x;
                            assert(self.keys()[j] == x);
                        }
                        if self.keys().contains(x) && x != k {
                            let j = choose|j: int| 0 <= j < self.keys().len() && self.keys()[j] == x;
                            assert(j < old(self).keys().len());
                            assert(old(self).keys()[j] == x);
                        }
                    }
                    assert forall|k2: Seq<char>| #[trigger] old(self).map().contains_key(k2) implies self.map()[k2]
                        == old(self).map()[k2] by {
                        let j = choose|j: int| 0 <= j < old(self).keys().len() && old(self).keys()[j] == k2;
                        assert(self.keys()[j] == k2);
                        assert(self.map()[self.keys()[j]] == self.values()[j]);
                        assert(old(self).map()[old(self).keys()[j]] == old(self).values()[j]);
                    }
                }
                assert(self.map() =~= old(self).map().insert(k, value@));
            },
        }
    }

    /// Takes the value under a key out; the other entries keep their order.
    pub fn remove(&mut self, key: &str) -> (r: Option<V>)
        requires
            old(self).wf(),
        ensures
            final(self).wf(),
            final(self).map() == old(self).map().remove(key@),
            match r {
                Some(v) => old(self).map().contains_key(key@) && v@ == old(self).map()[key@],
                None => !old(self).map().contains_key(key@),
            },
    {
        proof {
            self.lemma_map_entries();
        }
        match self.find(key) {
            Some(i) => {
                let ghost old_keys = self.keys();
                let ghost old_vals = self.values();
                let (_, v) = self.entries.remove(i);
                assert(self.keys() =~= old_keys.remove(i as int));
                assert(self.values() =~= old_vals.remove(i as int));
                assert(self.keys().no_duplicates()) by {
                    assert forall|a: int, b: int|
                        0 <= a < self.keys().len() && 0 <= b < self.keys().len() && a != b implies self.keys()[a]
                        != self.keys()[b] by {
                        let a2 = if a < i { a } else { a + 1 };
                        let b2 = if b < i { b } else { b + 1 };
                        assert(self.keys()[a] == old_keys[a2]);
                        assert(self.keys()[b] == old_keys[b2]);
                    }
                }
                proof {
                    self.lemma_map_entries();
                    assert forall|k: Seq<char>| #[trigger] self.map().contains_key(k) == old(self).map().remove(
                        key@,
                    ).contains_key(k) by {
                        if self.keys().contains(k) {
                            let j = choose|j: int| 0 <= j < self.keys().len() && self.keys()[j] == k;
                            let j2 = if j < i { j } else { j + 1 };
                            assert(old_keys[j2] == k);
                            assert(j2 != i);
                            assert(old_keys.contains(k));
                        }
                        if old_keys.contains(k) && k != key@ {
                            let j = choose|j: int| 0 <= j < old_keys.len() && old_keys[j] == k;
                            assert(j != i);
                            let j2 = if j < i { j } else { j - 1 };
                            assert(self.keys()[j2] == k);
                        }
                    }
                    assert forall|k: Seq<char>| #[trigger] self.map().contains_key(k) implies self.map()[k]
                        == old(self).map()[k] by {
                        let j = choose|j: int| 0 <= j < self.keys().len() && self.keys()[j] == k;
                        let j2 = if j < i { j } else { j + 1 };
                        assert(old_keys[j2] == k);
                        assert(self.map()[self.keys()[j]] == self.values()[j]);
                        assert(old(self).map()[old_keys[j2]] == old_vals[j2]);
                    }
                }
                assert(self.map() =~= old(self).map().remove(key@));
                Some(v)
            },
            None => {
                assert(self.map() =~= old(self).map().remove(key@));
                None
            },
        }
    }

    /// The number of entries.
    pub fn len(&self) -> (r: usize)
        requires
            self.wf(),
        ensures
            r == self.map().dom().len(),
    {
        proof {
            self.lemma_map_entries();
        }
        self.entries.len()
    }

    /// Removes every entry.
    pub fn clear(&mut self)
        ensures
            final(self).wf(),
            final(self).map() == Map::<Seq<char>, V::V>::empty(),
    {
        self.entries = Vec::new();
        assert(self.map() =~= Map::<Seq<char>, V::V>::empty());
    }

    /// References to the values, in list order.
    pub fn value_refs(&self) -> (r: Vec<&V>)
        requires
            self.wf(),
        ensures
            lists_str_values(r@.map_values(|v: &V| v@), self.map()),
    {
        proof {
            self.lemma_map_entries();
        }
        let mut out: Vec<&V> = Vec::new();
        let mut i: usize = 0;
        while i < self.entries.len()
            invariant
                i <= self.entries@.len(),
                out@.len() == i,
                forall|j: int| 0 <= j < i ==> out@[j]@ == self.values()[j],
            decreases self.entries@.len() - i,
        {
            out.push(&self.entries[i].1);
            i = i + 1;
        }
        assert(out@.map_values(|v: &V| v@) =~= self.values());
        assert(enumerates_str(self.keys(), self.map().dom()));
        out
    }

    /// References to the entries, in list order.
    pub fn entry_refs(&self) -> (r: Vec<(&String, &V)>)
        requires
            self.wf(),
        ensures
            r@.len() == self.keys().len(),
            forall|i: int| 0 <= i < r@.len() ==> #[trigger] r@[i].0@ == self.keys()[i],
            forall|i: int| 0 <= i < r@.len() ==> #[trigger] r@[i].1@ == self.map()[self.keys()[i]],
    {
        proof {
            self.lemma_map_entries();
        }
        let mut out: Vec<(&String, &V)> = Vec::new();
        let mut i: usize = 0;
        while i < self.entries.len()
            invariant
                i <= self.entries@.len(),
                self.keys().len() == self.entries@.len(),
                self.values().len() == self.entries@.len(),
                out@.len() == i,
                forall|j: int| 0 <= j < i ==> out@[j].0@ == self.keys()[j],
                forall|j: int| 0 <= j < i ==> out@[j].1@ == self.values()[j],
            decreases self.entries@.len() - i,
        {
            out.push((&self.entries[i].0, &self.entries[i].1));
            i = i + 1;
        }
        out
    }

    /// References to the keys, in list order.
    pub fn key_refs(&self) -> (r: Vec<&String>)
        requires
            self.wf(),
        ensures
            enumerates_str(r@.map_values(|k: &String| k@), self.map().dom()),
    {
        proof {
            self.lemma_map_entries();
        }
        let mut out: Vec<&String> = Vec::new();
        let mut i: usize = 0;
        while i < self.entries.len()
            invariant
                i <= self.entries@.len(),
                out@.len() == i,
                forall|j: int| 0 <= j < i ==> out@[j]@ == self.keys()[j],
            decreases self.entries@.len() - i,
        {
            out.push(&self.entries[i].0);
            i = i + 1;
        }
        assert(out@.map_values(|k: &String| k@) =~= self.keys());
        out
    }
}

/// Whether `ks` lists each key of `dom` exactly once.
pub open spec fn enumerates_str(ks: Seq<Seq<char>>, dom: Set<Seq<char>>) -> bool {
    &&& ks.no_duplicates()
    &&& forall|k: Seq<char>| #[trigger] dom.contains(k) <==> ks.contains(k)
}

/// Whether `v` lists the values of `m`, one per key, in some order of the keys.
pub open spec fn lists_str_values<W>(v: Seq<W>, m: Map<Seq<char>, W>) -> bool {
    exists|ks: Seq<Seq<char>>|
        {
            &&& enumerates_str(ks, m.dom())
            &&& ks.len() == v.len()
            &&& forall|i: int| 0 <= i < v.len() ==> v[i] == m[#[trigger] ks[i]]
        }
}

} // verus!
