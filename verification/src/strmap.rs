//! A map keyed by strings that remembers the order in which keys were first inserted.
//!
//! Its abstract value is a `Map` from the characters of each key to its value; the
//! order of the keys is available separately for code that walks the map.
use vstd::prelude::*;

verus! {

broadcast use vstd::seq_lib::group_seq_properties;

/// The characters of the key of an entry.
pub open spec fn entry_key<V>(e: (String, V)) -> Seq<char> {
    e.0@
}

/// A string-keyed map without duplicate keys.
#[derive(Debug)]
pub struct StrMap<V> {
    entries: Vec<(String, V)>,
}

impl<V> StrMap<V> {
    /// The keys in the order in which they are walked.
    pub closed spec fn key_seq(&self) -> Seq<Seq<char>> {
        self.entries@.map_values(|e: (String, V)| entry_key(e))
    }

    /// The values in the order in which they are walked.
    pub closed spec fn value_seq(&self) -> Seq<V> {
        self.entries@.map_values(|e: (String, V)| e.1)
    }

    /// No key occurs twice; every value of this type satisfies it.
    #[verifier::type_invariant]
    pub closed spec fn inv(&self) -> bool {
        self.key_seq().no_duplicates()
    }

    /// The map from keys to values.
    pub closed spec fn spec_map(&self) -> Map<Seq<char>, V> {
        Map::new(
            |k: Seq<char>| self.key_seq().contains(k),
            |k: Seq<char>| self.entries@[self.key_seq().index_of(k)].1,
        )
    }

    /// The keys are listed once each, and position `i` of the walk holds the value of the
    /// key found there.
    pub proof fn lemma_walk(&self)
        requires
            self.inv(),
        ensures
            self.key_seq().no_duplicates(),
            self.key_seq().len() == self.value_seq().len(),
            self.spec_map().dom() == self.key_seq().to_set(),
            self.spec_map().dom().finite(),
            self.spec_map().dom().len() == self.key_seq().len(),
            forall|i: int|
                0 <= i < self.key_seq().len() ==> #[trigger] self.spec_map()[self.key_seq()[i]]
                    == self.value_seq()[i],
    {
        let ks = self.key_seq();
        assert forall|i: int| 0 <= i < ks.len() implies #[trigger] self.spec_map()[ks[i]]
            == self.value_seq()[i] by {
            assert(ks.contains(ks[i]));
            let j = ks.index_of(ks[i]);
            assert(ks[j] == ks[i]);
        }
        assert(self.spec_map().dom() =~= ks.to_set());
        ks.unique_seq_to_set();
    }

    /// An empty map.
    pub fn new() -> (r: Self)
        ensures
            r.spec_map() == Map::<Seq<char>, V>::empty(),
            r.key_seq() == Seq::<Seq<char>>::empty(),
    {
        let r = StrMap { entries: Vec::new() };
        assert(r.spec_map() =~= Map::<Seq<char>, V>::empty());
        assert(r.key_seq() =~= Seq::<Seq<char>>::empty());
        r
    }

    /// The number of keys.
    pub fn len(&self) -> (r: usize)
        ensures
            r == self.key_seq().len(),
            r == self.spec_map().dom().len(),
    {
        proof {
            use_type_invariant(self);
            self.lemma_walk();
        }
        self.entries.len()
    }

    /// Whether the map holds no key.
    pub fn is_empty(&self) -> (r: bool)
        ensures
            r == (self.spec_map().dom().len() == 0),
            r == (self.key_seq().len() == 0),
    {
        proof {
            use_type_invariant(self);
            self.lemma_walk();
        }
        self.entries.len() == 0
    }

    /// The position of `key` in the walk, if it is present.
    fn position(&self, key: &str) -> (r: Option<usize>)
        ensures
            match r {
                Some(i) => i < self.key_seq().len() && self.key_seq()[i as int] == key@,
                None => !self.key_seq().contains(key@),
            },
    {
        let wanted = key.to_owned();
        let n = self.entries.len();
        let mut i: usize = 0;
        while i < n
            invariant
                n == self.entries@.len(),
                wanted@ == key@,
                i <= n,
                forall|j: int| 0 <= j < i ==> self.key_seq()[j] != key@,
            decreases n - i,
        {
            if self.entries[i].0 == wanted {
                return Some(i);
            }
            i = i + 1;
        }
        None
    }

    /// Whether `key` is present.
    pub fn contains_key(&self, key: &str) -> (r: bool)
        ensures
            r == self.spec_map().contains_key(key@),
    {
        self.position(key).is_some()
    }

    /// The value of `key`, if present.
    pub fn get(&self, key: &str) -> (r: Option<&V>)
        ensures
            match r {
                Some(v) => self.spec_map().contains_key(key@) && *v == self.spec_map()[key@],
                None => !self.spec_map().contains_key(key@),
            },
    {
        proof {
            use_type_invariant(self);
            self.lemma_walk();
        }
        match self.position(key) {
            Some(i) => {
                assert(self.spec_map()[self.key_seq()[i as int]] == self.value_seq()[i as int]);
                Some(&self.entries[i].1)
            },
            None => None,
        }
    }

    /// The key at position `i` of the walk.
    pub fn key_at(&self, i: usize) -> (r: &String)
        requires
            i < self.key_seq().len(),
        ensures
            r@ == self.key_seq()[i as int],
    {
        &self.entries[i].0
    }

    /// The value at position `i` of the walk.
    pub fn value_at(&self, i: usize) -> (r: &V)
        requires
            i < self.key_seq().len(),
        ensures
            *r == self.value_seq()[i as int],
            *r == self.spec_map()[self.key_seq()[i as int]],
    {
        proof {
            use_type_invariant(self);
            self.lemma_walk();
        }
        &self.entries[i].1
    }

    /// The keys, in the order of the walk.
    pub fn keys(&self) -> (r: Vec<String>)
        ensures
            r@.len() == self.key_seq().len(),
            forall|i: int| 0 <= i < r@.len() ==> #[trigger] r@[i]@ == self.key_seq()[i],
    {
        let n = self.entries.len();
        let mut out: Vec<String> = Vec::new();
        let mut i: usize = 0;
        while i < n
            invariant
                n == self.entries@.len(),
                i <= n,
                out@.len() == i,
                forall|j: int| 0 <= j < i ==> #[trigger] out@[j]@ == self.key_seq()[j],
            decreases n - i,
        {
            out.push(self.entries[i].0.clone());
            i = i + 1;
        }
        out
    }

    /// Sets the value of `key`; a new key is placed at the end of the walk, an existing one
    /// keeps its place.
    pub fn insert(&mut self, key: String, value: V)
        ensures
            final(self).spec_map() == old(self).spec_map().insert(key@, value),
            old(self).spec_map().contains_key(key@) ==> final(self).key_seq() == old(self).key_seq(),
            !old(self).spec_map().contains_key(key@) ==> final(self).key_seq() == old(self).key_seq().push(key@),
    {
        proof {
            use_type_invariant(&*self);
            self.lemma_walk();
        }
        let ghost old_keys = self.key_seq();
        let ghost old_map = self.spec_map();
        let ghost kv = key@;
        match self.position(key.as_str()) {
            Some(i) => {
                let mut entries = Vec::new();
                std::mem::swap(&mut entries, &mut self.entries);
                entries.set(i, (key, value));
                proof {
                    let ks = entries@.map_values(|e: (String, V)| entry_key(e));
                    assert(ks =~= old_keys);
                }
                self.entries = entries;
                proof {
                    assert(self.key_seq() =~= old_keys);
                }
            },
            None => {
                let mut entries = Vec::new();
                std::mem::swap(&mut entries, &mut self.entries);
                let ghost before = entries@;
                entries.push((key, value));
                proof {
                    let ks = entries@.map_values(|e: (String, V)| entry_key(e));
                    assert(ks =~= old_keys.push(kv));
                    assert forall|a: int, b: int|
                        0 <= a < b < ks.len() implies ks[a] != ks[b] by {
                        if b == old_keys.len() {
                            assert(old_keys.contains(old_keys[a]));
                        }
                    }
                }
                self.entries = entries;
            },
        }
        proof {
            self.lemma_walk();
            let m = self.spec_map();
            let expected = old_map.insert(kv, value);
            assert(m.dom() =~= expected.dom());
            assert forall|k: Seq<char>| m.dom().contains(k) implies m[k] == expected[k] by {
                let j = self.key_seq().index_of(k);
                assert(self.key_seq()[j] == k);
                assert(m[self.key_seq()[j]] == self.value_seq()[j]);
                if k != kv {
                    assert(old_keys[j] == k);
                    assert(old_map[old_keys[j]] == old(self).value_seq()[j]);
                }
            }
            assert(m =~= expected);
        }
    }

    /// Removes `key` and returns its value, if it was present; the other keys keep their
    /// order.
    pub fn remove(&mut self, key: &str) -> (r: Option<V>)
        ensures
            final(self).spec_map() == old(self).spec_map().remove(key@),
            match r {
                Some(v) => old(self).spec_map().contains_key(key@) && v == old(self).spec_map()[key@],
                None => !old(self).spec_map().contains_key(key@),
            },
            old(self).spec_map().contains_key(key@) ==> final(self).key_seq() == old(self).key_seq().remove(
                old(self).key_seq().index_of(key@),
            ),
            !old(self).spec_map().contains_key(key@) ==> final(self).key_seq() == old(self).key_seq(),
    {
        proof {
            use_type_invariant(&*self);
            self.lemma_walk();
        }
        let ghost old_keys = self.key_seq();
        let ghost old_map = self.spec_map();
        let ghost old_values = self.value_seq();
        match self.position(key) {
            Some(i) => {
                proof {
                    assert(old_keys.index_of(key@) == i);
                    assert(old_map[old_keys[i as int]] == old_values[i as int]);
                }
                let mut entries = Vec::new();
                std::mem::swap(&mut entries, &mut self.entries);
                let (_k, v) = entries.remove(i);
                proof {
                    let ks = entries@.map_values(|e: (String, V)| entry_key(e));
                    assert(ks =~= old_keys.remove(i as int));
                    assert forall|a: int, b: int|
                        0 <= a < b < ks.len() implies ks[a] != ks[b] by {
                        let oa = if a < i { a } else { a + 1 };
                        let ob = if b < i { b } else { b + 1 };
                        assert(ks[a] == old_keys[oa]);
                        assert(ks[b] == old_keys[ob]);
                    }
                }
                self.entries = entries;
                proof {
                    self.lemma_walk();
                    let m = self.spec_map();
                    let expected = old_map.remove(key@);
                    assert forall|k: Seq<char>| #![auto] expected.dom().contains(k) implies m.dom().contains(k) by {
                        let j = old_keys.index_of(k);
                        assert(old_keys[j] == k);
                        let nj = if j < i { j } else { j - 1 };
                        assert(self.key_seq()[nj] == k);
                    }
                    assert(m.dom() =~= expected.dom());
                    assert forall|k: Seq<char>| m.dom().contains(k) implies m[k] == expected[k] by {
                        let j = self.key_seq().index_of(k);
                        assert(self.key_seq()[j] == k);
                        assert(m[self.key_seq()[j]] == self.value_seq()[j]);
                        let oj = if j < i { j } else { j + 1 };
                        assert(old_keys[oj] == k);
                        assert(old_map[old_keys[oj]] == old_values[oj]);
                    }
                    assert(m =~= expected);
                }
                Some(v)
            },
            None => {
                proof {
                    assert(old_map.remove(key@) =~= old_map);
                }
                None
            },
        }
    }
}

} // verus!
