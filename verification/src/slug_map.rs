//! A map from slugs to values that remembers the order in which slugs were
//! first inserted.
use vstd::prelude::*;

verus! {

/// A map keyed by slug. Each slug occurs once; an insert with a slug that is
/// already present replaces its value and keeps its place.
pub struct SlugMap<V> {
    keys: Vec<String>,
    values: Vec<V>,
}

impl<V> View for SlugMap<V> {
    type V = Map<Seq<char>, V>;

    /// The map itself: each slug of `key_seq` to the value at its place.
    closed spec fn view(&self) -> Map<Seq<char>, V> {
        Map::new(
            |k: Seq<char>| self.key_seq().contains(k),
            |k: Seq<char>| self.value_seq()[self.key_seq().index_of(k)],
        )
    }
}

impl<V> SlugMap<V> {
    /// The slugs, in the order they were first inserted.
    pub closed spec fn key_seq(&self) -> Seq<Seq<char>> {
        self.keys@.map_values(|k: String| k@)
    }

    /// The values, in the order of `key_seq`.
    pub closed spec fn value_seq(&self) -> Seq<V> {
        self.values@
    }

    /// Slugs and values pair up one to one, and no slug occurs twice. Every
    /// map that exists satisfies it.
    #[verifier::type_invariant]
    pub closed spec fn wf(&self) -> bool {
        &&& self.keys.len() == self.values.len()
        &&& self.key_seq().no_duplicates()
    }

    /// Slugs and values pair up one to one, no slug occurs twice, and the map
    /// is read off the two sequences.
    pub proof fn lemma_shape(&self)
        requires
            self.wf(),
        ensures
            self.key_seq().len() == self.value_seq().len(),
            self.key_seq().no_duplicates(),
            forall|k: Seq<char>| #[trigger]
                self@.contains_key(k) <==> self.key_seq().contains(k),
            forall|i: int|
                0 <= i < self.key_seq().len() ==> #[trigger] self@[self.key_seq()[i]]
                    == self.value_seq()[i],
    {
        assert forall|i: int| 0 <= i < self.key_seq().len() implies #[trigger] self@[self.key_seq()[i]]
            == self.value_seq()[i] by {
            let k = self.key_seq()[i];
            assert(self.key_seq().contains(k));
            let j = self.key_seq().index_of(k);
            assert(self.key_seq()[j] == k);
        }
    }

    /// An empty map.
    pub fn new() -> (r: Self)
        ensures
            r.key_seq() == Seq::<Seq<char>>::empty(),
            r.value_seq() == Seq::<V>::empty(),
            r@ == Map::<Seq<char>, V>::empty(),
    {
        let r = SlugMap { keys: Vec::new(), values: Vec::new() };
        assert(r.key_seq() =~= Seq::<Seq<char>>::empty());
        assert(r@ =~= Map::<Seq<char>, V>::empty());
        r
    }

    /// The number of slugs.
    pub fn len(&self) -> (r: usize)
        ensures
            r == self.key_seq().len(),
            r == self.value_seq().len(),
            self.wf(),
            self.key_seq().no_duplicates(),
            forall|k: Seq<char>| #[trigger]
                self@.contains_key(k) <==> self.key_seq().contains(k),
    {
        proof {
            use_type_invariant(self);
            self.lemma_shape();
        }
        self.keys.len()
    }

    /// The slug at place `i`.
    pub fn key_at(&self, i: usize) -> (r: &String)
        requires
            i < self.key_seq().len(),
        ensures
            r@ == self.key_seq()[i as int],
    {
        proof {
            use_type_invariant(self);
        }
        &self.keys[i]
    }

    /// The value at place `i`.
    pub fn value_at(&self, i: usize) -> (r: &V)
        requires
            i < self.key_seq().len(),
        ensures
            *r == self.value_seq()[i as int],
            self@.contains_key(self.key_seq()[i as int]),
            self@[self.key_seq()[i as int]] == *r,
    {
        proof {
            use_type_invariant(self);
            self.lemma_shape();
        }
        &self.values[i]
    }

    /// The place of `key`, if it is present.
    pub fn position(&self, key: &str) -> (r: Option<usize>)
        ensures
            match r {
                Some(i) => i < self.key_seq().len() && self.key_seq()[i as int] == key@,
                None => !self.key_seq().contains(key@),
            },
    {
        proof {
            use_type_invariant(self);
        }
        let k = key.to_owned();
        let n = self.keys.len();
        let mut i: usize = 0;
        while i < n
            invariant
                n == self.keys.len(),
                k@ == key@,
                i <= n,
                forall|j: int| 0 <= j < i ==> self.key_seq()[j] != key@,
            decreases n - i,
        {
            if self.keys[i] == k {
                return Some(i);
            }
            i = i + 1;
        }
        None
    }

    /// The value of `key`, if it is present.
    pub fn get(&self, key: &str) -> (r: Option<&V>)
        ensures
            match r {
                Some(v) => self@.contains_key(key@) && *v == self@[key@],
                None => !self@.contains_key(key@),
            },
    {
        proof {
            use_type_invariant(self);
            self.lemma_shape();
        }
        match self.position(key) {
            Some(i) => Some(self.value_at(i)),
            None => None,
        }
    }

    /// Whether `key` is present.
    pub fn contains_key(&self, key: &str) -> (r: bool)
        ensures
            r == self@.contains_key(key@),
    {
        proof {
            use_type_invariant(self);
            self.lemma_shape();
        }
        self.position(key).is_some()
    }

    /// Maps `key` to `value`: a present slug keeps its place and gets the new
    /// value, a new slug goes last.
    pub fn insert(&mut self, key: String, value: V)
        ensures
            final(self)@ == old(self)@.insert(key@, value),
            old(self).key_seq().contains(key@) ==> {
                &&& final(self).key_seq() == old(self).key_seq()
                &&& final(self).value_seq() == old(self).value_seq().update(
                    old(self).key_seq().index_of(key@),
                    value,
                )
            },
            !old(self).key_seq().contains(key@) ==> {
                &&& final(self).key_seq() == old(self).key_seq().push(key@)
                &&& final(self).value_seq() == old(self).value_seq().push(value)
            },
    {
        proof {
            use_type_invariant(&*self);
        }
        let ghost ks = self.key_seq();
        let ghost vs = self.value_seq();
        let ghost m = self@;
        let found = self.position(key.as_str());
        let mut taken = SlugMap::new();
        std::mem::swap(&mut taken, self);
        let SlugMap { mut keys, mut values } = taken;
        match found {
            Some(i) => {
                proof {
                    assert(ks.index_of(key@) == i) by {
                        let j = ks.index_of(key@);
                        assert(ks.contains(key@));
                        assert(ks[j] == key@);
                    }
                }
                values.set(i, value);
                let r = SlugMap { keys, values };
                proof {
                    assert(r.key_seq() =~= ks);
                    assert(r@ =~= m.insert(key@, value)) by {
                        assert forall|k: Seq<char>| ks.contains(k) implies #[trigger] r@[k]
                            == m.insert(key@, value)[k] by {
                            let j = ks.index_of(k);
                            assert(ks[j] == k);
                            if k != key@ {
                                assert(j != i);
                            }
                        }
                    }
                }
                *self = r;
            },
            None => {
                let ghost kv = key@;
                keys.push(key);
                values.push(value);
                proof {
                    let nks = keys@.map_values(|k: String| k@);
                    assert(nks =~= ks.push(kv));
                    assert forall|a: int, b: int| 0 <= a < b < nks.len() implies nks[a] != nks[b] by {
                        if b == ks.len() {
                            assert(nks[a] == ks[a]);
                        }
                    }
                }
                let r = SlugMap { keys, values };
                proof {
                    let nks = r.key_seq();
                    assert(nks =~= ks.push(kv));
                    assert(r.value_seq() =~= vs.push(value));
                    assert forall|k: Seq<char>| #[trigger] nks.contains(k) <==> (ks.contains(k)
                        || k == kv) by {
                        if ks.contains(k) {
                            let j = choose|j: int| 0 <= j < ks.len() && ks[j] == k;
                            assert(nks[j] == k);
                        }
                        if k == kv {
                            assert(nks[ks.len() as int] == kv);
                        }
                    }
                    assert(r@ =~= m.insert(kv, value)) by {
                        assert forall|k: Seq<char>| nks.contains(k) implies #[trigger] r@[k]
                            == m.insert(kv, value)[k] by {
                            let j = nks.index_of(k);
                            assert(nks[j] == k);
                            if k == kv {
                                assert(j == ks.len());
                            } else {
                                assert(j < ks.len());
                                assert(ks.contains(k));
                                let j2 = ks.index_of(k);
                                assert(ks[j2] == k);
                                assert(nks[j2] == k);
                            }
                        }
                    }
                }
                *self = r;
            },
        }
    }
}

} // verus!
