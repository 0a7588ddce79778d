//! A small map from string keys to values that keeps its entries in insertion order.
use vstd::prelude::*;
use crate::text::str_eq;

verus! {

/// A map from string keys to values; each key occurs at most once, and the entries keep
/// the order in which their keys were first inserted.
#[derive(Debug)]
pub struct KeyMap<V> {
    entries: Vec<(String, V)>,
}

impl<V> KeyMap<V> {
    #[verifier::type_invariant]
    spec fn unique_keys(self) -> bool {
        forall|i: int, j: int|
            0 <= i < self.entries.len() && 0 <= j < self.entries.len() && i != j
                ==> #[trigger] self.entries@[i].0@ != #[trigger] self.entries@[j].0@
    }

    spec fn holds(self, k: Seq<char>) -> bool {
        exists|i: int| 0 <= i < self.entries.len() && #[trigger] self.entries@[i].0@ == k
    }

    spec fn index_of(self, k: Seq<char>) -> int {
        choose|i: int| 0 <= i < self.entries.len() && #[trigger] self.entries@[i].0@ == k
    }

    /// The map from keys to values.
    pub closed spec fn map(self) -> Map<Seq<char>, V> {
        Map::new(|k: Seq<char>| self.holds(k), |k: Seq<char>| self.entries@[self.index_of(k)].1)
    }

    /// The keys, in insertion order.
    pub closed spec fn key_order(self) -> Seq<Seq<char>> {
        self.entries@.map_values(|e: (String, V)| e.0@)
    }

    proof fn lemma_entry(self, i: int)
        requires
            self.unique_keys(),
            0 <= i < self.entries.len(),
        ensures
            self.map().contains_key(self.entries@[i].0@),
            self.map()[self.entries@[i].0@] == self.entries@[i].1,
    {
        let k = self.entries@[i].0@;
        assert(self.holds(k));
        let c = self.index_of(k);
        assert(self.entries@[c].0@ == k);
    }

    proof fn lemma_key_order(self)
        requires
            self.unique_keys(),
        ensures
            forall|i: int, j: int|
                0 <= i < self.key_order().len() && 0 <= j < self.key_order().len() && i != j
                    ==> self.key_order()[i] != self.key_order()[j],
            forall|k: Seq<char>| self.map().contains_key(k) <==> self.key_order().contains(k),
    {
        assert forall|k: Seq<char>| self.map().contains_key(k) <==> self.key_order().contains(k) by {
            if self.holds(k) {
                let i = self.index_of(k);
                assert(self.key_order()[i] == k);
            }
            if self.key_order().contains(k) {
                let i = choose|i: int| 0 <= i < self.key_order().len() && self.key_order()[i] == k;
                assert(self.entries@[i].0@ == k);
            }
        }
        assert forall|i: int, j: int|
            0 <= i < self.key_order().len() && 0 <= j < self.key_order().len() && i != j
                implies self.key_order()[i] != self.key_order()[j] by {
            assert(self.entries@[i].0@ != self.entries@[j].0@);
        }
    }

    /// An empty map.
    pub fn new() -> (r: Self)
        ensures
            r.map() == Map::<Seq<char>, V>::empty(),
            r.key_order() == Seq::<Seq<char>>::empty(),
    {
        let r = KeyMap { entries: Vec::new() };
        assert(r.map() =~= Map::<Seq<char>, V>::empty());
        assert(r.key_order() =~= Seq::<Seq<char>>::empty());
        r
    }

    fn position(&self, key: &str) -> (r: Option<usize>)
        ensures
            match r {
                Some(i) => i < self.entries.len() && self.entries@[i as int].0@ == key@,
                None => !self.holds(key@),
            },
    {
        let mut i: usize = 0;
        while i < self.entries.len()
            invariant
                i <= self.entries.len(),
                forall|j: int| 0 <= j < i ==> self.entries@[j].0@ != key@,
            decreases self.entries.len() - i,
        {
            if str_eq(self.entries[i].0.as_str(), key) {
                return Some(i);
            }
            i = i + 1;
        }
        None
    }

    /// The value of a key.
    pub fn get(&self, key: &str) -> (r: Option<&V>)
        ensures
            match r {
                Some(v) => self.map().contains_key(key@) && self.map()[key@] == *v,
                None => !self.map().contains_key(key@),
            },
    {
        proof {
            use_type_invariant(self);
        }
        match self.position(key) {
            Some(i) => {
                proof {
                    self.lemma_entry(i as int);
                }
                Some(&self.entries[i].1)
            },
            None => None,
        }
    }

    /// Whether the key has a value.
    pub fn contains_key(&self, key: &str) -> (r: bool)
        ensures
            r == self.map().contains_key(key@),
    {
        proof {
            use_type_invariant(self);
        }
        match self.position(key) {
            Some(i) => {
                proof {
                    self.lemma_entry(i as int);
                }
                true
            },
            None => false,
        }
    }

    /// Whether the map has no entry.
    pub fn is_empty(&self) -> (r: bool)
        ensures
            r == (self.map() == Map::<Seq<char>, V>::empty()),
    {
        proof {
            use_type_invariant(self);
        }
        if self.entries.len() == 0 {
            assert(self.map() =~= Map::<Seq<char>, V>::empty());
            true
        } else {
            proof {
                self.lemma_entry(0);
                assert(!Map::<Seq<char>, V>::empty().contains_key(self.entries@[0].0@));
            }
            false
        }
    }

    /// The number of entries; the keys of the insertion order occur once each and are
    /// exactly the keys of the map.
    pub fn len(&self) -> (r: usize)
        ensures
            r == self.key_order().len(),
            forall|i: int, j: int|
                0 <= i < self.key_order().len() && 0 <= j < self.key_order().len() && i != j
                    ==> self.key_order()[i] != self.key_order()[j],
            forall|k: Seq<char>| self.map().contains_key(k) <==> self.key_order().contains(k),
    {
        proof {
            use_type_invariant(self);
            self.lemma_key_order();
        }
        self.entries.len()
    }

    /// The key and value of the entry at a position of the insertion order.
    pub fn entry_at(&self, i: usize) -> (r: (&String, &V))
        requires
            i < self.key_order().len(),
        ensures
            r.0@ == self.key_order()[i as int],
            self.map().contains_key(r.0@),
            self.map()[r.0@] == *r.1,
    {
        proof {
            use_type_invariant(self);
            self.lemma_entry(i as int);
        }
        (&self.entries[i].0, &self.entries[i].1)
    }

    /// Sets the value of a key, replacing an earlier one in place; a new key goes last.
    pub fn insert(&mut self, key: String, value: V)
        ensures
            final(self).map() == old(self).map().insert(key@, value),
            old(self).map().contains_key(key@) ==> final(self).key_order() == old(self).key_order(),
            !old(self).map().contains_key(key@) ==> final(self).key_order() == old(self).key_order().push(key@),
    {
        proof {
            use_type_invariant(&*self);
        }
        let ghost k = key@;
        let ghost before = *self;
        match self.position(key.as_str()) {
            Some(i) => {
                proof {
                    before.lemma_entry(i as int);
                }
                let mut es: Vec<(String, V)> = Vec::new();
                std::mem::swap(&mut es, &mut self.entries);
                es.set(i, (key, value));
                proof {
                    assert forall|a: int, b: int|
                        0 <= a < es.len() && 0 <= b < es.len() && a != b implies #[trigger] es@[a].0@ != #[trigger] es@[b].0@ by {
                        if a != i as int && b != i as int {
                            assert(before.entries@[a].0@ != before.entries@[b].0@);
                        } else if a == i as int {
                            assert(before.entries@[b].0@ != before.entries@[i as int].0@);
                        } else {
                            assert(before.entries@[a].0@ != before.entries@[i as int].0@);
                        }
                    }
                }
                self.entries = es;
                proof {
                    let after = *self;
                    assert forall|x: Seq<char>| after.map().contains_key(x) == before.map().insert(k, value).contains_key(x) by {
                        if before.holds(x) {
                            let j = choose|j: int| 0 <= j < before.entries.len() && #[trigger] before.entries@[j].0@ == x;
                            assert(after.entries@[j].0@ == x);
                        }
                        if after.holds(x) {
                            let j = choose|j: int| 0 <= j < after.entries.len() && #[trigger] after.entries@[j].0@ == x;
                            if j != i {
                                assert(before.entries@[j].0@ == x);
                            }
                        }
                    }
                    assert forall|x: Seq<char>| #[trigger] after.map().contains_key(x) implies after.map()[x] == before.map().insert(k, value)[x] by {
                        let j = choose|j: int| 0 <= j < after.entries.len() && #[trigger] after.entries@[j].0@ == x;
                        after.lemma_entry(j);
                        if j != i {
                            assert(before.entries@[j].0@ == x);
                            before.lemma_entry(j);
                        }
                    }
                    assert(after.map() =~= before.map().insert(k, value));
                    assert(after.key_order() =~= before.key_order());
                }
            },
            None => {
                let mut es: Vec<(String, V)> = Vec::new();
                std::mem::swap(&mut es, &mut self.entries);
                es.push((key, value));
                proof {
                    assert forall|a: int, b: int|
                        0 <= a < es.len() && 0 <= b < es.len() && a != b implies #[trigger] es@[a].0@ != #[trigger] es@[b].0@ by {
                        let n = before.entries.len() as int;
                        if a != n && b != n {
                            assert(before.entries@[a].0@ != before.entries@[b].0@);
                        } else if a == n {
                            assert(before.entries@[b].0@ != k);
                        } else {
                            assert(before.entries@[a].0@ != k);
                        }
                    }
                }
                self.entries = es;
                proof {
                    let after = *self;
                    let n = before.entries.len() as int;
                    assert(after.entries@[n].0@ == k);
                    assert forall|x: Seq<char>| after.map().contains_key(x) == before.map().insert(k, value).contains_key(x) by {
                        if before.holds(x) {
                            let j = choose|j: int| 0 <= j < before.entries.len() && #[trigger] before.entries@[j].0@ == x;
                            assert(after.entries@[j].0@ == x);
                        }
                        if after.holds(x) {
                            let j = choose|j: int| 0 <= j < after.entries.len() && #[trigger] after.entries@[j].0@ == x;
                            if j != n {
                                assert(before.entries@[j].0@ == x);
                            }
                        }
                    }
                    assert forall|x: Seq<char>| #[trigger] after.map().contains_key(x) implies after.map()[x] == before.map().insert(k, value)[x] by {
                        let j = choose|j: int| 0 <= j < after.entries.len() && #[trigger] after.entries@[j].0@ == x;
                        after.lemma_entry(j);
                        if j != n {
                            assert(before.entries@[j].0@ == x);
                            before.lemma_entry(j);
                        }
                    }
                    assert(after.map() =~= before.map().insert(k, value));
                    assert(after.key_order() =~= before.key_order().push(k));
                }
            },
        }
    }

    /// Removes a key; returns its value, if it had one.
    pub fn remove(&mut self, key: &str) -> (r: Option<V>)
        ensures
            final(self).map() == old(self).map().remove(key@),
            match r {
                Some(v) => old(self).map().contains_key(key@) && old(self).map()[key@] == v,
                None => !old(self).map().contains_key(key@),
            },
    {
        proof {
            use_type_invariant(&*self);
        }
        let ghost k = key@;
        let ghost before = *self;
        match self.position(key) {
            Some(i) => {
                proof {
                    before.lemma_entry(i as int);
                }
                let mut es: Vec<(String, V)> = Vec::new();
                std::mem::swap(&mut es, &mut self.entries);
                let (_, v) = es.remove(i);
                proof {
                    assert forall|a: int, b: int|
                        0 <= a < es.len() && 0 <= b < es.len() && a != b implies #[trigger] es@[a].0@ != #[trigger] es@[b].0@ by {
                        let a2 = if a < i { a } else { a + 1 };
                        let b2 = if b < i { b } else { b + 1 };
                        assert(es@[a] == before.entries@[a2]);
                        assert(es@[b] == before.entries@[b2]);
                        assert(before.entries@[a2].0@ != before.entries@[b2].0@);
                    }
                }
                self.entries = es;
                proof {
                    let after = *self;
                    assert forall|x: Seq<char>| after.map().contains_key(x) == before.map().remove(k).contains_key(x) by {
                        if before.holds(x) && x != k {
                            let j = choose|j: int| 0 <= j < before.entries.len() && #[trigger] before.entries@[j].0@ == x;
                            assert(j != i);
                            let j2 = if j < i { j } else { j - 1 };
                            assert(after.entries@[j2] == before.entries@[j]);
                        }
                        if after.holds(x) {
                            let j = choose|j: int| 0 <= j < after.entries.len() && #[trigger] after.entries@[j].0@ == x;
                            let j2 = if j < i { j } else { j + 1 };
                            assert(after.entries@[j] == before.entries@[j2]);
                            assert(j2 != i);
                            assert(before.entries@[j2].0@ != before.entries@[i as int].0@);
                        }
                    }
                    assert forall|x: Seq<char>| #[trigger] after.map().contains_key(x) implies after.map()[x] == before.map().remove(k)[x] by {
                        let j = choose|j: int| 0 <= j < after.entries.len() && #[trigger] after.entries@[j].0@ == x;
                        after.lemma_entry(j);
                        let j2 = if j < i { j } else { j + 1 };
                        assert(after.entries@[j] == before.entries@[j2]);
                        before.lemma_entry(j2);
                    }
                    assert(after.map() =~= before.map().remove(k));
                }
                Some(v)
            },
            None => {
                proof {
                    assert(self.map() =~= before.map().remove(k));
                }
                None
            },
        }
    }
}

} // verus!
