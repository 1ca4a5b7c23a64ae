//! A string-keyed map that keeps its entries in insertion order.
//!
//! The gateway keys most of its state by platform or service name. This map
//! stores the keys and values side by side, so that the values can also be
//! walked in a fixed order (for counts and listings).

use vstd::prelude::*;

verus! {

/// The position of `k` in `s`, when `s` has no duplicates and holds `k`.
pub proof fn lemma_index_of_unique<A>(s: Seq<A>, i: int)
    requires
        s.no_duplicates(),
        0 <= i < s.len(),
    ensures
        s.index_of(s[i]) == i,
        s.contains(s[i]),
{
    assert(s.contains(s[i]));
}

/// Map from strings to values; `keys` and `vals` are parallel.
#[derive(Debug)]
pub struct StrMap<V> {
    keys: Vec<String>,
    vals: Vec<V>,
}

impl<V> StrMap<V> {
    /// The keys, as character sequences, in map order.
    pub closed spec fn key_seq(&self) -> Seq<Seq<char>> {
        self.keys@.map_values(|s: String| s@)
    }

    /// The values, in map order (parallel to `key_seq`).
    pub closed spec fn val_seq(&self) -> Seq<V> {
        self.vals@
    }

    /// Internal consistency: one value per key, no key twice.
    pub closed spec fn wf(&self) -> bool {
        &&& self.keys@.len() == self.vals@.len()
        &&& self.key_seq().no_duplicates()
    }

    /// The abstract map.
    pub open spec fn view(&self) -> Map<Seq<char>, V> {
        Map::new(
            |k: Seq<char>| self.key_seq().contains(k),
            |k: Seq<char>| self.val_seq()[self.key_seq().index_of(k)],
        )
    }

    /// Facts that tie the ordered sequences to the abstract map.
    pub proof fn lemma_view(&self)
        requires
            self.wf(),
        ensures
            self.key_seq().len() == self.val_seq().len(),
            self.key_seq().no_duplicates(),
            forall|i: int|
                0 <= i < self.key_seq().len() ==> #[trigger] self.view()[self.key_seq()[i]]
                    == self.val_seq()[i] && self.view().contains_key(self.key_seq()[i]),
            self.view().dom() == self.key_seq().to_set(),
            self.view().dom().finite(),
            self.view().len() == self.key_seq().len(),
    {
        assert forall|i: int| 0 <= i < self.key_seq().len() implies #[trigger] self.view()[
            self.key_seq()[i]] == self.val_seq()[i] && self.view().contains_key(
            self.key_seq()[i],
        ) by {
            lemma_index_of_unique(self.key_seq(), i);
        }
        assert(self.view().dom() =~= self.key_seq().to_set());
        self.key_seq().unique_seq_to_set();
    }

    /// An empty map.
    pub fn new() -> (m: Self)
        ensures
            m.wf(),
            m.key_seq() == Seq::<Seq<char>>::empty(),
            m.val_seq() == Seq::<V>::empty(),
            m@ == Map::<Seq<char>, V>::empty(),
    {
        let m = StrMap { keys: Vec::new(), vals: Vec::new() };
        assert(m.key_seq() =~= Seq::<Seq<char>>::empty());
        assert(m@ =~= Map::<Seq<char>, V>::empty());
        m
    }

    /// Number of entries.
    pub fn len(&self) -> (n: usize)
        requires
            self.wf(),
        ensures
            n == self.key_seq().len(),
            n == self@.len(),
    {
        proof {
            self.lemma_view();
        }
        self.keys.len()
    }

    /// Whether the map has no entry.
    pub fn is_empty(&self) -> (b: bool)
        requires
            self.wf(),
        ensures
            b == (self@.len() == 0),
            b == (self.key_seq().len() == 0),
    {
        proof {
            self.lemma_view();
        }
        self.keys.len() == 0
    }

    /// Position of `k` among the keys.
    pub fn find(&self, k: &str) -> (r: Option<usize>)
        requires
            self.wf(),
        ensures
            match r {
                Some(i) => i < self.key_seq().len() && self.key_seq()[i as int] == k@,
                None => !self.key_seq().contains(k@),
            },
    {
        let key = k.to_owned();
        let mut i: usize = 0;
        while i < self.keys.len()
            invariant
                self.wf(),
                key@ == k@,
                i <= self.keys@.len(),
                forall|j: int| 0 <= j < i ==> self.key_seq()[j] != k@,
            decreases self.keys.len() - i,
        {
            if self.keys[i] == key {
                return Some(i);
            }
            i = i + 1;
        }
        None
    }

    /// Whether `k` is a key.
    pub fn contains_key(&self, k: &str) -> (b: bool)
        requires
            self.wf(),
        ensures
            b == self@.contains_key(k@),
    {
        self.find(k).is_some()
    }

    /// The value stored under `k`.
    pub fn get(&self, k: &str) -> (r: Option<&V>)
        requires
            self.wf(),
        ensures
            match r {
                Some(v) => self@.contains_key(k@) && *v == self@[k@],
                None => !self@.contains_key(k@),
            },
    {
        proof {
            self.lemma_view();
        }
        match self.find(k) {
            Some(i) => Some(&self.vals[i]),
            None => None,
        }
    }

    /// The key at a position.
    pub fn key_at(&self, i: usize) -> (k: &String)
        requires
            self.wf(),
            i < self.key_seq().len(),
        ensures
            k@ == self.key_seq()[i as int],
    {
        &self.keys[i]
    }

    /// The value at a position.
    pub fn value_at(&self, i: usize) -> (v: &V)
        requires
            self.wf(),
            i < self.key_seq().len(),
        ensures
            *v == self.val_seq()[i as int],
    {
        &self.vals[i]
    }

    /// Mutable access to the value at a position; keys do not change.
    pub fn value_at_mut(&mut self, i: usize) -> (v: &mut V)
        requires
            old(self).wf(),
            i < old(self).key_seq().len(),
        ensures
            *v == old(self).val_seq()[i as int],
            final(self).key_seq() == old(self).key_seq(),
            final(self).val_seq() == old(self).val_seq().update(i as int, *final(v)),
            final(self).wf(),
    {
        &mut self.vals[i]
    }

    /// Replacing the value at one position replaces it under that key.
    pub proof fn lemma_update_at(old_m: Self, new_m: Self, i: int)
        requires
            old_m.wf(),
            0 <= i < old_m.key_seq().len(),
            new_m.key_seq() == old_m.key_seq(),
            new_m.val_seq() == old_m.val_seq().update(i, new_m.val_seq()[i]),
        ensures
            new_m.wf(),
            new_m@ == old_m@.insert(old_m.key_seq()[i], new_m.val_seq()[i]),
    {
        old_m.lemma_view();
        assert(new_m.keys@.len() == new_m.key_seq().len());
        new_m.lemma_view();
        lemma_index_of_unique(old_m.key_seq(), i);
        assert forall|x: Seq<char>| #[trigger] new_m@.contains_key(x) implies new_m@[x]
            == old_m@.insert(old_m.key_seq()[i], new_m.val_seq()[i])[x] by {
            let j = new_m.key_seq().index_of(x);
            lemma_index_of_unique(old_m.key_seq(), j);
        }
        assert(new_m@ =~= old_m@.insert(old_m.key_seq()[i], new_m.val_seq()[i]));
    }

    /// Inserts or replaces the value under `k`. A new key goes last; an
    /// existing key keeps its position.
    pub fn insert(&mut self, k: String, v: V)
        requires
            old(self).wf(),
        ensures
            final(self).wf(),
            final(self)@ == old(self)@.insert(k@, v),
            old(self).key_seq().contains(k@) ==> final(self).key_seq() == old(self).key_seq(),
            !old(self).key_seq().contains(k@) ==> final(self).key_seq() == old(self).key_seq().push(k@),
            !old(self).key_seq().contains(k@) ==> final(self).val_seq() == old(self).val_seq().push(v),
    {
        proof {
            self.lemma_view();
        }
        match self.find(k.as_str()) {
            Some(i) => {
                self.vals.set(i, v);
                proof {
                    self.lemma_view();
                    assert(self@ =~= old(self)@.insert(k@, v));
                }
            },
            None => {
                let ghost ks = self.key_seq();
                self.keys.push(k);
                self.vals.push(v);
                proof {
                    assert(self.key_seq() =~= ks.push(k@));
                    assert(self.key_seq().no_duplicates());
                    self.lemma_view();
                    assert forall|x: Seq<char>| #[trigger] self@.contains_key(x)
                        == old(self)@.insert(k@, v).contains_key(x) by {
                        if x == k@ {
                            assert(self.key_seq()[ks.len() as int] == k@);
                        }
                        if x != k@ && self@.contains_key(x) {
                            let j = self.key_seq().index_of(x);
                            assert(self.key_seq()[j] == x);
                            assert(j < ks.len());
                            assert(ks[j] == x);
                        }
                        if x != k@ && old(self)@.contains_key(x) {
                            let j = ks.index_of(x);
                            assert(self.key_seq()[j] == x);
                        }
                    }
                    assert forall|x: Seq<char>| #[trigger] self@.contains_key(x) implies self@[x]
                        == old(self)@.insert(k@, v)[x] by {
                        if x != k@ {
                            let j = self.key_seq().index_of(x);
                            assert(self.key_seq()[j] == x);
                            assert(j < ks.len());
                            assert(ks[j] == x);
                            lemma_index_of_unique(ks, j);
                        }
                    }
                    assert(self@ =~= old(self)@.insert(k@, v));
                }
            },
        }
    }

    /// Removes the entry under `k`, giving back its value. The other entries
    /// keep their order.
    pub fn remove(&mut self, k: &str) -> (r: Option<V>)
        requires
            old(self).wf(),
        ensures
            final(self).wf(),
            final(self)@ == old(self)@.remove(k@),
            match r {
                Some(v) => old(self)@.contains_key(k@) && v == old(self)@[k@],
                None => !old(self)@.contains_key(k@) && final(self).key_seq() == old(self).key_seq()
                    && final(self).val_seq() == old(self).val_seq(),
            },
    {
        proof {
            self.lemma_view();
        }
        match self.find(k) {
            Some(i) => {
                let ghost ks = self.key_seq();
                let ghost vs = self.val_seq();
                self.keys.remove(i);
                let v = self.vals.remove(i);
                proof {
                    assert(self.key_seq() =~= ks.remove(i as int));
                    assert(self.val_seq() =~= vs.remove(i as int));
                    assert(self.key_seq().no_duplicates()) by {
                        assert forall|a: int, b: int|
                            0 <= a < self.key_seq().len() && 0 <= b < self.key_seq().len() && a
                                != b implies self.key_seq()[a] != self.key_seq()[b] by {
                            let a2 = if a < i { a } else { a + 1 };
                            let b2 = if b < i { b } else { b + 1 };
                            assert(self.key_seq()[a] == ks[a2]);
                            assert(self.key_seq()[b] == ks[b2]);
                        }
                    }
                    self.lemma_view();
                    assert forall|x: Seq<char>| #[trigger] self@.contains_key(x)
                        == old(self)@.remove(k@).contains_key(x) by {
                        if self@.contains_key(x) {
                            let j = self.key_seq().index_of(x);
                            let j2 = if j < i { j } else { j + 1 };
                            assert(ks[j2] == x);
                            assert(j2 != i);
                        }
                        if x != k@ && old(self)@.contains_key(x) {
                            let j = ks.index_of(x);
                            assert(j != i);
                            let j2 = if j < i { j } else { j - 1 };
                            assert(self.key_seq()[j2] == x);
                        }
                    }
                    assert forall|x: Seq<char>| #[trigger] self@.contains_key(x) implies self@[x]
                        == old(self)@.remove(k@)[x] by {
                        let j = self.key_seq().index_of(x);
                        let j2 = if j < i { j } else { j + 1 };
                        assert(ks[j2] == x);
                        lemma_index_of_unique(ks, j2);
                        lemma_index_of_unique(self.key_seq(), j);
                    }
                    assert(self@ =~= old(self)@.remove(k@));
                    lemma_index_of_unique(ks, i as int);
                }
                Some(v)
            },
            None => {
                proof {
                    assert(self@ =~= old(self)@.remove(k@));
                }
                None
            },
        }
    }

    /// Removes every entry.
    pub fn clear(&mut self)
        requires
            old(self).wf(),
        ensures
            final(self).wf(),
            final(self)@ == Map::<Seq<char>, V>::empty(),
            final(self).key_seq() == Seq::<Seq<char>>::empty(),
            final(self).val_seq() == Seq::<V>::empty(),
    {
        self.keys.clear();
        self.vals.clear();
        proof {
            assert(self.key_seq() =~= Seq::<Seq<char>>::empty());
            assert(self@ =~= Map::<Seq<char>, V>::empty());
        }
    }
}

} // verus!
