//! A small verified map kept as a vector of unique keys.
use vstd::prelude::*;

verus! {

/// A key that can be compared at run time as its view is compared in specs.
pub trait TableKey: View + Sized {
    fn same(&self, other: &Self) -> (r: bool)
        ensures
            r == (self@ == other@);

    fn duplicate(&self) -> (r: Self)
        ensures
            r@ == self@;
}

impl TableKey for String {
    fn same(&self, other: &Self) -> (r: bool) {
        *self == *other
    }

    fn duplicate(&self) -> (r: Self) {
        self.clone()
    }
}

/// A small map from keys to values, kept as a vector of unique keys.
pub struct Table<K, V> {
    entries: Vec<(K, V)>,
}

impl<K: TableKey, V> Table<K, V> {
    pub closed spec fn keys(self) -> Seq<K::V> {
        self.entries@.map_values(|e: (K, V)| e.0@)
    }

    /// Number of entries.
    pub closed spec fn size(self) -> nat {
        self.entries@.len()
    }

    /// The key of the entry at `i`.
    pub closed spec fn key_at(self, i: int) -> K::V {
        self.entries@[i].0@
    }

    pub closed spec fn wf(self) -> bool {
        self.keys().no_duplicates()
    }

    /// The table as a map.
    pub closed spec fn map(self) -> Map<K::V, V> {
        Map::new(
            |k: K::V| exists|i: int| 0 <= i < self.entries@.len() && self.entries@[i].0@ == k,
            |k: K::V|
                self.entries@[choose|i: int| 0 <= i < self.entries@.len() && self.entries@[i].0@ == k].1,
        )
    }

    proof fn lemma_lookup(self, i: int)
        requires
            self.wf(),
            0 <= i < self.entries@.len(),
        ensures
            self.map().contains_key(self.entries@[i].0@),
            self.map()[self.entries@[i].0@] == self.entries@[i].1,
    {
        let k = self.entries@[i].0@;
        assert(self.keys()[i] == k);
        let j = choose|j: int| 0 <= j < self.entries@.len() && self.entries@[j].0@ == k;
        assert(self.keys()[j] == k);
    }

    /// Every entry's key is in the map, and every key of the map is some
    /// entry's.
    pub proof fn lemma_keys(self)
        requires
            self.wf(),
        ensures
            forall|i: int| 0 <= i < self.size() ==> #[trigger] self.map().contains_key(self.key_at(i)),
            forall|k: K::V| self.map().contains_key(k) ==> exists|i: int| 0 <= i < self.size() && self.key_at(i) == k,
            self.map().dom().finite(),
            self.map().dom().len() == self.size(),
    {
        assert forall|i: int| 0 <= i < self.size() implies #[trigger] self.map().contains_key(self.key_at(i)) by {
            self.lemma_lookup(i);
        }
        let ks = self.keys();
        assert(self.map().dom() =~= ks.to_set()) by {
            assert forall|k: K::V| self.map().dom().contains(k) implies ks.to_set().contains(k) by {
                let i = choose|i: int| 0 <= i < self.entries@.len() && self.entries@[i].0@ == k;
                assert(ks[i] == k);
            }
            assert forall|k: K::V| ks.to_set().contains(k) implies self.map().dom().contains(k) by {
                let i = choose|i: int| 0 <= i < ks.len() && ks[i] == k;
                assert(self.entries@[i].0@ == k);
            }
        }
        ks.unique_seq_to_set();
        assert forall|k: K::V| self.map().contains_key(k) implies exists|i: int| 0 <= i < self.size() && self.key_at(i) == k by {
            let i = choose|i: int| 0 <= i < self.entries@.len() && self.entries@[i].0@ == k;
            assert(self.key_at(i) == k);
        }
    }

    pub fn new() -> (t: Self)
        ensures
            t.wf(),
            t.map() == Map::<K::V, V>::empty(),
    {
        let t = Table { entries: Vec::new() };
        assert(t.map() =~= Map::<K::V, V>::empty());
        t
    }

    pub fn len(&self) -> (n: usize)
        ensures
            n == self.size(),
    {
        self.entries.len()
    }

    pub fn key_ref(&self, i: usize) -> (k: &K)
        requires
            i < self.size(),
        ensures
            k@ == self.key_at(i as int),
    {
        &self.entries[i].0
    }

    pub fn value_ref(&self, i: usize) -> (v: &V)
        requires
            self.wf(),
            i < self.size(),
        ensures
            self.map().contains_key(self.key_at(i as int)),
            *v == self.map()[self.key_at(i as int)],
    {
        proof {
            self.lemma_lookup(i as int);
        }
        &self.entries[i].1
    }

    fn find(&self, k: &K) -> (r: Option<usize>)
        requires
            self.wf(),
        ensures
            r matches Some(i) ==> i < self.entries@.len() && self.entries@[i as int].0@ == k@,
            r is None ==> !self.map().contains_key(k@),
    {
        let mut i: usize = 0;
        while i < self.entries.len()
            invariant
                i <= self.entries@.len(),
                forall|j: int| 0 <= j < i ==> self.entries@[j].0@ != k@,
            decreases self.entries@.len() - i,
        {
            if self.entries[i].0.same(k) {
                return Some(i);
            }
            i = i + 1;
        }
        None
    }

    pub fn contains(&self, k: &K) -> (r: bool)
        requires
            self.wf(),
        ensures
            r == self.map().contains_key(k@),
    {
        match self.find(k) {
            Some(i) => {
                proof {
                    self.lemma_lookup(i as int);
                }
                true
            },
            None => false,
        }
    }

    pub fn get(&self, k: &K) -> (r: Option<&V>)
        requires
            self.wf(),
        ensures
            r is None <==> !self.map().contains_key(k@),
            r matches Some(v) ==> *v == self.map()[k@],
    {
        match self.find(k) {
            Some(i) => {
                proof {
                    self.lemma_lookup(i as int);
                }
                Some(&self.entries[i].1)
            },
            None => None,
        }
    }

    /// Removes the entry of `k` and returns its value.
    pub fn take(&mut self, k: &K) -> (r: Option<V>)
        requires
            old(self).wf(),
        ensures
            final(self).wf(),
            r is None <==> !old(self).map().contains_key(k@),
            r matches Some(v) ==> v == old(self).map()[k@],
            final(self).map() == old(self).map().remove(k@),
    {
        match self.find(k) {
            Some(i) => {
                proof {
                    self.lemma_lookup(i as int);
                }
                let ghost pre = *self;
                let e = self.entries.remove(i);
                proof {
                    assert(self.keys() =~= pre.keys().remove(i as int));
                    assert forall|a: int, b: int| 0 <= a < b < self.keys().len() implies self.keys()[a] != self.keys()[b] by {
                        let a2 = if a < i { a } else { a + 1 };
                        let b2 = if b < i { b } else { b + 1 };
                        assert(self.keys()[a] == pre.keys()[a2]);
                        assert(self.keys()[b] == pre.keys()[b2]);
                    }
                    assert(self.map() =~= pre.map().remove(k@)) by {
                        assert forall|q: K::V| #[trigger] self.map().contains_key(q) == pre.map().remove(k@).contains_key(q) by {
                            if self.map().contains_key(q) {
                                let j = choose|j: int| 0 <= j < self.entries@.len() && self.entries@[j].0@ == q;
                                let j2 = if j < i { j } else { j + 1 };
                                assert(pre.entries@[j2].0@ == q);
                                assert(pre.keys()[j2] == q && pre.keys()[i as int] == k@);
                            }
                            if pre.map().remove(k@).contains_key(q) {
                                let j = choose|j: int| 0 <= j < pre.entries@.len() && pre.entries@[j].0@ == q;
                                assert(j != i);
                                let j2 = if j < i { j } else { j - 1 };
                                assert(self.entries@[j2].0@ == q);
                            }
                        }
                        assert forall|q: K::V| #[trigger] self.map().contains_key(q) implies self.map()[q] == pre.map().remove(k@)[q] by {
                            let j = choose|j: int| 0 <= j < self.entries@.len() && self.entries@[j].0@ == q;
                            let j2 = if j < i { j } else { j + 1 };
                            assert(pre.entries@[j2] == self.entries@[j]);
                            self.lemma_lookup(j);
                            pre.lemma_lookup(j2);
                        }
                    }
                }
                Some(e.1)
            },
            None => {
                assert(self.map() =~= old(self).map().remove(k@));
                None
            },
        }
    }

    /// Sets the value of `k`, adding the key where it is new.
    pub fn insert(&mut self, k: K, v: V)
        requires
            old(self).wf(),
        ensures
            final(self).wf(),
            final(self).map() == old(self).map().insert(k@, v),
    {
        let ghost kv = k@;
        let _ = self.take(&k);
        let ghost mid = *self;
        self.entries.push((k, v));
        proof {
            let n = mid.entries@.len() as int;
            assert(self.keys() =~= mid.keys().push(kv));
            assert forall|a: int, b: int| 0 <= a < b < self.keys().len() implies self.keys()[a] != self.keys()[b] by {
                if b == n {
                    assert(self.keys()[a] == mid.keys()[a]);
                    if mid.keys()[a] == kv {
                        assert(mid.entries@[a].0@ == kv);
                        assert(mid.map().contains_key(kv));
                        assert(false);
                    }
                } else {
                    assert(self.keys()[a] == mid.keys()[a]);
                    assert(self.keys()[b] == mid.keys()[b]);
                }
            }
            assert(self.map() =~= mid.map().insert(kv, v)) by {
                assert forall|q: K::V| #[trigger] self.map().contains_key(q) == mid.map().insert(kv, v).contains_key(q) by {
                    if self.map().contains_key(q) {
                        let j = choose|j: int| 0 <= j < self.entries@.len() && self.entries@[j].0@ == q;
                        if j < n {
                            assert(mid.entries@[j].0@ == q);
                        }
                    }
                    if mid.map().contains_key(q) {
                        let j = choose|j: int| 0 <= j < mid.entries@.len() && mid.entries@[j].0@ == q;
                        assert(self.entries@[j].0@ == q);
                    }
                    if q == kv {
                        assert(self.entries@[n].0@ == q);
                    }
                }
                assert forall|q: K::V| #[trigger] self.map().contains_key(q) implies self.map()[q] == mid.map().insert(kv, v)[q] by {
                    let j = choose|j: int| 0 <= j < self.entries@.len() && self.entries@[j].0@ == q;
                    self.lemma_lookup(j);
                    if j < n {
                        assert(mid.entries@[j] == self.entries@[j]);
                        mid.lemma_lookup(j);
                    }
                }
            }
            assert(mid.map().insert(kv, v) =~= old(self).map().insert(kv, v));
        }
    }

    /// Removes every entry.
    pub fn clear(&mut self)
        ensures
            final(self).wf(),
            final(self).map() == Map::<K::V, V>::empty(),
    {
        self.entries.clear();
        assert(self.map() =~= Map::<K::V, V>::empty());
    }
}

} // verus!
