//! A finite map keyed by principals, kept as a list of entries whose keys
//! are pairwise distinct. It stands where the canisters keep a `HashMap` or a
//! `BTreeMap` keyed by `candid::Principal`.
use vstd::prelude::*;
use crate::principal::PrincipalId;

verus! {

/// A map from principals to values of type `V`; its view maps the bytes of
/// each principal to the view of its value.
pub struct PrincipalMap<V> {
    entries: Vec<(PrincipalId, V)>,
}

/// Whether no two entries of `s` share a key.
spec fn keys_distinct<V>(s: Seq<(PrincipalId, V)>) -> bool {
    forall|i: int, j: int|
        0 <= i < s.len() && 0 <= j < s.len() && #[trigger] s[i].0@ == #[trigger] s[j].0@ ==> i == j
}

impl<V> PrincipalMap<V> {
    spec fn key(self, i: int) -> Seq<u8> {
        self.entries@[i].0@
    }

    #[verifier::type_invariant]
    spec fn wf(self) -> bool {
        keys_distinct(self.entries@)
    }

    spec fn has(self, k: Seq<u8>) -> bool {
        exists|i: int| 0 <= i < self.entries@.len() && #[trigger] self.key(i) == k
    }

    spec fn index_of(self, k: Seq<u8>) -> int {
        choose|i: int| 0 <= i < self.entries@.len() && #[trigger] self.key(i) == k
    }
}

impl<V: View> View for PrincipalMap<V> {
    type V = Map<Seq<u8>, V::V>;

    closed spec fn view(&self) -> Map<Seq<u8>, V::V> {
        Map::new(|k: Seq<u8>| self.has(k), |k: Seq<u8>| self.entries@[self.index_of(k)].1@)
    }
}

impl<V: View> PrincipalMap<V> {
    proof fn lemma_entry(self, i: int)
        requires
            self.wf(),
            0 <= i < self.entries@.len(),
        ensures
            self@.contains_key(self.key(i)),
            self@[self.key(i)] == self.entries@[i].1@,
    {
        assert(self.has(self.key(i)));
        let j = self.index_of(self.key(i));
        assert(self.key(j) == self.key(i));
    }

    /// The empty map.
    pub fn new() -> (m: Self)
        ensures
            m@ == Map::<Seq<u8>, V::V>::empty(),
    {
        let m = PrincipalMap { entries: Vec::new() };
        assert(m@ =~= Map::<Seq<u8>, V::V>::empty());
        m
    }

    fn find(&self, k: &PrincipalId) -> (r: Option<usize>)
        ensures
            match r {
                Some(i) => i < self.entries@.len() && self.key(i as int) == k@,
                None => !self.has(k@),
            },
    {
        let n = self.entries.len();
        let mut i: usize = 0;
        while i < n
            invariant
                n == self.entries@.len(),
                i <= n,
                forall|j: int| 0 <= j < i ==> #[trigger] self.key(j) != k@,
            decreases n - i,
        {
            if self.entries[i].0.same(k) {
                return Some(i);
            }
            i = i + 1;
        }
        None
    }

    /// Whether the map is empty.
    pub fn is_empty(&self) -> (r: bool)
        ensures
            r == (self@ == Map::<Seq<u8>, V::V>::empty()),
    {
        proof { use_type_invariant(self); }
        if self.entries.len() == 0 {
            assert(self@ =~= Map::<Seq<u8>, V::V>::empty());
            true
        } else {
            proof { self.lemma_entry(0); }
            assert(!Map::<Seq<u8>, V::V>::empty().contains_key(self.key(0)));
            false
        }
    }

    /// The value stored under `k`, if any.
    pub fn get(&self, k: &PrincipalId) -> (r: Option<&V>)
        ensures
            match r {
                Some(v) => self@.contains_key(k@) && self@[k@] == v@,
                None => !self@.contains_key(k@),
            },
    {
        proof { use_type_invariant(self); }
        match self.find(k) {
            Some(i) => {
                proof { self.lemma_entry(i as int); }
                Some(&self.entries[i].1)
            },
            None => None,
        }
    }

    /// Stores `v` under `k`, replacing what was stored there.
    pub fn insert(&mut self, k: PrincipalId, v: V)
        ensures
            final(self)@ == old(self)@.insert(k@, v@),
    {
        proof { use_type_invariant(&*self); }
        let ghost old_map = *self;
        let ghost kv = k@;
        let ghost vv = v@;
        let found = self.find(&k);
        let mut entries: Vec<(PrincipalId, V)> = Vec::new();
        std::mem::swap(&mut entries, &mut self.entries);
        match found {
            Some(i) => {
                entries.set(i, (k, v));
                assert(forall|j: int| 0 <= j < entries@.len() ==> #[trigger] entries@[j].0@ == old_map.key(j));
            },
            None => {
                entries.push((k, v));
                assert(forall|j: int| 0 <= j < old_map.entries@.len() ==> #[trigger] entries@[j].0@ == old_map.key(j));
            },
        }
        assert(keys_distinct(entries@));
        self.entries = entries;
        proof {
            let new_map = *self;
            assert forall|q: Seq<u8>| #[trigger] new_map@.contains_key(q) == old_map@.insert(kv, vv).contains_key(q) by {
                if new_map.has(q) {
                    let j = new_map.index_of(q);
                    if j < old_map.entries@.len() && new_map.key(j) != kv {
                        assert(old_map.key(j) == q);
                    }
                }
                if old_map.has(q) {
                    let j = old_map.index_of(q);
                    assert(new_map.key(j) == q || q == kv);
                }
                if q == kv {
                    let j = match found { Some(i) => i as int, None => old_map.entries@.len() as int };
                    assert(new_map.key(j) == kv);
                }
            }
            assert forall|q: Seq<u8>| #[trigger] new_map@.contains_key(q) implies new_map@[q]
                == old_map@.insert(kv, vv)[q] by {
                let j = new_map.index_of(q);
                new_map.lemma_entry(j);
                if q != kv {
                    old_map.lemma_entry(j);
                }
            }
            assert(new_map@ =~= old_map@.insert(kv, vv));
        }
    }

    /// Takes out the value stored under `k`, if any.
    pub fn remove(&mut self, k: &PrincipalId) -> (r: Option<V>)
        ensures
            final(self)@ == old(self)@.remove(k@),
            match r {
                Some(v) => old(self)@.contains_key(k@) && v@ == old(self)@[k@],
                None => !old(self)@.contains_key(k@),
            },
    {
        proof { use_type_invariant(&*self); }
        let ghost old_map = *self;
        match self.find(k) {
            None => {
                assert(old_map@.remove(k@) =~= old_map@);
                None
            },
            Some(i) => {
                proof { old_map.lemma_entry(i as int); }
                let mut entries: Vec<(PrincipalId, V)> = Vec::new();
                std::mem::swap(&mut entries, &mut self.entries);
                let (_, v) = entries.remove(i);
                assert(forall|j: int| 0 <= j < entries@.len() ==> #[trigger] entries@[j] == old_map.entries@[if j < i { j } else { j + 1 }]);
                assert(keys_distinct(entries@)) by {
                    assert forall|a: int, b: int|
                        0 <= a < entries@.len() && 0 <= b < entries@.len() && #[trigger] entries@[a].0@
                            == #[trigger] entries@[b].0@ implies a == b by {
                        let a2 = if a < i { a } else { a + 1 };
                        let b2 = if b < i { b } else { b + 1 };
                        assert(entries@[a] == old_map.entries@[a2]);
                        assert(entries@[b] == old_map.entries@[b2]);
                    }
                }
                self.entries = entries;
                proof {
                    let new_map = *self;
                    let kv = k@;
                    assert forall|q: Seq<u8>| #[trigger] new_map@.contains_key(q) == old_map@.remove(kv).contains_key(q) by {
                        if new_map.has(q) {
                            let j = new_map.index_of(q);
                            let j2 = if j < i { j } else { j + 1 };
                            assert(new_map.entries@[j] == old_map.entries@[j2]);
                            assert(old_map.key(j2) == q);
                            assert(j2 != i);
                        }
                        if old_map.has(q) && q != kv {
                            let j = old_map.index_of(q);
                            assert(j != i);
                            let j1 = if j < i { j } else { j - 1 };
                            assert(new_map.entries@[j1] == old_map.entries@[j]);
                            assert(new_map.key(j1) == q);
                        }
                    }
                    assert forall|q: Seq<u8>| #[trigger] new_map@.contains_key(q) implies new_map@[q]
                        == old_map@.remove(kv)[q] by {
                        let j = new_map.index_of(q);
                        new_map.lemma_entry(j);
                        let j2 = if j < i { j } else { j + 1 };
                        assert(new_map.entries@[j] == old_map.entries@[j2]);
                        old_map.lemma_entry(j2);
                    }
                    assert(new_map@ =~= old_map@.remove(kv));
                }
                Some(v)
            },
        }
    }

    /// Removes every entry.
    pub fn clear(&mut self)
        ensures
            final(self)@ == Map::<Seq<u8>, V::V>::empty(),
    {
        let mut entries: Vec<(PrincipalId, V)> = Vec::new();
        std::mem::swap(&mut entries, &mut self.entries);
        assert(self@ =~= Map::<Seq<u8>, V::V>::empty());
    }

    /// A map holds finitely many entries.
    pub proof fn lemma_finite(&self)
        ensures
            self@.dom().finite(),
    {
        let keys = self.entries@.map_values(|e: (PrincipalId, V)| e.0@);
        vstd::seq_lib::seq_to_set_is_finite(keys);
        assert forall|k: Seq<u8>| #[trigger] self@.dom().contains(k) implies keys.to_set().contains(k) by {
            let i = self.index_of(k);
            assert(keys[i] == k);
        }
        vstd::set_lib::lemma_set_subset_finite(keys.to_set(), self@.dom());
    }
}

} // verus!
