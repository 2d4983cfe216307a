//! Finite maps stored as vectors of entries, keyed by values with an abstract identity.

use vstd::prelude::*;

verus! {

/// A value that can be copied into an identical value.
pub trait Duplicate: Sized {
    /// An identical copy.
    fn duplicate(&self) -> (r: Self)
        ensures
            r == *self,
    ;
}

/// A key type whose identity is its view.
pub trait MapKey: View + Duplicate {
    /// Equality of keys, by view.
    fn same_key(&self, other: &Self) -> (r: bool)
        ensures
            r == (self@ == other@),
    ;
}

impl<A: Duplicate, B: Duplicate> Duplicate for (A, B) {
    fn duplicate(&self) -> (r: Self) {
        (self.0.duplicate(), self.1.duplicate())
    }
}

impl<A: Duplicate, B: Duplicate, C: Duplicate> Duplicate for (A, B, C) {
    fn duplicate(&self) -> (r: Self) {
        (self.0.duplicate(), self.1.duplicate(), self.2.duplicate())
    }
}

/// No key occurs twice in `s`.
pub open spec fn keys_distinct<KV, V>(s: Seq<(KV, V)>) -> bool {
    forall|i: int, j: int| 0 <= i < j < s.len() ==> s[i].0 != s[j].0
}

/// Some entry of `s` has key `k`.
pub open spec fn has_key<KV, V>(s: Seq<(KV, V)>, k: KV) -> bool {
    exists|i: int| 0 <= i < s.len() && s[i].0 == k
}

/// The map that a list of entries describes.
pub open spec fn entries_map<KV, V>(s: Seq<(KV, V)>) -> Map<KV, V> {
    Map::new(
        |k: KV| has_key(s, k),
        |k: KV| s[choose|i: int| 0 <= i < s.len() && s[i].0 == k].1,
    )
}

/// With distinct keys, the map holds each entry's value under its key.
pub proof fn lemma_entries_map<KV, V>(s: Seq<(KV, V)>, i: int)
    requires
        keys_distinct(s),
        0 <= i < s.len(),
    ensures
        entries_map(s).dom().contains(s[i].0),
        entries_map(s)[s[i].0] == s[i].1,
{
    let k = s[i].0;
    assert(has_key(s, k));
    let j = choose|j: int| 0 <= j < s.len() && s[j].0 == k;
    assert(i == j);
}

/// A finite map stored as a vector of entries, each key at most once, in insertion order.
#[derive(Debug)]
pub struct KeyedVec<K, V> {
    items: Vec<(K, V)>,
}

impl<K: MapKey, V> KeyedVec<K, V> {
    /// The entries, keys taken by view, in storage order.
    pub closed spec fn entries(&self) -> Seq<(K::V, V)> {
        self.items@.map_values(|e: (K, V)| (e.0@, e.1))
    }

    /// No key occurs twice.
    pub open spec fn wf(&self) -> bool {
        keys_distinct(self.entries())
    }

    /// The map that the entries describe.
    pub open spec fn as_map(&self) -> Map<K::V, V> {
        entries_map(self.entries())
    }

    /// Empty map.
    pub fn new() -> (r: Self)
        ensures
            r.wf(),
            r.entries() == Seq::<(K::V, V)>::empty(),
            r.as_map() == Map::<K::V, V>::empty(),
    {
        let r = KeyedVec { items: Vec::new() };
        assert(r.entries() =~= Seq::<(K::V, V)>::empty());
        assert(r.as_map() =~= Map::<K::V, V>::empty());
        r
    }

    /// Number of entries.
    pub fn len(&self) -> (r: usize)
        ensures
            r == self.entries().len(),
    {
        self.items.len()
    }

    /// Key of the entry at `i`.
    pub fn key_at(&self, i: usize) -> (r: &K)
        requires
            i < self.entries().len(),
        ensures
            r@ == self.entries()[i as int].0,
    {
        &self.items[i].0
    }

    /// Value of the entry at `i`.
    pub fn value_at(&self, i: usize) -> (r: &V)
        requires
            i < self.entries().len(),
        ensures
            *r == self.entries()[i as int].1,
    {
        &self.items[i].1
    }

    /// Position of the entry with key `k`.
    pub fn find(&self, k: &K) -> (r: Option<usize>)
        ensures
            match r {
                Some(i) => i < self.entries().len() && self.entries()[i as int].0 == k@,
                None => !has_key(self.entries(), k@),
            },
    {
        let mut i: usize = 0;
        while i < self.items.len()
            invariant
                i <= self.items@.len(),
                forall|j: int| 0 <= j < i ==> self.entries()[j].0 != k@,
            decreases self.items@.len() - i,
        {
            if self.items[i].0.same_key(k) {
                return Some(i);
            }
            i += 1;
        }
        None
    }

    /// Value stored under `k`.
    pub fn get(&self, k: &K) -> (r: Option<&V>)
        requires
            self.wf(),
        ensures
            match r {
                Some(v) => self.as_map().dom().contains(k@) && *v == self.as_map()[k@],
                None => !self.as_map().dom().contains(k@),
            },
    {
        match self.find(k) {
            Some(i) => {
                proof {
                    lemma_entries_map(self.entries(), i as int);
                }
                Some(&self.items[i].1)
            },
            None => None,
        }
    }

    /// Whether a value is stored under `k`.
    pub fn contains_key(&self, k: &K) -> (r: bool)
        ensures
            r == self.as_map().dom().contains(k@),
    {
        match self.find(k) {
            Some(i) => {
                assert(has_key(self.entries(), k@));
                true
            },
            None => false,
        }
    }

    /// Store `v` under `k`, replacing any earlier value.
    pub fn insert(&mut self, k: K, v: V)
        requires
            old(self).wf(),
        ensures
            final(self).wf(),
            final(self).as_map() == old(self).as_map().insert(k@, v),
    {
        let ghost kv = k@;
        let ghost old_e = self.entries();
        match self.find(&k) {
            Some(i) => {
                self.items.set(i, (k, v));
                proof {
                    let e = self.entries();
                    assert(e =~= old_e.update(i as int, (kv, v)));
                    assert(self.wf());
                    assert forall|q: K::V|
                        #![auto]
                        has_key(e, q) <==> old(self).as_map().insert(kv, v).dom().contains(q) by {
                        if has_key(old_e, q) {
                            let j = choose|j: int| 0 <= j < old_e.len() && old_e[j].0 == q;
                            assert(e[j].0 == q || j == i);
                        }
                        if q == kv {
                            assert(e[i as int].0 == q);
                        }
                        if has_key(e, q) {
                            let j = choose|j: int| 0 <= j < e.len() && e[j].0 == q;
                            assert(old_e[j].0 == q || j == i);
                        }
                    }
                    assert forall|q: K::V|
                        #![auto]
                        has_key(e, q) implies entries_map(e)[q] == old(self).as_map().insert(kv, v)[q] by {
                        let j = choose|j: int| 0 <= j < e.len() && e[j].0 == q;
                        lemma_entries_map(e, j);
                        if q != kv {
                            lemma_entries_map(old_e, j);
                        }
                    }
                    assert(self.as_map() =~= old(self).as_map().insert(kv, v));
                }
            },
            None => {
                self.items.push((k, v));
                proof {
                    let e = self.entries();
                    let n = old_e.len();
                    assert(e =~= old_e.push((kv, v)));
                    assert(self.wf()) by {
                        assert forall|a: int, b: int| 0 <= a < b < e.len() implies e[a].0 != e[b].0 by {
                            if b == n {
                                assert(old_e[a].0 != kv);
                            }
                        }
                    }
                    assert forall|q: K::V|
                        #![auto]
                        has_key(e, q) <==> old(self).as_map().insert(kv, v).dom().contains(q) by {
                        if has_key(old_e, q) {
                            let j = choose|j: int| 0 <= j < old_e.len() && old_e[j].0 == q;
                            assert(e[j].0 == q);
                        }
                        if q == kv {
                            assert(e[n as int].0 == q);
                        }
                        if has_key(e, q) {
                            let j = choose|j: int| 0 <= j < e.len() && e[j].0 == q;
                            if j < n {
                                assert(old_e[j].0 == q);
                            }
                        }
                    }
                    assert forall|q: K::V|
                        #![auto]
                        has_key(e, q) implies entries_map(e)[q] == old(self).as_map().insert(kv, v)[q] by {
                        let j = choose|j: int| 0 <= j < e.len() && e[j].0 == q;
                        lemma_entries_map(e, j);
                        if j < n {
                            lemma_entries_map(old_e, j);
                        }
                    }
                    assert(self.as_map() =~= old(self).as_map().insert(kv, v));
                }
            },
        }
    }

    /// Remove any value stored under `k`.
    pub fn remove(&mut self, k: &K)
        requires
            old(self).wf(),
        ensures
            final(self).wf(),
            final(self).as_map() == old(self).as_map().remove(k@),
    {
        let ghost old_e = self.entries();
        match self.find(k) {
            Some(i) => {
                let _ = self.items.remove(i);
                proof {
                    let e = self.entries();
                    assert(e =~= old_e.remove(i as int));
                    assert(self.wf()) by {
                        assert forall|a: int, b: int| 0 <= a < b < e.len() implies e[a].0 != e[b].0 by {
                            if a < i && b < i {
                            } else if a < i {
                                assert(e[b] == old_e[b + 1]);
                            } else {
                                assert(e[a] == old_e[a + 1]);
                                assert(e[b] == old_e[b + 1]);
                            }
                        }
                    }
                    assert forall|q: K::V|
                        #![auto]
                        has_key(e, q) <==> old(self).as_map().remove(k@).dom().contains(q) by {
                        if has_key(old_e, q) && q != k@ {
                            let j = choose|j: int| 0 <= j < old_e.len() && old_e[j].0 == q;
                            if j < i {
                                assert(e[j].0 == q);
                            } else {
                                assert(j != i);
                                assert(e[j - 1].0 == q);
                            }
                        }
                        if has_key(e, q) {
                            let j = choose|j: int| 0 <= j < e.len() && e[j].0 == q;
                            if j < i {
                                assert(old_e[j].0 == q);
                                assert(q != k@);
                            } else {
                                assert(old_e[j + 1].0 == q);
                                assert(q != k@);
                            }
                        }
                    }
                    assert forall|q: K::V|
                        #![auto]
                        has_key(e, q) implies entries_map(e)[q] == old(self).as_map().remove(
                            k@,
                        )[q] by {
                        let j = choose|j: int| 0 <= j < e.len() && e[j].0 == q;
                        lemma_entries_map(e, j);
                        if j < i {
                            lemma_entries_map(old_e, j);
                        } else {
                            lemma_entries_map(old_e, j + 1);
                        }
                    }
                    assert(self.as_map() =~= old(self).as_map().remove(k@));
                }
            },
            None => {
                proof {
                    assert(self.as_map() =~= old(self).as_map().remove(k@));
                }
            },
        }
    }
}

impl<K: MapKey, V: Duplicate> KeyedVec<K, V> {
    /// A copy with the same entries.
    pub fn duplicate(&self) -> (r: Self)
        ensures
            r.entries() == self.entries(),
    {
        let mut items: Vec<(K, V)> = Vec::new();
        let mut i: usize = 0;
        while i < self.items.len()
            invariant
                i <= self.items@.len(),
                items@ == self.items@.subrange(0, i as int),
            decreases self.items@.len() - i,
        {
            items.push(self.items[i].duplicate());
            i += 1;
        }
        assert(items@ =~= self.items@);
        KeyedVec { items }
    }
}

} // verus!
