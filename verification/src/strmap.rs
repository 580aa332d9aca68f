//! A map with string keys kept in ascending key order, as `BTreeMap<String, V>` keeps them.
//!
//! The keys and values are held in two vectors of the same length; the keys
//! are strictly increasing in `str` order (`path::seq_lt`). Walking the map by
//! position therefore visits the keys in the order a `BTreeMap` iterates them.
use vstd::prelude::*;
use crate::path::{seq_lt, lemma_seq_lt_transitive, lemma_seq_lt_trichotomy, lemma_seq_lt_irreflexive, str_lt};
use crate::text::{texts, chars_of, seq_eq};

verus! {

#[derive(Debug)]
pub struct StrMap<V> {
    keys: Vec<String>,
    vals: Vec<V>,
}

/// Keys in strictly increasing order.
pub open spec fn strictly_sorted(ks: Seq<Seq<char>>) -> bool {
    forall|i: int, j: int| 0 <= i < j < ks.len() ==> seq_lt(#[trigger] ks[i], #[trigger] ks[j])
}

impl<V> StrMap<V> {
    /// The keys, in order.
    pub closed spec fn key_seq(&self) -> Seq<Seq<char>> {
        texts(self.keys@)
    }

    /// The values, in the order of their keys.
    pub closed spec fn val_seq(&self) -> Seq<V> {
        self.vals@
    }

    /// The invariant: as many values as keys, keys strictly increasing.
    pub closed spec fn wf(&self) -> bool {
        &&& self.keys@.len() == self.vals@.len()
        &&& strictly_sorted(self.key_seq())
    }

    pub open spec fn len_spec(&self) -> nat {
        self.key_seq().len()
    }

    pub open spec fn has(&self, k: Seq<char>) -> bool {
        exists|i: int| 0 <= i < self.key_seq().len() && self.key_seq()[i] == k
    }

    /// The position of a key that is present.
    pub open spec fn pos(&self, k: Seq<char>) -> int {
        choose|i: int| 0 <= i < self.key_seq().len() && self.key_seq()[i] == k
    }

    /// The value under `k`, if any.
    pub open spec fn lookup(&self, k: Seq<char>) -> Option<V> {
        if self.has(k) {
            Some(self.val_seq()[self.pos(k)])
        } else {
            None
        }
    }

    /// The map as a mathematical map.
    pub open spec fn as_map(&self) -> Map<Seq<char>, V> {
        Map::new(|k: Seq<char>| self.has(k), |k: Seq<char>| self.val_seq()[self.pos(k)])
    }

    pub proof fn lemma_len(&self)
        requires
            self.wf(),
        ensures
            self.val_seq().len() == self.key_seq().len(),
    {
    }

    /// A key found at position `i` is the one that `lookup` reads.
    pub proof fn lemma_lookup_at(&self, i: int)
        requires
            self.wf(),
            0 <= i < self.key_seq().len(),
        ensures
            self.has(self.key_seq()[i]),
            self.pos(self.key_seq()[i]) == i,
            self.lookup(self.key_seq()[i]) == Some(self.val_seq()[i]),
    {
        let k = self.key_seq()[i];
        assert(self.has(k));
        let p = self.pos(k);
        if p != i {
            if p < i {
                assert(seq_lt(self.key_seq()[p], self.key_seq()[i]));
            } else {
                assert(seq_lt(self.key_seq()[i], self.key_seq()[p]));
            }
            lemma_seq_lt_irreflexive(k);
        }
    }

    pub fn new() -> (m: Self)
        ensures
            m.wf(),
            m.key_seq().len() == 0,
            forall|k: Seq<char>| !m.has(k),
    {
        StrMap { keys: Vec::new(), vals: Vec::new() }
    }

    pub fn len(&self) -> (n: usize)
        ensures
            n == self.key_seq().len(),
    {
        self.keys.len()
    }

    pub fn is_empty(&self) -> (b: bool)
        ensures
            b == (self.key_seq().len() == 0),
    {
        self.keys.len() == 0
    }

    /// The key at position `i`.
    pub fn key_at(&self, i: usize) -> (k: &String)
        requires
            i < self.key_seq().len(),
        ensures
            k@ == self.key_seq()[i as int],
    {
        &self.keys[i]
    }

    /// The value at position `i`.
    pub fn value_at(&self, i: usize) -> (v: &V)
        requires
            self.wf(),
            i < self.key_seq().len(),
        ensures
            *v == self.val_seq()[i as int],
    {
        &self.vals[i]
    }

    /// Replaces the value at position `i`, keeping every key and every other value.
    pub fn set_value_at(&mut self, i: usize, v: V)
        requires
            old(self).wf(),
            i < old(self).key_seq().len(),
        ensures
            final(self).wf(),
            final(self).key_seq() == old(self).key_seq(),
            final(self).val_seq() == old(self).val_seq().update(i as int, v),
            forall|q: Seq<char>|
                #![trigger final(self).lookup(q)]
                final(self).has(q) == old(self).has(q) && final(self).lookup(q) == if q == old(
                    self,
                ).key_seq()[i as int] {
                    Some(v)
                } else {
                    old(self).lookup(q)
                },
    {
        let ghost before = *self;
        self.vals.set(i, v);
        proof {
            let after = *self;
            assert(after.key_seq() == before.key_seq());
            assert(after.wf());
            assert forall|q: Seq<char>|
                #![trigger after.lookup(q)]
                after.has(q) == before.has(q) && after.lookup(q) == if q == before.key_seq()[i as int] {
                    Some(v)
                } else {
                    before.lookup(q)
                } by {
                assert(after.has(q) == before.has(q));
                if after.has(q) {
                    let j = after.pos(q);
                    after.lemma_lookup_at(j);
                    before.lemma_lookup_at(j);
                    assert(after.key_seq()[j] == q);
                    if j == i {
                        assert(after.val_seq()[j] == v);
                    } else {
                        assert(after.val_seq()[j] == before.val_seq()[j]);
                        assert(q != before.key_seq()[i as int]) by {
                            if q == before.key_seq()[i as int] {
                                before.lemma_lookup_at(i as int);
                            }
                        }
                    }
                } else {
                    assert(q != before.key_seq()[i as int]) by {
                        if q == before.key_seq()[i as int] {
                            before.lemma_lookup_at(i as int);
                        }
                    }
                }
            }
        }
    }

    /// Where `k` stands (`Ok`) or would stand (`Err`).
    pub fn find(&self, k: &str) -> (r: Result<usize, usize>)
        requires
            self.wf(),
        ensures
            r matches Ok(i) ==> i < self.key_seq().len() && self.key_seq()[i as int] == k@,
            r matches Err(i) ==> i <= self.key_seq().len() && (forall|j: int|
                0 <= j < i ==> seq_lt(#[trigger] self.key_seq()[j], k@)) && (forall|j: int|
                i <= j < self.key_seq().len() ==> seq_lt(k@, #[trigger] self.key_seq()[j])),
            r is Ok <==> self.has(k@),
    {
        let kv = chars_of(k);
        let mut i: usize = 0;
        while i < self.keys.len()
            invariant
                self.wf(),
                kv@ == k@,
                0 <= i <= self.key_seq().len(),
                forall|j: int| 0 <= j < i ==> seq_lt(#[trigger] self.key_seq()[j], k@),
            decreases self.keys.len() - i,
        {
            let cur = chars_of(self.keys[i].as_str());
            assert(cur@ == self.key_seq()[i as int]);
            if seq_eq(&cur, &kv) {
                assert(self.has(k@));
                return Ok(i);
            }
            if str_lt(&kv, &cur) {
                proof {
                    assert forall|j: int| i <= j < self.key_seq().len() implies seq_lt(
                        k@,
                        #[trigger] self.key_seq()[j],
                    ) by {
                        if j > i {
                            lemma_seq_lt_transitive(k@, self.key_seq()[i as int], self.key_seq()[j]);
                        }
                    }
                    if self.has(k@) {
                        let p = self.pos(k@);
                        if p < i {
                            lemma_seq_lt_irreflexive(k@);
                        } else {
                            lemma_seq_lt_irreflexive(k@);
                        }
                    }
                }
                return Err(i);
            }
            proof {
                lemma_seq_lt_trichotomy(cur@, kv@);
            }
            i += 1;
        }
        proof {
            if self.has(k@) {
                let p = self.pos(k@);
                lemma_seq_lt_irreflexive(k@);
            }
        }
        Err(i)
    }

    /// `BTreeMap::get`.
    pub fn get(&self, k: &str) -> (r: Option<&V>)
        requires
            self.wf(),
        ensures
            r matches Some(v) ==> self.lookup(k@) == Some(*v),
            r is None ==> self.lookup(k@) is None,
    {
        match self.find(k) {
            Ok(i) => {
                proof {
                    self.lemma_lookup_at(i as int);
                }
                Some(&self.vals[i])
            },
            Err(_) => None,
        }
    }

    /// `BTreeMap::contains_key`.
    pub fn contains_key(&self, k: &str) -> (b: bool)
        requires
            self.wf(),
        ensures
            b == self.has(k@),
    {
        self.find(k).is_ok()
    }

    /// `BTreeMap::insert`: `k` now maps to `v`; every other key keeps its value.
    pub fn insert(&mut self, k: String, v: V)
        requires
            old(self).wf(),
        ensures
            final(self).wf(),
            final(self).has(k@),
            final(self).lookup(k@) == Some(v),
            forall|q: Seq<char>| q != k@ ==> final(self).has(q) == old(self).has(q)
                && final(self).lookup(q) == old(self).lookup(q),
            final(self).as_map() == old(self).as_map().insert(k@, v),
    {
        let ghost old_map = *self;
        match self.find(k.as_str()) {
            Ok(i) => {
                self.vals.set(i, v);
                proof {
                    self.lemma_lookup_at(i as int);
                    assert forall|q: Seq<char>| q != k@ implies self.has(q) == old_map.has(q)
                        && self.lookup(q) == old_map.lookup(q) by {
                        if old_map.has(q) {
                            let p = old_map.pos(q);
                            old_map.lemma_lookup_at(p);
                            self.lemma_lookup_at(p);
                        }
                    }
                }
            },
            Err(i) => {
                let ghost kk = k@;
                self.keys.insert(i, k);
                self.vals.insert(i, v);
                proof {
                    assert(self.key_seq() =~= old_map.key_seq().insert(i as int, kk));
                    assert(strictly_sorted(self.key_seq())) by {
                        assert forall|a: int, b: int| 0 <= a < b < self.key_seq().len() implies seq_lt(
                            #[trigger] self.key_seq()[a],
                            #[trigger] self.key_seq()[b],
                        ) by {
                            if a < i && b < i {
                                assert(self.key_seq()[a] == old_map.key_seq()[a]);
                                assert(self.key_seq()[b] == old_map.key_seq()[b]);
                            } else if a < i && b == i {
                                assert(self.key_seq()[a] == old_map.key_seq()[a]);
                            } else if a < i && b > i {
                                assert(self.key_seq()[a] == old_map.key_seq()[a]);
                                assert(self.key_seq()[b] == old_map.key_seq()[b - 1]);
                                assert(seq_lt(old_map.key_seq()[a], old_map.key_seq()[b - 1]));
                            } else if a == i {
                                assert(self.key_seq()[b] == old_map.key_seq()[b - 1]);
                            } else {
                                assert(self.key_seq()[a] == old_map.key_seq()[a - 1]);
                                assert(self.key_seq()[b] == old_map.key_seq()[b - 1]);
                            }
                        }
                    }
                    self.lemma_lookup_at(i as int);
                    assert forall|q: Seq<char>| q != kk implies self.has(q) == old_map.has(q)
                        && self.lookup(q) == old_map.lookup(q) by {
                        if old_map.has(q) {
                            let p = old_map.pos(q);
                            old_map.lemma_lookup_at(p);
                            if p < i {
                                assert(self.key_seq()[p] == q);
                                self.lemma_lookup_at(p);
                            } else {
                                assert(self.key_seq()[p + 1] == q);
                                self.lemma_lookup_at(p + 1);
                            }
                        }
                        if self.has(q) {
                            let p = self.pos(q);
                            if p < i {
                                assert(old_map.key_seq()[p] == q);
                            } else if p > i {
                                assert(old_map.key_seq()[p - 1] == q);
                            }
                        }
                    }
                }
            },
        }
        proof {
            assert(self.as_map() =~= old_map.as_map().insert(k@, v)) by {
                assert forall|q: Seq<char>| #[trigger] self.as_map().dom().contains(q) == old_map.as_map().insert(
                    k@,
                    v,
                ).dom().contains(q) by {}
                assert forall|q: Seq<char>| self.as_map().dom().contains(q) implies self.as_map()[q]
                    == old_map.as_map().insert(k@, v)[q] by {
                    if q == k@ {
                        assert(self.lookup(q) == Some(v));
                    } else {
                        assert(self.lookup(q) == old_map.lookup(q));
                    }
                }
            }
        }
    }

    /// `BTreeMap::remove`.
    pub fn remove(&mut self, k: &str) -> (r: Option<V>)
        requires
            old(self).wf(),
        ensures
            final(self).wf(),
            r == old(self).lookup(k@),
            !final(self).has(k@),
            forall|q: Seq<char>| q != k@ ==> final(self).has(q) == old(self).has(q)
                && final(self).lookup(q) == old(self).lookup(q),
            final(self).as_map() == old(self).as_map().remove(k@),
    {
        let ghost old_map = *self;
        match self.find(k) {
            Ok(i) => {
                proof {
                    old_map.lemma_lookup_at(i as int);
                }
                self.keys.remove(i);
                let v = self.vals.remove(i);
                proof {
                    assert(self.key_seq() =~= old_map.key_seq().remove(i as int));
                    assert(strictly_sorted(self.key_seq())) by {
                        assert forall|a: int, b: int| 0 <= a < b < self.key_seq().len() implies seq_lt(
                            #[trigger] self.key_seq()[a],
                            #[trigger] self.key_seq()[b],
                        ) by {
                            if a < i && b < i {
                                assert(self.key_seq()[a] == old_map.key_seq()[a]);
                                assert(self.key_seq()[b] == old_map.key_seq()[b]);
                            } else if a < i {
                                assert(self.key_seq()[a] == old_map.key_seq()[a]);
                                assert(self.key_seq()[b] == old_map.key_seq()[b + 1]);
                            } else {
                                assert(self.key_seq()[a] == old_map.key_seq()[a + 1]);
                                assert(self.key_seq()[b] == old_map.key_seq()[b + 1]);
                            }
                        }
                    }
                    if self.has(k@) {
                        let p = self.pos(k@);
                        if p < i {
                            assert(old_map.key_seq()[p] == k@);
                        } else {
                            assert(old_map.key_seq()[p + 1] == k@);
                        }
                        lemma_seq_lt_irreflexive(k@);
                    }
                    assert forall|q: Seq<char>| q != k@ implies self.has(q) == old_map.has(q)
                        && self.lookup(q) == old_map.lookup(q) by {
                        if old_map.has(q) {
                            let p = old_map.pos(q);
                            old_map.lemma_lookup_at(p);
                            if p < i {
                                assert(self.key_seq()[p] == q);
                                self.lemma_lookup_at(p);
                            } else {
                                assert(p != i);
                                assert(self.key_seq()[p - 1] == q);
                                self.lemma_lookup_at(p - 1);
                            }
                        }
                        if self.has(q) {
                            let p = self.pos(q);
                            if p < i {
                                assert(old_map.key_seq()[p] == q);
                            } else {
                                assert(old_map.key_seq()[p + 1] == q);
                            }
                        }
                    }
                    assert(self.as_map() =~= old_map.as_map().remove(k@)) by {
                        assert forall|q: Seq<char>| self.as_map().dom().contains(q) implies self.as_map()[q]
                            == old_map.as_map().remove(k@)[q] by {
                            assert(self.lookup(q) == old_map.lookup(q));
                        }
                    }
                }
                Some(v)
            },
            Err(_) => {
                proof {
                    assert(self.as_map() =~= old_map.as_map().remove(k@));
                }
                None
            },
        }
    }

    /// `BTreeMap::clear`.
    pub fn clear(&mut self)
        ensures
            final(self).wf(),
            final(self).key_seq().len() == 0,
            forall|k: Seq<char>| !final(self).has(k),
    {
        self.keys = Vec::new();
        self.vals = Vec::new();
    }

    /// The first key (`BTreeMap::keys().next()`).
    pub fn first_key(&self) -> (r: Option<String>)
        requires
            self.wf(),
        ensures
            self.key_seq().len() == 0 ==> r is None,
            self.key_seq().len() > 0 ==> (r matches Some(k) && k@ == self.key_seq()[0]),
    {
        if self.keys.len() == 0 {
            None
        } else {
            Some(self.keys[0].clone())
        }
    }

    /// The keys, in order.
    pub fn keys(&self) -> (r: Vec<String>)
        requires
            self.wf(),
        ensures
            texts(r@) == self.key_seq(),
    {
        self.keys.clone()
    }
}

impl<V: Clone> Clone for StrMap<V> {
    /// A copy with the same keys and a clone of each value.
    fn clone(&self) -> (r: Self)
        ensures
            r.key_seq() == self.key_seq(),
            r.val_seq().len() == self.val_seq().len(),
            forall|i: int| 0 <= i < self.val_seq().len() ==> cloned::<V>(self.val_seq()[i], #[trigger] r.val_seq()[i]),
            self.wf() ==> r.wf(),
    {
        let keys = self.keys.clone();
        let vals = self.vals.clone();
        proof {
            assert(texts(keys@) =~= texts(self.keys@)) by {
                assert forall|i: int| 0 <= i < keys@.len() implies keys@[i]@ == self.keys@[i]@ by {
                    assert(cloned::<String>(self.keys@[i], keys@[i]));
                }
            }
        }
        StrMap { keys, vals }
    }
}

} // verus!
