//! A finite map keyed by byte strings, kept in lexicographic key order.
//!
//! This is how the oracle holds its per-asset tables (prices, bounds) and its
//! provider whitelist: each key appears once, and listing the keys yields them in
//! ascending byte order.

use vstd::prelude::*;
use crate::bytes::{lex_lt, compare_bytes, copy_bytes, ByteOrder, lemma_lex_irreflexive, lemma_lex_transitive};

verus! {

/// Every element sorts strictly before every later element.
pub open spec fn strictly_sorted(s: Seq<Seq<u8>>) -> bool {
    forall|i: int, j: int| 0 <= i < j < s.len() ==> lex_lt(#[trigger] s[i], #[trigger] s[j])
}

/// A map from byte-string keys to values, stored as parallel key and value lists
/// sorted by key.
pub struct KeyMap<V> {
    keys: Vec<Vec<u8>>,
    vals: Vec<V>,
}

impl<V: View> View for KeyMap<V> {
    type V = Map<Seq<u8>, V::V>;

    closed spec fn view(&self) -> Map<Seq<u8>, V::V> {
        Map::new(
            |k: Seq<u8>| self.key_seq().contains(k),
            |k: Seq<u8>| self.vals@[self.key_seq().index_of(k)]@,
        )
    }
}

impl<V: View> KeyMap<V> {
    /// The stored keys, in storage order.
    closed spec fn key_seq(&self) -> Seq<Seq<u8>> {
        self.keys@.map_values(|k: Vec<u8>| k@)
    }

    /// Keys and values line up, and the keys are strictly ascending.
    pub closed spec fn wf(&self) -> bool {
        &&& self.keys.len() == self.vals.len()
        &&& strictly_sorted(self.key_seq())
    }

    /// The `i`-th stored entry is what the view holds for its key.
    proof fn lemma_lookup(&self, i: int)
        requires
            self.wf(),
            0 <= i < self.keys.len(),
        ensures
            self@.dom().contains(self.key_seq()[i]),
            self@[self.key_seq()[i]] == self.vals@[i]@,
    {
        let ks = self.key_seq();
        let k = ks[i];
        assert(ks.contains(k));
        let j = ks.index_of(k);
        if j != i {
            if j < i {
                assert(lex_lt(ks[j], ks[i]));
            } else {
                assert(lex_lt(ks[i], ks[j]));
            }
            lemma_lex_irreflexive(k);
        }
    }

    /// Inserting a fresh key at its sorted position.
    proof fn lemma_insert_fresh(m: Self, n: Self, p: int, k: Seq<u8>, v: V)
        requires
            m.wf(),
            0 <= p <= m.keys.len(),
            forall|i: int| 0 <= i < p ==> lex_lt(#[trigger] m.key_seq()[i], k),
            forall|j: int| p <= j < m.keys.len() ==> lex_lt(k, #[trigger] m.key_seq()[j]),
            n.key_seq() == m.key_seq().insert(p, k),
            n.vals@ == m.vals@.insert(p, v),
            n.keys.len() == m.keys.len() + 1,
        ensures
            n.wf(),
            n@ == m@.insert(k, v@),
    {
        let mks = m.key_seq();
        let nks = n.key_seq();
        assert forall|i: int, j: int| 0 <= i < j < nks.len() implies lex_lt(
            #[trigger] nks[i],
            #[trigger] nks[j],
        ) by {
            if j < p {
                assert(nks[i] == mks[i] && nks[j] == mks[j]);
            } else if j == p {
                assert(nks[i] == mks[i]);
            } else if i < p {
                assert(nks[i] == mks[i] && nks[j] == mks[j - 1]);
                lemma_lex_transitive(mks[i], k, mks[j - 1]);
            } else if i == p {
                assert(nks[j] == mks[j - 1]);
            } else {
                assert(nks[i] == mks[i - 1] && nks[j] == mks[j - 1]);
            }
        }
        assert(n.wf());
        let target = m@.insert(k, v@);
        assert forall|q: Seq<u8>| #[trigger] n@.dom().contains(q) == target.dom().contains(q) by {
            if nks.contains(q) {
                let j = choose|j: int| 0 <= j < nks.len() && nks[j] == q;
                if j < p {
                    assert(mks[j] == q);
                    assert(mks.contains(q));
                } else if j > p {
                    assert(mks[j - 1] == q);
                    assert(mks.contains(q));
                }
            }
            if mks.contains(q) {
                let j = choose|j: int| 0 <= j < mks.len() && mks[j] == q;
                if j < p {
                    assert(nks[j] == q);
                } else {
                    assert(nks[j + 1] == q);
                }
                assert(nks.contains(q));
            }
            if q == k {
                assert(nks[p] == q);
                assert(nks.contains(q));
            }
        }
        assert forall|q: Seq<u8>| #[trigger] n@.dom().contains(q) implies n@[q] == target[q] by {
            if q == k {
                assert(nks[p] == k);
                n.lemma_lookup(p);
            } else {
                assert(mks.contains(q));
                let j = choose|j: int| 0 <= j < mks.len() && mks[j] == q;
                m.lemma_lookup(j);
                if j < p {
                    assert(nks[j] == q);
                    n.lemma_lookup(j);
                } else {
                    assert(nks[j + 1] == q);
                    n.lemma_lookup(j + 1);
                }
            }
        }
        assert(n@ =~= target);
    }

    /// Replacing the value of a key that is present.
    proof fn lemma_overwrite(m: Self, n: Self, p: int, v: V)
        requires
            m.wf(),
            0 <= p < m.keys.len(),
            n.key_seq() == m.key_seq(),
            n.vals@ == m.vals@.update(p, v),
        ensures
            n.wf(),
            n@ == m@.insert(m.key_seq()[p], v@),
    {
        let ks = m.key_seq();
        let k = ks[p];
        let target = m@.insert(k, v@);
        assert(n.keys@.len() == n.key_seq().len());
        assert(n.wf());
        assert forall|q: Seq<u8>| #[trigger] n@.dom().contains(q) == target.dom().contains(q) by {
            if q == k {
                assert(ks.contains(q));
            }
        }
        assert forall|q: Seq<u8>| #[trigger] n@.dom().contains(q) implies n@[q] == target[q] by {
            let j = choose|j: int| 0 <= j < ks.len() && ks[j] == q;
            m.lemma_lookup(j);
            n.lemma_lookup(j);
            if j != p {
                lemma_lex_irreflexive(q);
                if j < p {
                    assert(lex_lt(ks[j], ks[p]));
                } else {
                    assert(lex_lt(ks[p], ks[j]));
                }
            }
        }
        assert(n@ =~= target);
    }

    /// Deleting the entry at a position.
    proof fn lemma_delete(m: Self, n: Self, p: int)
        requires
            m.wf(),
            0 <= p < m.keys.len(),
            n.key_seq() == m.key_seq().remove(p),
            n.vals@ == m.vals@.remove(p),
        ensures
            n.wf(),
            n@ == m@.remove(m.key_seq()[p]),
    {
        let mks = m.key_seq();
        let nks = n.key_seq();
        let k = mks[p];
        assert forall|i: int, j: int| 0 <= i < j < nks.len() implies lex_lt(
            #[trigger] nks[i],
            #[trigger] nks[j],
        ) by {
            if j < p {
                assert(nks[i] == mks[i] && nks[j] == mks[j]);
            } else if i < p {
                assert(nks[i] == mks[i] && nks[j] == mks[j + 1]);
            } else {
                assert(nks[i] == mks[i + 1] && nks[j] == mks[j + 1]);
            }
        }
        assert(n.keys@.len() == n.key_seq().len());
        assert(n.wf());
        let target = m@.remove(k);
        assert forall|q: Seq<u8>| #[trigger] n@.dom().contains(q) == target.dom().contains(q) by {
            if nks.contains(q) {
                let j = choose|j: int| 0 <= j < nks.len() && nks[j] == q;
                if j < p {
                    assert(mks[j] == q);
                    assert(lex_lt(q, k));
                } else {
                    assert(mks[j + 1] == q);
                    assert(lex_lt(k, q));
                }
                assert(mks.contains(q));
                lemma_lex_irreflexive(q);
            }
            if mks.contains(q) && q != k {
                let j = choose|j: int| 0 <= j < mks.len() && mks[j] == q;
                if j < p {
                    assert(nks[j] == q);
                } else {
                    assert(j != p);
                    assert(nks[j - 1] == q);
                }
                assert(nks.contains(q));
            }
        }
        assert forall|q: Seq<u8>| #[trigger] n@.dom().contains(q) implies n@[q] == target[q] by {
            let j = choose|j: int| 0 <= j < nks.len() && nks[j] == q;
            n.lemma_lookup(j);
            if j < p {
                assert(mks[j] == q);
                m.lemma_lookup(j);
            } else {
                assert(mks[j + 1] == q);
                m.lemma_lookup(j + 1);
            }
        }
        assert(n@ =~= target);
    }

    /// An empty map.
    pub fn new() -> (r: Self)
        ensures
            r.wf(),
            r@ == Map::<Seq<u8>, V::V>::empty(),
    {
        let r = KeyMap { keys: Vec::new(), vals: Vec::new() };
        assert(r@ =~= Map::<Seq<u8>, V::V>::empty());
        r
    }

    /// The position where `key` is or would be inserted, and whether it is there.
    fn find(&self, key: &Vec<u8>) -> (r: (usize, bool))
        requires
            self.wf(),
        ensures
            r.0 <= self.keys.len(),
            forall|i: int| 0 <= i < r.0 ==> lex_lt(#[trigger] self.key_seq()[i], key@),
            r.1 ==> r.0 < self.keys.len() && self.key_seq()[r.0 as int] == key@,
            !r.1 ==> forall|j: int|
                r.0 <= j < self.keys.len() ==> lex_lt(key@, #[trigger] self.key_seq()[j]),
    {
        let mut i: usize = 0;
        while i < self.keys.len()
            invariant
                self.wf(),
                i <= self.keys.len(),
                forall|j: int| 0 <= j < i ==> lex_lt(#[trigger] self.key_seq()[j], key@),
            decreases self.keys.len() - i,
        {
            let c = compare_bytes(&self.keys[i], key);
            assert(self.key_seq()[i as int] == self.keys@[i as int]@);
            match c {
                ByteOrder::Less => {
                    i = i + 1;
                },
                ByteOrder::Equal => {
                    return (i, true);
                },
                ByteOrder::Greater => {
                    proof {
                        let ks = self.key_seq();
                        assert forall|j: int| i <= j < self.keys.len() implies lex_lt(
                            key@,
                            #[trigger] ks[j],
                        ) by {
                            if j > i {
                                assert(lex_lt(ks[i as int], ks[j]));
                                lemma_lex_transitive(key@, ks[i as int], ks[j]);
                            }
                        }
                    }
                    return (i, false);
                },
            }
        }
        (i, false)
    }

    /// Whether `key` is absent, given the search result of `find`.
    proof fn lemma_absent(&self, key: Seq<u8>, p: int)
        requires
            self.wf(),
            0 <= p <= self.keys.len(),
            forall|i: int| 0 <= i < p ==> lex_lt(#[trigger] self.key_seq()[i], key),
            forall|j: int| p <= j < self.keys.len() ==> lex_lt(key, #[trigger] self.key_seq()[j]),
        ensures
            !self@.dom().contains(key),
    {
        let ks = self.key_seq();
        if ks.contains(key) {
            let j = choose|j: int| 0 <= j < ks.len() && ks[j] == key;
            lemma_lex_irreflexive(key);
            if j < p {
                assert(lex_lt(ks[j], key));
            } else {
                assert(lex_lt(key, ks[j]));
            }
        }
    }

    /// The value stored for `key`, if any.
    pub fn get(&self, key: &Vec<u8>) -> (r: Option<&V>)
        requires
            self.wf(),
        ensures
            match r {
                Some(v) => self@.dom().contains(key@) && v@ == self@[key@],
                None => !self@.dom().contains(key@),
            },
    {
        let (p, found) = self.find(key);
        if found {
            proof {
                self.lemma_lookup(p as int);
            }
            Some(&self.vals[p])
        } else {
            proof {
                self.lemma_absent(key@, p as int);
            }
            None
        }
    }

    /// Whether `key` has an entry.
    pub fn contains_key(&self, key: &Vec<u8>) -> (r: bool)
        requires
            self.wf(),
        ensures
            r == self@.dom().contains(key@),
    {
        match self.get(key) {
            Some(_) => true,
            None => false,
        }
    }

    /// Stores `val` under `key`, replacing any previous value.
    pub fn set(&mut self, key: Vec<u8>, val: V)
        requires
            old(self).wf(),
        ensures
            final(self).wf(),
            final(self)@ == old(self)@.insert(key@, val@),
    {
        let (p, found) = self.find(&key);
        let ghost m = *self;
        let ghost kv = key@;
        let ghost vv = val;
        if found {
            self.vals.set(p, val);
            proof {
                assert(self.key_seq() =~= m.key_seq());
                KeyMap::lemma_overwrite(m, *self, p as int, vv);
            }
        } else {
            self.keys.insert(p, key);
            self.vals.insert(p, val);
            proof {
                assert(self.key_seq() =~= m.key_seq().insert(p as int, kv));
                KeyMap::lemma_insert_fresh(m, *self, p as int, kv, vv);
            }
        }
    }

    /// Deletes the entry for `key`, if there is one.
    pub fn remove(&mut self, key: &Vec<u8>)
        requires
            old(self).wf(),
        ensures
            final(self).wf(),
            final(self)@ == old(self)@.remove(key@),
    {
        let (p, found) = self.find(key);
        let ghost m = *self;
        if found {
            self.keys.remove(p);
            self.vals.remove(p);
            proof {
                assert(self.key_seq() =~= m.key_seq().remove(p as int));
                KeyMap::lemma_delete(m, *self, p as int);
            }
        } else {
            proof {
                self.lemma_absent(key@, p as int);
                assert(self@ =~= m@.remove(key@));
            }
        }
    }

    /// All keys, in ascending byte order.
    pub fn keys(&self) -> (r: Vec<Vec<u8>>)
        requires
            self.wf(),
        ensures
            forall|i: int, j: int| 0 <= i < j < r.len() ==> lex_lt(#[trigger] r[i]@, #[trigger] r[j]@),
            forall|k: Seq<u8>|
                self@.dom().contains(k) <==> exists|i: int| 0 <= i < r.len() && #[trigger] r[i]@ == k,
    {
        let mut r: Vec<Vec<u8>> = Vec::new();
        let mut i: usize = 0;
        while i < self.keys.len()
            invariant
                self.wf(),
                i <= self.keys.len(),
                r.len() == i,
                forall|j: int| 0 <= j < i ==> #[trigger] r[j]@ == self.key_seq()[j],
            decreases self.keys.len() - i,
        {
            let k = copy_bytes(&self.keys[i]);
            assert(self.key_seq()[i as int] == self.keys@[i as int]@);
            r.push(k);
            i = i + 1;
        }
        proof {
            let ks = self.key_seq();
            assert forall|a: int, b: int| 0 <= a < b < r.len() implies lex_lt(
                #[trigger] r[a]@,
                #[trigger] r[b]@,
            ) by {
                assert(lex_lt(ks[a], ks[b]));
            }
            assert forall|k: Seq<u8>| self@.dom().contains(k) <==> exists|j: int|
                0 <= j < r.len() && #[trigger] r[j]@ == k by {
                if self@.dom().contains(k) {
                    let j = choose|j: int| 0 <= j < ks.len() && ks[j] == k;
                    assert(r[j]@ == k);
                }
                if exists|j: int| 0 <= j < r.len() && #[trigger] r[j]@ == k {
                    let j = choose|j: int| 0 <= j < r.len() && #[trigger] r[j]@ == k;
                    assert(ks[j] == k);
                    assert(ks.contains(k));
                }
            }
        }
        r
    }
}

} // verus!
