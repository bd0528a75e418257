//! A map from strings to values that keeps its keys in ascending
//! lexicographic order, so that walking it visits the keys in the same order
//! as a `BTreeMap<String, V>` would.

use vstd::prelude::*;

use crate::text::{lemma_seq_lt_irreflexive, lemma_seq_lt_total, lemma_seq_lt_transitive, seq_lt, str_eq, str_lt};

verus! {

/// The keys of `s` are in strictly ascending order (so no key occurs twice).
pub open spec fn keys_sorted<V>(s: Seq<(Seq<char>, V)>) -> bool {
    forall|i: int, j: int| 0 <= i < j < s.len() ==> seq_lt(#[trigger] s[i].0, #[trigger] s[j].0)
}

/// Some entry of `s` has the key `k`.
pub open spec fn has_key<V>(s: Seq<(Seq<char>, V)>, k: Seq<char>) -> bool {
    exists|i: int| 0 <= i < s.len() && #[trigger] s[i].0 == k
}

/// A position of `s` holding the key `k`, when there is one.
pub open spec fn key_pos<V>(s: Seq<(Seq<char>, V)>, k: Seq<char>) -> int {
    choose|i: int| 0 <= i < s.len() && #[trigger] s[i].0 == k
}

/// The value stored under `k` in `s`, if any.
pub open spec fn lookup<V>(s: Seq<(Seq<char>, V)>, k: Seq<char>) -> Option<V> {
    if has_key(s, k) {
        Some(s[key_pos(s, k)].1)
    } else {
        None
    }
}

/// The keys of `s`, in order.
pub open spec fn key_seq<V>(s: Seq<(Seq<char>, V)>) -> Seq<Seq<char>> {
    s.map_values(|e: (Seq<char>, V)| e.0)
}

/// In a sorted entry list, the entry at position `i` is the one found by
/// looking up its key.
pub proof fn lemma_lookup_at<V>(s: Seq<(Seq<char>, V)>, i: int)
    requires
        keys_sorted(s),
        0 <= i < s.len(),
    ensures
        has_key(s, s[i].0),
        lookup(s, s[i].0) == Some(s[i].1),
{
    let k = s[i].0;
    assert(s[i].0 == k);
    let j = key_pos(s, k);
    if j < i {
        assert(seq_lt(s[j].0, s[i].0));
        lemma_seq_lt_irreflexive(k);
    } else if j > i {
        assert(seq_lt(s[i].0, s[j].0));
        lemma_seq_lt_irreflexive(k);
    }
}

/// A map with string keys, walked in ascending key order.
#[derive(Debug)]
pub struct StrMap<V> {
    entries: Vec<(String, V)>,
}

impl<V> View for StrMap<V> {
    type V = Seq<(Seq<char>, V)>;

    closed spec fn view(&self) -> Seq<(Seq<char>, V)> {
        self.entries@.map_values(|e: (String, V)| (e.0@, e.1))
    }
}

impl<V: Clone> Clone for StrMap<V> {
    /// A copy with the same keys in the same order, each value cloned.
    fn clone(&self) -> (r: Self)
        ensures
            key_seq(r@) == key_seq(self@),
            forall|i: int| 0 <= i < self@.len() ==> cloned(#[trigger] self@[i].1, r@[i].1),
    {
        proof {
            use_type_invariant(self);
        }
        let n = self.entries.len();
        let mut entries: Vec<(String, V)> = Vec::new();
        let mut i: usize = 0;
        while i < n
            invariant
                n == self.entries@.len(),
                n == self@.len(),
                i <= n,
                entries@.len() == i,
                forall|j: int| 0 <= j < i ==> (#[trigger] entries@[j]).0@ == self@[j].0 && cloned(self@[j].1, entries@[j].1),
            decreases n - i,
        {
            let k = self.entries[i].0.clone();
            let v = self.entries[i].1.clone();
            entries.push((k, v));
            i = i + 1;
        }
        let r = StrMap { entries };
        proof {
            assert(key_seq(r@) =~= key_seq(self@));
            assert(keys_sorted(r@)) by {
                assert forall|a: int, b: int| 0 <= a < b < r@.len() implies seq_lt(#[trigger] r@[a].0, #[trigger] r@[b].0) by {
                    assert(seq_lt(self@[a].0, self@[b].0));
                }
            }
        }
        r
    }
}

impl<V> StrMap<V> {
    #[verifier::type_invariant]
    closed spec fn sorted(self) -> bool {
        keys_sorted(self@)
    }

    /// An empty map.
    pub fn new() -> (m: Self)
        ensures
            m@ == Seq::<(Seq<char>, V)>::empty(),
    {
        let m = StrMap { entries: Vec::new() };
        assert(m@ =~= Seq::<(Seq<char>, V)>::empty());
        m
    }

    /// The number of keys.
    pub fn len(&self) -> (n: usize)
        ensures
            n == self@.len(),
            keys_sorted(self@),
    {
        proof {
            use_type_invariant(self);
        }
        self.entries.len()
    }

    /// The key and value at position `i` in key order.
    pub fn entry(&self, i: usize) -> (r: (&String, &V))
        requires
            i < self@.len(),
        ensures
            r.0@ == self@[i as int].0,
            *r.1 == self@[i as int].1,
            keys_sorted(self@),
    {
        proof {
            use_type_invariant(self);
        }
        let e = &self.entries[i];
        (&e.0, &e.1)
    }

    /// The position where `k` is or would be inserted: every earlier key
    /// precedes `k`, and no later key does.
    fn position(&self, k: &str) -> (p: usize)
        ensures
            p <= self@.len(),
            forall|i: int| 0 <= i < p ==> seq_lt(#[trigger] self@[i].0, k@),
            p < self@.len() ==> !seq_lt(self@[p as int].0, k@),
    {
        let n = self.entries.len();
        let mut i: usize = 0;
        while i < n
            invariant
                n == self@.len(),
                n == self.entries@.len(),
                i <= n,
                forall|j: int| 0 <= j < i ==> seq_lt(#[trigger] self@[j].0, k@),
            decreases n - i,
        {
            if !str_lt(self.entries[i].0.as_str(), k) {
                return i;
            }
            i = i + 1;
        }
        n
    }

    /// The value stored under `k`.
    pub fn get(&self, k: &str) -> (r: Option<&V>)
        ensures
            match r {
                Some(v) => lookup(self@, k@) == Some(*v),
                None => lookup(self@, k@) is None,
            },
            keys_sorted(self@),
    {
        proof {
            use_type_invariant(self);
        }
        let p = self.position(k);
        if p < self.entries.len() && str_eq(self.entries[p].0.as_str(), k) {
            proof {
                lemma_lookup_at(self@, p as int);
            }
            Some(&self.entries[p].1)
        } else {
            proof {
                if has_key(self@, k@) {
                    let j = choose|j: int| 0 <= j < self@.len() && #[trigger] self@[j].0 == k@;
                    if j < p {
                        assert(seq_lt(self@[j].0, k@));
                        lemma_seq_lt_irreflexive(k@);
                    } else if j > p {
                        assert(seq_lt(self@[p as int].0, self@[j].0));
                        lemma_seq_lt_total(self@[p as int].0, k@);
                    }
                }
            }
            None
        }
    }

    /// The keys, in ascending order.
    pub fn keys(&self) -> (r: Vec<String>)
        ensures
            r.deep_view() == key_seq(self@),
            keys_sorted(self@),
    {
        proof {
            use_type_invariant(self);
        }
        let n = self.entries.len();
        let mut out: Vec<String> = Vec::new();
        let mut i: usize = 0;
        while i < n
            invariant
                n == self.entries@.len(),
                n == self@.len(),
                i <= n,
                out.deep_view() == key_seq(self@).take(i as int),
            decreases n - i,
        {
            let k = self.entries[i].0.clone();
            let ghost before = out.deep_view();
            out.push(k);
            assert(out.deep_view() =~= before.push(self@[i as int].0));
            assert(key_seq(self@).take(i + 1) =~= key_seq(self@).take(i as int).push(self@[i as int].0));
            i = i + 1;
        }
        assert(key_seq(self@).take(n as int) =~= key_seq(self@));
        out
    }

    /// Put `v` in place of the value at position `i`, returning the value
    /// that was there.  The keys do not change.
    pub fn replace_value_at(&mut self, i: usize, v: V) -> (old_v: V)
        requires
            i < old(self)@.len(),
        ensures
            final(self)@ == old(self)@.update(i as int, (old(self)@[i as int].0, v)),
            old_v == old(self)@[i as int].1,
            keys_sorted(final(self)@),
    {
        proof {
            use_type_invariant(&*self);
        }
        let ghost old_view = self@;
        let mut entries: Vec<(String, V)> = Vec::new();
        std::mem::swap(&mut entries, &mut self.entries);
        assert(entries@.map_values(|e: (String, V)| (e.0@, e.1)) =~= old_view);
        let (k, old_v) = entries.remove(i);
        entries.insert(i, (k, v));
        let ghost nv = entries@.map_values(|e: (String, V)| (e.0@, e.1));
        assert(nv =~= old_view.update(i as int, (old_view[i as int].0, v)));
        assert(keys_sorted(nv)) by {
            assert forall|a: int, b: int| 0 <= a < b < nv.len() implies seq_lt(#[trigger] nv[a].0, #[trigger] nv[b].0) by {
                assert(seq_lt(old_view[a].0, old_view[b].0));
            }
        }
        self.entries = entries;
        old_v
    }

    /// Store `v` under `k` unless some value is already stored there.
    pub fn insert_if_absent(&mut self, k: String, v: V)
        ensures
            has_key(old(self)@, k@) ==> final(self)@ == old(self)@,
            !has_key(old(self)@, k@) ==> lookup(final(self)@, k@) == Some(v),
            forall|k2: Seq<char>| k2 != k@ ==> lookup(final(self)@, k2) == lookup(old(self)@, k2),
            forall|k2: Seq<char>| has_key(final(self)@, k2) <==> (has_key(old(self)@, k2) || k2 == k@),
            keys_sorted(final(self)@),
    {
        proof {
            use_type_invariant(&*self);
        }
        if !self.contains_key(k.as_str()) {
            self.insert(k, v);
        }
    }

    /// Is there a value stored under `k`?
    pub fn contains_key(&self, k: &str) -> (r: bool)
        ensures
            r == has_key(self@, k@),
    {
        let g = self.get(k);
        g.is_some()
    }

    /// Store `v` under `k`, replacing any value already there.
    pub fn insert(&mut self, k: String, v: V)
        ensures
            keys_sorted(final(self)@),
            lookup(final(self)@, k@) == Some(v),
            forall|k2: Seq<char>| k2 != k@ ==> lookup(final(self)@, k2) == lookup(old(self)@, k2),
            forall|k2: Seq<char>| has_key(final(self)@, k2) <==> (has_key(old(self)@, k2) || k2 == k@),
            has_key(old(self)@, k@) ==> final(self)@.len() == old(self)@.len(),
            !has_key(old(self)@, k@) ==> final(self)@.len() == old(self)@.len() + 1,
    {
        proof {
            use_type_invariant(&*self);
        }
        let ghost old_view = self@;
        let p = self.position(k.as_str());
        let mut entries: Vec<(String, V)> = Vec::new();
        std::mem::swap(&mut entries, &mut self.entries);
        assert(entries@.map_values(|e: (String, V)| (e.0@, e.1)) =~= old_view);
        if p < entries.len() && str_eq(entries[p].0.as_str(), k.as_str()) {
            let ghost kv = k@;
            entries.set(p, (k, v));
            let ghost nv = entries@.map_values(|e: (String, V)| (e.0@, e.1));
            assert(nv =~= old_view.update(p as int, (kv, v)));
            assert(keys_sorted(nv)) by {
                assert forall|i: int, j: int| 0 <= i < j < nv.len() implies seq_lt(#[trigger] nv[i].0, #[trigger] nv[j].0) by {
                    assert(seq_lt(old_view[i].0, old_view[j].0));
                }
            }
            self.entries = entries;
            proof {
                assert(self@ == nv);
                lemma_lookup_at(nv, p as int);
                lemma_lookup_at(old_view, p as int);
                assert forall|k2: Seq<char>| k2 != kv implies lookup(nv, k2) == lookup(old_view, k2) by {
                    if has_key(old_view, k2) {
                        let i = choose|i: int| 0 <= i < old_view.len() && #[trigger] old_view[i].0 == k2;
                        lemma_lookup_at(old_view, i);
                        lemma_lookup_at(nv, i);
                    } else {
                        if has_key(nv, k2) {
                            let i = choose|i: int| 0 <= i < nv.len() && #[trigger] nv[i].0 == k2;
                            assert(old_view[i].0 == k2);
                        }
                    }
                }
                assert forall|k2: Seq<char>| has_key(nv, k2) <==> (has_key(old_view, k2) || k2 == kv) by {
                    if has_key(nv, k2) {
                        let i = choose|i: int| 0 <= i < nv.len() && #[trigger] nv[i].0 == k2;
                        assert(old_view[i].0 == nv[i].0);
                    }
                    if has_key(old_view, k2) {
                        let i = choose|i: int| 0 <= i < old_view.len() && #[trigger] old_view[i].0 == k2;
                        assert(nv[i].0 == old_view[i].0);
                    }
                }
            }
        } else {
            let ghost kv = k@;
            proof {
                if p < old_view.len() {
                    lemma_seq_lt_total(old_view[p as int].0, kv);
                }
            }
            entries.insert(p, (k, v));
            let ghost nv = entries@.map_values(|e: (String, V)| (e.0@, e.1));
            assert(nv =~= old_view.insert(p as int, (kv, v)));
            assert(keys_sorted(nv)) by {
                assert forall|i: int, j: int| 0 <= i < j < nv.len() implies seq_lt(#[trigger] nv[i].0, #[trigger] nv[j].0) by {
                    if j < p {
                        assert(seq_lt(old_view[i].0, old_view[j].0));
                    } else if j == p {
                        assert(seq_lt(old_view[i].0, kv));
                    } else if i == p {
                        // kv precedes old_view[p], which precedes or is old_view[j - 1]
                        if j - 1 > p {
                            assert(seq_lt(old_view[p as int].0, old_view[j - 1].0));
                            lemma_seq_lt_transitive(kv, old_view[p as int].0, old_view[j - 1].0);
                        }
                    } else if i < p {
                        assert(seq_lt(old_view[i].0, kv));
                        if j - 1 > p {
                            assert(seq_lt(old_view[p as int].0, old_view[j - 1].0));
                            lemma_seq_lt_transitive(kv, old_view[p as int].0, old_view[j - 1].0);
                        }
                        lemma_seq_lt_transitive(old_view[i].0, kv, old_view[j - 1].0);
                    } else {
                        assert(seq_lt(old_view[i - 1].0, old_view[j - 1].0));
                    }
                }
            }
            self.entries = entries;
            proof {
                assert(self@ == nv);
                lemma_lookup_at(nv, p as int);
                assert(!has_key(old_view, kv)) by {
                    if has_key(old_view, kv) {
                        let j = choose|j: int| 0 <= j < old_view.len() && #[trigger] old_view[j].0 == kv;
                        if j < p {
                            assert(seq_lt(old_view[j].0, kv));
                            lemma_seq_lt_irreflexive(kv);
                        } else if j > p {
                            assert(seq_lt(old_view[p as int].0, old_view[j].0));
                            lemma_seq_lt_total(old_view[p as int].0, kv);
                        }
                    }
                }
                assert forall|k2: Seq<char>| k2 != kv implies lookup(nv, k2) == lookup(old_view, k2) by {
                    if has_key(old_view, k2) {
                        let i = choose|i: int| 0 <= i < old_view.len() && #[trigger] old_view[i].0 == k2;
                        lemma_lookup_at(old_view, i);
                        if i < p {
                            lemma_lookup_at(nv, i);
                        } else {
                            assert(nv[i + 1] == old_view[i]);
                            lemma_lookup_at(nv, i + 1);
                        }
                    } else {
                        if has_key(nv, k2) {
                            let i = choose|i: int| 0 <= i < nv.len() && #[trigger] nv[i].0 == k2;
                            if i < p {
                                assert(old_view[i].0 == k2);
                            } else if i > p {
                                assert(old_view[i - 1].0 == k2);
                            }
                        }
                    }
                }
                assert forall|k2: Seq<char>| has_key(nv, k2) <==> (has_key(old_view, k2) || k2 == kv) by {
                    if has_key(nv, k2) {
                        let i = choose|i: int| 0 <= i < nv.len() && #[trigger] nv[i].0 == k2;
                        if i < p {
                            assert(old_view[i].0 == k2);
                        } else if i > p {
                            assert(old_view[i - 1].0 == k2);
                        }
                    }
                    if has_key(old_view, k2) {
                        let i = choose|i: int| 0 <= i < old_view.len() && #[trigger] old_view[i].0 == k2;
                        if i < p {
                            assert(nv[i].0 == k2);
                        } else {
                            assert(nv[i + 1].0 == k2);
                        }
                    }
                }
            }
        }
    }
}

} // verus!
