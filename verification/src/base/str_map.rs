//! A map from strings to values that keeps its keys in ascending order, as a
//! `BTreeMap<String, V>` does.

use vstd::prelude::*;

use crate::base::text::{
    lemma_seq_lt_asymmetric, lemma_seq_lt_irreflexive, lemma_seq_lt_total, lemma_seq_lt_transitive,
    compare_str, seq_lt, Relation,
};

verus! {

/// Keys in strictly ascending code-point order: sorted, no key twice.
pub open spec fn strictly_sorted(ks: Seq<Seq<char>>) -> bool {
    forall|i: int, j: int| 0 <= i < j < ks.len() ==> seq_lt(#[trigger] ks[i], #[trigger] ks[j])
}

pub proof fn lemma_sorted_index_of(ks: Seq<Seq<char>>, j: int)
    requires
        strictly_sorted(ks),
        0 <= j < ks.len(),
    ensures
        ks.index_of(ks[j]) == j,
        ks.contains(ks[j]),
{
    assert(ks.contains(ks[j]));
    let i = ks.index_of(ks[j]);
    assert(0 <= i < ks.len() && ks[i] == ks[j]);
    if i != j {
        lemma_seq_lt_irreflexive(ks[j]);
        if i < j {
            assert(seq_lt(ks[i], ks[j]));
        } else {
            assert(seq_lt(ks[j], ks[i]));
        }
    }
}

/// A copy that has the same view.
pub trait DeepClone: Sized + View {
    fn deep_clone(&self) -> (r: Self)
        ensures
            r@ == self@,
    ;
}

impl DeepClone for String {
    fn deep_clone(&self) -> (r: String) {
        self.clone()
    }
}

/// An ordered map keyed by strings.
#[derive(Debug, PartialEq, Eq)]
pub struct StrMap<V> {
    entries: Vec<(String, V)>,
}

impl<V> StrMap<V> {
    /// The keys, in ascending order.
    pub closed spec fn keys(&self) -> Seq<Seq<char>> {
        Seq::new(self.entries@.len(), |i: int| self.entries@[i].0@)
    }

    /// The values, in the order of their keys.
    pub closed spec fn values(&self) -> Seq<V> {
        Seq::new(self.entries@.len(), |i: int| self.entries@[i].1)
    }

    /// The map's contents.
    pub open spec fn view(&self) -> Map<Seq<char>, V> {
        Map::new(
            |k: Seq<char>| self.keys().contains(k),
            |k: Seq<char>| self.values()[self.keys().index_of(k)],
        )
    }

    /// Keys are strictly ascending and each has its value.
    #[verifier::type_invariant]
    pub open spec fn wf(&self) -> bool {
        &&& strictly_sorted(self.keys())
        &&& self.keys().len() == self.values().len()
    }

    /// The contents with each value taken by its view.
    pub open spec fn view_values(&self) -> Map<Seq<char>, V::V> where V: View {
        self@.map_values(|v: V| v@)
    }

    /// What the view holds at each position of the ordered entries.
    pub proof fn lemma_view(&self)
        requires
            self.wf(),
        ensures
            forall|i: int|
                0 <= i < self.keys().len() ==> #[trigger] self@.contains_key(self.keys()[i])
                    && self@[self.keys()[i]] == self.values()[i],
            forall|k: Seq<char>| #[trigger] self@.contains_key(k) <==> self.keys().contains(k),
            self@.dom().finite(),
            self@.dom().len() == self.keys().len(),
    {
        assert forall|i: int| 0 <= i < self.keys().len() implies #[trigger] self@.contains_key(
            self.keys()[i],
        ) && self@[self.keys()[i]] == self.values()[i] by {
            lemma_sorted_index_of(self.keys(), i);
        }
        let ks = self.keys();
        assert(ks.no_duplicates()) by {
            assert forall|i: int, j: int| 0 <= i < ks.len() && 0 <= j < ks.len() && i != j implies ks[i]
                != ks[j] by {
                lemma_seq_lt_irreflexive(ks[i]);
                if i < j {
                    assert(seq_lt(ks[i], ks[j]));
                } else {
                    assert(seq_lt(ks[j], ks[i]));
                }
            }
        }
        assert(self@.dom() =~= ks.to_set());
        ks.unique_seq_to_set();
    }

    /// An empty map.
    pub fn new() -> (m: Self)
        ensures
            m.wf(),
            m.keys() == Seq::<Seq<char>>::empty(),
            m.values() == Seq::<V>::empty(),
            m@ == Map::<Seq<char>, V>::empty(),
    {
        let m = StrMap { entries: Vec::new() };
        assert(m.keys() =~= Seq::<Seq<char>>::empty());
        assert(m.values() =~= Seq::<V>::empty());
        assert(m@ =~= Map::<Seq<char>, V>::empty());
        m
    }

    /// The number of entries.
    pub fn len(&self) -> (n: usize)
        ensures
            n == self.keys().len(),
            n == self.values().len(),
    {
        self.entries.len()
    }

    /// The keys in ascending order.
    pub fn key_list(&self) -> (r: Vec<String>)
        ensures
            r@.len() == self.keys().len(),
            forall|i: int| 0 <= i < r@.len() ==> (#[trigger] r@[i])@ == self.keys()[i],
    {
        let n = self.entries.len();
        let mut r: Vec<String> = Vec::new();
        let mut i: usize = 0;
        while i < n
            invariant
                n == self.entries@.len(),
                i <= n,
                r@.len() == i,
                forall|j: int| 0 <= j < i ==> (#[trigger] r@[j])@ == self.keys()[j],
            decreases n - i,
        {
            r.push(self.entries[i].0.clone());
            i = i + 1;
        }
        r
    }

    /// The key at position `i` of the ascending order.
    pub fn key_at(&self, i: usize) -> (k: &String)
        requires
            i < self.keys().len(),
        ensures
            k@ == self.keys()[i as int],
    {
        &self.entries[i].0
    }

    /// The value at position `i` of the ascending order of keys.
    pub fn value_at(&self, i: usize) -> (v: &V)
        requires
            i < self.values().len(),
        ensures
            *v == self.values()[i as int],
    {
        &self.entries[i].1
    }

    /// The first position whose key is not below `k`.
    fn lower_bound(&self, k: &str) -> (r: (usize, bool))
        ensures
            r.0 <= self.keys().len(),
            forall|i: int| 0 <= i < r.0 ==> seq_lt(#[trigger] self.keys()[i], k@),
            r.0 < self.keys().len() ==> !seq_lt(self.keys()[r.0 as int], k@),
            r.1 <==> (r.0 < self.keys().len() && self.keys()[r.0 as int] == k@),
    {
        proof {
            use_type_invariant(self);
        }
        let n = self.entries.len();
        let mut i: usize = 0;
        while i < n
            invariant
                self.wf(),
                n == self.keys().len(),
                i <= n,
                forall|j: int| 0 <= j < i ==> seq_lt(#[trigger] self.keys()[j], k@),
            decreases n - i,
        {
            let rel = compare_str(self.entries[i].0.as_str(), k);
            assert(self.entries@[i as int].0@ == self.keys()[i as int]);
            match rel {
                Relation::Less => {},
                Relation::Equal => {
                    return (i, true);
                },
                Relation::Greater => {
                    proof {
                        lemma_seq_lt_asymmetric(k@, self.keys()[i as int]);
                    }
                    return (i, false);
                },
            }
            i = i + 1;
        }
        (i, false)
    }

    /// Whether `k` is a key.
    pub fn contains_key(&self, k: &str) -> (r: bool)
        ensures
            r == self@.contains_key(k@),
    {
        let (p, found) = self.lower_bound(k);
        proof {
            use_type_invariant(self);
            self.lemma_view();
            if self.keys().contains(k@) {
                self.lemma_absent(k, p as int);
            }
        }
        found
    }

    proof fn lemma_absent(&self, k: &str, p: int)
        requires
            self.wf(),
            self.keys().contains(k@),
            0 <= p <= self.keys().len(),
            forall|i: int| 0 <= i < p ==> seq_lt(#[trigger] self.keys()[i], k@),
            p < self.keys().len() ==> !seq_lt(self.keys()[p], k@),
        ensures
            p < self.keys().len(),
            self.keys()[p] == k@,
    {
        let j = self.keys().index_of(k@);
        lemma_seq_lt_irreflexive(k@);
        if j < p {
            assert(seq_lt(self.keys()[j], k@));
        }
        if j > p {
            assert(seq_lt(self.keys()[p], self.keys()[j]));
        }
    }

    /// The value of key `k`, if any.
    pub fn get(&self, k: &str) -> (r: Option<&V>)
        ensures
            r == (if self@.contains_key(k@) {
                Some(&self@[k@])
            } else {
                None
            }),
    {
        let (p, found) = self.lower_bound(k);
        proof {
            use_type_invariant(self);
            self.lemma_view();
            if self.keys().contains(k@) {
                self.lemma_absent(k, p as int);
            }
        }
        if found {
            Some(&self.entries[p].1)
        } else {
            None
        }
    }

    /// Sets the value of key `k`; an existing value of `k` is replaced.
    pub fn insert(&mut self, k: String, v: V)
        ensures
            final(self)@ == old(self)@.insert(k@, v),
    {
        proof {
            use_type_invariant(&*self);
        }
        let ghost old_keys = self.keys();
        let ghost old_vals = self.values();
        proof {
            self.lemma_view();
        }
        let (p, found) = self.lower_bound(k.as_str());
        let ghost kv = k@;
        proof {
            if p < old_keys.len() && !found {
                lemma_seq_lt_total(old_keys[p as int], kv);
                assert(seq_lt(kv, old_keys[p as int]));
            }
        }
        let mut entries: Vec<(String, V)> = Vec::new();
        std::mem::swap(&mut entries, &mut self.entries);
        if found {
            entries.set(p, (k, v));
            proof {
                let m = StrMap { entries: entries };
                assert(m.keys() =~= old_keys);
                assert(m.values() =~= old_vals.update(p as int, v));
            }
            self.entries = entries;
            proof {
                self.lemma_view();
                assert(self@ =~= old(self)@.insert(kv, v));
            }
        } else {
            entries.insert(p, (k, v));
            proof {
                let m = StrMap { entries: entries };
                let nk = m.keys();
                assert(nk =~= old_keys.insert(p as int, kv));
                assert(m.values() =~= old_vals.insert(p as int, v));
                assert forall|i: int, j: int| 0 <= i < j < nk.len() implies seq_lt(
                    #[trigger] nk[i],
                    #[trigger] nk[j],
                ) by {
                    if p < old_keys.len() {
                        lemma_seq_lt_total(old_keys[p as int], kv);
                    }
                    if j < p {
                    } else if j == p {
                    } else if i < p {
                        assert(seq_lt(nk[i], kv));
                        assert(seq_lt(kv, old_keys[p as int]));
                        if j - 1 > p {
                            assert(seq_lt(old_keys[p as int], old_keys[j - 1]));
                            lemma_seq_lt_transitive(kv, old_keys[p as int], old_keys[j - 1]);
                        }
                        lemma_seq_lt_transitive(nk[i], kv, nk[j]);
                    } else if i == p {
                        if j - 1 > p {
                            assert(seq_lt(old_keys[p as int], old_keys[j - 1]));
                            lemma_seq_lt_transitive(kv, old_keys[p as int], old_keys[j - 1]);
                        }
                    } else {
                        assert(nk[i] == old_keys[i - 1]);
                        assert(nk[j] == old_keys[j - 1]);
                    }
                }
            }
            self.entries = entries;
            proof {
                let nk = self.keys();
                assert(nk =~= old_keys.insert(p as int, kv));
                assert(self.values() =~= old_vals.insert(p as int, v));
                self.lemma_view();
                assert forall|x: Seq<char>| #[trigger]
                    self@.contains_key(x) == old(self)@.insert(kv, v).contains_key(x) by {
                    if nk.contains(x) {
                        let j = nk.index_of(x);
                        if j != p {
                            if j < p {
                                assert(old_keys[j] == x);
                            } else {
                                assert(old_keys[j - 1] == x);
                            }
                        }
                    }
                    if old_keys.contains(x) {
                        let j = old_keys.index_of(x);
                        if j < p {
                            assert(nk[j] == x);
                        } else {
                            assert(nk[j + 1] == x);
                        }
                    }
                    if x == kv {
                        assert(nk[p as int] == kv);
                    }
                }
                assert forall|x: Seq<char>| #[trigger] self@.contains_key(x) implies self@[x]
                    == old(self)@.insert(kv, v)[x] by {
                    let j = nk.index_of(x);
                    lemma_sorted_index_of(nk, j);
                    lemma_seq_lt_irreflexive(kv);
                    if j < p {
                        assert(old_keys[j] == x);
                        lemma_sorted_index_of(old_keys, j);
                        assert(seq_lt(old(self).keys()[j], kv));
                        assert(x != kv);
                    } else if j > p {
                        assert(old_keys[j - 1] == x);
                        lemma_sorted_index_of(old_keys, j - 1);
                        if j - 1 > p {
                            assert(seq_lt(old_keys[p as int], old_keys[j - 1]));
                            lemma_seq_lt_transitive(kv, old_keys[p as int], old_keys[j - 1]);
                        }
                        assert(seq_lt(kv, x));
                    }
                }
                assert(self@ =~= old(self)@.insert(kv, v));
            }
        }
    }
}

impl<V: DeepClone> StrMap<V> {
    /// A copy of the map whose values have the same views.
    pub fn deep_clone(&self) -> (r: Self)
        ensures
            r.keys() == self.keys(),
            r.values().len() == self.values().len(),
            forall|i: int|
                0 <= i < self.values().len() ==> (#[trigger] r.values()[i])@ == self.values()[i]@,
            r.view_values() == self.view_values(),
    {
        proof {
            use_type_invariant(self);
        }
        let n = self.entries.len();
        let mut entries: Vec<(String, V)> = Vec::new();
        let mut i: usize = 0;
        while i < n
            invariant
                n == self.entries@.len(),
                i <= n,
                entries@.len() == i,
                forall|j: int| 0 <= j < i ==> (#[trigger] entries@[j]).0@ == self.entries@[j].0@,
                forall|j: int| 0 <= j < i ==> (#[trigger] entries@[j]).1@ == self.entries@[j].1@,
            decreases n - i,
        {
            let k = self.entries[i].0.clone();
            let v = self.entries[i].1.deep_clone();
            entries.push((k, v));
            i = i + 1;
        }
        proof {
            let m = StrMap { entries: entries };
            assert(m.keys() =~= self.keys());
        }
        let r = StrMap { entries };
        proof {
            assert(r.keys() =~= self.keys());
            self.lemma_view();
            r.lemma_view();
            assert(r.view_values() =~= self.view_values()) by {
                assert forall|k: Seq<char>| #[trigger] r.view_values().contains_key(k) implies r.view_values()[k]
                    == self.view_values()[k] by {
                    let j = r.keys().index_of(k);
                    assert(r.values()[j] == r.entries@[j].1);
                }
            }
        }
        r
    }
}

} // verus!
