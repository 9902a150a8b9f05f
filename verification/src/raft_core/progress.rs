//! Per-member progress and what a majority of the members has reached.

use vstd::prelude::*;

use crate::base::str_map::strictly_sorted;
use crate::base::text::{compare_str, Relation};
use crate::storage::membership::membership::Membership;
use crate::storage::membership::NodeId;

verus! {

/// The number of `true` values.
pub open spec fn count_true(vals: Seq<bool>) -> nat
    decreases vals.len(),
{
    if vals.len() == 0 {
        0
    } else {
        count_true(vals.drop_last()) + if vals.last() {
            1nat
        } else {
            0nat
        }
    }
}

/// Two sets of members, as flags over the same members, that share no member
/// count together at most all the members.
proof fn lemma_disjoint_counts(a: Seq<bool>, b: Seq<bool>)
    requires
        a.len() == b.len(),
        forall|i: int| 0 <= i < a.len() ==> !(a[i] && b[i]),
    ensures
        count_true(a) + count_true(b) <= a.len(),
    decreases a.len(),
{
    if a.len() > 0 {
        lemma_disjoint_counts(a.drop_last(), b.drop_last());
    }
}

/// Two majorities of the same members share a member: two candidates that a
/// majority each granted in one term were granted by a common member.
pub proof fn lemma_majorities_intersect(a: Seq<bool>, b: Seq<bool>)
    requires
        a.len() == b.len(),
        count_true(a) * 2 > a.len(),
        count_true(b) * 2 > b.len(),
    ensures
        exists|i: int| 0 <= i < a.len() && a[i] && b[i],
{
    if forall|i: int| 0 <= i < a.len() ==> !(a[i] && b[i]) {
        lemma_disjoint_counts(a, b);
    }
}

/// `a` is no earlier than `b`; no time is earlier than every time.
pub open spec fn clock_ge(a: Option<u64>, b: Option<u64>) -> bool {
    match b {
        None => true,
        Some(y) => match a {
            Some(x) => x >= y,
            None => false,
        },
    }
}

/// The later of two times.
pub open spec fn clock_max(a: Option<u64>, b: Option<u64>) -> Option<u64> {
    if clock_ge(a, b) {
        a
    } else {
        b
    }
}

/// The number of values that are no earlier than `v`.
pub open spec fn count_ge(vals: Seq<Option<u64>>, v: Option<u64>) -> nat
    decreases vals.len(),
{
    if vals.len() == 0 {
        0
    } else {
        count_ge(vals.drop_last(), v) + if clock_ge(vals.last(), v) {
            1nat
        } else {
            0nat
        }
    }
}

/// Value `j` is reached by a majority.
pub open spec fn majority_reached(vals: Seq<Option<u64>>, j: int) -> bool {
    count_ge(vals, vals[j]) * 2 > vals.len()
}

/// The latest of the first `k` values that a majority has reached.
pub open spec fn quorum_value_upto(vals: Seq<Option<u64>>, k: int) -> Option<u64>
    decreases k,
{
    if k <= 0 {
        None
    } else {
        clock_max(
            quorum_value_upto(vals, k - 1),
            if majority_reached(vals, k - 1) {
                vals[k - 1]
            } else {
                None
            },
        )
    }
}

/// The latest value that a majority of the members has reached.
pub open spec fn quorum_value(vals: Seq<Option<u64>>) -> Option<u64> {
    quorum_value_upto(vals, vals.len() as int)
}

proof fn lemma_count_ge_none(vals: Seq<Option<u64>>)
    ensures
        count_ge(vals, None) == vals.len(),
    decreases vals.len(),
{
    if vals.len() > 0 {
        lemma_count_ge_none(vals.drop_last());
    }
}

proof fn lemma_quorum_value_upto(vals: Seq<Option<u64>>, k: int)
    requires
        0 <= k <= vals.len(),
    ensures
        quorum_value_upto(vals, k) is None || exists|j: int|
            0 <= j < k && majority_reached(vals, j) && vals[j] == quorum_value_upto(vals, k),
        forall|j: int|
            0 <= j < k && majority_reached(vals, j) ==> clock_ge(
                quorum_value_upto(vals, k),
                #[trigger] vals[j],
            ),
    decreases k,
{
    if k > 0 {
        lemma_quorum_value_upto(vals, k - 1);
    }
}

/// The quorum value is reached by a majority of the members, and it is the
/// latest of the members' values that a majority has reached.
pub proof fn lemma_quorum_value(vals: Seq<Option<u64>>)
    requires
        vals.len() > 0,
    ensures
        count_ge(vals, quorum_value(vals)) * 2 > vals.len(),
        forall|j: int|
            0 <= j < vals.len() && majority_reached(vals, j) ==> clock_ge(
                quorum_value(vals),
                #[trigger] vals[j],
            ),
{
    lemma_quorum_value_upto(vals, vals.len() as int);
    lemma_count_ge_none(vals);
}

/// Progress of each member, in ascending order of member ids.
#[derive(Debug)]
pub struct Progress<V> {
    ids: Vec<NodeId>,
    values: Vec<V>,
}

impl<V> Progress<V> {
    /// The member ids, ascending.
    pub closed spec fn ids(&self) -> Seq<Seq<char>> {
        self.ids@.map_values(|s: String| s@)
    }

    /// The value of each member, in the order of `ids`.
    pub closed spec fn values(&self) -> Seq<V> {
        self.values@
    }

    #[verifier::type_invariant]
    pub closed spec fn wf(&self) -> bool {
        &&& self.ids@.len() == self.values@.len()
        &&& strictly_sorted(self.ids())
    }

    /// The position of member `id`.
    pub open spec fn position(&self, id: Seq<char>) -> int {
        self.ids().index_of(id)
    }
}

impl<V: Copy> Progress<V> {
    /// Every member of `membership` starts at `init`.
    pub fn new(membership: &Membership, init: V) -> (r: Self)
        ensures
            r.ids() == membership.ids(),
            r.values() == Seq::new(membership.ids().len(), |i: int| init),
    {
        let ids = membership.node_ids();
        let n = ids.len();
        let mut values: Vec<V> = Vec::new();
        let mut i: usize = 0;
        while i < n
            invariant
                n == ids@.len(),
                i <= n,
                values@ == Seq::new(i as nat, |j: int| init),
            decreases n - i,
        {
            values.push(init);
            i = i + 1;
            assert(values@ =~= Seq::new(i as nat, |j: int| init));
        }
        proof {
            assert(ids@.map_values(|s: String| s@) =~= membership.ids());
        }
        Progress { ids, values }
    }

    /// The number of members.
    pub fn len(&self) -> (n: usize)
        ensures
            n == self.ids().len(),
            n == self.values().len(),
    {
        proof {
            use_type_invariant(self);
        }
        self.ids.len()
    }

    /// The id of the member at position `i`.
    pub fn id_at(&self, i: usize) -> (r: &NodeId)
        requires
            i < self.ids().len(),
        ensures
            r@ == self.ids()[i as int],
    {
        &self.ids[i]
    }

    /// The value of the member at position `i`.
    pub fn value_at(&self, i: usize) -> (r: V)
        requires
            i < self.values().len(),
        ensures
            r == self.values()[i as int],
    {
        proof {
            use_type_invariant(self);
        }
        self.values[i]
    }

    /// All values, in the order of member ids.
    pub fn value_list(&self) -> (r: &Vec<V>)
        ensures
            r@ == self.values(),
    {
        &self.values
    }

    /// The position of member `id`, if it is a member.
    pub fn index_of(&self, id: &str) -> (r: Option<usize>)
        ensures
            r is Some <==> self.ids().contains(id@),
            r is Some ==> r->0 == self.position(id@) && 0 <= r->0 < self.ids().len(),
            self.ids().len() == self.values().len(),
    {
        proof {
            use_type_invariant(self);
            assert(self.ids().len() == self.ids@.len());
        }
        let n = self.ids.len();
        let mut i: usize = 0;
        while i < n
            invariant
                n == self.ids@.len(),
                n == self.ids().len(),
                self.ids().len() == self.values().len(),
                strictly_sorted(self.ids()),
                i <= n,
                forall|j: int| 0 <= j < i ==> self.ids()[j] != id@,
            decreases n - i,
        {
            if compare_str(self.ids[i].as_str(), id) == Relation::Equal {
                proof {
                    assert(self.ids()[i as int] == id@);
                    crate::base::str_map::lemma_sorted_index_of(self.ids(), i as int);
                }
                return Some(i);
            }
            i = i + 1;
        }
        None
    }

    /// Sets the value at position `i`.
    pub fn set(&mut self, i: usize, v: V)
        requires
            i < old(self).values().len(),
        ensures
            final(self).ids() == old(self).ids(),
            final(self).values() == old(self).values().update(i as int, v),
    {
        proof {
            use_type_invariant(&*self);
        }
        let mut taken = Progress { ids: Vec::new(), values: Vec::new() };
        std::mem::swap(&mut taken, self);
        proof {
            use_type_invariant(&taken);
        }
        let Progress { ids, mut values } = taken;
        values.set(i, v);
        *self = Progress { ids, values };
    }
}

/// Whether a majority of the values is `true`.
pub fn majority_true(vals: &Vec<bool>) -> (r: bool)
    ensures
        r == (count_true(vals@) * 2 > vals@.len()),
{
    let n = vals.len();
    let mut c: usize = 0;
    let mut i: usize = 0;
    while i < n
        invariant
            n == vals@.len(),
            i <= n,
            c == count_true(vals@.subrange(0, i as int)),
            c <= i,
        decreases n - i,
    {
        proof {
            assert(vals@.subrange(0, i + 1).drop_last() =~= vals@.subrange(0, i as int));
        }
        if vals[i] {
            c = c + 1;
        }
        i = i + 1;
    }
    assert(vals@.subrange(0, n as int) =~= vals@);
    c > n - c
}

/// `a` is no earlier than `b`.
pub fn clock_is_ge(a: Option<u64>, b: Option<u64>) -> (r: bool)
    ensures
        r == clock_ge(a, b),
{
    match b {
        None => true,
        Some(y) => match a {
            Some(x) => x >= y,
            None => false,
        },
    }
}

/// The number of values no earlier than `v`.
fn count_clock_ge(vals: &Vec<Option<u64>>, v: Option<u64>) -> (c: usize)
    ensures
        c == count_ge(vals@, v),
        c <= vals@.len(),
{
    let n = vals.len();
    let mut c: usize = 0;
    let mut i: usize = 0;
    while i < n
        invariant
            n == vals@.len(),
            i <= n,
            c == count_ge(vals@.subrange(0, i as int), v),
            c <= i,
        decreases n - i,
    {
        proof {
            assert(vals@.subrange(0, i + 1).drop_last() =~= vals@.subrange(0, i as int));
        }
        if clock_is_ge(vals[i], v) {
            c = c + 1;
        }
        i = i + 1;
    }
    assert(vals@.subrange(0, n as int) =~= vals@);
    c
}

/// The latest value that a majority has reached.
pub fn quorum_clock(vals: &Vec<Option<u64>>) -> (r: Option<u64>)
    ensures
        r == quorum_value(vals@),
{
    let n = vals.len();
    let mut best: Option<u64> = None;
    let mut i: usize = 0;
    while i < n
        invariant
            n == vals@.len(),
            i <= n,
            best == quorum_value_upto(vals@, i as int),
        decreases n - i,
    {
        let c = count_clock_ge(vals, vals[i]);
        let cand = if c > n - c {
            vals[i]
        } else {
            None
        };
        if !clock_is_ge(best, cand) {
            best = cand;
        }
        i = i + 1;
    }
    best
}

impl Progress<bool> {
    /// Sets member `id` to `v`. Returns whether a majority is `true`: as `Ok`
    /// where `id` is a member, as `Err` (and nothing changes) where it is not.
    pub fn update(&mut self, id: &str, v: bool) -> (r: Result<bool, bool>)
        ensures
            final(self).ids() == old(self).ids(),
            old(self).ids().contains(id@) ==> final(self).values() == old(self).values().update(
                old(self).position(id@),
                v,
            ) && r == Ok::<bool, bool>(count_true(final(self).values()) * 2 > final(self).values().len()),
            !old(self).ids().contains(id@) ==> final(self).values() == old(self).values() && r
                == Err::<bool, bool>(count_true(old(self).values()) * 2 > old(self).values().len()),
    {
        match self.index_of(id) {
            Some(i) => {
                self.set(i, v);
                Ok(majority_true(self.value_list()))
            },
            None => Err(majority_true(self.value_list())),
        }
    }
}

impl Progress<Option<u64>> {
    /// Moves member `id` forward to `t` (never back). Returns the latest time
    /// a majority has reached: as `Ok` where `id` is a member, as `Err` (and
    /// nothing changes) where it is not.
    pub fn increase_to(&mut self, id: &str, t: Option<u64>) -> (r: Result<Option<u64>, Option<u64>>)
        ensures
            final(self).ids() == old(self).ids(),
            old(self).ids().contains(id@) ==> final(self).values() == old(self).values().update(
                old(self).position(id@),
                clock_max(old(self).values()[old(self).position(id@)], t),
            ) && r == Ok::<Option<u64>, Option<u64>>(quorum_value(final(self).values())),
            !old(self).ids().contains(id@) ==> final(self).values() == old(self).values() && r
                == Err::<Option<u64>, Option<u64>>(quorum_value(old(self).values())),
    {
        match self.index_of(id) {
            Some(i) => {
                let cur = self.value_at(i);
                let next = if clock_is_ge(cur, t) {
                    cur
                } else {
                    t
                };
                self.set(i, next);
                Ok(quorum_clock(self.value_list()))
            },
            None => Err(quorum_clock(self.value_list())),
        }
    }
}

} // verus!
