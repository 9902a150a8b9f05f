//! An in-memory log storage: named byte buffers, listed in name order.

use vstd::prelude::*;

use crate::base::str_map::{strictly_sorted, StrMap};
use crate::base::text::{
    char_from_u32, compare_str, has_prefix, lemma_common_prefix, lemma_seq_lt_asymmetric,
    lemma_seq_lt_at_difference, lemma_seq_lt_irreflexive, lemma_seq_lt_proper_prefix,
    lemma_seq_lt_total, lemma_seq_lt_transitive, push_char, seq_lt, Relation,
};

verus! {

/// The least string above every string that starts with `p`: the last
/// character of `p` that is not `\u{10FFFF}` is incremented and what follows
/// it dropped. There is none where `p` has no such character, or where the
/// incremented value is not a character.
pub open spec fn right_bound(p: Seq<char>) -> Option<Seq<char>>
    decreases p.len(),
{
    if p.len() == 0 {
        None
    } else if p.last() as u32 == 0x10FFFF {
        right_bound(p.drop_last())
    } else {
        let next = p.last() as u32 + 1;
        if next <= 0x10FFFF && !(0xD800 <= next && next <= 0xDFFF) {
            Some(p.drop_last().push(next as char))
        } else {
            None
        }
    }
}

/// Every character of `p` is `\u{10FFFF}`.
pub open spec fn all_max(p: Seq<char>) -> bool {
    forall|j: int| 0 <= j < p.len() ==> (#[trigger] p[j]) as u32 == 0x10FFFF
}

/// The range that a listing of `prefix` covers: not below `prefix`, and below
/// its right bound where there is one.
pub open spec fn in_listing_range(k: Seq<char>, prefix: Seq<char>) -> bool {
    &&& !seq_lt(k, prefix)
    &&& match right_bound(prefix) {
        Some(b) => seq_lt(k, b),
        None => true,
    }
}

/// Whether `k` is listed for `prefix` after `start_after`.
pub open spec fn listed(k: Seq<char>, prefix: Seq<char>, start_after: Seq<char>) -> bool {
    in_listing_range(k, prefix) && seq_lt(start_after, k)
}

/// `r` lists the names of `m` for `prefix` after `start_after`: in strictly
/// ascending order, each a stored name in the range, and every such name.
pub open spec fn listing(
    m: Map<Seq<char>, Seq<u8>>,
    prefix: Seq<char>,
    start_after: Seq<char>,
    r: Seq<String>,
) -> bool {
    &&& forall|a: int, b: int| 0 <= a < b < r.len() ==> seq_lt(#[trigger] r[a]@, #[trigger] r[b]@)
    &&& forall|a: int|
        0 <= a < r.len() ==> m.contains_key(#[trigger] r[a]@) && listed(r[a]@, prefix, start_after)
    &&& forall|k: Seq<char>|
        #[trigger] m.contains_key(k) && listed(k, prefix, start_after) ==> exists|a: int|
            0 <= a < r.len() && (#[trigger] r[a])@ == k
}

/// Computes the right bound of a prefix: the least string above all strings
/// that start with `p`, if it can be built.
pub fn prefix_right_bound(p: &str) -> (r: Option<String>)
    ensures
        r is Some <==> right_bound(p@) is Some,
        r is Some ==> r->0@ == right_bound(p@)->0,
{
    let n = p.unicode_len();
    let mut i: usize = n;
    assert(p@.subrange(0, n as int) =~= p@);
    while i > 0
        invariant
            n == p@.len(),
            i <= n,
            right_bound(p@) == right_bound(p@.subrange(0, i as int)),
        decreases i,
    {
        let c = p.get_char(i - 1);
        proof {
            let q = p@.subrange(0, i as int);
            assert(q.last() == c);
            assert(q.drop_last() =~= p@.subrange(0, i - 1));
        }
        let v: u32 = c as u32;
        if v != 0x10FFFF {
            match char_from_u32(v + 1) {
                Some(next) => {
                    let mut s = String::new();
                    let mut j: usize = 0;
                    while j < i - 1
                        invariant
                            n == p@.len(),
                            i <= n,
                            j <= i - 1,
                            s@ == p@.subrange(0, j as int),
                        decreases i - 1 - j,
                    {
                        push_char(&mut s, p.get_char(j));
                        assert(p@.subrange(0, j + 1) =~= p@.subrange(0, j as int).push(p@[j as int]));
                        j = j + 1;
                    }
                    push_char(&mut s, next);
                    proof {
                        vstd::utf8::char_u32_cast(next, (v + 1) as u32);
                    }
                    return Some(s);
                },
                None => {
                    return None;
                },
            }
        }
        i = i - 1;
    }
    proof {
        assert(p@.subrange(0, 0) =~= Seq::<char>::empty());
    }
    None
}

/// Where `right_bound` acts: the last position whose character is not
/// `\u{10FFFF}`, or -1.
pub open spec fn last_non_max(p: Seq<char>) -> int
    decreases p.len(),
{
    if p.len() == 0 {
        -1
    } else if p.last() as u32 == 0x10FFFF {
        last_non_max(p.drop_last())
    } else {
        p.len() - 1
    }
}

proof fn lemma_right_bound_shape(p: Seq<char>)
    ensures
        -1 <= last_non_max(p) < p.len(),
        forall|j: int| last_non_max(p) < j < p.len() ==> (#[trigger] p[j]) as u32 == 0x10FFFF,
        last_non_max(p) >= 0 ==> (p[last_non_max(p)] as u32) != 0x10FFFF,
        last_non_max(p) == -1 ==> right_bound(p) is None && all_max(p),
        last_non_max(p) >= 0 ==> match right_bound(p) {
            Some(b) => b == p.subrange(0, last_non_max(p)).push(
                (p[last_non_max(p)] as u32 + 1) as char,
            ) && is_next_scalar(p[last_non_max(p)]),
            None => !is_next_scalar(p[last_non_max(p)]),
        },
    decreases p.len(),
{
    if p.len() > 0 {
        let q = p.drop_last();
        if p.last() as u32 == 0x10FFFF {
            lemma_right_bound_shape(q);
            let i = last_non_max(q);
            assert(last_non_max(p) == i);
            assert forall|j: int| i < j < p.len() implies (#[trigger] p[j]) as u32 == 0x10FFFF by {
                if j < p.len() - 1 {
                    assert(p[j] == q[j]);
                }
            }
            if i >= 0 {
                assert(q.subrange(0, i) =~= p.subrange(0, i));
                assert(q[i] == p[i]);
            }
        } else {
            assert(q =~= p.subrange(0, p.len() - 1));
        }
    }
}

/// The value after `c` is a character.
pub open spec fn is_next_scalar(c: char) -> bool {
    let next = c as u32 + 1;
    next <= 0x10FFFF && !(0xD800 <= next && next <= 0xDFFF)
}

/// Where the prefix has a right bound, or consists of `\u{10FFFF}` only, the
/// listing range of a prefix holds exactly the strings that start with it.
/// (A prefix whose last character below `\u{10FFFF}` is `\u{D7FF}` has no
/// right bound, and its listing range also holds strings that do not start
/// with it.)
pub proof fn lemma_listing_range_is_prefix(k: Seq<char>, p: Seq<char>)
    requires
        right_bound(p) is Some || all_max(p),
    ensures
        in_listing_range(k, p) <==> has_prefix(k, p),
{
    lemma_right_bound_shape(p);
    let i = last_non_max(p);
    if has_prefix(k, p) {
        // Forward: a string that starts with `p` is in range.
        if k.len() == p.len() {
            assert(k =~= p);
            lemma_seq_lt_irreflexive(k);
        } else {
            lemma_seq_lt_proper_prefix(p, k);
            lemma_seq_lt_asymmetric(p, k);
        }
        if i >= 0 {
            assert(!all_max(p)) by {
                assert((p[i] as u32) != 0x10FFFF);
            }
            let b = right_bound(p)->0;
            assert(b[i] == (p[i] as u32 + 1) as char);
            assert(k.subrange(0, i) =~= p.subrange(0, i));
            assert(b.subrange(0, i) =~= p.subrange(0, i));
            assert(k[i] == p[i]);
            let x = k[i] as u32;
            assert(is_next_scalar(p[i]));
            assert(b[i] as u32 == x + 1);
            lemma_seq_lt_at_difference(k, b, i);
        }
    } else if in_listing_range(k, p) {
        let m = lemma_common_prefix(k, p);
        assert(m < p.len()) by {
            if m == p.len() {
                assert(k.subrange(0, p.len() as int) =~= p);
            }
        }
        if m == k.len() {
            assert(p.subrange(0, k.len() as int) =~= k);
            lemma_seq_lt_proper_prefix(k, p);
        } else {
            lemma_seq_lt_at_difference(k, p, m);
            let x = k[m] as u32;
            let y = p[m] as u32;
            vstd::utf8::char_is_scalar(k[m]);
            assert(x != y) by {
                if x == y {
                    vstd::utf8::char_u32_cast(k[m], x);
                    vstd::utf8::char_u32_cast(p[m], y);
                }
            }
            assert(x > y);
            if m > i {
                assert(y == 0x10FFFF);
            } else {
                let b = right_bound(p)->0;
                assert(b.subrange(0, m) =~= k.subrange(0, m));
                if m < i {
                    assert(b[m] == p[m]);
                    lemma_seq_lt_at_difference(b, k, m);
                    lemma_seq_lt_asymmetric(b, k);
                } else {
                    let bx = b[i] as u32;
                    assert(bx == y + 1) by {
                        vstd::utf8::char_u32_cast(b[i], (y + 1) as u32);
                    }
                    if x == bx {
                        assert(b[i] == k[i]) by {
                            vstd::utf8::char_u32_cast(k[i], x);
                            vstd::utf8::char_u32_cast(b[i], bx);
                        }
                        assert(k.subrange(0, b.len() as int) =~= b);
                        if k.len() == b.len() {
                            assert(k =~= b);
                            lemma_seq_lt_irreflexive(k);
                        } else {
                            lemma_seq_lt_proper_prefix(b, k);
                            lemma_seq_lt_asymmetric(b, k);
                        }
                    } else {
                        lemma_seq_lt_at_difference(b, k, m);
                        lemma_seq_lt_asymmetric(b, k);
                    }
                }
            }
        }
    }
}

/// The buffer stored under `path` in `m`, if any.
pub open spec fn stored(m: Map<Seq<char>, Seq<u8>>, path: Seq<char>) -> Option<Seq<u8>> {
    if m.contains_key(path) {
        Some(m[path])
    } else {
        None
    }
}

/// `new` and `r` are `old` after a write of `buf` under `path`: the write
/// succeeds unless it is `exclusive` and `path` is taken, and then stores
/// `buf` under `path`; a refused write changes nothing.
pub open spec fn written(
    old: Map<Seq<char>, Seq<u8>>,
    new: Map<Seq<char>, Seq<u8>>,
    path: Seq<char>,
    buf: Seq<u8>,
    exclusive: bool,
    r: bool,
) -> bool {
    &&& r == !(exclusive && old.contains_key(path))
    &&& new == if r {
        old.insert(path, buf)
    } else {
        old
    }
}

/// A read gives back what the last successful write under the same path
/// stored, and a write leaves what is stored under other paths; a
/// non-exclusive write always succeeds, and an exclusive one never
/// overwrites.
pub proof fn lemma_read_your_write(
    old: Map<Seq<char>, Seq<u8>>,
    new: Map<Seq<char>, Seq<u8>>,
    path: Seq<char>,
    buf: Seq<u8>,
    exclusive: bool,
    r: bool,
    other: Seq<char>,
)
    requires
        written(old, new, path, buf, exclusive, r),
    ensures
        r ==> stored(new, path) == Some(buf),
        other != path ==> stored(new, other) == stored(old, other),
        !exclusive ==> r,
        stored(old, path) is Some && exclusive ==> !r && stored(new, path) == stored(old, path),
{
}

/// An in-memory log storage.
#[derive(Debug)]
pub struct MemLogStore {
    store: StrMap<Vec<u8>>,
}

impl View for MemLogStore {
    type V = Map<Seq<char>, Seq<u8>>;

    /// The stored buffers by name.
    open spec fn view(&self) -> Map<Seq<char>, Seq<u8>> {
        self.names_map().view_values()
    }
}

/// A copy of a byte buffer.
fn copy_bytes(b: &[u8]) -> (r: Vec<u8>)
    ensures
        r@ == b@,
{
    let mut r: Vec<u8> = Vec::new();
    let n = b.len();
    let mut i: usize = 0;
    while i < n
        invariant
            n == b@.len(),
            i <= n,
            r@ == b@.subrange(0, i as int),
        decreases n - i,
    {
        r.push(b[i]);
        assert(b@.subrange(0, i + 1) =~= b@.subrange(0, i as int).push(b@[i as int]));
        i = i + 1;
    }
    assert(b@.subrange(0, n as int) =~= b@);
    r
}

impl MemLogStore {
    /// The underlying ordered map.
    pub closed spec fn names_map(&self) -> StrMap<Vec<u8>> {
        self.store
    }

    /// An empty store.
    pub fn new() -> (r: MemLogStore)
        ensures
            r@ == Map::<Seq<char>, Seq<u8>>::empty(),
    {
        let r = MemLogStore { store: StrMap::new() };
        assert(r@ =~= Map::<Seq<char>, Seq<u8>>::empty());
        r
    }

    /// The buffer stored under `path`, if any.
    pub fn read(&self, path: &str) -> (r: Option<Vec<u8>>)
        ensures
            match r {
                Some(v) => stored(self@, path@) == Some(v@),
                None => stored(self@, path@) is None,
            },
    {
        match self.store.get(path) {
            Some(v) => Some(copy_bytes(v.as_slice())),
            None => None,
        }
    }

    /// Stores `buf` under `path` and returns `true`; where `exclusive` is set
    /// and `path` is taken, changes nothing and returns `false`.
    pub fn write(&mut self, path: &str, buf: &[u8], exclusive: bool) -> (r: bool)
        ensures
            written(old(self)@, final(self)@, path@, buf@, exclusive, r),
    {
        if self.store.contains_key(path) {
            if exclusive {
                return false;
            }
        }
        let ghost before = self.store@;
        self.store.insert(path.to_owned(), copy_bytes(buf));
        proof {
            assert(self@ =~= old(self)@.insert(path@, buf@));
        }
        true
    }

    /// The stored names in the listing range of `prefix` that come after
    /// `start_after`, in ascending order.
    pub fn list(&self, prefix: &str, start_after: &str) -> (r: Vec<String>)
        ensures
            listing(self@, prefix@, start_after@, r@),
    {
        proof {
            use_type_invariant(&self.store);
            self.store.lemma_view();
            assert(forall|k: Seq<char>| #[trigger] self@.contains_key(k) <==> self.store@.contains_key(k));
        }
        let right = prefix_right_bound(prefix);
        let ghost ks = self.store.keys();
        let n = self.store.len();
        let mut r: Vec<String> = Vec::new();
        let mut i: usize = 0;
        while i < n
            invariant
                n == ks.len(),
                ks == self.store.keys(),
                strictly_sorted(ks),
                right is Some <==> right_bound(prefix@) is Some,
                right is Some ==> right->0@ == right_bound(prefix@)->0,
                i <= n,
                forall|a: int, b: int|
                    0 <= a < b < r@.len() ==> seq_lt(#[trigger] r@[a]@, #[trigger] r@[b]@),
                forall|a: int|
                    0 <= a < r@.len() ==> exists|j: int|
                        0 <= j < i && #[trigger] ks[j] == (#[trigger] r@[a])@,
                forall|a: int| 0 <= a < r@.len() ==> listed(#[trigger] r@[a]@, prefix@, start_after@),
                forall|j: int|
                    0 <= j < i && listed(#[trigger] ks[j], prefix@, start_after@) ==> exists|a: int|
                        0 <= a < r@.len() && (#[trigger] r@[a])@ == ks[j],
            decreases n - i,
        {
            let key = self.store.key_at(i);
            let ge_prefix = match compare_str(key.as_str(), prefix) {
                Relation::Less => false,
                _ => true,
            };
            let below_right = match &right {
                Some(b) => match compare_str(key.as_str(), b.as_str()) {
                    Relation::Less => true,
                    _ => false,
                },
                None => true,
            };
            let after_start = match compare_str(start_after, key.as_str()) {
                Relation::Less => true,
                _ => false,
            };
            assert(listed(ks[i as int], prefix@, start_after@) <==> (ge_prefix && below_right
                && after_start));
            let ghost old_r = r@;
            if ge_prefix && below_right && after_start {
                r.push(key.clone());
                proof {
                    assert forall|a: int, b: int| 0 <= a < b < r@.len() implies seq_lt(
                        #[trigger] r@[a]@,
                        #[trigger] r@[b]@,
                    ) by {
                        if b == r@.len() - 1 {
                            assert(r@[a] == old_r[a]);
                            let j = choose|j: int| 0 <= j < i && #[trigger] ks[j] == old_r[a]@;
                            assert(seq_lt(ks[j], ks[i as int]));
                        } else {
                            assert(r@[a] == old_r[a]);
                            assert(r@[b] == old_r[b]);
                        }
                    }
                    assert forall|a: int| 0 <= a < r@.len() implies exists|j: int|
                        0 <= j < i + 1 && #[trigger] ks[j] == (#[trigger] r@[a])@ by {
                        if a < old_r.len() {
                            assert(r@[a] == old_r[a]);
                            let j = choose|j: int| 0 <= j < i && #[trigger] ks[j] == old_r[a]@;
                            assert(0 <= j < i + 1 && ks[j] == r@[a]@);
                        } else {
                            assert(ks[i as int] == r@[a]@);
                        }
                    }
                    assert forall|a: int| 0 <= a < r@.len() implies listed(
                        #[trigger] r@[a]@,
                        prefix@,
                        start_after@,
                    ) by {
                        if a < old_r.len() {
                            assert(r@[a] == old_r[a]);
                        }
                    }
                    assert forall|j: int|
                        0 <= j < i + 1 && listed(
                            #[trigger] ks[j],
                            prefix@,
                            start_after@,
                        ) implies exists|a: int| 0 <= a < r@.len() && (#[trigger] r@[a])@ == ks[j] by {
                        if j < i {
                            let a = choose|a: int| 0 <= a < old_r.len() && (#[trigger] old_r[a])@ == ks[j];
                            assert(r@[a] == old_r[a]);
                        } else {
                            assert(r@[old_r.len() as int]@ == ks[j]);
                        }
                    }
                }
            } else {
                proof {
                    assert forall|a: int| 0 <= a < r@.len() implies exists|j: int|
                        0 <= j < i + 1 && #[trigger] ks[j] == (#[trigger] r@[a])@ by {
                        let j = choose|j: int| 0 <= j < i && #[trigger] ks[j] == r@[a]@;
                        assert(0 <= j < i + 1 && ks[j] == r@[a]@);
                    }
                }
            }
            i = i + 1;
        }
        proof {
            assert forall|a: int| 0 <= a < r@.len() implies self@.contains_key(#[trigger] r@[a]@) by {
                let j = choose|j: int| 0 <= j < n && #[trigger] ks[j] == r@[a]@;
                assert(ks.contains(ks[j]));
            }
            assert forall|k: Seq<char>|
                #[trigger] self@.contains_key(k) && listed(k, prefix@, start_after@) implies exists|
                    a: int,
                | 0 <= a < r@.len() && (#[trigger] r@[a])@ == k by {
                let j = ks.index_of(k);
                assert(ks[j] == k);
            }
        }
        r
    }
}

} // verus!
