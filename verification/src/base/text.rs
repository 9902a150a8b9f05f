//! Character sequences: their order, decimal rendering, and the few string
//! operations the rest of the crate builds on.

use vstd::prelude::*;

verus! {

/// Code-point lexicographic order on character sequences.
///
/// UTF-8 preserves code-point order, so this is the order in which `String`
/// compares its bytes.
pub open spec fn seq_lt(a: Seq<char>, b: Seq<char>) -> bool
    decreases a.len(),
{
    if b.len() == 0 {
        false
    } else if a.len() == 0 {
        true
    } else if a[0] != b[0] {
        (a[0] as u32) < (b[0] as u32)
    } else {
        seq_lt(a.drop_first(), b.drop_first())
    }
}

/// `a` starts with `p`.
pub open spec fn has_prefix(a: Seq<char>, p: Seq<char>) -> bool {
    p.len() <= a.len() && a.subrange(0, p.len() as int) == p
}

/// The character of a decimal digit `d` (`0 <= d < 10`).
pub open spec fn digit_char(d: int) -> char {
    if d == 0 {
        '0'
    } else if d == 1 {
        '1'
    } else if d == 2 {
        '2'
    } else if d == 3 {
        '3'
    } else if d == 4 {
        '4'
    } else if d == 5 {
        '5'
    } else if d == 6 {
        '6'
    } else if d == 7 {
        '7'
    } else if d == 8 {
        '8'
    } else {
        '9'
    }
}

/// The decimal rendering of `n`, without sign or leading zeros.
pub open spec fn decimal(n: nat) -> Seq<char>
    decreases n,
{
    if n < 10 {
        seq![digit_char(n as int)]
    } else {
        decimal(n / 10).push(digit_char((n % 10) as int))
    }
}

/// A three-way comparison outcome.
#[derive(Clone, Copy, Debug, PartialEq, Eq, Structural)]
pub enum Relation {
    Less,
    Equal,
    Greater,
}

pub proof fn lemma_seq_lt_irreflexive(a: Seq<char>)
    ensures
        !seq_lt(a, a),
    decreases a.len(),
{
    if a.len() > 0 {
        lemma_seq_lt_irreflexive(a.drop_first());
    }
}

pub proof fn lemma_seq_lt_asymmetric(a: Seq<char>, b: Seq<char>)
    requires
        seq_lt(a, b),
    ensures
        !seq_lt(b, a),
    decreases a.len(),
{
    if a.len() > 0 && b.len() > 0 && a[0] == b[0] {
        lemma_seq_lt_asymmetric(a.drop_first(), b.drop_first());
    }
}

pub proof fn lemma_seq_lt_transitive(a: Seq<char>, b: Seq<char>, c: Seq<char>)
    requires
        seq_lt(a, b),
        seq_lt(b, c),
    ensures
        seq_lt(a, c),
    decreases a.len(),
{
    if a.len() > 0 && b.len() > 0 && c.len() > 0 && a[0] == b[0] && b[0] == c[0] {
        lemma_seq_lt_transitive(a.drop_first(), b.drop_first(), c.drop_first());
    }
}

pub proof fn lemma_seq_lt_total(a: Seq<char>, b: Seq<char>)
    ensures
        seq_lt(a, b) || seq_lt(b, a) || a == b,
    decreases a.len(),
{
    if a.len() > 0 && b.len() > 0 && a[0] == b[0] {
        lemma_seq_lt_total(a.drop_first(), b.drop_first());
        if a.drop_first() == b.drop_first() {
            assert(a =~= seq![a[0]] + a.drop_first());
            assert(b =~= seq![b[0]] + b.drop_first());
        }
    } else if a.len() > 0 && b.len() > 0 {
        let x = a[0] as u32;
        let y = b[0] as u32;
        assert(x != y) by {
            vstd::utf8::char_u32_cast(a[0], x);
            vstd::utf8::char_u32_cast(b[0], y);
        }
    } else if a.len() == 0 && b.len() == 0 {
        assert(a =~= b);
    }
}

/// Dropping a common prefix does not change the order.
pub proof fn lemma_seq_lt_common_prefix(a: Seq<char>, b: Seq<char>, i: int)
    requires
        0 <= i <= a.len(),
        i <= b.len(),
        a.subrange(0, i) == b.subrange(0, i),
    ensures
        seq_lt(a, b) == seq_lt(a.subrange(i, a.len() as int), b.subrange(i, b.len() as int)),
    decreases i,
{
    if i > 0 {
        assert(a[0] == a.subrange(0, i)[0]);
        assert(b[0] == b.subrange(0, i)[0]);
        let a1 = a.drop_first();
        let b1 = b.drop_first();
        assert(a1.subrange(0, i - 1) =~= a.subrange(0, i).drop_first());
        assert(b1.subrange(0, i - 1) =~= b.subrange(0, i).drop_first());
        lemma_seq_lt_common_prefix(a1, b1, i - 1);
        assert(a1.subrange(i - 1, a1.len() as int) =~= a.subrange(i, a.len() as int));
        assert(b1.subrange(i - 1, b1.len() as int) =~= b.subrange(i, b.len() as int));
    } else {
        assert(a.subrange(0, a.len() as int) =~= a);
        assert(b.subrange(0, b.len() as int) =~= b);
    }
}

/// A common prefix may be prepended without changing the order.
pub proof fn lemma_seq_lt_prepend(p: Seq<char>, a: Seq<char>, b: Seq<char>)
    ensures
        seq_lt(p + a, p + b) == seq_lt(a, b),
{
    let x = p + a;
    let y = p + b;
    assert(x.subrange(0, p.len() as int) =~= y.subrange(0, p.len() as int));
    lemma_seq_lt_common_prefix(x, y, p.len() as int);
    assert(x.subrange(p.len() as int, x.len() as int) =~= a);
    assert(y.subrange(p.len() as int, y.len() as int) =~= b);
}

/// When the first difference of `a` and `b` lies before the end of both, the
/// order of `a + s` and `b + t` does not depend on the suffixes.
pub proof fn lemma_seq_lt_append_at_difference(
    a: Seq<char>,
    b: Seq<char>,
    s: Seq<char>,
    t: Seq<char>,
    k: int,
)
    requires
        0 <= k < a.len(),
        k < b.len(),
        a.subrange(0, k) == b.subrange(0, k),
        a[k] != b[k],
    ensures
        seq_lt(a + s, b + t) == seq_lt(a, b),
{
    let x = a + s;
    let y = b + t;
    assert(x.subrange(0, k) =~= a.subrange(0, k));
    assert(y.subrange(0, k) =~= b.subrange(0, k));
    lemma_seq_lt_common_prefix(x, y, k);
    lemma_seq_lt_common_prefix(a, b, k);
    let xs = x.subrange(k, x.len() as int);
    let ys = y.subrange(k, y.len() as int);
    let as_ = a.subrange(k, a.len() as int);
    let bs = b.subrange(k, b.len() as int);
    assert(xs[0] == a[k]);
    assert(ys[0] == b[k]);
    assert(as_[0] == a[k]);
    assert(bs[0] == b[k]);
}

/// `seq_lt` is decided at the first position where the sequences differ.
pub proof fn lemma_seq_lt_at_difference(a: Seq<char>, b: Seq<char>, k: int)
    requires
        0 <= k < a.len(),
        k < b.len(),
        a.subrange(0, k) == b.subrange(0, k),
        a[k] != b[k],
    ensures
        seq_lt(a, b) == ((a[k] as u32) < (b[k] as u32)),
{
    lemma_seq_lt_common_prefix(a, b, k);
    let as_ = a.subrange(k, a.len() as int);
    let bs = b.subrange(k, b.len() as int);
    assert(as_[0] == a[k]);
    assert(bs[0] == b[k]);
}

/// A proper prefix comes first.
pub proof fn lemma_seq_lt_proper_prefix(a: Seq<char>, b: Seq<char>)
    requires
        a.len() < b.len(),
        b.subrange(0, a.len() as int) == a,
    ensures
        seq_lt(a, b),
{
    assert(a.subrange(0, a.len() as int) =~= a);
    lemma_seq_lt_common_prefix(a, b, a.len() as int);
    assert(a.subrange(a.len() as int, a.len() as int) =~= Seq::<char>::empty());
}

/// The length of the longest common prefix of `a` and `b`: they agree before
/// it and, where both go on, differ at it.
pub proof fn lemma_common_prefix(a: Seq<char>, b: Seq<char>) -> (k: int)
    ensures
        0 <= k <= a.len(),
        k <= b.len(),
        a.subrange(0, k) == b.subrange(0, k),
        k < a.len() && k < b.len() ==> a[k] != b[k],
    decreases a.len(),
{
    if a.len() == 0 || b.len() == 0 || a[0] != b[0] {
        assert(a.subrange(0, 0) =~= b.subrange(0, 0));
        0
    } else {
        let k = lemma_common_prefix(a.drop_first(), b.drop_first());
        assert(a.subrange(0, k + 1) =~= seq![a[0]] + a.drop_first().subrange(0, k));
        assert(b.subrange(0, k + 1) =~= seq![b[0]] + b.drop_first().subrange(0, k));
        k + 1
    }
}

/// Compares two strings in code-point order.
pub fn compare_str(a: &str, b: &str) -> (r: Relation)
    ensures
        r == Relation::Less <==> seq_lt(a@, b@),
        r == Relation::Equal <==> a@ == b@,
        r == Relation::Greater <==> seq_lt(b@, a@),
{
    let la = a.unicode_len();
    let lb = b.unicode_len();
    let mut i: usize = 0;
    while i < la && i < lb
        invariant
            la == a@.len(),
            lb == b@.len(),
            i <= la,
            i <= lb,
            a@.subrange(0, i as int) == b@.subrange(0, i as int),
        decreases la - i,
    {
        let ca = a.get_char(i);
        let cb = b.get_char(i);
        if ca != cb {
            proof {
                lemma_seq_lt_at_difference(a@, b@, i as int);
                lemma_seq_lt_at_difference(b@, a@, i as int);
                vstd::utf8::char_u32_cast(ca, ca as u32);
                vstd::utf8::char_u32_cast(cb, cb as u32);
            }
            let xa: u32 = ca as u32;
            let xb: u32 = cb as u32;
            if xa < xb {
                return Relation::Less;
            } else {
                return Relation::Greater;
            }
        }
        proof {
            assert(a@.subrange(0, i + 1) =~= a@.subrange(0, i as int).push(ca));
            assert(b@.subrange(0, i + 1) =~= b@.subrange(0, i as int).push(cb));
        }
        i = i + 1;
    }
    proof {
        if la == lb {
            assert(a@ =~= a@.subrange(0, i as int));
            assert(b@ =~= b@.subrange(0, i as int));
            lemma_seq_lt_irreflexive(a@);
        } else if la < lb {
            assert(a@ =~= a@.subrange(0, i as int));
            lemma_seq_lt_proper_prefix(a@, b@);
            lemma_seq_lt_asymmetric(a@, b@);
        } else {
            assert(b@ =~= b@.subrange(0, i as int));
            lemma_seq_lt_proper_prefix(b@, a@);
            lemma_seq_lt_asymmetric(b@, a@);
        }
    }
    if la == lb {
        Relation::Equal
    } else if la < lb {
        Relation::Less
    } else {
        Relation::Greater
    }
}

/// Whether `s` starts with `p`.
pub fn starts_with(s: &str, p: &str) -> (r: bool)
    ensures
        r == has_prefix(s@, p@),
{
    let ls = s.unicode_len();
    let lp = p.unicode_len();
    if lp > ls {
        return false;
    }
    let mut i: usize = 0;
    while i < lp
        invariant
            ls == s@.len(),
            lp == p@.len(),
            lp <= ls,
            i <= lp,
            forall|j: int| 0 <= j < i ==> s@[j] == p@[j],
        decreases lp - i,
    {
        if s.get_char(i) != p.get_char(i) {
            proof {
                assert(s@.subrange(0, lp as int)[i as int] == s@[i as int]);
            }
            return false;
        }
        i = i + 1;
    }
    assert(s@.subrange(0, lp as int) =~= p@);
    true
}

/// `String::push`: appends one character.
#[verifier::external_body]
pub(crate) fn push_char(s: &mut String, c: char)
    ensures
        final(s)@ == old(s)@.push(c),
{
    s.push(c);
}

/// `char::from_u32`: `Some` exactly for the Unicode scalar values, and then the
/// character with that value.
#[verifier::external_body]
pub(crate) fn char_from_u32(v: u32) -> (r: Option<char>)
    ensures
        r is Some <==> (v <= 0x10FFFF && !(0xD800 <= v && v <= 0xDFFF)),
        r is Some ==> r->0 as u32 == v,
{
    char::from_u32(v)
}

/// The character of the decimal digit `d`.
pub fn digit(d: u64) -> (c: char)
    requires
        d < 10,
    ensures
        c == digit_char(d as int),
{
    if d == 0 {
        '0'
    } else if d == 1 {
        '1'
    } else if d == 2 {
        '2'
    } else if d == 3 {
        '3'
    } else if d == 4 {
        '4'
    } else if d == 5 {
        '5'
    } else if d == 6 {
        '6'
    } else if d == 7 {
        '7'
    } else if d == 8 {
        '8'
    } else {
        '9'
    }
}

/// Appends the decimal rendering of `n` to `s`.
pub fn push_decimal(s: &mut String, n: u64)
    ensures
        final(s)@ == old(s)@ + decimal(n as nat),
    decreases n,
{
    if n < 10 {
        push_char(s, digit(n));
        assert(old(s)@.push(digit_char(n as int)) =~= old(s)@ + seq![digit_char(n as int)]);
    } else {
        push_decimal(s, n / 10);
        push_char(s, digit(n % 10));
        assert(decimal(n as nat) == decimal((n / 10) as nat).push(digit_char((n % 10) as int)));
        assert((old(s)@ + decimal((n / 10) as nat)).push(digit_char((n % 10) as int)) =~= old(s)@
            + decimal((n / 10) as nat).push(digit_char((n % 10) as int)));
    }
}

/// The decimal rendering of `n`.
pub fn decimal_string(n: u64) -> (s: String)
    ensures
        s@ == decimal(n as nat),
{
    let mut s = String::new();
    push_decimal(&mut s, n);
    assert(Seq::<char>::empty() + decimal(n as nat) =~= decimal(n as nat));
    s
}

/// Appends `t` to `s`.
pub fn push_str(s: &mut String, t: &str)
    ensures
        final(s)@ == old(s)@ + t@,
{
    s.append(t);
}

/// The digits of the fraction `f` of a second given in milliseconds
/// (`0 < f < 1000`), three places with the trailing zeros dropped.
pub open spec fn fraction_text(f: nat) -> Seq<char> {
    let d1 = digit_char((f / 100) as int);
    let d2 = digit_char(((f / 10) % 10) as int);
    let d3 = digit_char((f % 10) as int);
    if f % 10 != 0 {
        seq![d1, d2, d3]
    } else if (f / 10) % 10 != 0 {
        seq![d1, d2]
    } else {
        seq![d1]
    }
}

/// A duration of `ms` milliseconds as std's `Debug` renders it: `0ns`,
/// whole milliseconds as `150ms`, longer ones in seconds with the fraction
/// that is not zero, as `1.5s` or `2s`.
pub open spec fn duration_text(ms: nat) -> Seq<char> {
    if ms == 0 {
        "0ns"@
    } else if ms < 1000 {
        decimal(ms) + "ms"@
    } else if ms % 1000 == 0 {
        decimal(ms / 1000) + "s"@
    } else {
        decimal(ms / 1000) + seq!['.'] + fraction_text(ms % 1000) + "s"@
    }
}

/// Appends the rendering of a duration of `ms` milliseconds to `s`.
pub fn push_duration(s: &mut String, ms: u64)
    ensures
        final(s)@ == old(s)@ + duration_text(ms as nat),
{
    if ms == 0 {
        push_str(s, "0ns");
    } else if ms < 1000 {
        push_decimal(s, ms);
        push_str(s, "ms");
        assert(final(s)@ =~= old(s)@ + (decimal(ms as nat) + "ms"@));
    } else {
        let ghost before = s@;
        push_decimal(s, ms / 1000);
        let f = ms % 1000;
        if f != 0 {
            push_char(s, '.');
            push_char(s, digit(f / 100));
            if f % 10 != 0 {
                push_char(s, digit((f / 10) % 10));
                push_char(s, digit(f % 10));
            } else if (f / 10) % 10 != 0 {
                push_char(s, digit((f / 10) % 10));
            }
            let ghost mid = s@;
            push_str(s, "s");
            assert(mid =~= before + decimal((ms / 1000) as nat) + seq!['.'] + fraction_text(
                f as nat,
            ));
            assert(s@ =~= before + (decimal((ms / 1000) as nat) + seq!['.'] + fraction_text(
                f as nat,
            ) + "s"@));
        } else {
            push_str(s, "s");
            assert(s@ =~= before + (decimal((ms / 1000) as nat) + "s"@));
        }
    }
}

} // verus!
