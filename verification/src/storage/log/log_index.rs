//! A log index and its order-preserving text encoding, used to name log
//! entries in the storage so that listing names in order lists entries in
//! index order.

use vstd::prelude::*;
use vstd::utf8::{encode_utf8, is_ascii_chars, is_char_boundary};

use crate::base::text::{
    decimal, digit_char, lemma_seq_lt_append_at_difference, lemma_seq_lt_asymmetric,
    lemma_seq_lt_at_difference, lemma_seq_lt_irreflexive, seq_lt,
};

verus! {

/// The index of a log entry.
#[derive(Debug, Clone, Copy, PartialEq, Eq, Structural, PartialOrd, Ord, Hash)]
pub struct LogIndex(pub u64);

/// Why a text is not the decimal rendering of a `u64`, as `str::parse::<u64>`
/// reports it.
#[derive(Debug, Clone, Copy, PartialEq, Eq, Structural)]
pub enum ParseIndexError {
    /// The text is empty.
    Empty,
    /// A byte is not a decimal digit (or the text is a lone sign).
    InvalidDigit,
    /// The value does not fit in a `u64`.
    PosOverflow,
}

/// `l` rendered with at least two digits (`{:02}`).
pub open spec fn two_digits(l: nat) -> Seq<char> {
    if l < 10 {
        seq!['0', digit_char(l as int)]
    } else {
        decimal(l)
    }
}

/// The encoding of index `n`: the number of its digits, with two digits, a
/// `-`, and its digits.
pub open spec fn ordered_encoding(n: u64) -> Seq<char> {
    two_digits(decimal(n as nat).len()) + seq!['-'] + decimal(n as nat)
}

pub open spec fn is_digit_byte(b: u8) -> bool {
    48 <= b <= 57
}

/// Parses decimal digits from the left, with `acc` the value read so far,
/// reporting the first failure in reading order as `str::parse::<u64>` does:
/// a non-digit, then an overflow of the multiplication, then of the addition.
pub open spec fn parse_digits(b: Seq<u8>, acc: u64) -> Result<u64, ParseIndexError>
    decreases b.len(),
{
    if b.len() == 0 {
        Ok(acc)
    } else if !is_digit_byte(b[0]) {
        Err(ParseIndexError::InvalidDigit)
    } else if acc * 10 > u64::MAX {
        Err(ParseIndexError::PosOverflow)
    } else if acc * 10 + (b[0] - 48) > u64::MAX {
        Err(ParseIndexError::PosOverflow)
    } else {
        parse_digits(b.drop_first(), (acc * 10 + (b[0] - 48)) as u64)
    }
}

/// `str::parse::<u64>` on the bytes `b`: an optional leading `+`, then digits.
pub open spec fn parse_u64(b: Seq<u8>) -> Result<u64, ParseIndexError> {
    if b.len() == 0 {
        Err(ParseIndexError::Empty)
    } else if b.len() == 1 && (b[0] == 43 || b[0] == 45) {
        Err(ParseIndexError::InvalidDigit)
    } else if b[0] == 43 {
        parse_digits(b.drop_first(), 0)
    } else {
        parse_digits(b, 0)
    }
}

/// The decoding of the bytes `b` of a name: everything after its first three
/// bytes is read as a decimal `u64`.
pub open spec fn ordered_decoding(b: Seq<u8>) -> Result<LogIndex, ParseIndexError> {
    match parse_u64(b.subrange(3, b.len() as int)) {
        Ok(n) => Ok(LogIndex(n)),
        Err(e) => Err(e),
    }
}

impl LogIndex {
    /// Encodes the index so that the text order of encodings is the numeric
    /// order of indexes.
    pub fn ordered_encode(&self) -> (s: String)
        ensures
            s@ == ordered_encoding(self.0),
    {
        let digits = crate::base::text::decimal_string(self.0);
        let len = digits.as_str().unicode_len();
        proof {
            lemma_decimal_len_u64(self.0 as nat);
        }
        let mut s = String::new();
        if len < 10 {
            crate::base::text::push_char(&mut s, '0');
            crate::base::text::push_char(&mut s, crate::base::text::digit(len as u64));
        } else {
            crate::base::text::push_decimal(&mut s, len as u64);
        }
        crate::base::text::push_char(&mut s, '-');
        crate::base::text::push_str(&mut s, digits.as_str());
        proof {
            if len < 10 {
                assert(seq![].push('0').push(digit_char(len as int)) =~= two_digits(len as nat));
            } else {
                assert(Seq::<char>::empty() + decimal(len as nat) =~= two_digits(len as nat));
            }
            assert(s@ =~= ordered_encoding(self.0));
        }
        s
    }

    /// Decodes a name produced by [`LogIndex::ordered_encode`]: the first three
    /// bytes are skipped and the rest is parsed as a decimal `u64`.
    pub fn ordered_decode(s: &str) -> (r: Result<LogIndex, ParseIndexError>)
        requires
            is_char_boundary(encode_utf8(s@), 3),
        ensures
            r == ordered_decoding(encode_utf8(s@)),
    {
        let (_len, digits) = s.split_at(3);
        let bytes = digits.as_bytes();
        proof {
            assert(bytes@ =~= encode_utf8(s@).subrange(3, encode_utf8(s@).len() as int));
        }
        match parse_u64_bytes(bytes) {
            Ok(n) => Ok(LogIndex(n)),
            Err(e) => Err(e),
        }
    }
}

proof fn lemma_parse_step(b: Seq<u8>, i: int, acc: u64)
    requires
        0 <= i < b.len(),
        is_digit_byte(b[i]),
        acc * 10 + (b[i] - 48) <= u64::MAX,
    ensures
        parse_digits(b.subrange(i, b.len() as int), acc) == parse_digits(
            b.subrange(i + 1, b.len() as int),
            (acc * 10 + (b[i] - 48)) as u64,
        ),
{
    let s = b.subrange(i, b.len() as int);
    assert(s.drop_first() =~= b.subrange(i + 1, b.len() as int));
}

/// Parses the bytes `b` as `str::parse::<u64>` does.
fn parse_u64_bytes(b: &[u8]) -> (r: Result<u64, ParseIndexError>)
    ensures
        r == parse_u64(b@),
{
    let n = b.len();
    if n == 0 {
        return Err(ParseIndexError::Empty);
    }
    if n == 1 && (b[0] == 43 || b[0] == 45) {
        return Err(ParseIndexError::InvalidDigit);
    }
    let mut i: usize = if b[0] == 43 {
        1
    } else {
        0
    };
    proof {
        if b[0] == 43 {
            assert(b@.subrange(1, n as int) =~= b@.drop_first());
        } else {
            assert(b@.subrange(0, n as int) =~= b@);
        }
    }
    let mut acc: u64 = 0;
    while i < n
        invariant
            n == b@.len(),
            i <= n,
            parse_u64(b@) == parse_digits(b@.subrange(i as int, n as int), acc),
        decreases n - i,
    {
        let c = b[i];
        if c < 48 || c > 57 {
            return Err(ParseIndexError::InvalidDigit);
        }
        if acc > u64::MAX / 10 {
            return Err(ParseIndexError::PosOverflow);
        }
        let d: u64 = (c - 48) as u64;
        if acc * 10 > u64::MAX - d {
            return Err(ParseIndexError::PosOverflow);
        }
        proof {
            lemma_parse_step(b@, i as int, acc);
        }
        acc = acc * 10 + d;
        i = i + 1;
    }
    assert(b@.subrange(n as int, n as int) =~= Seq::<u8>::empty());
    Ok(acc)
}

pub open spec fn pow10(k: nat) -> nat
    decreases k,
{
    if k == 0 {
        1
    } else {
        10 * pow10((k - 1) as nat)
    }
}

/// A decimal rendering has no more digits than the power of ten above it.
pub proof fn lemma_decimal_len_upper(n: nat, k: nat)
    requires
        k >= 1,
        n < pow10(k),
    ensures
        decimal(n).len() <= k,
    decreases k,
{
    if n >= 10 {
        assert(k >= 2) by {
            if k == 1 {
                assert(pow10(1) == 10) by {
                    reveal_with_fuel(pow10, 2);
                }
            }
        }
        assert(n / 10 < pow10((k - 1) as nat));
        lemma_decimal_len_upper(n / 10, (k - 1) as nat);
    }
}

/// A rendering of `k` digits, `k >= 2`, is of a number at least `10^(k-1)`;
/// every rendering of `k` digits is of a number below `10^k`.
pub proof fn lemma_decimal_len_bounds(n: nat)
    ensures
        decimal(n).len() >= 1,
        n < pow10(decimal(n).len()),
        decimal(n).len() >= 2 ==> n >= pow10((decimal(n).len() - 1) as nat),
    decreases n,
{
    if n >= 10 {
        lemma_decimal_len_bounds(n / 10);
        let k = decimal(n / 10).len();
        assert(decimal(n).len() == k + 1);
        assert(pow10(k + 1) == 10 * pow10(k));
        if k >= 2 {
            assert(pow10(k) == 10 * pow10((k - 1) as nat));
        } else {
            assert(pow10(1) == 10 * pow10(0));
        }
    } else {
        assert(pow10(1) == 10 * pow10(0));
    }
}

/// The rendering of a `u64` has at most twenty digits.
pub proof fn lemma_decimal_len_u64(n: nat)
    requires
        n <= u64::MAX,
    ensures
        decimal(n).len() <= 20,
{
    assert(pow10(20) == 100000000000000000000) by {
        reveal_with_fuel(pow10, 21);
    }
    lemma_decimal_len_upper(n, 20);
}

/// The value of decimal digits read from the left after `acc`.
pub open spec fn digits_value(b: Seq<u8>, acc: int) -> int
    decreases b.len(),
{
    if b.len() == 0 {
        acc
    } else {
        digits_value(b.drop_first(), acc * 10 + (b[0] - 48))
    }
}

pub open spec fn all_digits(b: Seq<u8>) -> bool {
    forall|i: int| 0 <= i < b.len() ==> is_digit_byte(#[trigger] b[i])
}

proof fn lemma_digits_value_push(b: Seq<u8>, x: u8, acc: int)
    ensures
        digits_value(b.push(x), acc) == digits_value(b, acc) * 10 + (x - 48),
    decreases b.len(),
{
    let bx = b.push(x);
    if b.len() > 0 {
        let acc1 = acc * 10 + (b[0] - 48);
        assert(bx[0] == b[0]);
        assert(bx.drop_first() =~= b.drop_first().push(x));
        assert(digits_value(bx, acc) == digits_value(bx.drop_first(), acc1));
        assert(digits_value(b, acc) == digits_value(b.drop_first(), acc1));
        lemma_digits_value_push(b.drop_first(), x, acc1);
    } else {
        assert(bx.drop_first() =~= Seq::<u8>::empty());
        assert(bx[0] == x);
        assert(digits_value(bx, acc) == digits_value(bx.drop_first(), acc * 10 + (x - 48)));
        assert(digits_value(bx.drop_first(), acc * 10 + (x - 48)) == acc * 10 + (x - 48));
    }
}

proof fn lemma_digits_value_grows(b: Seq<u8>, acc: int)
    requires
        all_digits(b),
        acc >= 0,
    ensures
        digits_value(b, acc) >= acc,
        b.len() > 0 ==> digits_value(b, acc) >= acc * 10 + (b[0] - 48),
    decreases b.len(),
{
    if b.len() > 0 {
        lemma_digits_value_grows(b.drop_first(), acc * 10 + (b[0] - 48));
    }
}

/// Digits whose value fits are parsed to that value.
proof fn lemma_parse_digits_value(b: Seq<u8>, acc: u64)
    requires
        all_digits(b),
        digits_value(b, acc as int) <= u64::MAX,
    ensures
        parse_digits(b, acc) == Ok::<u64, ParseIndexError>(digits_value(b, acc as int) as u64),
    decreases b.len(),
{
    if b.len() > 0 {
        lemma_digits_value_grows(b, acc as int);
        lemma_digits_value_grows(b.drop_first(), acc * 10 + (b[0] - 48));
        lemma_parse_digits_value(b.drop_first(), (acc * 10 + (b[0] - 48)) as u64);
    }
}

/// The bytes of a character sequence made of ASCII characters.
pub open spec fn ascii_bytes(s: Seq<char>) -> Seq<u8> {
    s.map_values(|c: char| c as u8)
}

proof fn lemma_decimal_ascii(n: nat)
    ensures
        is_ascii_chars(decimal(n)),
        all_digits(ascii_bytes(decimal(n))),
        digits_value(ascii_bytes(decimal(n)), 0) == n,
        ascii_bytes(decimal(n))[0] != 43,
    decreases n,
{
    if n >= 10 {
        lemma_decimal_ascii(n / 10);
        let d = decimal(n / 10);
        let c = digit_char((n % 10) as int);
        lemma_digit_order((n % 10) as int, 0);
        assert(ascii_bytes(d.push(c)) =~= ascii_bytes(d).push(c as u8));
        lemma_digits_value_push(ascii_bytes(d), c as u8, 0);
        assert(ascii_bytes(d.push(c))[0] == ascii_bytes(d)[0]);
        assert(all_digits(ascii_bytes(d.push(c)))) by {
            assert forall|i: int| 0 <= i < ascii_bytes(d.push(c)).len() implies is_digit_byte(
                #[trigger] ascii_bytes(d.push(c))[i],
            ) by {
                if i < d.len() {
                    assert(ascii_bytes(d.push(c))[i] == ascii_bytes(d)[i]);
                }
            }
        }
    } else {
        lemma_digit_order(n as int, 0);
        assert(ascii_bytes(seq![digit_char(n as int)]) =~= seq![digit_char(n as int) as u8]);
        let one = seq![digit_char(n as int) as u8];
        assert(one.drop_first() =~= Seq::<u8>::empty());
        assert(digits_value(one, 0) == digits_value(one.drop_first(), 0 * 10 + (one[0] - 48)));
    }
}

/// Decoding an encoding gives back the index, and the encoding can always be
/// split where decoding splits it.
pub proof fn lemma_decode_encode(n: u64)
    ensures
        is_char_boundary(encode_utf8(ordered_encoding(n)), 3),
        ordered_decoding(encode_utf8(ordered_encoding(n))) == Ok::<LogIndex, ParseIndexError>(
            LogIndex(n),
        ),
{
    let e = ordered_encoding(n);
    let d = decimal(n as nat);
    let l = d.len();
    lemma_decimal_len_u64(n as nat);
    lemma_decimal_ascii(n as nat);
    lemma_decimal_ascii(l);
    let head = two_digits(l);
    assert(head.len() == 2) by {
        if l >= 10 {
            assert(decimal(l) == decimal(l / 10).push(digit_char((l % 10) as int)));
            assert(l / 10 < 10);
        }
    }
    assert(is_ascii_chars(head)) by {
        if l >= 10 {
            lemma_decimal_ascii(l);
        }
    }
    assert(is_ascii_chars(e));
    vstd::utf8::is_ascii_chars_encode_utf8(e);
    let b = encode_utf8(e);
    assert(b =~= ascii_bytes(e));
    vstd::utf8::encode_utf8_valid_utf8(e);
    vstd::utf8::is_char_boundary_iff_not_is_continuation_byte(b, 3);
    assert(b[3] == d[0] as u8);
    assert(b.subrange(3, b.len() as int) =~= ascii_bytes(d));
    lemma_parse_digits_value(ascii_bytes(d), 0);
}

/// Two digits in code-point order are in numeric order.
proof fn lemma_digit_order(x: int, y: int)
    requires
        0 <= x < 10,
        0 <= y < 10,
    ensures
        (digit_char(x) as u32) == 48 + x,
        (digit_char(x) as u8) == 48 + x,
        digit_char(x) == digit_char(y) <==> x == y,
{
}

/// Renderings of equal length are in text order exactly when the numbers are
/// in numeric order.
proof fn lemma_decimal_same_len_order(n: nat, m: nat)
    requires
        decimal(n).len() == decimal(m).len(),
    ensures
        seq_lt(decimal(n), decimal(m)) <==> n < m,
        decimal(n) == decimal(m) <==> n == m,
    decreases n,
{
    if n < 10 {
        if m >= 10 {
            lemma_decimal_len_bounds(m / 10);
        }
        lemma_digit_order(n as int, m as int);
        let a = decimal(n);
        let b = decimal(m);
        if n != m {
            assert(a.subrange(0, 0) =~= b.subrange(0, 0));
            lemma_seq_lt_at_difference(a, b, 0);
        } else {
            lemma_seq_lt_irreflexive(a);
        }
    } else {
        if m < 10 {
            lemma_decimal_len_bounds(n / 10);
        }
        assert(m >= 10);
        lemma_decimal_same_len_order(n / 10, m / 10);
        let a = decimal(n / 10);
        let b = decimal(m / 10);
        let x = digit_char((n % 10) as int);
        let y = digit_char((m % 10) as int);
        lemma_digit_order((n % 10) as int, (m % 10) as int);
        if a == b {
            assert(n / 10 == m / 10);
            if x != y {
                assert(a.push(x).subrange(0, a.len() as int) =~= b.push(y).subrange(
                    0,
                    a.len() as int,
                ));
                lemma_seq_lt_at_difference(a.push(x), b.push(y), a.len() as int);
            } else {
                assert(n % 10 == m % 10);
                lemma_seq_lt_irreflexive(a.push(x));
            }
        } else {
            assert(exists|k: int| 0 <= k < a.len() && a[k] != b[k]) by {
                if !(exists|k: int| 0 <= k < a.len() && a[k] != b[k]) {
                    assert(a =~= b);
                }
            }
            let k = choose|k: int| 0 <= k < a.len() && a[k] != b[k];
            let k0 = first_difference(a, b, k);
            lemma_seq_lt_append_at_difference(a, b, seq![x], seq![y], k0);
            assert(a + seq![x] =~= a.push(x));
            assert(b + seq![y] =~= b.push(y));
            assert(a.push(x)[k0] != b.push(y)[k0]);
            assert(n / 10 != m / 10);
            if seq_lt(a, b) {
                assert(n / 10 < m / 10);
            } else {
                assert(!(n / 10 < m / 10));
            }
        }
    }
}

/// The first position where two sequences of equal length differ, below `k`
/// where they differ at `k`.
proof fn first_difference(a: Seq<char>, b: Seq<char>, k: int) -> (r: int)
    requires
        a.len() == b.len(),
        0 <= k < a.len(),
        a[k] != b[k],
    ensures
        0 <= r <= k,
        a[r] != b[r],
        a.subrange(0, r) == b.subrange(0, r),
    decreases k,
{
    if exists|j: int| 0 <= j < k && a[j] != b[j] {
        let j = choose|j: int| 0 <= j < k && a[j] != b[j];
        first_difference(a, b, j)
    } else {
        assert(a.subrange(0, k) =~= b.subrange(0, k));
        k
    }
}

/// The encoding preserves order: the text order of two encodings is the
/// numeric order of the indexes.
pub proof fn lemma_ordered_encoding_order(n: u64, m: u64)
    ensures
        seq_lt(ordered_encoding(n), ordered_encoding(m)) <==> n < m,
{
    let dn = decimal(n as nat);
    let dm = decimal(m as nat);
    let ln = dn.len();
    let lm = dm.len();
    lemma_decimal_len_u64(n as nat);
    lemma_decimal_len_u64(m as nat);
    lemma_decimal_len_bounds(n as nat);
    lemma_decimal_len_bounds(m as nat);
    let hn = two_digits(ln) + seq!['-'];
    let hm = two_digits(lm) + seq!['-'];
    assert(ordered_encoding(n) =~= hn + dn);
    assert(ordered_encoding(m) =~= hm + dm);
    if ln == lm {
        assert(hn == hm);
        crate::base::text::lemma_seq_lt_prepend(hn, dn, dm);
        lemma_decimal_same_len_order(n as nat, m as nat);
    } else {
        // The lengths differ, so the numbers differ in the same direction.
        if ln < lm {
            lemma_pow10_monotone(ln, (lm - 1) as nat);
            assert(n < m);
        } else {
            lemma_pow10_monotone(lm, (ln - 1) as nat);
            assert(m < n);
        }
        lemma_two_digits_order(ln, lm);
        lemma_two_digits_order(lm, ln);
        let tn = two_digits(ln);
        let tm = two_digits(lm);
        let k = first_difference(tn, tm, if tn[0] != tm[0] {
            0
        } else {
            1
        });
        lemma_seq_lt_append_at_difference(tn, tm, seq!['-'] + dn, seq!['-'] + dm, k);
        assert(tn + (seq!['-'] + dn) =~= hn + dn);
        assert(tm + (seq!['-'] + dm) =~= hm + dm);
        if ln < lm {
            assert(seq_lt(tn, tm));
        } else {
            assert(seq_lt(tm, tn));
            lemma_seq_lt_asymmetric(tm, tn);
        }
    }
}

proof fn lemma_pow10_monotone(a: nat, b: nat)
    requires
        a <= b,
    ensures
        pow10(a) <= pow10(b),
    decreases b,
{
    if a < b {
        lemma_pow10_monotone(a, (b - 1) as nat);
    }
}

proof fn lemma_two_digits_len(l: nat)
    requires
        1 <= l <= 20,
    ensures
        two_digits(l).len() == 2,
{
    if l >= 10 {
        assert(decimal(l) == decimal(l / 10).push(digit_char((l % 10) as int)));
        assert(l / 10 < 10);
    }
}

/// Two-digit renderings of lengths below a hundred differ and are in numeric
/// order.
proof fn lemma_two_digits_order(x: nat, y: nat)
    requires
        1 <= x <= 20,
        1 <= y <= 20,
        x != y,
    ensures
        two_digits(x).len() == 2,
        two_digits(y).len() == 2,
        two_digits(x)[0] != two_digits(y)[0] || two_digits(x)[1] != two_digits(y)[1],
        seq_lt(two_digits(x), two_digits(y)) <==> x < y,
{
    assert(two_digits(x) =~= seq![digit_char((x / 10) as int), digit_char((x % 10) as int)]) by {
        if x >= 10 {
            assert(decimal(x) == decimal(x / 10).push(digit_char((x % 10) as int)));
        }
    }
    assert(two_digits(y) =~= seq![digit_char((y / 10) as int), digit_char((y % 10) as int)]) by {
        if y >= 10 {
            assert(decimal(y) == decimal(y / 10).push(digit_char((y % 10) as int)));
        }
    }
    let a = two_digits(x);
    let b = two_digits(y);
    lemma_digit_order((x / 10) as int, (y / 10) as int);
    lemma_digit_order((x % 10) as int, (y % 10) as int);
    if x / 10 != y / 10 {
        assert(a.subrange(0, 0) =~= b.subrange(0, 0));
        lemma_seq_lt_at_difference(a, b, 0);
    } else {
        assert(a.subrange(0, 1) =~= b.subrange(0, 1));
        lemma_seq_lt_at_difference(a, b, 1);
    }
}

/// Encodings of different indexes differ at a position within both, before
/// which they agree.
pub proof fn lemma_encoding_difference(n: u64, m: u64) -> (k: int)
    requires
        n != m,
    ensures
        0 <= k < ordered_encoding(n).len(),
        k < ordered_encoding(m).len(),
        ordered_encoding(n).subrange(0, k) == ordered_encoding(m).subrange(0, k),
        ordered_encoding(n)[k] != ordered_encoding(m)[k],
{
    let en = ordered_encoding(n);
    let em = ordered_encoding(m);
    let ln = decimal(n as nat).len();
    let lm = decimal(m as nat).len();
    lemma_decimal_len_u64(n as nat);
    lemma_decimal_len_u64(m as nat);
    lemma_decimal_len_bounds(n as nat);
    lemma_decimal_len_bounds(m as nat);
    if ln == lm {
        lemma_two_digits_len(ln);
        lemma_decimal_same_len_order(n as nat, m as nat);
        let dn = decimal(n as nat);
        let dm = decimal(m as nat);
        assert(exists|k: int| 0 <= k < en.len() && en[k] != em[k]) by {
            if !(exists|k: int| 0 <= k < en.len() && en[k] != em[k]) {
                assert(en =~= em);
                assert(dn =~= en.subrange(3, en.len() as int));
                assert(dm =~= em.subrange(3, em.len() as int));
            }
        }
        let k = choose|k: int| 0 <= k < en.len() && en[k] != em[k];
        first_difference(en, em, k)
    } else {
        lemma_two_digits_order(ln, lm);
        let tn = two_digits(ln);
        let tm = two_digits(lm);
        let k = first_difference(tn, tm, if tn[0] != tm[0] {
            0
        } else {
            1
        });
        assert(en.subrange(0, k) =~= tn.subrange(0, k));
        assert(em.subrange(0, k) =~= tm.subrange(0, k));
        k
    }
}

} // verus!
