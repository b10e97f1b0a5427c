//! Decimal integers in text: reading them as the integer `FromStr` impls do,
//! and writing them as `Display` does.
use vstd::prelude::*;

use crate::text::{chars_of, is_ascii_digit, push_char};

verus! {

/// The value of an ASCII digit.
pub open spec fn digit_value(c: char) -> int {
    (c as int) - ('0' as int)
}

/// Every character is an ASCII digit.
pub open spec fn all_digits(s: Seq<char>) -> bool {
    forall|i: int| 0 <= i < s.len() ==> is_ascii_digit(#[trigger] s[i])
}

/// The base-ten value of a digit string.
pub open spec fn digits_value(s: Seq<char>) -> int
    decreases s.len(),
{
    if s.len() == 0 {
        0
    } else {
        digits_value(s.drop_last()) * 10 + digit_value(s.last())
    }
}

/// The digits an unsigned parse reads: everything after one optional `+`.
pub open spec fn unsigned_digits(s: Seq<char>) -> Seq<char> {
    if s.len() > 0 && s[0] == '+' {
        s.drop_first()
    } else {
        s
    }
}

/// An unsigned integer type's `FromStr` with largest value `max`: one
/// optional `+`, then one or more ASCII digits whose value is at most `max`.
pub open spec fn parse_unsigned(s: Seq<char>, max: int) -> Option<int> {
    let d = unsigned_digits(s);
    if d.len() > 0 && all_digits(d) && digits_value(d) <= max {
        Some(digits_value(d))
    } else {
        None
    }
}

/// A signed integer type's `FromStr` with range `min..=max`: one optional
/// sign, then one or more ASCII digits whose signed value lies in range.
pub open spec fn parse_signed(s: Seq<char>, min: int, max: int) -> Option<int> {
    if s.len() > 0 && s[0] == '-' {
        let d = s.drop_first();
        if d.len() > 0 && all_digits(d) && -digits_value(d) >= min {
            Some(-digits_value(d))
        } else {
            None
        }
    } else {
        parse_unsigned(s, max)
    }
}

/// The character of a digit value `0..=9`.
pub open spec fn digit_char(d: int) -> char {
    (d + 48) as char
}

/// The decimal text of a natural number, as `Display` writes it.
pub open spec fn decimal(n: nat) -> Seq<char>
    decreases n,
{
    if n < 10 {
        seq![digit_char(n as int)]
    } else {
        decimal(n / 10) + seq![digit_char((n % 10) as int)]
    }
}

proof fn lemma_digits_value_nonneg(s: Seq<char>)
    requires
        all_digits(s),
    ensures
        digits_value(s) >= 0,
    decreases s.len(),
{
    if s.len() > 0 {
        assert(all_digits(s.drop_last())) by {
            assert forall|i: int| 0 <= i < s.drop_last().len() implies is_ascii_digit(
                #[trigger] s.drop_last()[i],
            ) by {
                assert(s.drop_last()[i] == s[i]);
            }
        }
        lemma_digits_value_nonneg(s.drop_last());
        assert(is_ascii_digit(s[s.len() - 1]));
    }
}

/// A digit string is worth at least any of its prefixes.
proof fn lemma_digits_value_prefix(s: Seq<char>, k: int)
    requires
        all_digits(s),
        0 <= k <= s.len(),
    ensures
        digits_value(s) >= digits_value(s.subrange(0, k)),
    decreases s.len(),
{
    if k < s.len() {
        let t = s.drop_last();
        assert(all_digits(t)) by {
            assert forall|i: int| 0 <= i < t.len() implies is_ascii_digit(#[trigger] t[i]) by {
                assert(t[i] == s[i]);
            }
        }
        lemma_digits_value_prefix(t, k);
        assert(t.subrange(0, k) =~= s.subrange(0, k));
        lemma_digits_value_nonneg(t);
        assert(is_ascii_digit(s[s.len() - 1]));
    } else {
        assert(s.subrange(0, k) =~= s);
    }
}

/// Reads `d[start..]` as a digit string no larger than `limit`.
fn read_digits(d: &[char], start: usize, limit: u64) -> (r: Option<u64>)
    requires
        start <= d@.len(),
    ensures
        ({
            let t = d@.subrange(start as int, d@.len() as int);
            match r {
                Some(v) => all_digits(t) && digits_value(t) == v as int && v <= limit,
                None => !(all_digits(t) && digits_value(t) <= limit),
            }
        }),
{
    let ghost t = d@.subrange(start as int, d@.len() as int);
    let mut acc: u64 = 0;
    let mut i: usize = start;
    while i < d.len()
        invariant
            start <= i <= d@.len(),
            t == d@.subrange(start as int, d@.len() as int),
            all_digits(d@.subrange(start as int, i as int)),
            digits_value(d@.subrange(start as int, i as int)) == acc as int,
            acc <= limit,
        decreases d@.len() - i,
    {
        let c = d[i];
        let ghost p = d@.subrange(start as int, i as int);
        let ghost q = d@.subrange(start as int, i + 1);
        assert(q.drop_last() =~= p);
        assert(q.last() == c);
        assert(t[i - start] == c);
        if !('0' <= c && c <= '9') {
            assert(!all_digits(t)) by {
                assert(!is_ascii_digit(t[i - start]));
            }
            return None;
        }
        let dv: u64 = ((c as u32) - 48) as u64;
        let next: u128 = (acc as u128) * 10 + (dv as u128);
        if next > limit as u128 {
            proof {
                assert(all_digits(q)) by {
                    assert forall|j: int| 0 <= j < q.len() implies is_ascii_digit(#[trigger] q[j]) by {
                        if j < p.len() {
                            assert(q[j] == p[j]);
                        }
                    }
                }
                if all_digits(t) {
                    assert(t.subrange(0, (i + 1 - start) as int) =~= q);
                    lemma_digits_value_prefix(t, (i + 1 - start) as int);
                }
            }
            return None;
        }
        acc = next as u64;
        i += 1;
        proof {
            assert forall|j: int| 0 <= j < q.len() implies is_ascii_digit(#[trigger] q[j]) by {
                if j < p.len() {
                    assert(q[j] == p[j]);
                }
            }
        }
    }
    assert(d@.subrange(start as int, i as int) =~= t);
    Some(acc)
}

/// As `usize::from_str(s).ok()`.
pub fn parse_usize(s: &str) -> (r: Option<usize>)
    ensures
        match r {
            Some(v) => parse_unsigned(s@, usize::MAX as int) == Some(v as int),
            None => parse_unsigned(s@, usize::MAX as int) is None,
        },
{
    let d = chars_of(s);
    let start: usize = if d.len() > 0 && d[0] == '+' { 1 } else { 0 };
    assert(d@.subrange(start as int, d@.len() as int) =~= unsigned_digits(s@));
    if start >= d.len() {
        return None;
    }
    match read_digits(&d, start, usize::MAX as u64) {
        Some(v) => Some(v as usize),
        None => None,
    }
}

/// As `u32::from_str(s).ok()`.
pub fn parse_u32(s: &str) -> (r: Option<u32>)
    ensures
        match r {
            Some(v) => parse_unsigned(s@, u32::MAX as int) == Some(v as int),
            None => parse_unsigned(s@, u32::MAX as int) is None,
        },
{
    let d = chars_of(s);
    let start: usize = if d.len() > 0 && d[0] == '+' { 1 } else { 0 };
    assert(d@.subrange(start as int, d@.len() as int) =~= unsigned_digits(s@));
    if start >= d.len() {
        return None;
    }
    match read_digits(&d, start, u32::MAX as u64) {
        Some(v) => Some(v as u32),
        None => None,
    }
}

/// As `i64::from_str(s).ok()`.
pub fn parse_i64(s: &str) -> (r: Option<i64>)
    ensures
        match r {
            Some(v) => parse_signed(s@, i64::MIN as int, i64::MAX as int) == Some(v as int),
            None => parse_signed(s@, i64::MIN as int, i64::MAX as int) is None,
        },
{
    let d = chars_of(s);
    if d.len() > 0 && d[0] == '-' {
        assert(d@.subrange(1, d@.len() as int) =~= s@.drop_first());
        if d.len() == 1 {
            return None;
        }
        match read_digits(&d, 1, 0x8000_0000_0000_0000u64) {
            Some(v) => {
                if v == 0x8000_0000_0000_0000u64 {
                    Some(i64::MIN)
                } else {
                    Some(-(v as i64))
                }
            },
            None => None,
        }
    } else {
        let start: usize = if d.len() > 0 && d[0] == '+' { 1 } else { 0 };
        assert(d@.subrange(start as int, d@.len() as int) =~= unsigned_digits(s@));
        if start >= d.len() {
            return None;
        }
        match read_digits(&d, start, i64::MAX as u64) {
            Some(v) => Some(v as i64),
            None => None,
        }
    }
}

/// Appends the decimal text of `n` to `out`.
fn push_decimal(out: &mut String, n: usize)
    ensures
        final(out)@ == old(out)@ + decimal(n as nat),
    decreases n,
{
    if n >= 10 {
        push_decimal(out, n / 10);
    }
    let d: u8 = (n % 10) as u8;
    let c: char = (d + 48) as char;
    assert(c == digit_char((n % 10) as int));
    push_char(out, c);
    proof {
        if n >= 10 {
            assert(decimal(n as nat) == decimal((n / 10) as nat) + seq![digit_char((n % 10) as int)]);
        }
    }
}

/// The decimal text of `n`, as `n.to_string()`.
pub fn usize_to_decimal(n: usize) -> (s: String)
    ensures
        s@ == decimal(n as nat),
{
    let mut s = String::new();
    push_decimal(&mut s, n);
    assert(s@ =~= decimal(n as nat));
    s
}

/// The decimal text of `n`, as `n.to_string()`.
pub fn u32_to_decimal(n: u32) -> (s: String)
    ensures
        s@ == decimal(n as nat),
{
    usize_to_decimal(n as usize)
}

/// Reading back the decimal text of `n` gives `n`, for any `n` up to the
/// type's largest value: `Display` and `FromStr` agree.
pub proof fn lemma_decimal_round_trip(n: nat, max: int)
    requires
        n <= max,
    ensures
        parse_unsigned(decimal(n), max) == Some(n as int),
{
    lemma_decimal_digits(n);
}

proof fn lemma_digit_char(k: int)
    requires
        0 <= k < 10,
    ensures
        digit_value(digit_char(k)) == k,
        is_ascii_digit(digit_char(k)),
{
    assert(((k + 48) as char) as int == k + 48);
}

proof fn lemma_decimal_digits(n: nat)
    ensures
        decimal(n).len() > 0,
        all_digits(decimal(n)),
        digits_value(decimal(n)) == n,
        decimal(n)[0] != '+',
    decreases n,
{
    let d = decimal(n);
    if n < 10 {
        lemma_digit_char(n as int);
        assert(d == seq![digit_char(n as int)]);
        assert(d.drop_last() =~= Seq::<char>::empty());
        assert(digits_value(d.drop_last()) == 0);
        assert(d.last() == digit_char(n as int));
    } else {
        lemma_decimal_digits(n / 10);
        let h = decimal(n / 10);
        let c = digit_char((n % 10) as int);
        lemma_digit_char((n % 10) as int);
        assert(d == h + seq![c]);
        assert(d.drop_last() =~= h);
        assert(d.last() == c);
        assert forall|i: int| 0 <= i < d.len() implies is_ascii_digit(#[trigger] d[i]) by {
            if i < h.len() {
                assert(d[i] == h[i]);
            }
        }
        assert(d[0] == h[0]);
        assert((n / 10) * 10 + n % 10 == n) by (nonlinear_arith);
        assert(digits_value(d) == digits_value(h) * 10 + digit_value(c));
    }
}

} // verus!
