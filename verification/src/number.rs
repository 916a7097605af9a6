//! Unsigned decimal numbers as they stand in a zone file.

use crate::text::is_digit_spec;
use vstd::prelude::*;

verus! {

/// The number that a sequence of decimal digits denotes, most significant
/// digit first.
pub open spec fn digits_value(s: Seq<char>) -> nat
    decreases s.len(),
{
    if s.len() == 0 {
        0
    } else {
        digits_value(s.drop_last()) * 10 + (s.last() as u32 - 48) as nat
    }
}

/// Every character is a decimal digit.
pub open spec fn all_digits(s: Seq<char>) -> bool {
    forall|i: int| 0 <= i < s.len() ==> is_digit_spec(#[trigger] s[i])
}

/// What is left of a numeral once one leading `+` is taken off.
pub open spec fn unsigned_part(s: Seq<char>) -> Seq<char> {
    if s.len() > 0 && s[0] == '+' {
        s.skip(1)
    } else {
        s
    }
}

/// The number a token denotes: an optional `+`, then one or more decimal
/// digits and nothing else.
pub open spec fn parse_nat_spec(s: Seq<char>) -> Option<nat> {
    let d = unsigned_part(s);
    if d.len() > 0 && all_digits(d) {
        Some(digits_value(d))
    } else {
        None
    }
}

/// `parse_nat_spec`, with numbers above `max` rejected.
pub open spec fn parse_bounded_spec(s: Seq<char>, max: nat) -> Option<nat> {
    match parse_nat_spec(s) {
        Some(n) => if n <= max {
            Some(n)
        } else {
            None
        },
        None => None,
    }
}

/// The number a token denotes, where it fits 32 bits.
pub open spec fn parse_u32_spec(s: Seq<char>) -> Option<u32> {
    match parse_bounded_spec(s, 0xFFFF_FFFF) {
        Some(n) => Some(n as u32),
        None => None,
    }
}

/// The number a token denotes, where it fits 16 bits.
pub open spec fn parse_u16_spec(s: Seq<char>) -> Option<u16> {
    match parse_bounded_spec(s, 0xFFFF) {
        Some(n) => Some(n as u16),
        None => None,
    }
}

/// The number a token denotes, where it fits 8 bits.
pub open spec fn parse_u8_spec(s: Seq<char>) -> Option<u8> {
    match parse_bounded_spec(s, 0xFF) {
        Some(n) => Some(n as u8),
        None => None,
    }
}

/// A prefix of a digit sequence denotes no more than the whole.
pub proof fn lemma_digits_value_prefix(s: Seq<char>, k: int)
    requires
        0 <= k <= s.len(),
    ensures
        digits_value(s.take(k)) <= digits_value(s),
    decreases s.len(),
{
    if k == s.len() {
        assert(s.take(k) =~= s);
    } else {
        lemma_digits_value_prefix(s.drop_last(), k);
        assert(s.drop_last().take(k) =~= s.take(k));
    }
}

/// Reads a number that is at most `max`; see `parse_bounded_spec`.
fn parse_bounded(s: &[char], max: u64) -> (r: Option<u64>)
    requires
        max <= 0xFFFF_FFFF,
    ensures
        match r {
            Some(n) => parse_bounded_spec(s@, max as nat) == Some(n as nat),
            None => parse_bounded_spec(s@, max as nat) is None,
        },
{
    let start: usize = if s.len() > 0 && s[0] == '+' {
        1
    } else {
        0
    };
    let ghost d = unsigned_part(s@);
    assert(d =~= s@.skip(start as int));
    if start == s.len() {
        return None;
    }
    let mut acc: u64 = 0;
    let mut i: usize = start;
    while i < s.len()
        invariant
            start <= i <= s.len(),
            d == s@.skip(start as int),
            d == unsigned_part(s@),
            acc <= max <= 0xFFFF_FFFF,
            acc == digits_value(d.take(i - start)),
            all_digits(d.take(i - start)),
        decreases s.len() - i,
    {
        let n: u32 = s[i] as u32;
        let ghost next = d.take(i + 1 - start);
        assert(next.drop_last() =~= d.take(i - start));
        assert(next.last() == s@[i as int]);
        if n < 48 || n > 57 {
            assert(!is_digit_spec(d[i - start]));
            return None;
        }
        let v: u64 = acc * 10 + (n - 48) as u64;
        assert(v == digits_value(next));
        if v > max {
            proof {
                if all_digits(d) {
                    lemma_digits_value_prefix(d, i + 1 - start);
                }
            }
            return None;
        }
        acc = v;
        i += 1;
    }
    assert(d.take(i - start) =~= d);
    Some(acc)
}

/// Reads a number of 32 bits; see `parse_nat_spec`.
pub fn parse_u32(s: &[char]) -> (r: Option<u32>)
    ensures
        r == parse_u32_spec(s@),
{
    match parse_bounded(s, 0xFFFF_FFFF) {
        Some(n) => Some(n as u32),
        None => None,
    }
}

/// Reads a number of 16 bits; see `parse_nat_spec`.
pub fn parse_u16(s: &[char]) -> (r: Option<u16>)
    ensures
        r == parse_u16_spec(s@),
{
    match parse_bounded(s, 0xFFFF) {
        Some(n) => Some(n as u16),
        None => None,
    }
}

/// Reads a number of 8 bits; see `parse_nat_spec`.
pub fn parse_u8(s: &[char]) -> (r: Option<u8>)
    ensures
        r == parse_u8_spec(s@),
{
    match parse_bounded(s, 0xFF) {
        Some(n) => Some(n as u8),
        None => None,
    }
}

/// The character of a decimal digit.
pub open spec fn digit_char(d: nat) -> char {
    (48 + d) as char
}

/// The decimal numeral of a number: no sign, no leading zero but for zero
/// itself.
pub open spec fn decimal_spec(n: nat) -> Seq<char>
    decreases n,
{
    if n < 10 {
        seq![digit_char(n)]
    } else {
        decimal_spec(n / 10).push(digit_char(n % 10))
    }
}

/// Appends the decimal numeral of `n` to `out`.
pub fn push_decimal(out: &mut Vec<char>, n: u64)
    ensures
        final(out)@ == old(out)@ + decimal_spec(n as nat),
    decreases n,
{
    if n >= 10 {
        push_decimal(out, n / 10);
    }
    let d: u8 = (n % 10) as u8;
    let c: char = (48u8 + d) as char;
    assert(c == digit_char((n % 10) as nat));
    out.push(c);
    assert(out@ =~= old(out)@ + decimal_spec(n as nat));
}

/// The decimal numeral of `n`.
pub fn decimal(n: u64) -> (out: Vec<char>)
    ensures
        out@ == decimal_spec(n as nat),
{
    let mut out: Vec<char> = Vec::new();
    push_decimal(&mut out, n);
    out
}

/// A numeral denotes the number it was written for.
pub proof fn lemma_decimal_round_trip(n: nat)
    ensures
        decimal_spec(n).len() > 0,
        all_digits(decimal_spec(n)),
        digits_value(decimal_spec(n)) == n,
        parse_nat_spec(decimal_spec(n)) == Some(n),
    decreases n,
{
    let s = decimal_spec(n);
    if n < 10 {
        assert(s[0] == digit_char(n));
        assert(s.drop_last() =~= Seq::<char>::empty());
        assert(digits_value(s.drop_last()) == 0);
    } else {
        lemma_decimal_round_trip(n / 10);
        assert(s.drop_last() =~= decimal_spec(n / 10));
        assert(s.last() == digit_char(n % 10));
        assert forall|i: int| 0 <= i < s.len() implies is_digit_spec(#[trigger] s[i]) by {
            if i < s.len() - 1 {
                assert(s[i] == decimal_spec(n / 10)[i]);
            }
        }
    }
    assert(s[0] != '+');
    assert(unsigned_part(s) == s);
}

} // verus!
