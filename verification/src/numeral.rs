//! Reading numbers from text: unsigned decimal numbers that fit sixteen
//! bits, and two-character hexadecimal bytes.

use crate::text::{decimal_text, digit_char};
use vstd::prelude::*;

verus! {

/// Whether `c` is one of the ten ASCII decimal digits.
pub open spec fn is_decimal_digit(c: char) -> bool {
    '0' <= c && c <= '9'
}

/// The value of a decimal digit; zero for any other character.
pub open spec fn decimal_digit_value(c: char) -> nat {
    if is_decimal_digit(c) {
        (c as nat - '0' as nat) as nat
    } else {
        0
    }
}

/// Whether every character of `s` is a decimal digit.
pub open spec fn all_decimal_digits(s: Seq<char>) -> bool {
    forall|i: int| 0 <= i < s.len() ==> is_decimal_digit(#[trigger] s[i])
}

/// The number that a run of decimal digits writes, most significant digit
/// first; zero for the empty run.
pub open spec fn digits_value(s: Seq<char>) -> nat
    decreases s.len(),
{
    if s.len() == 0 {
        0
    } else {
        digits_value(s.drop_last()) * 10 + decimal_digit_value(s.last())
    }
}

/// `s` without its leading plus sign, if it has one.
pub open spec fn unsigned_digits(s: Seq<char>) -> Seq<char> {
    if s.len() > 0 && s[0] == '+' {
        s.skip(1)
    } else {
        s
    }
}

/// Whether `s` writes a number that fits sixteen bits: an optional plus
/// sign, then one or more decimal digits, with a value of at most 65535.
pub open spec fn is_u16_text(s: Seq<char>) -> bool {
    let d = unsigned_digits(s);
    d.len() > 0 && all_decimal_digits(d) && digits_value(d) <= u16::MAX
}

/// The number that `s` writes, where `is_u16_text(s)`.
pub open spec fn u16_of_text(s: Seq<char>) -> u16 {
    digits_value(unsigned_digits(s)) as u16
}

/// A run of digits is worth at least as much as any of its prefixes.
pub proof fn lemma_digits_prefix_le(s: Seq<char>, k: int)
    requires
        0 <= k <= s.len(),
    ensures
        digits_value(s.subrange(0, k)) <= digits_value(s),
    decreases s.len(),
{
    if k == s.len() {
        assert(s.subrange(0, k) =~= s);
    } else {
        assert(s.drop_last().subrange(0, k) =~= s.subrange(0, k));
        lemma_digits_prefix_le(s.drop_last(), k);
    }
}

/// The decimal text of a number is a run of digits that is worth the
/// number.
pub proof fn lemma_decimal_text_value(n: nat)
    ensures
        decimal_text(n).len() > 0,
        all_decimal_digits(decimal_text(n)),
        digits_value(decimal_text(n)) == n,
    decreases n,
{
    let text = decimal_text(n);
    if n < 10 {
        assert(text.drop_last() =~= Seq::<char>::empty());
        assert(text.last() == digit_char(n));
        assert(decimal_digit_value(digit_char(n)) == n);
        assert(digits_value(text.drop_last()) == 0);
    } else {
        lemma_decimal_text_value(n / 10);
        assert(text.drop_last() =~= decimal_text(n / 10));
        assert(text.last() == digit_char(n % 10));
        assert(decimal_digit_value(digit_char(n % 10)) == n % 10);
        assert forall|i: int| 0 <= i < text.len() implies is_decimal_digit(#[trigger] text[i]) by {
            if i < text.len() - 1 {
                assert(text[i] == decimal_text(n / 10)[i]);
            }
        }
    }
}

/// Reading the decimal text of a number that fits sixteen bits gives the
/// number back.
pub proof fn lemma_decimal_text_reads_back(n: u16)
    ensures
        is_u16_text(decimal_text(n as nat)),
        u16_of_text(decimal_text(n as nat)) == n,
{
    lemma_decimal_text_value(n as nat);
    assert(is_decimal_digit(decimal_text(n as nat)[0]));
}

/// Reads the characters of `chars` from `from` up to `to` as a number that
/// fits sixteen bits.
pub fn parse_u16(chars: &Vec<char>, from: usize, to: usize) -> (value: Option<u16>)
    requires
        from <= to <= chars.len(),
    ensures
        value == (if is_u16_text(chars@.subrange(from as int, to as int)) {
            Some(u16_of_text(chars@.subrange(from as int, to as int)))
        } else {
            None
        }),
{
    let ghost piece = chars@.subrange(from as int, to as int);
    let mut start: usize = from;
    if from < to && chars[from] == '+' {
        start = from + 1;
    }
    let ghost d = chars@.subrange(start as int, to as int);
    assert(d =~= unsigned_digits(piece));
    if start == to {
        return None;
    }
    let mut acc: u32 = 0;
    let mut i: usize = start;
    assert(d.subrange(0, 0) =~= Seq::<char>::empty());
    while i < to
        invariant
            start <= i <= to <= chars.len(),
            d == chars@.subrange(start as int, to as int),
            d == unsigned_digits(chars@.subrange(from as int, to as int)),
            all_decimal_digits(d.subrange(0, i - start)),
            acc == digits_value(d.subrange(0, i - start)),
            acc <= u16::MAX,
        decreases to - i,
    {
        let c: char = chars[i];
        if !('0' <= c && c <= '9') {
            assert(d[i - start] == c);
            assert(!is_decimal_digit(d[i - start]));
            return None;
        }
        let digit: u32 = c as u32 - '0' as u32;
        let ghost shorter = d.subrange(0, i - start);
        let ghost longer = d.subrange(0, i + 1 - start);
        assert(longer.drop_last() =~= shorter);
        assert(longer.last() == c);
        acc = acc * 10 + digit;
        if acc > 65535 {
            proof {
                lemma_digits_prefix_le(d, i + 1 - start);
            }
            return None;
        }
        i += 1;
    }
    assert(d.subrange(0, to - start) =~= d);
    Some(acc as u16)
}

/// Whether `c` is a hexadecimal digit, in either case.
pub open spec fn is_hex_digit(c: char) -> bool {
    ('0' <= c && c <= '9') || ('a' <= c && c <= 'f') || ('A' <= c && c <= 'F')
}

/// The value of a hexadecimal digit; zero for any other character.
pub open spec fn hex_digit_value(c: char) -> nat {
    if '0' <= c && c <= '9' {
        (c as nat - '0' as nat) as nat
    } else if 'a' <= c && c <= 'f' {
        (c as nat - 'a' as nat + 10) as nat
    } else if 'A' <= c && c <= 'F' {
        (c as nat - 'A' as nat + 10) as nat
    } else {
        0
    }
}

/// Whether the two characters write a byte in hexadecimal: both are
/// hexadecimal digits.
pub open spec fn is_hex_byte(high: char, low: char) -> bool {
    is_hex_digit(high) && is_hex_digit(low)
}

/// The byte that the two characters write, where `is_hex_byte(high, low)`.
pub open spec fn hex_byte_value(high: char, low: char) -> nat {
    16 * hex_digit_value(high) + hex_digit_value(low)
}

/// The value of `c` as a hexadecimal digit, if it is one.
pub fn hex_digit(c: char) -> (value: Option<u8>)
    ensures
        value == (if is_hex_digit(c) {
            Some(hex_digit_value(c) as u8)
        } else {
            None
        }),
{
    if '0' <= c && c <= '9' {
        Some((c as u32 - '0' as u32) as u8)
    } else if 'a' <= c && c <= 'f' {
        Some((c as u32 - 'a' as u32 + 10) as u8)
    } else if 'A' <= c && c <= 'F' {
        Some((c as u32 - 'A' as u32 + 10) as u8)
    } else {
        None
    }
}

/// Reads two characters as a hexadecimal byte.
pub fn parse_hex_byte(high: char, low: char) -> (value: Option<u8>)
    ensures
        value == (if is_hex_byte(high, low) {
            Some(hex_byte_value(high, low) as u8)
        } else {
            None
        }),
        is_hex_byte(high, low) ==> hex_byte_value(high, low) <= u8::MAX,
{
    match (hex_digit(high), hex_digit(low)) {
        (Some(high_value), Some(low_value)) => Some(16 * high_value + low_value),
        _ => None,
    }
}

} // verus!
