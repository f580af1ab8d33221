//! Texts: the whitespace at their ends, their lower case, and the numbers
//! that they spell.

use vstd::prelude::*;
use vstd::slice::slice_subrange;

verus! {

/// The lower-case form of an ASCII letter, and any other character as it
/// is.
pub open spec fn ascii_lower(c: char) -> char {
    if 'A' <= c <= 'Z' {
        ((c as u8) + 32) as char
    } else {
        c
    }
}

/// A text without the whitespace at its two ends, as `str::trim` of std
/// takes it off.
pub uninterp spec fn trimmed(text: Seq<char>) -> Seq<char>;

/// Calls `str::trim` of std, which returns the text without its leading
/// and trailing whitespace.
#[verifier::external_body]
pub(crate) fn trim(text: &str) -> (inner: &str)
    ensures
        inner@ == trimmed(text@),
{
    text.trim()
}

/// Calls `str::to_ascii_lowercase` of std, which maps the ASCII letters `A`
/// to `Z` to `a` to `z` and leaves every other character as it is.
#[verifier::external_body]
pub(crate) fn to_ascii_lowercase(text: &str) -> (lower: String)
    ensures
        lower@ == text@.map_values(|c: char| ascii_lower(c)),
{
    text.to_ascii_lowercase()
}

/// Whether a byte is a decimal digit in ASCII.
pub open spec fn is_digit(byte: u8) -> bool {
    0x30 <= byte <= 0x39
}

/// The number that a text of decimal digits spells.
pub open spec fn digits_value(digits: Seq<u8>) -> nat
    decreases digits.len(),
{
    if digits.len() == 0 {
        0
    } else {
        digits_value(digits.drop_last()) * 10 + (digits.last() - 0x30) as nat
    }
}

/// Whether every byte of a text is a decimal digit.
pub open spec fn all_digits(digits: Seq<u8>) -> bool {
    forall|i: int| 0 <= i < digits.len() ==> is_digit(#[trigger] digits[i])
}

/// The digits of a number text: the text without its plus sign, if it has
/// one.
pub open spec fn unsigned_digits(text: Seq<u8>) -> Seq<u8> {
    if text.len() > 0 && text[0] == 0x2b {
        text.skip(1)
    } else {
        text
    }
}

/// The number up to `max` that a text spells: an optional plus sign, then
/// one or more decimal digits, leading zeros allowed. `None` for any other
/// text and for a larger number.
pub open spec fn decimal(text: Seq<u8>, max: nat) -> Option<nat> {
    let digits = unsigned_digits(text);
    if digits.len() == 0 || !all_digits(digits) || digits_value(digits) > max {
        None
    } else {
        Some(digits_value(digits))
    }
}

/// The number below 2^32 that a text spells.
pub open spec fn decimal_u32(text: Seq<u8>) -> Option<u32> {
    match decimal(text, u32::MAX as nat) {
        Some(value) => Some(value as u32),
        None => None,
    }
}

/// The number that fits a `usize` that a text spells.
pub open spec fn decimal_usize(text: Seq<u8>) -> Option<usize> {
    match decimal(text, usize::MAX as nat) {
        Some(value) => Some(value as usize),
        None => None,
    }
}

/// More digits never spell a smaller number.
proof fn lemma_digits_value_grows(digits: Seq<u8>, n: int)
    requires
        0 <= n <= digits.len(),
        all_digits(digits),
    ensures
        digits_value(digits.take(n)) <= digits_value(digits),
    decreases digits.len() - n,
{
    if n == digits.len() {
        assert(digits.take(n) =~= digits);
    } else {
        let next = digits.take(n + 1);
        assert(next.drop_last() =~= digits.take(n));
        assert(next.last() == digits[n]);
        assert(is_digit(digits[n]));
        lemma_digits_value_grows(digits, n + 1);
    }
}

/// Reads a number up to `max` from its decimal text.
pub fn parse_decimal(text: &[u8], max: u64) -> (value: Option<u64>)
    ensures
        match value {
            Some(number) => decimal(text@, max as nat) == Some(number as nat),
            None => decimal(text@, max as nat) is None,
        },
{
    let start: usize = if text.len() > 0 && text[0] == 0x2b {
        1
    } else {
        0
    };
    let digits = slice_subrange(text, start, text.len());
    assert(digits@ =~= unsigned_digits(text@));
    if digits.len() == 0 {
        return None;
    }
    let mut value: u128 = 0;
    let mut i: usize = 0;
    while i < digits.len()
        invariant
            i <= digits.len(),
            digits@.len() > 0,
            digits@ == unsigned_digits(text@),
            all_digits(digits@.take(i as int)),
            value == digits_value(digits@.take(i as int)),
            value <= max,
        decreases digits.len() - i,
    {
        let byte: u8 = digits[i];
        let ghost next = digits@.take(i + 1);
        proof {
            assert(next.drop_last() =~= digits@.take(i as int));
            assert(next.last() == byte);
        }
        if byte < 0x30 || byte > 0x39 {
            assert(!is_digit(digits@[i as int]));
            return None;
        }
        value = value * 10 + (byte - 0x30) as u128;
        proof {
            assert forall|k: int| 0 <= k < next.len() implies is_digit(#[trigger] next[k]) by {
                if k < i {
                    assert(next[k] == digits@.take(i as int)[k]);
                }
            }
        }
        if value > max as u128 {
            proof {
                if all_digits(digits@) {
                    lemma_digits_value_grows(digits@, i + 1);
                }
            }
            return None;
        }
        i += 1;
    }
    assert(digits@.take(i as int) =~= digits@);
    Some(value as u64)
}

/// Reads a number below 2^32 from its decimal text.
pub fn parse_u32(text: &[u8]) -> (value: Option<u32>)
    ensures
        value == decimal_u32(text@),
{
    match parse_decimal(text, u32::MAX as u64) {
        Some(number) => Some(number as u32),
        None => None,
    }
}

/// Reads a number that fits a `usize` from its decimal text.
pub fn parse_usize(text: &[u8]) -> (value: Option<usize>)
    ensures
        value == decimal_usize(text@),
{
    match parse_decimal(text, usize::MAX as u64) {
        Some(number) => Some(number as usize),
        None => None,
    }
}

} // verus!
