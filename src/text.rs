//! Verified routines on strings, seen as sequences of characters.
use std::num::ParseIntError;
use vstd::prelude::*;
use vstd::string::StrSliceExecFns;

verus! {

#[verifier::external_type_specification]
#[verifier::external_body]
pub struct ExParseIntError(ParseIntError);

/// Whether `c` is an ASCII decimal digit.
pub open spec fn is_digit(c: char) -> bool {
    '0' <= c <= '9'
}

/// A non-empty run of ASCII decimal digits.
pub open spec fn all_digits(s: Seq<char>) -> bool {
    s.len() > 0 && forall|i: int| 0 <= i < s.len() ==> is_digit(#[trigger] s[i])
}

/// The number that the decimal digits `s` spell.
pub open spec fn digits_value(s: Seq<char>) -> nat
    decreases s.len(),
{
    if s.len() == 0 {
        0
    } else {
        digits_value(s.drop_last()) * 10 + (s.last() as nat - '0' as nat) as nat
    }
}

/// The integer that `s` writes in decimal: an optional `+` or `-` sign
/// followed by one or more ASCII digits, with nothing else around them.
pub open spec fn decimal_int(s: Seq<char>) -> Option<int> {
    if s.len() > 0 && (s[0] == '+' || s[0] == '-') {
        if all_digits(s.drop_first()) {
            if s[0] == '-' {
                Some(-digits_value(s.drop_first()))
            } else {
                Some(digits_value(s.drop_first()) as int)
            }
        } else {
            None
        }
    } else if all_digits(s) {
        Some(digits_value(s) as int)
    } else {
        None
    }
}

/// The unsigned integer that `s` writes in decimal: an optional `+` sign
/// followed by one or more ASCII digits.
pub open spec fn decimal_nat(s: Seq<char>) -> Option<nat> {
    if s.len() > 0 && s[0] == '+' {
        if all_digits(s.drop_first()) {
            Some(digits_value(s.drop_first()))
        } else {
            None
        }
    } else if all_digits(s) {
        Some(digits_value(s))
    } else {
        None
    }
}

/// Whether `s` parses as an `i32`.
pub open spec fn parses_i32(s: Seq<char>) -> bool {
    decimal_int(s) matches Some(v) && i32::MIN <= v <= i32::MAX
}

/// Whether `s` parses as a `u32`.
pub open spec fn parses_u32(s: Seq<char>) -> bool {
    decimal_nat(s) matches Some(v) && v <= u32::MAX
}

/// Whether `s` parses as a `u16`.
pub open spec fn parses_u16(s: Seq<char>) -> bool {
    decimal_nat(s) matches Some(v) && v <= u16::MAX
}

/// Relies on `str::parse::<u16>` (`u16::from_str`): it accepts an optional
/// `+` and decimal digits whose value fits, and returns that value.
#[verifier::external_body]
pub(crate) fn parse_u16(s: &str) -> (r: Result<u16, ParseIntError>)
    ensures
        r is Ok <==> parses_u16(s@),
        r matches Ok(v) ==> decimal_nat(s@) == Some(v as nat),
{
    s.parse::<u16>()
}

/// Relies on `str::parse::<i32>` (`i32::from_str`): it accepts an optional
/// sign and decimal digits whose value fits, and returns that value.
#[verifier::external_body]
pub(crate) fn parse_i32(s: &str) -> (r: Result<i32, ParseIntError>)
    ensures
        r is Ok <==> parses_i32(s@),
        r matches Ok(v) ==> decimal_int(s@) == Some(v as int),
{
    s.parse::<i32>()
}

/// Relies on `str::parse::<u32>` (`u32::from_str`): it accepts an optional
/// `+` and decimal digits whose value fits, and returns that value.
#[verifier::external_body]
pub(crate) fn parse_u32(s: &str) -> (r: Result<u32, ParseIntError>)
    ensures
        r is Ok <==> parses_u32(s@),
        r matches Ok(v) ==> decimal_nat(s@) == Some(v as nat),
{
    s.parse::<u32>()
}

/// Unicode's `White_Space` property.
pub open spec fn is_white(c: char) -> bool {
    ('\u{9}' <= c <= '\u{d}') || c == ' ' || c == '\u{85}' || c == '\u{a0}' || c == '\u{1680}'
        || ('\u{2000}' <= c <= '\u{200a}') || c == '\u{2028}' || c == '\u{2029}'
        || c == '\u{202f}' || c == '\u{205f}' || c == '\u{3000}'
}

/// Relies on `char::is_whitespace`: true exactly for the characters with
/// Unicode's `White_Space` property.
#[verifier::external_body]
pub(crate) fn white(c: char) -> (r: bool)
    ensures
        r == is_white(c),
{
    c.is_whitespace()
}

/// The upper-case form of a string, by Unicode's case mapping.
pub uninterp spec fn upper_of(s: Seq<char>) -> Seq<char>;

/// Relies on `str::to_uppercase`: the result depends on the characters
/// alone, and an empty string stays empty.
#[verifier::external_body]
pub(crate) fn to_upper(s: &str) -> (r: String)
    ensures
        r@ == upper_of(s@),
        s@.len() == 0 ==> r@.len() == 0,
{
    s.to_uppercase()
}

/// Whether `s` contains the character `c`.
pub fn contains_char(s: &str, c: char) -> (r: bool)
    ensures
        r == s@.contains(c),
{
    let n = s.unicode_len();
    let mut i: usize = 0;
    while i < n
        invariant
            n == s@.len(),
            i <= n,
            forall|j: int| 0 <= j < i ==> s@[j] != c,
        decreases n - i,
    {
        if s.get_char(i) == c {
            assert(s@[i as int] == c);
            return true;
        }
        i += 1;
    }
    false
}

/// Whether two strings hold the same characters.
pub fn same_text(a: &str, b: &str) -> (r: bool)
    ensures
        r == (a@ == b@),
{
    let n = a.unicode_len();
    let m = b.unicode_len();
    if n != m {
        return false;
    }
    let mut i: usize = 0;
    while i < n
        invariant
            n == a@.len(),
            m == b@.len(),
            n == m,
            i <= n,
            forall|j: int| 0 <= j < i ==> a@[j] == b@[j],
        decreases n - i,
    {
        if a.get_char(i) != b.get_char(i) {
            return false;
        }
        i += 1;
    }
    assert(a@ =~= b@);
    true
}

} // verus!
