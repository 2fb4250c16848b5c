//! Borrowing strings.
use crate::ownership::slices;
use crate::text::{to_upper, upper_of};
use std::cmp::Ordering;
use vstd::prelude::*;
use vstd::string::{StrSliceExecFns, StringExecFns};
use vstd::utf8::encode_utf8;

verus! {

/// Lexicographic order of two character sequences.
pub open spec fn lex_cmp(a: Seq<char>, b: Seq<char>) -> Ordering
    decreases a.len(),
{
    if a.len() == 0 {
        if b.len() == 0 {
            Ordering::Equal
        } else {
            Ordering::Less
        }
    } else if b.len() == 0 {
        Ordering::Greater
    } else if (a[0] as u32) < (b[0] as u32) {
        Ordering::Less
    } else if (a[0] as u32) > (b[0] as u32) {
        Ordering::Greater
    } else {
        lex_cmp(a.drop_first(), b.drop_first())
    }
}

/// The length of `s` in bytes, without taking it.
pub fn calculate_length(s: &String) -> (r: usize)
    ensures
        r == encode_utf8(s@).len() as usize,
{
    s.as_str().len()
}

/// Appends `", world"`.
pub fn change(some_string: &mut String)
    ensures
        final(some_string)@ == old(some_string)@ + ", world"@,
{
    some_string.append(", world");
}

/// The text before the first space, or the whole string if there is none.
pub fn first_word(s: &String) -> (r: &str)
    ensures
        slices::is_first_word(s@, r@),
{
    slices::first_word(s.as_str())
}

/// Replaces the string with its upper-case form.
pub fn make_uppercase(s: &mut String)
    ensures
        final(s)@ == upper_of(old(s)@),
{
    *s = to_upper(s.as_str());
}

/// The longer of two strings by byte length; `y` on a tie.
pub fn longest_string<'a>(x: &'a str, y: &'a str) -> (r: &'a str)
    ensures
        r@ == (if encode_utf8(x@).len() as usize > encode_utf8(y@).len() as usize {
            x@
        } else {
            y@
        }),
{
    if x.len() > y.len() {
        x
    } else {
        y
    }
}

/// Compares two strings in lexicographic order of their characters, which
/// is also the order of their UTF-8 bytes.
pub fn compare_strings(s1: &String, s2: &String) -> (r: Ordering)
    ensures
        r == lex_cmp(s1@, s2@),
{
    let a = s1.as_str();
    let b = s2.as_str();
    let n = a.unicode_len();
    let m = b.unicode_len();
    let mut i: usize = 0;
    assert(a@.subrange(0, n as int) =~= a@);
    assert(b@.subrange(0, m as int) =~= b@);
    while i < n && i < m
        invariant
            a@ == s1@,
            b@ == s2@,
            n == a@.len(),
            m == b@.len(),
            i <= n,
            i <= m,
            lex_cmp(a@, b@) == lex_cmp(a@.subrange(i as int, n as int), b@.subrange(i as int, m as int)),
        decreases n - i,
    {
        let x = a.get_char(i);
        let y = b.get_char(i);
        let ghost sa = a@.subrange(i as int, n as int);
        let ghost sb = b@.subrange(i as int, m as int);
        assert(sa.len() > 0 && sb.len() > 0);
        assert(sa[0] == x && sb[0] == y);
        if (x as u32) < (y as u32) {
            assert(lex_cmp(sa, sb) == Ordering::Less);
            return Ordering::Less;
        }
        if (x as u32) > (y as u32) {
            assert(lex_cmp(sa, sb) == Ordering::Greater);
            return Ordering::Greater;
        }
        assert(sa.drop_first() =~= a@.subrange(i + 1, n as int));
        assert(sb.drop_first() =~= b@.subrange(i + 1, m as int));
        i += 1;
    }
    if i < n {
        Ordering::Greater
    } else if i < m {
        Ordering::Less
    } else {
        Ordering::Equal
    }
}

/// A borrowed piece of text.
pub struct StringHolder<'a> {
    content: &'a str,
}

impl<'a> StringHolder<'a> {
    pub closed spec fn content(&self) -> Seq<char> {
        self.content@
    }

    /// Holds `s`.
    pub fn new(s: &'a str) -> (r: StringHolder<'a>)
        ensures
            r.content() == s@,
    {
        StringHolder { content: s }
    }

    /// The text held.
    pub fn get_content(&self) -> (r: &str)
        ensures
            r@ == self.content(),
    {
        self.content
    }

    /// The length of the text in bytes.
    pub fn get_length(&self) -> (r: usize)
        ensures
            r == encode_utf8(self.content()).len() as usize,
    {
        self.content.len()
    }
}

} // verus!
