//! Words of strings, and slices of integers.
use crate::text::{is_white, same_text, white};
use vstd::prelude::*;
use vstd::string::StrSliceExecFns;

verus! {

/// `w` is the text of `s` before its first space, or all of `s` if it has
/// no space.
pub open spec fn is_first_word(s: Seq<char>, w: Seq<char>) -> bool {
    &&& w.len() <= s.len()
    &&& w == s.subrange(0, w.len() as int)
    &&& (w.len() == s.len() || s[w.len() as int] == ' ')
    &&& forall|j: int| 0 <= j < w.len() ==> s[j] != ' '
}

/// The number of whitespace-separated words in `s`: the positions where a
/// non-whitespace character follows whitespace or the start.
pub open spec fn word_count(s: Seq<char>) -> nat
    decreases s.len(),
{
    if s.len() == 0 {
        0
    } else {
        word_count(s.drop_last()) + if !is_white(s.last()) && (s.len() == 1 || is_white(
            s[s.len() - 2],
        )) {
            1nat
        } else {
            0nat
        }
    }
}

/// `s[a..b]` is a whole word: a non-empty run of non-whitespace characters
/// with whitespace or an end of `s` on both sides.
pub open spec fn is_word_at(s: Seq<char>, a: int, b: int) -> bool {
    &&& 0 <= a < b <= s.len()
    &&& (a == 0 || is_white(s[a - 1]))
    &&& (b == s.len() || is_white(s[b]))
    &&& forall|k: int| a <= k < b ==> !is_white(#[trigger] s[k])
}

/// `w` is one of the whitespace-separated words of `s`.
pub open spec fn has_word(s: Seq<char>, w: Seq<char>) -> bool {
    exists|a: int, b: int| is_word_at(s, a, b) && s.subrange(a, b) == w
}

/// The sum of the integers in `s`.
pub open spec fn sum_of(s: Seq<i32>) -> int
    decreases s.len(),
{
    if s.len() == 0 {
        0
    } else {
        sum_of(s.drop_last()) + s.last()
    }
}

/// Ascending order.
pub open spec fn sorted(s: Seq<i32>) -> bool {
    forall|i: int, j: int| 0 <= i < j < s.len() ==> s[i] <= s[j]
}

/// The text before the first space, or the whole string if there is none.
pub fn first_word(s: &str) -> (r: &str)
    ensures
        is_first_word(s@, r@),
{
    let n = s.unicode_len();
    let mut i: usize = 0;
    while i < n
        invariant
            n == s@.len(),
            i <= n,
            forall|j: int| 0 <= j < i ==> s@[j] != ' ',
        decreases n - i,
    {
        if s.get_char(i) == ' ' {
            let r = s.substring_char(0, i);
            assert(s@[i as int] == ' ');
            return r;
        }
        i += 1;
    }
    let r = s.substring_char(0, n);

    r
}

/// The number of whitespace-separated words.
pub fn count_words(s: &str) -> (r: usize)
    ensures
        r == word_count(s@),
{
    let n = s.unicode_len();
    let mut count: usize = 0;
    let mut prev_white = true;
    let mut i: usize = 0;
    while i < n
        invariant
            n == s@.len(),
            i <= n,
            count == word_count(s@.subrange(0, i as int)),
            count <= i,
            prev_white == (i == 0 || is_white(s@[i - 1])),
        decreases n - i,
    {
        let c = s.get_char(i);
        let w = white(c);
        let ghost pre = s@.subrange(0, i as int);
        let ghost next = s@.subrange(0, i + 1);
        assert(next.drop_last() =~= pre);
        if !w && prev_white {
            count += 1;
        }
        prev_white = w;
        i += 1;
    }
    assert(s@.subrange(0, n as int) =~= s@);
    count
}

/// Whether `word` is one of the whitespace-separated words of `s`.
pub fn contains_word(s: &str, word: &str) -> (r: bool)
    ensures
        r == has_word(s@, word@),
{
    let n = s.unicode_len();
    let mut i: usize = 0;
    let mut start: usize = 0;
    let mut in_word = false;
    while i < n
        invariant
            n == s@.len(),
            i <= n,
            in_word ==> start < i && (start == 0 || is_white(s@[start - 1])) && forall|k: int|
                start <= k < i ==> !is_white(#[trigger] s@[k]),
            !in_word ==> (i == 0 || is_white(s@[i - 1])),
            forall|a: int, b: int|
                is_word_at(s@, a, b) && b < i ==> s@.subrange(a, b) != word@,
        decreases n - i,
    {
        let c = s.get_char(i);
        if white(c) {
            if in_word {
                let piece = s.substring_char(start, i);
                if same_text(piece, word) {
                    assert(is_word_at(s@, start as int, i as int));
                    return true;
                }
                proof {
                    assert forall|a: int, b: int|
                        is_word_at(s@, a, b) && b == i implies s@.subrange(a, b) != word@ by {
                        lemma_word_start_unique(s@, a, start as int, i as int);
                    }
                }
                in_word = false;
            } else {
                proof {
                    assert forall|a: int, b: int| is_word_at(s@, a, b) && b == i implies false by {
                        assert(!is_white(s@[b - 1]));
                    }
                }
            }
        } else {
            if !in_word {
                in_word = true;
                start = i;
            }
        }
        i += 1;
    }
    if in_word {
        let piece = s.substring_char(start, n);
        if same_text(piece, word) {
            assert(is_word_at(s@, start as int, n as int));
            return true;
        }
        proof {
            assert forall|a: int, b: int|
                is_word_at(s@, a, b) && b == n implies s@.subrange(a, b) != word@ by {
                lemma_word_start_unique(s@, a, start as int, n as int);
            }
        }
    } else {
        proof {
            assert forall|a: int, b: int| is_word_at(s@, a, b) && b == n implies false by {
                assert(!is_white(s@[b - 1]));
            }
        }
    }
    false
}

proof fn lemma_word_start_unique(s: Seq<char>, a: int, start: int, b: int)
    requires
        is_word_at(s, a, b),
        0 <= start < b,
        start == 0 || is_white(s[start - 1]),
        forall|k: int| start <= k < b ==> !is_white(#[trigger] s[k]),
    ensures
        a == start,
{
    if a < start {
        assert(!is_white(s[start - 1]));
    } else if a > start {
        assert(!is_white(s[a - 1]));
    }
}

/// The sum of the numbers, for slices whose running sums all fit in 32 bits.
pub fn sum_slice(slice: &[i32]) -> (r: i32)
    requires
        forall|k: int|
            0 <= k <= slice@.len() ==> i32::MIN <= #[trigger] sum_of(slice@.subrange(0, k))
                <= i32::MAX,
    ensures
        r == sum_of(slice@),
{
    let mut total: i32 = 0;
    let mut i: usize = 0;
    while i < slice.len()
        invariant
            i <= slice@.len(),
            total == sum_of(slice@.subrange(0, i as int)),
            forall|k: int|
                0 <= k <= slice@.len() ==> i32::MIN <= #[trigger] sum_of(slice@.subrange(0, k))
                    <= i32::MAX,
        decreases slice@.len() - i,
    {
        let ghost next = slice@.subrange(0, i + 1);
        assert(next.drop_last() =~= slice@.subrange(0, i as int));
        assert(i32::MIN <= sum_of(next) <= i32::MAX);
        total = total + slice[i];
        i += 1;
    }
    assert(slice@.subrange(0, slice@.len() as int) =~= slice@);
    total
}

/// The largest number, or `None` for an empty slice.
pub fn find_max(slice: &[i32]) -> (r: Option<i32>)
    ensures
        r is None <==> slice@.len() == 0,
        r matches Some(m) ==> slice@.contains(m) && forall|i: int|
            0 <= i < slice@.len() ==> slice@[i] <= m,
{
    if slice.len() == 0 {
        return None;
    }
    let mut best = slice[0];
    let mut i: usize = 1;
    while i < slice.len()
        invariant
            1 <= i <= slice@.len(),
            slice@.contains(best),
            forall|j: int| 0 <= j < i ==> slice@[j] <= best,
        decreases slice@.len() - i,
    {
        if slice[i] > best {
            best = slice[i];
        }
        i += 1;
    }
    Some(best)
}

/// Relies on `<[i32]>::sort`: the slice ends up in ascending order and holds
/// the same numbers as before.
#[verifier::external_body]
fn sort_ascending(slice: &mut [i32])
    ensures
        sorted(final(slice)@),
        final(slice)@.to_multiset() == old(slice)@.to_multiset(),
{
    slice.sort();
}

/// Sorts the numbers in ascending order.
pub fn sort_slice(slice: &mut [i32])
    ensures
        sorted(final(slice)@),
        final(slice)@.to_multiset() == old(slice)@.to_multiset(),
{
    sort_ascending(slice);
}

/// Swaps the numbers at `i` and `j` when both positions exist; otherwise
/// leaves the slice alone.
pub fn swap_elements(slice: &mut [i32], i: usize, j: usize)
    ensures
        i < old(slice)@.len() && j < old(slice)@.len() ==> final(slice)@ == old(slice)@.update(
            i as int,
            old(slice)@[j as int],
        ).update(j as int, old(slice)@[i as int]),
        !(i < old(slice)@.len() && j < old(slice)@.len()) ==> final(slice)@ == old(slice)@,
{
    if i < slice.len() && j < slice.len() {
        let a = slice[i];
        let b = slice[j];
        slice[i] = b;
        slice[j] = a;
    }
}

/// The `len` characters from position `start`, if they all exist.
/// Positions count characters.
pub fn safe_substring(s: &str, start: usize, len: usize) -> (r: Option<&str>)
    requires
        start + len <= usize::MAX,
    ensures
        r is Some <==> start + len <= s@.len(),
        r matches Some(t) ==> t@ == s@.subrange(start as int, start + len),
{
    let end = start + len;
    if end <= s.unicode_len() {
        Some(s.substring_char(start, end))
    } else {
        None
    }
}

/// Reverses the order of the numbers.
pub fn reverse_slice(slice: &mut [i32])
    ensures
        final(slice)@ == old(slice)@.reverse(),
{
    let n = slice.len();
    let mut i: usize = 0;
    while i < n / 2
        invariant
            n == slice@.len(),
            n == old(slice)@.len(),
            i <= n / 2,
            forall|k: int| 0 <= k < i ==> slice@[k] == old(slice)@[n - 1 - k],
            forall|k: int| 0 <= k < i ==> slice@[n - 1 - k] == old(slice)@[k],
            forall|k: int| i <= k < n - i ==> slice@[k] == old(slice)@[k],
        decreases n / 2 - i,
    {
        let a = slice[i];
        let b = slice[n - 1 - i];
        slice[i] = b;
        slice[n - 1 - i] = a;
        i += 1;
    }
    assert(slice@ =~= old(slice)@.reverse());
}

/// The first position where `needle` occurs as a contiguous run, if any.
pub fn find_subslice(haystack: &[i32], needle: &[i32]) -> (r: Option<usize>)
    requires
        needle@.len() > 0,
    ensures
        r matches Some(p) ==> p + needle@.len() <= haystack@.len() && haystack@.subrange(
            p as int,
            p + needle@.len(),
        ) == needle@ && forall|q: int|
            0 <= q < p ==> #[trigger] haystack@.subrange(q, q + needle@.len()) != needle@,
        r is None ==> forall|q: int|
            0 <= q && q + needle@.len() <= haystack@.len() ==> #[trigger] haystack@.subrange(
                q,
                q + needle@.len(),
            ) != needle@,
{
    let n = haystack.len();
    let m = needle.len();
    if m > n {
        return None;
    }
    let mut p: usize = 0;
    while p <= n - m
        invariant
            n == haystack@.len(),
            m == needle@.len(),
            0 < m <= n,
            p <= n - m + 1,
            forall|q: int| 0 <= q < p ==> #[trigger] haystack@.subrange(q, q + m) != needle@,
        decreases n - m + 1 - p,
    {
        let mut k: usize = 0;
        while k < m
            invariant
                n == haystack@.len(),
                m == needle@.len(),
                p + m <= n,
                k <= m,
                forall|j: int| 0 <= j < k ==> haystack@[p + j] == needle@[j],
            ensures
                k <= m,
                forall|j: int| 0 <= j < k ==> haystack@[p + j] == needle@[j],
                k < m ==> haystack@[p + k] != needle@[k as int],
            decreases m - k,
        {
            if haystack[p + k] != needle[k] {
                break;
            }
            k += 1;
        }
        if k == m {
            assert(haystack@.subrange(p as int, p + m) =~= needle@);
            return Some(p);
        }
        assert(haystack@.subrange(p as int, p + m)[k as int] != needle@[k as int]);
        p += 1;
    }
    None
}

} // verus!
