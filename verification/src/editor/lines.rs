//! The line structure of a text, as the rope library defines it.
//!
//! A line ends right after a line break. The breaks recognised are LF,
//! VT, FF, CR, NEL, LS and PS, and a CR directly followed by LF counts as a
//! single break (CRLF) that ends after the LF.  A text with `k` breaks has
//! `k + 1` lines; the last one may be empty.
use vstd::prelude::*;

verus! {

/// Whether `c` is one of the recognised line-break characters.
pub open spec fn is_break_char(c: char) -> bool {
    c == '\n' || c == '\u{0B}' || c == '\u{0C}' || c == '\r' || c == '\u{85}' || c == '\u{2028}'
        || c == '\u{2029}'
}

/// A line ends just before position `p` (so the next line starts at `p`).
/// The CR of a CRLF pair ends no line: the pair ends after its LF.
pub open spec fn ends_line_at(s: Seq<char>, p: int) -> bool {
    &&& 1 <= p <= s.len()
    &&& is_break_char(s[p - 1])
    &&& !(s[p - 1] == '\r' && p < s.len() && s[p] == '\n')
}

/// The number of line ends at positions `1..=p`.
pub open spec fn breaks_upto(s: Seq<char>, p: int) -> nat
    decreases p,
{
    if p <= 0 {
        0
    } else {
        breaks_upto(s, p - 1) + if ends_line_at(s, p) {
            1nat
        } else {
            0nat
        }
    }
}

/// The number of lines of `s`: one more than its line breaks.
pub open spec fn line_count(s: Seq<char>) -> nat {
    breaks_upto(s, s.len() as int) + 1
}

/// The index of the line that holds the char at position `c` (`c <= s.len()`).
pub open spec fn line_of_char(s: Seq<char>, c: int) -> nat {
    breaks_upto(s, c)
}

/// The first position at or after `p` by which `r` line ends have occurred,
/// or `s.len()` if there is none.
pub open spec fn first_reaching(s: Seq<char>, r: int, p: int) -> int
    decreases s.len() - p,
{
    if p >= s.len() {
        s.len() as int
    } else if breaks_upto(s, p) >= r {
        p
    } else {
        first_reaching(s, r, p + 1)
    }
}

/// The position where line `r` starts; for `r == line_count(s)`, the end of `s`.
pub open spec fn line_start(s: Seq<char>, r: int) -> int {
    if r <= 0 {
        0
    } else {
        first_reaching(s, r, 0)
    }
}

/// The length of line `r` without a trailing LF; 0 for a line that does not exist.
pub open spec fn line_len(s: Seq<char>, r: int) -> int {
    if r < 0 || r >= line_count(s) {
        0
    } else {
        let a = line_start(s, r);
        let b = line_start(s, r + 1);
        if b - a > 0 && s[b - 1] == '\n' {
            b - a - 1
        } else {
            b - a
        }
    }
}

pub proof fn lemma_breaks_bounds(s: Seq<char>, p: int, q: int)
    requires
        0 <= p <= q,
    ensures
        breaks_upto(s, p) <= breaks_upto(s, q),
        breaks_upto(s, q) <= q,
    decreases q,
{
    if q > 0 {
        if p < q {
            lemma_breaks_bounds(s, p, q - 1);
        } else {
            lemma_breaks_bounds(s, p - 1, q - 1);
        }
    }
}

proof fn lemma_first_reaching(s: Seq<char>, r: int, p: int)
    requires
        0 <= p <= s.len(),
    ensures
        p <= first_reaching(s, r, p) <= s.len(),
        first_reaching(s, r, p) < s.len() ==> breaks_upto(s, first_reaching(s, r, p)) >= r,
        forall|q: int| p <= q <= s.len() && breaks_upto(s, q) >= r ==> first_reaching(s, r, p) <= q,
    decreases s.len() - p,
{
    if p < s.len() && breaks_upto(s, p) < r {
        lemma_first_reaching(s, r, p + 1);
    }
}

proof fn lemma_first_reaching_monotone(s: Seq<char>, r1: int, r2: int, p: int)
    requires
        0 <= p <= s.len(),
        r1 <= r2,
    ensures
        first_reaching(s, r1, p) <= first_reaching(s, r2, p),
    decreases s.len() - p,
{
    lemma_first_reaching(s, r2, p);
    if p < s.len() && breaks_upto(s, p) < r1 {
        lemma_first_reaching_monotone(s, r1, r2, p + 1);
    }
}

/// Line starts lie within the text and grow with the line index.
pub proof fn lemma_line_start_bounds(s: Seq<char>, r1: int, r2: int)
    requires
        r1 <= r2,
    ensures
        0 <= line_start(s, r1) <= line_start(s, r2) <= s.len(),
{
    lemma_first_reaching(s, r2, 0);
    lemma_first_reaching(s, r1, 0);
    if r1 > 0 {
        lemma_first_reaching_monotone(s, r1, r2, 0);
    }
}

/// The line holding position `p` starts at or before `p`.
pub proof fn lemma_line_of_char_start(s: Seq<char>, p: int)
    requires
        0 <= p <= s.len(),
    ensures
        line_start(s, line_of_char(s, p) as int) <= p,
        line_of_char(s, p) < line_count(s),
{
    lemma_breaks_bounds(s, p, s.len() as int);
    lemma_first_reaching(s, breaks_upto(s, p) as int, 0);
}

/// A line's text (without its LF) lies within the text.
pub proof fn lemma_line_len_bounds(s: Seq<char>, r: int)
    ensures
        0 <= line_len(s, r),
        0 <= r < line_count(s) ==> line_start(s, r) + line_len(s, r) <= s.len(),
        0 <= r < line_count(s) ==> line_len(s, r) <= line_start(s, r + 1) - line_start(s, r),
{
    lemma_line_start_bounds(s, r, r + 1);
}

/// Line `r` (for `1 <= r < line_count(s)`) starts at the first position by
/// which `r` lines have ended.
pub proof fn lemma_line_start_props(s: Seq<char>, r: int)
    requires
        1 <= r < line_count(s),
    ensures
        0 <= line_start(s, r) <= s.len(),
        breaks_upto(s, line_start(s, r)) >= r,
        forall|q: int| 0 <= q < line_start(s, r) ==> breaks_upto(s, q) < r,
{
    lemma_first_reaching(s, r, 0);
}

/// A position with `r` line ends by it and fewer before it is where line
/// `r` starts.
pub proof fn lemma_line_start_at(s: Seq<char>, r: int, at: int)
    requires
        1 <= r,
        0 <= at <= s.len(),
        breaks_upto(s, at) >= r,
        forall|q: int| 0 <= q < at ==> breaks_upto(s, q) < r,
    ensures
        line_start(s, r) == at,
{
    lemma_first_reaching_at(s, r, at, 0);
}

proof fn lemma_first_reaching_at(s: Seq<char>, r: int, at: int, p: int)
    requires
        0 <= p <= at <= s.len(),
        breaks_upto(s, at) >= r,
        forall|q: int| 0 <= q < at ==> breaks_upto(s, q) < r,
    ensures
        first_reaching(s, r, p) == at,
    decreases at - p,
{
    if p < at {
        lemma_first_reaching_at(s, r, at, p + 1);
    }
}

/// Before the start of line `r + 1`, fewer than `r + 1` lines have ended.
pub proof fn lemma_breaks_before_next_line(s: Seq<char>, r: int, q: int)
    requires
        0 <= r < line_count(s),
        0 <= q < line_start(s, r + 1),
    ensures
        breaks_upto(s, q) < r + 1,
{
    if r + 1 < line_count(s) {
        lemma_line_start_props(s, r + 1);
    } else {
        lemma_first_reaching(s, r + 1, 0);
        lemma_breaks_bounds(s, q, s.len() as int);
    }
}

/// Where fewer than `r` lines end before `a`, line `r` starts at `a` or later.
pub proof fn lemma_line_start_not_before(s: Seq<char>, r: int, a: int)
    requires
        1 <= r,
        0 <= a <= s.len(),
        forall|q: int| 0 <= q < a ==> breaks_upto(s, q) < r,
    ensures
        line_start(s, r) >= a,
{
    lemma_first_reaching(s, r, 0);
}

/// Texts that agree on their first `p` chars agree on the line ends before
/// `p`.
pub proof fn lemma_breaks_common_prefix(s1: Seq<char>, s2: Seq<char>, p: int, q: int)
    requires
        0 <= q < p <= s1.len(),
        p <= s2.len(),
        s1.take(p) == s2.take(p),
    ensures
        breaks_upto(s1, q) == breaks_upto(s2, q),
    decreases q,
{
    if q > 0 {
        lemma_breaks_common_prefix(s1, s2, p, q - 1);
        assert(s1[q - 1] == s1.take(p)[q - 1]);
        assert(s2[q - 1] == s2.take(p)[q - 1]);
        assert(s1[q] == s1.take(p)[q]);
        assert(s2[q] == s2.take(p)[q]);
    }
}

/// There is at least one line, and no more than one per char plus one.
pub proof fn lemma_line_count_bounds(s: Seq<char>)
    ensures
        1 <= line_count(s) <= s.len() + 1,
{
    lemma_breaks_bounds(s, 0, s.len() as int);
}

} // verus!
