//! The rope of the `ropey` crate, seen as the sequence of chars it holds.
//!
//! Each function here makes one call into `ropey` and states what the crate's
//! documentation and source promise of it, over `rope_chars` and the line model
//! of `lines.rs` (which follows ropey's default `unicode_lines` feature).
use vstd::prelude::*;
use ropey::Rope;
use vstd::utf8::encode_utf8;
use crate::editor::lines::{line_count, line_of_char, line_start};

verus! {

#[verifier::external_type_specification]
#[verifier::external_body]
pub struct ExRope(Rope);

/// The chars that a rope holds, in order.
pub uninterp spec fn rope_chars(r: Rope) -> Seq<char>;

/// `Rope::new`: an empty rope.
#[verifier::external_body]
pub(crate) fn rope_new() -> (r: Rope)
    ensures
        rope_chars(r) == Seq::<char>::empty(),
{
    Rope::new()
}

/// `Rope::from_str`: a rope holding the chars of `text`.
#[verifier::external_body]
pub(crate) fn rope_from_str(text: &str) -> (r: Rope)
    ensures
        rope_chars(r) == text@,
{
    Rope::from_str(text)
}

/// `Rope::len_chars`: the number of chars.
#[verifier::external_body]
pub(crate) fn rope_len_chars(r: &Rope) -> (n: usize)
    ensures
        n == rope_chars(*r).len(),
{
    r.len_chars()
}

/// `Rope::len_lines`: one more than the number of line breaks.
#[verifier::external_body]
pub(crate) fn rope_len_lines(r: &Rope) -> (n: usize)
    ensures
        n == line_count(rope_chars(*r)),
{
    r.len_lines()
}

/// `Rope::line_to_char`: where line `line_idx` starts; one past the last line
/// gives the end of the text. It panics beyond that, which `requires` rules out.
#[verifier::external_body]
pub(crate) fn rope_line_to_char(r: &Rope, line_idx: usize) -> (n: usize)
    requires
        line_idx <= line_count(rope_chars(*r)),
    ensures
        n == line_start(rope_chars(*r), line_idx as int),
{
    r.line_to_char(line_idx)
}

/// `Rope::char_to_line`: the line that holds char `char_idx` (the last line for
/// the end of the text). It panics beyond the end, which `requires` rules out.
#[verifier::external_body]
pub(crate) fn rope_char_to_line(r: &Rope, char_idx: usize) -> (n: usize)
    requires
        char_idx <= rope_chars(*r).len(),
    ensures
        n == line_of_char(rope_chars(*r), char_idx as int),
{
    r.char_to_line(char_idx)
}

/// `Rope::char_to_byte`: the byte index of char `char_idx`, that is the
/// number of UTF-8 bytes of the chars before it (one past the last char
/// gives the length in bytes). It panics beyond that, which `requires` rules out.
#[verifier::external_body]
pub(crate) fn rope_char_to_byte(r: &Rope, char_idx: usize) -> (n: usize)
    requires
        char_idx <= rope_chars(*r).len(),
    ensures
        n == encode_utf8(rope_chars(*r).take(char_idx as int)).len(),
{
    r.char_to_byte(char_idx)
}

/// `Rope::char`: the char at `char_idx`, which must exist.
#[verifier::external_body]
pub(crate) fn rope_char(r: &Rope, char_idx: usize) -> (c: char)
    requires
        char_idx < rope_chars(*r).len(),
    ensures
        c == rope_chars(*r)[char_idx as int],
{
    r.char(char_idx)
}

/// `Rope::insert`: `text` is inserted before char `char_idx`.
#[verifier::external_body]
pub(crate) fn rope_insert(r: &mut Rope, char_idx: usize, text: &str)
    requires
        char_idx <= rope_chars(*old(r)).len(),
        rope_chars(*old(r)).len() + text@.len() <= usize::MAX,
    ensures
        rope_chars(*final(r)) == rope_chars(*old(r)).take(char_idx as int) + text@ + rope_chars(
            *old(r),
        ).skip(char_idx as int),
{
    r.insert(char_idx, text)
}

/// `Rope::insert_char`: `c` is inserted before char `char_idx`.
#[verifier::external_body]
pub(crate) fn rope_insert_char(r: &mut Rope, char_idx: usize, c: char)
    requires
        char_idx <= rope_chars(*old(r)).len(),
        rope_chars(*old(r)).len() < usize::MAX,
    ensures
        rope_chars(*final(r)) == rope_chars(*old(r)).insert(char_idx as int, c),
{
    r.insert_char(char_idx, c)
}

/// `Rope::remove`: the chars `start..end` are removed.
#[verifier::external_body]
pub(crate) fn rope_remove(r: &mut Rope, start: usize, end: usize)
    requires
        start <= end <= rope_chars(*old(r)).len(),
    ensures
        rope_chars(*final(r)) == rope_chars(*old(r)).take(start as int) + rope_chars(
            *old(r),
        ).skip(end as int),
{
    r.remove(start..end)
}

/// `Rope::slice`, turned into a `String`: the chars `start..end`.
#[verifier::external_body]
pub(crate) fn rope_slice_string(r: &Rope, start: usize, end: usize) -> (s: String)
    requires
        start <= end <= rope_chars(*r).len(),
    ensures
        s@ == rope_chars(*r).subrange(start as int, end as int),
{
    r.slice(start..end).to_string()
}

/// The rope's `Display`, as a `String`: all its chars.
#[verifier::external_body]
pub(crate) fn rope_string(r: &Rope) -> (s: String)
    ensures
        s@ == rope_chars(*r),
{
    r.to_string()
}

} // verus!
