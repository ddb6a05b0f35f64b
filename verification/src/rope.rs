//! The rope that stores a buffer's text, and what is taken on trust of it.
//!
//! `ropey` is built here with its `cr_lines` feature alone, so the line
//! breaks it recognises are LF, CR and CR LF: the ones that
//! [`crate::text`] models. Nothing in this module is proved: each function
//! makes one call into `ropey` and states what that call does.

use crate::text::{inserted, line_count, line_of, line_start, line_text, removed};
use ropey::Rope;
use ropey::RopeSlice;
use std::ops::Range;
use vstd::prelude::*;
use vstd::utf8::{decode_utf8, valid_utf8};

verus! {

/// `ropey::Rope`, opaque to the verifier.
#[verifier::external_type_specification]
#[verifier::external_body]
pub struct ExRope(ropey::Rope);

/// `ropey::RopeSlice`, opaque to the verifier.
#[verifier::external_type_specification]
#[verifier::external_body]
pub struct ExRopeSlice<'a>(ropey::RopeSlice<'a>);

/// `std::io::Error`, opaque to the verifier.
#[verifier::external_type_specification]
#[verifier::external_body]
pub struct ExIoError(std::io::Error);

/// The characters that a rope holds, in order.
pub uninterp spec fn rope_text(r: Rope) -> Seq<char>;

/// The characters that a rope slice shows, in order.
pub uninterp spec fn slice_text(s: RopeSlice) -> Seq<char>;

/// `Rope`'s `Clone`: the copy holds the same text.
pub assume_specification[ <Rope as Clone>::clone ](r: &Rope) -> (c: Rope)
    ensures
        rope_text(c) == rope_text(*r),
;

/// `Rope::new`: a rope without text.
#[verifier::external_body]
pub(crate) fn rope_new() -> (r: Rope)
    ensures
        rope_text(r) == Seq::<char>::empty(),
{
    Rope::new()
}

/// `Rope::from_str`: a rope that holds the characters of `text`.
#[verifier::external_body]
pub(crate) fn rope_from_str(text: &str) -> (r: Rope)
    ensures
        rope_text(r) == text@,
{
    Rope::from_str(text)
}

/// `Rope::from_reader`, reading from a byte slice, which as a reader never
/// fails: the call succeeds exactly on well-formed UTF-8, which it decodes,
/// and otherwise returns an I/O error of kind `InvalidData`.
#[verifier::external_body]
pub(crate) fn rope_from_reader(bytes: &[u8]) -> (res: Result<Rope, std::io::Error>)
    ensures
        res is Ok <==> valid_utf8(bytes@),
        res matches Ok(r) ==> rope_text(r) == decode_utf8(bytes@),
{
    Rope::from_reader(bytes)
}

/// `Rope::len_chars`: the number of characters.
#[verifier::external_body]
pub(crate) fn rope_len_chars(r: &Rope) -> (n: usize)
    ensures
        n == rope_text(*r).len(),
{
    r.len_chars()
}

/// `Rope::len_lines`: one more than the number of line breaks.
#[verifier::external_body]
pub(crate) fn rope_len_lines(r: &Rope) -> (n: usize)
    ensures
        n == line_count(rope_text(*r)),
{
    r.len_lines()
}

/// `Rope::insert_char`: `ch` is put in front of the character at `char_idx`.
/// The call panics past the end of the text.
#[verifier::external_body]
pub(crate) fn rope_insert_char(r: &mut Rope, char_idx: usize, ch: char)
    requires
        char_idx <= rope_text(*old(r)).len(),
    ensures
        rope_text(*final(r)) == inserted(rope_text(*old(r)), char_idx as int, seq![ch]),
{
    r.insert_char(char_idx, ch)
}

/// `Rope::insert`: the characters of `text` are put in front of the character
/// at `char_idx`. The call panics past the end of the text.
#[verifier::external_body]
pub(crate) fn rope_insert(r: &mut Rope, char_idx: usize, text: &str)
    requires
        char_idx <= rope_text(*old(r)).len(),
    ensures
        rope_text(*final(r)) == inserted(rope_text(*old(r)), char_idx as int, text@),
{
    r.insert(char_idx, text)
}

/// `Rope::remove`: the characters in `char_range` leave, the others keep
/// their order. The call panics on a range that is reversed or ends past the
/// end of the text.
#[verifier::external_body]
pub(crate) fn rope_remove(r: &mut Rope, char_range: Range<usize>)
    requires
        char_range.start <= char_range.end <= rope_text(*old(r)).len(),
    ensures
        rope_text(*final(r)) == removed(
            rope_text(*old(r)),
            char_range.start as int,
            char_range.end as int,
        ),
{
    r.remove(char_range)
}

/// `Rope`'s `Display`, through `to_string`: the whole text.
#[verifier::external_body]
pub(crate) fn rope_to_string(r: &Rope) -> (s: String)
    ensures
        s@ == rope_text(*r),
{
    r.to_string()
}

/// `Rope::slice`: a view of the characters in `char_range`. The call panics
/// on a range that is reversed or ends past the end of the text.
#[verifier::external_body]
pub(crate) fn rope_slice<'a>(r: &'a Rope, char_range: Range<usize>) -> (s: RopeSlice<'a>)
    requires
        char_range.start <= char_range.end <= rope_text(*r).len(),
    ensures
        slice_text(s) == rope_text(*r).subrange(char_range.start as int, char_range.end as int),
{
    r.slice(char_range)
}

/// `Rope::char_to_line`: the number of line breaks that end at or before
/// `char_idx`. The call panics past the end of the text.
#[verifier::external_body]
pub(crate) fn rope_char_to_line(r: &Rope, char_idx: usize) -> (line: usize)
    requires
        char_idx <= rope_text(*r).len(),
    ensures
        line == line_of(rope_text(*r), char_idx as int),
{
    r.char_to_line(char_idx)
}

/// `Rope::line_to_char`: the position of the first character of the line, and
/// the length of the text for the line one past the last. The call panics on
/// a larger line index.
#[verifier::external_body]
pub(crate) fn rope_line_to_char(r: &Rope, line_idx: usize) -> (idx: usize)
    requires
        line_idx <= line_count(rope_text(*r)),
    ensures
        idx == line_start(rope_text(*r), line_idx as nat),
{
    r.line_to_char(line_idx)
}

/// `Rope::line`: a view of the line, from its start to the start of the next
/// line, so with its line break. The call panics past the last line.
#[verifier::external_body]
pub(crate) fn rope_line<'a>(r: &'a Rope, line_idx: usize) -> (s: RopeSlice<'a>)
    requires
        line_idx < line_count(rope_text(*r)),
    ensures
        slice_text(s) == line_text(rope_text(*r), line_idx as nat),
{
    r.line(line_idx)
}

/// `Rope::chars`, collected: every character, in order.
#[verifier::external_body]
pub(crate) fn rope_chars(r: &Rope) -> (v: Vec<char>)
    ensures
        v@ == rope_text(*r),
{
    r.chars().collect()
}

/// `Rope::lines`, collected: a view of every line in order, the last one
/// also where it is empty.
#[verifier::external_body]
pub(crate) fn rope_lines<'a>(r: &'a Rope) -> (v: Vec<RopeSlice<'a>>)
    ensures
        v@.len() == line_count(rope_text(*r)),
        forall|i: int|
            0 <= i < v@.len() ==> slice_text(#[trigger] v@[i]) == line_text(rope_text(*r), i as nat),
{
    r.lines().collect()
}

/// `RopeSlice`'s `Display`, through `to_string`: the text of the slice.
#[verifier::external_body]
pub(crate) fn slice_to_string(s: &RopeSlice) -> (out: String)
    ensures
        out@ == slice_text(*s),
{
    s.to_string()
}

/// `RopeSlice::len_chars`: the number of characters of the slice.
#[verifier::external_body]
pub(crate) fn slice_len_chars(s: &RopeSlice) -> (n: usize)
    ensures
        n == slice_text(*s).len(),
{
    s.len_chars()
}

/// `RopeSlice::chars`, collected: every character of the slice, in order.
#[verifier::external_body]
pub(crate) fn slice_chars(s: &RopeSlice) -> (v: Vec<char>)
    ensures
        v@ == slice_text(*s),
{
    s.chars().collect()
}

} // verus!
