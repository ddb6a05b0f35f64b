//! A text buffer: the text of one document, with character-level edits and
//! the conversions between character offsets, lines and points.

use crate::rope::{
    rope_char_to_line, rope_chars, rope_from_reader, rope_from_str, rope_insert, rope_insert_char,
    rope_len_chars, rope_len_lines, rope_line, rope_line_to_char, rope_lines, rope_new,
    rope_remove, rope_slice, rope_text, rope_to_string, slice_chars, slice_len_chars,
    slice_text, slice_to_string,
};
use crate::text::{
    break_len_at, index_at, inserted, is_eol, lemma_line_shape, lemma_line_span,
    lemma_line_start, lemma_line_start_of_line_of, lemma_point_round_trip, line_count, line_end,
    line_of, line_start, line_text, point_at, removed, splits_crlf, visible_len,
};
use ropey::Rope;
use std::ops::Range;
use vstd::prelude::*;
use vstd::utf8::{decode_utf8, valid_utf8};

verus! {

/// Why the bytes of a file could not become a buffer.
#[derive(Debug, Clone, Copy, PartialEq, Eq)]
pub enum LoadError {
    /// The bytes are not well-formed UTF-8.
    InvalidData,
}

/// Why an edit was refused.
#[derive(Debug, Clone, Copy, PartialEq, Eq)]
pub enum EditError {
    /// The position lies past the end of the buffer.
    IndexOutOfBounds,
    /// The range ends past the end of the buffer.
    RangeOutOfBounds,
    /// The range ends before it starts.
    RangeInvalid,
}

/// A text buffer.
#[derive(Debug)]
pub struct Buffer {
    rope: Rope,
    filename: Option<String>,
    is_dirty: bool,
}

impl View for Buffer {
    type V = Seq<char>;

    /// The text of the buffer, as its sequence of characters.
    closed spec fn view(&self) -> Seq<char> {
        rope_text(self.rope)
    }
}

impl Clone for Buffer {
    /// A buffer with the same text, path and dirty flag.
    fn clone(&self) -> (b: Self)
        ensures
            b@ == self@,
            b.source_path() == self.source_path(),
            b.dirty() == self.dirty(),
    {
        let filename = match &self.filename {
            Some(name) => Some(name.clone()),
            None => None,
        };
        Buffer { rope: self.rope.clone(), filename, is_dirty: self.is_dirty }
    }
}

impl Buffer {
    /// The path that the buffer was loaded from, if any.
    pub closed spec fn source_path(&self) -> Option<Seq<char>> {
        match self.filename {
            Some(name) => Some(name@),
            None => None,
        }
    }

    /// Whether the buffer was changed since it was made.
    pub closed spec fn dirty(&self) -> bool {
        self.is_dirty
    }

    /// Creates a new empty buffer.
    pub fn new() -> (b: Self)
        ensures
            b@ == Seq::<char>::empty(),
            b.source_path() is None,
            !b.dirty(),
    {
        Buffer { rope: rope_new(), filename: None, is_dirty: false }
    }

    /// Creates a buffer that holds the given text.
    pub fn from_str(text: &str) -> (b: Self)
        ensures
            b@ == text@,
            b.source_path() is None,
            !b.dirty(),
    {
        Buffer { rope: rope_from_str(text), filename: None, is_dirty: false }
    }

    /// Creates a buffer from the bytes read from the file `filename`: their
    /// text if they are well-formed UTF-8, an error if they are not.
    pub fn from_file(filename: &str, bytes: &[u8]) -> (res: Result<Self, LoadError>)
        ensures
            res is Ok <==> valid_utf8(bytes@),
            res matches Ok(b) ==> b@ == decode_utf8(bytes@) && b.source_path() == Some(filename@)
                && !b.dirty(),
            res matches Err(e) ==> e == LoadError::InvalidData,
    {
        match rope_from_reader(bytes) {
            Ok(r) => Ok(Buffer { rope: r, filename: Some(filename.to_owned()), is_dirty: false }),
            Err(_) => Err(LoadError::InvalidData),
        }
    }

    /// The path that the buffer was loaded from, if any.
    pub fn get_filename<'a>(&'a self) -> (name: Option<&'a str>)
        ensures
            name is Some <==> self.source_path() is Some,
            name matches Some(n) ==> self.source_path() == Some(n@),
    {
        match &self.filename {
            Some(p) => Some(p.as_str()),
            None => None,
        }
    }

    /// Whether the buffer was changed since it was made.
    pub fn is_dirty(&self) -> (d: bool)
        ensures
            d == self.dirty(),
    {
        self.is_dirty
    }

    /// Every character of the buffer, in order.
    pub fn chars(&self) -> (v: Vec<char>)
        ensures
            v@ == self@,
    {
        rope_chars(&self.rope)
    }

    /// Every line of the buffer, in order, each with its line break.
    pub fn lines(&self) -> (v: Vec<String>)
        ensures
            v@.len() == line_count(self@),
            forall|i: int| 0 <= i < v@.len() ==> (#[trigger] v@[i])@ == line_text(self@, i as nat),
    {
        let slices = rope_lines(&self.rope);
        let mut v: Vec<String> = Vec::new();
        let mut i: usize = 0;
        while i < slices.len()
            invariant
                i <= slices.len(),
                slices@.len() == line_count(self@),
                forall|k: int|
                    0 <= k < slices@.len() ==> slice_text(#[trigger] slices@[k]) == line_text(
                        self@,
                        k as nat,
                    ),
                v@.len() == i,
                forall|k: int| 0 <= k < i ==> (#[trigger] v@[k])@ == line_text(self@, k as nat),
            decreases slices.len() - i,
        {
            v.push(slice_to_string(&slices[i]));
            i += 1;
        }
        v
    }

    /// Total number of chars in the buffer.
    pub fn len_chars(&self) -> (n: usize)
        ensures
            n == self@.len(),
    {
        rope_len_chars(&self.rope)
    }

    /// Total number of lines in the buffer: one more than its line breaks.
    pub fn len_lines(&self) -> (n: usize)
        ensures
            n == line_count(self@),
            n >= 1,
    {
        rope_len_lines(&self.rope)
    }

    /// Inserts `ch` at the given position.
    pub fn insert_char(&mut self, char_idx: usize, ch: char)
        requires
            char_idx <= old(self)@.len(),
        ensures
            final(self)@ == inserted(old(self)@, char_idx as int, seq![ch]),
            final(self).dirty(),
            final(self).source_path() == old(self).source_path(),
    {
        rope_insert_char(&mut self.rope, char_idx, ch);
        self.is_dirty = true;
    }

    /// Inserts the string at the given position.
    pub fn insert(&mut self, char_idx: usize, text: &str)
        requires
            char_idx <= old(self)@.len(),
        ensures
            final(self)@ == inserted(old(self)@, char_idx as int, text@),
            final(self).dirty(),
            final(self).source_path() == old(self).source_path(),
    {
        rope_insert(&mut self.rope, char_idx, text);
        self.is_dirty = true;
    }

    /// Removes the given range from the buffer.
    pub fn remove(&mut self, char_range: Range<usize>)
        requires
            char_range.start <= char_range.end <= old(self)@.len(),
        ensures
            final(self)@ == removed(old(self)@, char_range.start as int, char_range.end as int),
            final(self).dirty(),
            final(self).source_path() == old(self).source_path(),
    {
        rope_remove(&mut self.rope, char_range);
        self.is_dirty = true;
    }

    /// Inserts `ch` at the given position if the position lies within the
    /// buffer, and reports the position otherwise, leaving the buffer as it
    /// is.
    pub fn try_insert_char(&mut self, char_idx: usize, ch: char) -> (res: Result<(), EditError>)
        ensures
            res is Ok <==> char_idx <= old(self)@.len(),
            res is Ok ==> final(self)@ == inserted(old(self)@, char_idx as int, seq![ch])
                && final(self).dirty(),
            res matches Err(e) ==> e == EditError::IndexOutOfBounds && *final(self) == *old(self),
            final(self).source_path() == old(self).source_path(),
    {
        if char_idx <= self.len_chars() {
            self.insert_char(char_idx, ch);
            Ok(())
        } else {
            Err(EditError::IndexOutOfBounds)
        }
    }

    /// Inserts the string at the given position if the position lies within
    /// the buffer, and reports the position otherwise, leaving the buffer as
    /// it is.
    pub fn try_insert(&mut self, char_idx: usize, text: &str) -> (res: Result<(), EditError>)
        ensures
            res is Ok <==> char_idx <= old(self)@.len(),
            res is Ok ==> final(self)@ == inserted(old(self)@, char_idx as int, text@) && final(self).dirty(),
            res matches Err(e) ==> e == EditError::IndexOutOfBounds && *final(self) == *old(self),
            final(self).source_path() == old(self).source_path(),
    {
        if char_idx <= self.len_chars() {
            self.insert(char_idx, text);
            Ok(())
        } else {
            Err(EditError::IndexOutOfBounds)
        }
    }

    /// Removes the given range if it lies within the buffer, and reports it
    /// otherwise, leaving the buffer as it is: a range that reaches past the
    /// end of the buffer is out of bounds, another one that ends before it
    /// starts is invalid.
    pub fn try_remove(&mut self, char_range: Range<usize>) -> (res: Result<(), EditError>)
        ensures
            res is Ok <==> char_range.start <= char_range.end <= old(self)@.len(),
            res is Ok ==> final(self)@ == removed(
                old(self)@,
                char_range.start as int,
                char_range.end as int,
            ) && final(self).dirty(),
            res is Err ==> *final(self) == *old(self),
            res == Err::<(), EditError>(EditError::RangeOutOfBounds) <==> (char_range.start > old(self)@.len() || char_range.end > old(self)@.len()),
            res == Err::<(), EditError>(EditError::RangeInvalid) <==> char_range.end
                < char_range.start <= old(self)@.len(),
            final(self).source_path() == old(self).source_path(),
    {
        let len = self.len_chars();
        if char_range.start > len || char_range.end > len {
            Err(EditError::RangeOutOfBounds)
        } else if char_range.start > char_range.end {
            Err(EditError::RangeInvalid)
        } else {
            self.remove(char_range);
            Ok(())
        }
    }

    /// Returns the entire buffer as a newly allocated String.
    pub fn to_string(&self) -> (s: String)
        ensures
            s@ == self@,
    {
        rope_to_string(&self.rope)
    }

    /// Returns the characters of the given range as a newly allocated String.
    pub fn slice(&self, r: Range<usize>) -> (s: String)
        requires
            r.start <= r.end <= self@.len(),
        ensures
            s@ == self@.subrange(r.start as int, r.end as int),
    {
        let part = rope_slice(&self.rope, r);
        slice_to_string(&part)
    }

    /// Returns the line of the given char.
    pub fn char_to_line(&self, char_idx: usize) -> (line: usize)
        requires
            char_idx <= self@.len(),
        ensures
            line == line_of(self@, char_idx as int),
            line < line_count(self@),
    {
        proof {
            lemma_line_start_of_line_of(self@, char_idx as int);
        }
        rope_char_to_line(&self.rope, char_idx)
    }

    /// Returns the first char of the given line; for the line one past the
    /// last, the length of the buffer.
    pub fn line_to_char(&self, line_idx: usize) -> (idx: usize)
        requires
            line_idx <= line_count(self@),
        ensures
            idx == line_start(self@, line_idx as nat),
            idx <= self@.len(),
            line_idx == 0 ==> idx == 0,
            line_idx < line_count(self@) ==> line_of(self@, idx as int) == line_idx,
    {
        proof {
            lemma_line_start(self@, line_idx as nat);
        }
        rope_line_to_char(&self.rope, line_idx)
    }

    /// Returns the number of chars of the given line that are neither `\n`
    /// nor `\r`.
    pub fn line_len_no_eol(&self, line_idx: usize) -> (n: usize)
        requires
            line_idx < line_count(self@),
        ensures
            n == visible_len(line_text(self@, line_idx as nat)),
    {
        let l = rope_line(&self.rope, line_idx);
        let chars = slice_chars(&l);
        let mut n: usize = 0;
        let mut i: usize = 0;
        while i < chars.len()
            invariant
                i <= chars.len(),
                n <= i,
                n == visible_len(chars@.take(i as int)),
            decreases chars.len() - i,
        {
            let c = chars[i];
            proof {
                reveal(Seq::filter);
                assert(chars@.take(i + 1).drop_last() =~= chars@.take(i as int));
            }
            if c != '\n' && c != '\r' {
                n += 1;
            }
            i += 1;
        }
        proof {
            assert(chars@.take(i as int) =~= chars@);
        }
        n
    }

    /// Returns the position right after the last visible char of the given
    /// line: where its line break starts, or the end of the buffer. It is
    /// never a position inside a line break.
    pub fn line_to_last_char(&self, line_idx: usize) -> (idx: usize)
        requires
            line_idx < line_count(self@),
        ensures
            idx == line_end(self@, line_idx as nat),
            line_start(self@, line_idx as nat) <= idx <= self@.len(),
            forall|j: int| line_start(self@, line_idx as nat) <= j < idx ==> !is_eol(self@[j]),
            !splits_crlf(self@, idx as int),
            line_idx + 1 == line_count(self@) ==> idx == self@.len(),
            line_idx + 1 < line_count(self@) ==> is_eol(self@[idx as int]) && line_start(
                self@,
                line_idx as nat + 1,
            ) == idx + break_len_at(self@, idx as int),
    {
        // the end of the line lies within the text, whose length fits `usize`
        let len = self.len_chars();
        let start = self.line_to_char(line_idx);
        let width = self.line_len_no_eol(line_idx);
        proof {
            lemma_line_shape(self@, line_idx as nat);
        }
        assert(start + width <= len);
        start + width
    }

    /// Returns the len in chars of the given line, its line break included.
    pub fn line_len(&self, line_idx: usize) -> (n: usize)
        requires
            line_idx < line_count(self@),
        ensures
            n == line_text(self@, line_idx as nat).len(),
            n == line_start(self@, line_idx as nat + 1) - line_start(self@, line_idx as nat),
    {
        proof {
            lemma_line_span(self@, line_idx as nat);
        }
        let l = rope_line(&self.rope, line_idx);
        slice_len_chars(&l)
    }

    /// Converts an index to a point (line, column). The point converts back
    /// to the index, unless the index lies between the two chars of a CR LF
    /// pair.
    pub fn index_to_point(&self, char_idx: usize) -> (p: (usize, usize))
        requires
            char_idx <= self@.len(),
        ensures
            p.0 == point_at(self@, char_idx as int).0,
            p.1 == point_at(self@, char_idx as int).1,
            p.0 < line_count(self@),
            !splits_crlf(self@, char_idx as int) ==> index_at(self@, p.0 as int, p.1 as int)
                == char_idx,
    {
        proof {
            lemma_line_start_of_line_of(self@, char_idx as int);
            if !splits_crlf(self@, char_idx as int) {
                lemma_point_round_trip(self@, char_idx as int);
            }
        }
        let l = self.char_to_line(char_idx);
        let c = char_idx - self.line_to_char(l);
        (l, c)
    }

    /// Converts a point (line, column) to an index. A line past the last one
    /// counts as the last line, and a column past the last visible char of
    /// the line as the position right after that char.
    pub fn point_to_index(&self, point: (usize, usize)) -> (idx: usize)
        ensures
            idx == index_at(self@, point.0 as int, point.1 as int),
            idx <= self@.len(),
    {
        let last = self.len_lines() - 1;
        let l = if point.0 < last {
            point.0
        } else {
            last
        };
        let width = self.line_len_no_eol(l);
        let c = if point.1 < width {
            point.1
        } else {
            width
        };
        // the result lies within the text, whose length fits `usize`
        let len = self.len_chars();
        let start = self.line_to_char(l);
        proof {
            lemma_line_shape(self@, l as nat);
        }
        assert(start + c <= len);
        start + c
    }
}

} // verus!
