//! A text as a mathematical model over `Seq<char>`: its edits and its line
//! structure.
//!
//! A line break is a line feed, a carriage return, or a carriage return
//! directly followed by a line feed (one break, two characters). The start of
//! the text and every position right after a line break start a line, and a
//! break belongs to the line that it ends.

use vstd::prelude::*;

verus! {

/// The text `s` after `t` is put in front of the character at `idx`.
pub open spec fn inserted(s: Seq<char>, idx: int, t: Seq<char>) -> Seq<char> {
    s.subrange(0, idx) + t + s.subrange(idx, s.len() as int)
}

/// The text `s` without the characters from `start` up to, not including, `end`.
pub open spec fn removed(s: Seq<char>, start: int, end: int) -> Seq<char> {
    s.subrange(0, start) + s.subrange(end, s.len() as int)
}

/// `c` is a line terminator character.
pub open spec fn is_eol(c: char) -> bool {
    c == '\n' || c == '\r'
}

/// A line break ends right before position `e`: the character before `e` is a
/// line feed, or a carriage return that no line feed follows.
pub open spec fn break_ends_at(s: Seq<char>, e: int) -> bool {
    &&& 0 < e <= s.len()
    &&& (s[e - 1] == '\n' || (s[e - 1] == '\r' && !(e < s.len() && s[e] == '\n')))
}

/// The number of line breaks that end at or before position `idx`.
pub open spec fn breaks_before(s: Seq<char>, idx: int) -> nat
    decreases idx,
{
    if idx <= 0 {
        0
    } else {
        breaks_before(s, idx - 1) + if break_ends_at(s, idx) {
            1nat
        } else {
            0nat
        }
    }
}

/// The number of lines of `s`: one more than its line breaks.
pub open spec fn line_count(s: Seq<char>) -> nat {
    breaks_before(s, s.len() as int) + 1
}

/// The line that holds position `idx`. The position one past the end lies on
/// the last line, and the line feed of a CR LF pair on the line of its
/// carriage return.
pub open spec fn line_of(s: Seq<char>, idx: int) -> nat {
    breaks_before(s, idx)
}

/// Position `i` is where line `line` starts.
pub open spec fn is_line_start(s: Seq<char>, line: nat, i: int) -> bool {
    &&& 0 <= i <= s.len()
    &&& i == 0 || break_ends_at(s, i)
    &&& breaks_before(s, i) == line
}

/// The position at which line `line` starts; the length of the text for a
/// line past the last one.
pub open spec fn line_start(s: Seq<char>, line: nat) -> int {
    if line >= line_count(s) {
        s.len() as int
    } else {
        choose|i: int| is_line_start(s, line, i)
    }
}

/// The characters of line `line`, its line break included.
pub open spec fn line_text(s: Seq<char>, line: nat) -> Seq<char> {
    s.subrange(line_start(s, line), line_start(s, line + 1))
}

/// The characters that are no line terminators, as a predicate.
pub open spec fn visible() -> spec_fn(char) -> bool {
    |c: char| !is_eol(c)
}

/// The number of characters of `t` that are no line terminators.
pub open spec fn visible_len(t: Seq<char>) -> nat {
    t.filter(visible()).len()
}

/// The position right after the last visible character of line `line`.
pub open spec fn line_end(s: Seq<char>, line: nat) -> int {
    line_start(s, line) + visible_len(line_text(s, line))
}

/// The length of the line break that starts at position `p`, 0 if none does.
pub open spec fn break_len_at(s: Seq<char>, p: int) -> int {
    if !(0 <= p < s.len()) {
        0
    } else if s[p] == '\n' {
        1
    } else if s[p] == '\r' {
        if p + 1 < s.len() && s[p + 1] == '\n' {
            2
        } else {
            1
        }
    } else {
        0
    }
}

/// Position `p` lies between the two characters of a CR LF pair.
pub open spec fn splits_crlf(s: Seq<char>, p: int) -> bool {
    0 < p < s.len() && s[p - 1] == '\r' && s[p] == '\n'
}

/// The number of line terminator characters among the first `n` characters.
pub open spec fn eols_before(s: Seq<char>, n: int) -> nat
    decreases n,
{
    if n <= 0 {
        0
    } else {
        eols_before(s, n - 1) + if n <= s.len() && is_eol(s[n - 1]) {
            1nat
        } else {
            0nat
        }
    }
}

/// The number of positions up to `n` that lie between the two characters of
/// a CR LF pair: the number of pairs whose carriage return is among the
/// first `n` characters.
pub open spec fn crlf_pairs_before(s: Seq<char>, n: int) -> nat
    decreases n,
{
    if n <= 0 {
        0
    } else {
        crlf_pairs_before(s, n - 1) + if splits_crlf(s, n) {
            1nat
        } else {
            0nat
        }
    }
}

/// The point (line, column) of position `idx`.
pub open spec fn point_at(s: Seq<char>, idx: int) -> (int, int) {
    (line_of(s, idx) as int, idx - line_start(s, line_of(s, idx)))
}

/// The position of the point (`line`, `col`), after the line is clamped to
/// the last line and the column to the visible length of that line.
pub open spec fn index_at(s: Seq<char>, line: int, col: int) -> int {
    let l = if line < line_count(s) - 1 {
        line
    } else {
        line_count(s) - 1
    };
    let width = visible_len(line_text(s, l as nat)) as int;
    line_start(s, l as nat) + if col < width {
        col
    } else {
        width
    }
}

/// Counting breaks is monotone, and grows by at most one per character.
pub proof fn lemma_breaks_monotone(s: Seq<char>, i: int, j: int)
    requires
        i <= j,
    ensures
        breaks_before(s, i) <= breaks_before(s, j),
        breaks_before(s, j) <= breaks_before(s, i) + (j - i),
    decreases j - i,
{
    if i < j {
        lemma_breaks_monotone(s, i, j - 1);
    }
}

/// No break ends after the end of the text.
pub proof fn lemma_breaks_bounded(s: Seq<char>, idx: int)
    ensures
        breaks_before(s, idx) <= breaks_before(s, s.len() as int),
        breaks_before(s, idx) < line_count(s),
    decreases idx,
{
    if idx <= s.len() {
        lemma_breaks_monotone(s, idx, s.len() as int);
    } else {
        lemma_breaks_bounded(s, idx - 1);
    }
}

/// Every line up to `breaks_before(s, n)` starts at or before `n`.
proof fn lemma_start_exists_upto(s: Seq<char>, line: nat, n: int)
    requires
        0 <= n <= s.len(),
        line <= breaks_before(s, n),
    ensures
        exists|i: int| i <= n && is_line_start(s, line, i),
    decreases n,
{
    if n == 0 {
        assert(is_line_start(s, line, 0));
    } else if breaks_before(s, n - 1) >= line {
        lemma_start_exists_upto(s, line, n - 1);
        let i = choose|i: int| i <= n - 1 && is_line_start(s, line, i);
        assert(i <= n && is_line_start(s, line, i));
    } else {
        assert(is_line_start(s, line, n));
    }
}

/// Two positions that start the same line are one position.
pub proof fn lemma_start_unique(s: Seq<char>, line: nat, i: int, j: int)
    requires
        is_line_start(s, line, i),
        is_line_start(s, line, j),
    ensures
        i == j,
{
    if i < j {
        lemma_breaks_monotone(s, i, j - 1);
    } else if j < i {
        lemma_breaks_monotone(s, j, i - 1);
    }
}

/// What `line_start` is: within the text it is the one position that starts
/// the line; past the last line it is the length of the text.
pub proof fn lemma_line_start(s: Seq<char>, line: nat)
    ensures
        0 <= line_start(s, line) <= s.len(),
        line < line_count(s) ==> is_line_start(s, line, line_start(s, line)),
        line >= line_count(s) ==> line_start(s, line) == s.len(),
        line == 0 ==> line_start(s, line) == 0,
{
    if line < line_count(s) {
        lemma_start_exists_upto(s, line, s.len() as int);
        if line == 0 {
            assert(is_line_start(s, 0, 0));
            lemma_start_unique(s, 0, 0, line_start(s, 0));
        }
    }
}

/// The start of a line is on that line.
pub proof fn lemma_line_of_line_start(s: Seq<char>, line: nat)
    requires
        line < line_count(s),
    ensures
        line_of(s, line_start(s, line)) == line,
{
    lemma_line_start(s, line);
}

/// A later line does not start earlier.
pub proof fn lemma_line_start_monotone(s: Seq<char>, line: nat, later: nat)
    requires
        line <= later,
    ensures
        line_start(s, line) <= line_start(s, later),
{
    lemma_line_start(s, line);
    lemma_line_start(s, later);
    if later < line_count(s) {
        let a = line_start(s, line);
        let b = line_start(s, later);
        if b < a {
            lemma_breaks_monotone(s, b, a);
            lemma_start_unique(s, line, a, b);
        }
    }
}

/// A position does not lie before the start of its line.
pub proof fn lemma_line_start_of_line_of(s: Seq<char>, idx: int)
    requires
        0 <= idx <= s.len(),
    ensures
        line_of(s, idx) < line_count(s),
        0 <= line_start(s, line_of(s, idx)) <= idx,
{
    lemma_breaks_bounded(s, idx);
    let line = line_of(s, idx);
    lemma_line_start(s, line);
    let a = line_start(s, line);
    if idx < a {
        lemma_breaks_monotone(s, idx, a - 1);
    }
}

/// Where no break ends between two positions, they lie on one line.
proof fn lemma_breaks_flat(s: Seq<char>, i: int, j: int)
    requires
        i <= j,
        forall|k: int| i < k <= j ==> !break_ends_at(s, k),
    ensures
        breaks_before(s, j) == breaks_before(s, i),
    decreases j - i,
{
    if i < j {
        lemma_breaks_flat(s, i, j - 1);
    }
}

/// The extent of a line: it reaches from its start to the start of the next
/// line, no break ends inside it, and all its positions lie on it.
pub proof fn lemma_line_span(s: Seq<char>, line: nat)
    requires
        line < line_count(s),
    ensures
        0 <= line_start(s, line) <= line_start(s, line + 1) <= s.len(),
        line + 1 < line_count(s) ==> line_start(s, line) < line_start(s, line + 1)
            && break_ends_at(s, line_start(s, line + 1)),
        line + 1 == line_count(s) ==> line_start(s, line + 1) == s.len(),
        forall|j: int| line_start(s, line) < j < line_start(s, line + 1) ==> !break_ends_at(s, j),
        line + 1 == line_count(s) && line_start(s, line) < s.len() ==> !break_ends_at(
            s,
            s.len() as int,
        ),
        forall|j: int|
            line_start(s, line) <= j < line_start(s, line + 1) ==> #[trigger] line_of(s, j)
                == line,
        line + 1 == line_count(s) ==> line_of(s, s.len() as int) == line,
{
    lemma_line_start(s, line);
    lemma_line_start(s, line + 1);
    let a = line_start(s, line);
    let b = line_start(s, line + 1);
    if line + 1 < line_count(s) {
        if b <= a {
            lemma_breaks_monotone(s, b, a);
        }
        assert forall|j: int| a < j < b implies !break_ends_at(s, j) by {
            if break_ends_at(s, j) {
                lemma_breaks_monotone(s, a, j - 1);
                lemma_breaks_monotone(s, j, b - 1);
            }
        }
    } else {
        assert forall|j: int| a < j <= s.len() implies !break_ends_at(s, j) by {
            if break_ends_at(s, j) {
                lemma_breaks_monotone(s, a, j - 1);
                lemma_breaks_monotone(s, j, s.len() as int);
            }
        }
        lemma_breaks_flat(s, a, s.len() as int);
    }
    assert forall|j: int| a <= j < b implies #[trigger] line_of(s, j) == line by {
        lemma_breaks_flat(s, a, j);
    }
}

/// A filter keeps a sequence whose elements all pass.
proof fn lemma_filter_keeps_all(t: Seq<char>, pred: spec_fn(char) -> bool)
    requires
        forall|i: int| 0 <= i < t.len() ==> pred(t[i]),
    ensures
        t.filter(pred) == t,
    decreases t.len(),
{
    reveal(Seq::filter);
    if t.len() > 0 {
        lemma_filter_keeps_all(t.drop_last(), pred);
        assert(t.drop_last().push(t.last()) =~= t);
    }
}

/// A filter empties a sequence none of whose elements pass.
proof fn lemma_filter_drops_all(t: Seq<char>, pred: spec_fn(char) -> bool)
    requires
        forall|i: int| 0 <= i < t.len() ==> !pred(t[i]),
    ensures
        t.filter(pred) == Seq::<char>::empty(),
    decreases t.len(),
{
    reveal(Seq::filter);
    if t.len() > 0 {
        lemma_filter_drops_all(t.drop_last(), pred);
    }
}

/// The shape of a line: visible characters up to `line_end`, then its line
/// break, which the next line follows; the last line has no break and ends
/// with the text. So `line_end` is where the break starts, never a position
/// inside it.
pub proof fn lemma_line_shape(s: Seq<char>, line: nat)
    requires
        line < line_count(s),
    ensures
        0 <= line_start(s, line) <= line_end(s, line) <= line_start(s, line + 1) <= s.len(),
        forall|j: int| line_start(s, line) <= j < line_end(s, line) ==> !is_eol(#[trigger] s[j]),
        !splits_crlf(s, line_end(s, line)),
        line + 1 < line_count(s) ==> 1 <= break_len_at(s, line_end(s, line)) && line_start(
            s,
            line + 1,
        ) == line_end(s, line) + break_len_at(s, line_end(s, line)),
        line + 1 == line_count(s) ==> line_end(s, line) == s.len(),
{
    lemma_line_span(s, line);
    lemma_line_start(s, line);
    let a = line_start(s, line);
    let b = line_start(s, line + 1);
    // where the line's break starts
    let t = if line + 1 == line_count(s) {
        b
    } else if s[b - 1] == '\n' && b - 2 >= 0 && s[b - 2] == '\r' {
        b - 2
    } else {
        b - 1
    };
    assert(a <= t <= b);
    assert forall|j: int| a <= j < t implies !is_eol(#[trigger] s[j]) by {
        if s[j] == '\n' {
            assert(break_ends_at(s, j + 1));
        } else if s[j] == '\r' {
            if j + 1 < s.len() && s[j + 1] == '\n' {
                assert(break_ends_at(s, j + 2));
            } else {
                assert(break_ends_at(s, j + 1));
            }
        }
    }
    let head = s.subrange(a, t);
    let tail = s.subrange(t, b);
    assert(line_text(s, line) =~= head + tail);
    Seq::filter_distributes_over_add(head, tail, visible());
    lemma_filter_keeps_all(head, visible());
    lemma_filter_drops_all(tail, visible());
    assert(head + Seq::<char>::empty() =~= head);
    assert(line_end(s, line) == t);
}

/// A position becomes a point, and the point becomes the position again,
/// unless the position lies between the two characters of a CR LF pair.
pub proof fn lemma_point_round_trip(s: Seq<char>, idx: int)
    requires
        0 <= idx <= s.len(),
        !splits_crlf(s, idx),
    ensures
        index_at(s, point_at(s, idx).0, point_at(s, idx).1) == idx,
{
    lemma_line_start_of_line_of(s, idx);
    let line = line_of(s, idx);
    lemma_line_shape(s, line);
    lemma_line_span(s, line);
    let e = line_end(s, line);
    if line + 1 < line_count(s) {
        let b = line_start(s, line + 1);
        if b <= idx {
            lemma_line_start(s, line + 1);
            lemma_breaks_monotone(s, b, idx);
        }
    }
    assert(idx <= e);
}

/// Removing a range and inserting the removed characters where they stood
/// gives the text back.
pub proof fn lemma_remove_insert_round_trip(s: Seq<char>, start: int, end: int)
    requires
        0 <= start <= end <= s.len(),
    ensures
        inserted(removed(s, start, end), start, s.subrange(start, end)) == s,
{
    let r = removed(s, start, end);
    assert(r.subrange(0, start) =~= s.subrange(0, start));
    assert(r.subrange(start, r.len() as int) =~= s.subrange(end, s.len() as int));
    assert(inserted(r, start, s.subrange(start, end)) =~= s);
}

/// Every line terminator character is a line break of its own, but for the
/// line feed of a CR LF pair.
proof fn lemma_breaks_are_eols(s: Seq<char>, n: int)
    requires
        0 <= n <= s.len(),
    ensures
        breaks_before(s, n) + crlf_pairs_before(s, n) == eols_before(s, n),
    decreases n,
{
    if n > 0 {
        lemma_breaks_are_eols(s, n - 1);
    }
}

/// The number of lines is one more than the number of line terminator
/// characters, a CR LF pair counted once. In a text without such a pair it
/// is one more than the number of line terminator characters.
pub proof fn lemma_line_count(s: Seq<char>)
    ensures
        line_count(s) >= 1,
        line_count(s) == eols_before(s, s.len() as int) - crlf_pairs_before(s, s.len() as int)
            + 1,
        (forall|p: int| !splits_crlf(s, p)) ==> line_count(s) == eols_before(s, s.len() as int)
            + 1,
{
    lemma_breaks_are_eols(s, s.len() as int);
    if forall|p: int| !splits_crlf(s, p) {
        lemma_no_pairs(s, s.len() as int);
    }
}

/// A text in which no position splits a CR LF pair holds no such pair.
proof fn lemma_no_pairs(s: Seq<char>, n: int)
    requires
        forall|p: int| !splits_crlf(s, p),
    ensures
        crlf_pairs_before(s, n) == 0,
    decreases n,
{
    if n > 0 {
        lemma_no_pairs(s, n - 1);
    }
}

} // verus!
