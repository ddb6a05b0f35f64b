//! The render pipeline: from the text of a buffer and the state of a view to
//! a display list, an ordered sequence of drawing commands.
//!
//! The glyph advance is the same for every character. Lines are clipped at
//! the bottom of the viewport only: a long line is neither wrapped nor cut.

use crate::buffer::Buffer;
use crate::text::{is_eol, line_count, line_start};
use std::ops::Range;
use vstd::prelude::*;

verus! {

/// A colour, as red, green, blue and alpha.
#[derive(Debug, Clone, Copy, PartialEq, Eq, Structural)]
pub struct Color {
    pub r: u8,
    pub g: u8,
    pub b: u8,
    pub a: u8,
}

/// The colour of glyphs and of the caret.
pub open spec fn spec_text_color() -> Color {
    Color { r: 242, g: 232, b: 255, a: 255 }
}

/// The colour of glyphs and of the caret.
#[verifier::when_used_as_spec(spec_text_color)]
pub fn text_color() -> (c: Color)
    ensures
        c == spec_text_color(),
{
    Color { r: 242, g: 232, b: 255, a: 255 }
}

/// The colour of the highlight behind a selected character.
pub open spec fn spec_selection_color() -> Color {
    Color { r: 142, g: 132, b: 155, a: 255 }
}

/// The colour of the highlight behind a selected character.
#[verifier::when_used_as_spec(spec_selection_color)]
pub fn selection_color() -> (c: Color)
    ensures
        c == spec_selection_color(),
{
    Color { r: 142, g: 132, b: 155, a: 255 }
}

/// The width of the caret bar, in pixels.
pub const CARET_WIDTH: u32 = 2;

/// The width of a tab, in glyph advances.
pub const TAB_ADVANCES: i32 = 4;

/// One drawing instruction of a display list.
#[derive(Debug, Clone, Copy, PartialEq, Eq, Structural)]
pub enum DisplayCommand {
    /// Sets the pen position for the commands that follow; draws nothing.
    Move(i32, i32),
    /// Draws one glyph at the pen position.
    Char(char, Color),
    /// Fills a rectangle of the given width and height at the pen position.
    Rect(u32, u32, Color),
}

/// What rendering reads of a font, in pixels.
#[derive(Debug, Clone, Copy, PartialEq, Eq)]
pub struct FontMetrics {
    /// The advance of a glyph, the same for all of them.
    pub advance: i32,
    /// The height of the font.
    pub height: i32,
    /// The distance from one line to the next.
    pub line_spacing: i32,
}

impl FontMetrics {
    /// No metric is negative, and the advance leaves room for one more pixel.
    pub open spec fn wf(&self) -> bool {
        &&& 0 <= self.advance < i32::MAX
        &&& 0 <= self.height
        &&& 0 <= self.line_spacing
    }
}

/// What the editor core reads and sets of a view.
#[derive(Debug, Clone, PartialEq, Eq)]
pub struct ViewState {
    /// The character index of the caret.
    pub index: usize,
    /// The selected characters, from `start` up to, not including, `end`.
    pub selection: Option<Range<usize>>,
    /// The first line that is shown.
    pub first_visible_line: usize,
    /// The number of lines that a page movement covers.
    pub page_length: usize,
}

/// The character `c` at index `idx` gets a selection highlight.
pub open spec fn highlighted(selection: Option<Range<usize>>, idx: int, c: char) -> bool {
    match selection {
        Some(r) => r.start <= idx < r.end && !is_eol(c),
        None => false,
    }
}

/// The commands that draw a selection highlight at (`x`, `y`).
pub open spec fn highlight_commands(x: int, y: int, m: FontMetrics) -> Seq<DisplayCommand> {
    seq![
        DisplayCommand::Move(x as i32, y as i32),
        DisplayCommand::Rect((m.advance + 1) as u32, m.height as u32, selection_color()),
    ]
}

/// The commands that draw the caret at (`x`, `y`).
pub open spec fn caret_commands(x: int, y: int, m: FontMetrics) -> Seq<DisplayCommand> {
    seq![
        DisplayCommand::Move(x as i32, y as i32),
        DisplayCommand::Rect(CARET_WIDTH, m.height as u32, text_color()),
    ]
}

/// Whether `c` is drawn as a glyph: line feed, tab and carriage return are not.
pub open spec fn has_glyph(c: char) -> bool {
    c != '\n' && c != '\t' && c != '\r'
}

/// The commands that draw the glyph of `c` at (`x`, `y`), if it has one.
pub open spec fn glyph_commands(c: char, x: int, y: int) -> Seq<DisplayCommand> {
    if has_glyph(c) {
        seq![DisplayCommand::Move(x as i32, y as i32), DisplayCommand::Char(c, text_color())]
    } else {
        Seq::empty()
    }
}

/// All commands for the character `c` at index `idx`, with the pen at
/// (`x`, `y`): first its highlight, then the caret, then its glyph.
pub open spec fn char_commands(
    c: char,
    idx: int,
    x: int,
    y: int,
    view: ViewState,
    m: FontMetrics,
) -> Seq<DisplayCommand> {
    (if highlighted(view.selection, idx, c) {
        highlight_commands(x, y, m)
    } else {
        Seq::empty()
    }) + (if idx == view.index {
        caret_commands(x, y, m)
    } else {
        Seq::empty()
    }) + glyph_commands(c, x, y)
}

/// The pen's x after the character `c`.
pub open spec fn next_x(c: char, x: int, m: FontMetrics) -> int {
    if c == '\n' {
        0
    } else if c == '\t' {
        x + TAB_ADVANCES * m.advance
    } else if c == '\r' {
        x
    } else {
        x + m.advance
    }
}

/// The pen's y after the character `c`.
pub open spec fn next_y(c: char, y: int, m: FontMetrics) -> int {
    if c == '\n' {
        y + m.line_spacing
    } else {
        y
    }
}

/// The caret at the end of the text: drawn at (`x`, `y`) where the caret
/// index is the length of the text.
pub open spec fn end_caret(
    s: Seq<char>,
    view: ViewState,
    x: int,
    y: int,
    m: FontMetrics,
) -> Seq<DisplayCommand> {
    if view.index == s.len() {
        caret_commands(x, y, m)
    } else {
        Seq::empty()
    }
}

/// The display list for the characters of `s` from `idx` on, with the pen at
/// (`x`, `y`): the commands of each character in turn, until the text ends or
/// the pen has left the viewport of height `height`, then the end caret.
pub open spec fn display_from(
    s: Seq<char>,
    idx: int,
    x: int,
    y: int,
    view: ViewState,
    m: FontMetrics,
    height: int,
) -> Seq<DisplayCommand>
    decreases s.len() - idx,
{
    if idx < 0 || idx >= s.len() {
        end_caret(s, view, x, y, m)
    } else {
        let c = s[idx];
        char_commands(c, idx, x, y, view, m) + if next_y(c, y, m) > height {
            end_caret(s, view, next_x(c, x, m), next_y(c, y, m), m)
        } else {
            display_from(s, idx + 1, next_x(c, x, m), next_y(c, y, m), view, m, height)
        }
    }
}

/// The display list of the text `s` as `view` shows it: rendering starts at
/// the first visible line with the pen at the origin.
pub open spec fn display_of(
    s: Seq<char>,
    view: ViewState,
    m: FontMetrics,
    height: int,
) -> Seq<DisplayCommand> {
    display_from(s, line_start(s, view.first_visible_line as nat), 0, 0, view, m, height)
}

/// The pen stays within `i32` while the characters of `s` from `idx` on are
/// rendered, with the pen at (`x`, `y`) to begin with.
pub open spec fn pen_fits(
    s: Seq<char>,
    idx: int,
    x: int,
    y: int,
    m: FontMetrics,
    height: int,
) -> bool
    decreases s.len() - idx,
{
    if idx < 0 || idx >= s.len() {
        true
    } else {
        let c = s[idx];
        &&& next_x(c, x, m) <= i32::MAX
        &&& next_y(c, y, m) <= i32::MAX
        &&& (next_y(c, y, m) > height || pen_fits(
            s,
            idx + 1,
            next_x(c, x, m),
            next_y(c, y, m),
            m,
            height,
        ))
    }
}

/// The text can be rendered as `view` shows it: the metrics are well-formed,
/// the first visible line exists (or is the line one past the last), and
/// every pen position fits `i32`.
pub open spec fn renderable(s: Seq<char>, view: ViewState, m: FontMetrics, height: int) -> bool {
    &&& m.wf()
    &&& view.first_visible_line <= line_count(s)
    &&& pen_fits(s, line_start(s, view.first_visible_line as nat), 0, 0, m, height)
}

/// Appends the commands that draw a selection highlight at (`x`, `y`).
fn push_highlight(out: &mut Vec<DisplayCommand>, x: i32, y: i32, m: &FontMetrics)
    requires
        m.wf(),
    ensures
        final(out)@ == old(out)@ + highlight_commands(x as int, y as int, *m),
{
    out.push(DisplayCommand::Move(x, y));
    out.push(DisplayCommand::Rect((m.advance + 1) as u32, m.height as u32, selection_color()));
    assert(out@ =~= old(out)@ + highlight_commands(x as int, y as int, *m));
}

/// Appends the commands that draw the caret at (`x`, `y`).
fn push_caret(out: &mut Vec<DisplayCommand>, x: i32, y: i32, m: &FontMetrics)
    requires
        m.wf(),
    ensures
        final(out)@ == old(out)@ + caret_commands(x as int, y as int, *m),
{
    out.push(DisplayCommand::Move(x, y));
    out.push(DisplayCommand::Rect(CARET_WIDTH, m.height as u32, text_color()));
    assert(out@ =~= old(out)@ + caret_commands(x as int, y as int, *m));
}

/// Appends all commands for the character `c` at index `idx`, with the pen
/// at (`x`, `y`).
fn push_char(
    out: &mut Vec<DisplayCommand>,
    c: char,
    idx: usize,
    x: i32,
    y: i32,
    view: &ViewState,
    m: &FontMetrics,
)
    requires
        m.wf(),
    ensures
        final(out)@ == old(out)@ + char_commands(c, idx as int, x as int, y as int, *view, *m),
{
    let ghost highlight = if highlighted(view.selection, idx as int, c) {
        highlight_commands(x as int, y as int, *m)
    } else {
        Seq::empty()
    };
    let ghost caret = if idx == view.index {
        caret_commands(x as int, y as int, *m)
    } else {
        Seq::empty()
    };
    match &view.selection {
        Some(r) => {
            if r.start <= idx && idx < r.end && c != '\n' && c != '\r' {
                push_highlight(out, x, y, m);
            }
        },
        None => {},
    }
    assert(out@ =~= old(out)@ + highlight);
    if idx == view.index {
        push_caret(out, x, y, m);
    }
    assert(out@ =~= old(out)@ + highlight + caret);
    if c != '\n' && c != '\t' && c != '\r' {
        out.push(DisplayCommand::Move(x, y));
        out.push(DisplayCommand::Char(c, text_color()));
    }
    assert(out@ =~= old(out)@ + highlight + caret + glyph_commands(c, x as int, y as int));
}

/// Renders the buffer as `view` shows it, in a viewport `height` pixels
/// high, if it can be rendered.
pub fn try_render(buffer: &Buffer, view: &ViewState, m: &FontMetrics, height: usize) -> (res:
    Option<Vec<DisplayCommand>>)
    ensures
        res is Some <==> renderable(buffer@, *view, *m, height as int),
        res matches Some(out) ==> out@ == display_of(buffer@, *view, *m, height as int),
{
    if m.advance < 0 || m.advance == i32::MAX || m.height < 0 || m.line_spacing < 0 {
        return None;
    }
    if view.first_visible_line > buffer.len_lines() {
        return None;
    }
    let mut out: Vec<DisplayCommand> = Vec::new();
    let chars = buffer.chars();
    let len = chars.len();
    let first_char = buffer.line_to_char(view.first_visible_line);
    let tab: i64 = 4 * (m.advance as i64);
    let mut x: i32 = 0;
    let mut y: i32 = 0;
    let mut idx = first_char;
    let mut clipped = false;
    let ghost s = buffer@;
    let ghost total = display_of(s, *view, *m, height as int);
    let ghost fits = pen_fits(s, first_char as int, 0, 0, *m, height as int);
    while idx < len && !clipped
        invariant
            chars@ == s,
            s == buffer@,
            len == s.len(),
            m.wf(),
            fits == renderable(s, *view, *m, height as int),
            total == display_of(s, *view, *m, height as int),
            tab == TAB_ADVANCES * m.advance,
            first_char <= idx <= len,
            0 <= x,
            0 <= y,
            !clipped ==> fits == pen_fits(s, idx as int, x as int, y as int, *m, height as int),
            !clipped ==> total == out@ + display_from(
                s,
                idx as int,
                x as int,
                y as int,
                *view,
                *m,
                height as int,
            ),
            clipped ==> fits,
            clipped ==> total == out@ + end_caret(s, *view, x as int, y as int, *m),
        decreases len - idx,
    {
        let c = chars[idx];
        let ghost before = out@;
        let ghost x0 = x as int;
        let ghost y0 = y as int;
        if c == '\n' {
            if y > i32::MAX - m.line_spacing {
                return None;
            }
        } else if c == '\t' {
            if x as i64 + tab > i32::MAX as i64 {
                return None;
            }
        } else if c == '\r' {
        } else {
            if x > i32::MAX - m.advance {
                return None;
            }
        }
        push_char(&mut out, c, idx, x, y, view, m);
        if c == '\n' {
            y = y + m.line_spacing;
            x = 0;
        } else if c == '\t' {
            x = (x as i64 + tab) as i32;
        } else if c == '\r' {
        } else {
            x = x + m.advance;
        }
        idx = idx + 1;
        if y as usize > height {
            clipped = true;
        }
        proof {
            let step = char_commands(c, idx - 1, x0, y0, *view, *m);
            assert(out@ == before + step);
            assert(x == next_x(c, x0, *m));
            assert(y == next_y(c, y0, *m));
            if clipped {
                assert(total =~= out@ + end_caret(s, *view, x as int, y as int, *m));
            } else {
                assert(total =~= out@ + display_from(
                    s,
                    idx as int,
                    x as int,
                    y as int,
                    *view,
                    *m,
                    height as int,
                ));
            }
        }
    }
    if view.index == len {
        push_caret(&mut out, x, y, m);
    }
    proof {
        assert(out@ =~= total);
    }
    Some(out)
}

/// Renders the buffer as `view` shows it, in a viewport `height` pixels high.
pub fn render(buffer: &Buffer, view: &ViewState, m: &FontMetrics, height: usize) -> (out: Vec<
    DisplayCommand,
>)
    requires
        renderable(buffer@, *view, *m, height as int),
    ensures
        out@ == display_of(buffer@, *view, *m, height as int),
{
    try_render(buffer, view, m, height).unwrap()
}

} // verus!
