//! Screen model: colours, text attributes and the cell grid with scrollback.
//!
//! The grid is a plain vector of rows so the renderer can borrow it directly,
//! while scrolled-out lines move into a bounded scrollback buffer.
use crate::text::trimmed_end;
use std::collections::VecDeque;
use vstd::prelude::*;

verus! {

/// A terminal colour.
#[derive(Debug, Clone, Copy, PartialEq, Eq, Hash, Structural)]
pub enum Color {
    /// The theme default (index 0..15 semantics are handled by the renderer).
    Default,
    /// One of the 256 indexed palette entries.
    Indexed(u8),
    /// True colour.
    Rgb(u8, u8, u8),
}

impl Default for Color {
    fn default() -> (r: Self)
        ensures
            r == Color::Default,
    {
        Color::Default
    }
}

impl Color {
    /// The 8 normal ANSI colours (indices 0-7).
    pub fn normal(index: u8) -> (r: Self)
        ensures
            r == Color::Indexed(index),
    {
        Color::Indexed(index)
    }

    /// The 8 bright ANSI colours (indices 8-15).
    pub fn bright(index: u8) -> (r: Self)
        requires
            index + 8 <= u8::MAX,
        ensures
            r == Color::Indexed((index + 8) as u8),
    {
        Color::Indexed(index + 8)
    }
}

/// SGR text attributes carried by every cell.
#[derive(Debug, Clone, Copy, PartialEq, Eq, Hash, Structural)]
pub struct Attrs {
    /// Foreground colour.
    pub fg: Color,
    /// Background colour.
    pub bg: Color,
    /// Bold / increased intensity.
    pub bold: bool,
    /// Dim / decreased intensity.
    pub dim: bool,
    /// Italic.
    pub italic: bool,
    /// Underlined.
    pub underline: bool,
    /// Blinking.
    pub blink: bool,
    /// Foreground and background swapped.
    pub inverse: bool,
    /// Not rendered.
    pub hidden: bool,
    /// Struck through.
    pub strikethrough: bool,
}

/// Attributes with no styling at all.
pub open spec fn plain_attrs() -> Attrs {
    Attrs {
        fg: Color::Default,
        bg: Color::Default,
        bold: false,
        dim: false,
        italic: false,
        underline: false,
        blink: false,
        inverse: false,
        hidden: false,
        strikethrough: false,
    }
}

impl Default for Attrs {
    fn default() -> (r: Self)
        ensures
            r == plain_attrs(),
    {
        Attrs::plain()
    }
}

impl Attrs {
    /// Attributes with no styling at all.
    pub fn plain() -> (r: Self)
        ensures
            r == plain_attrs(),
    {
        Attrs {
            fg: Color::Default,
            bg: Color::Default,
            bold: false,
            dim: false,
            italic: false,
            underline: false,
            blink: false,
            inverse: false,
            hidden: false,
            strikethrough: false,
        }
    }

    /// True when every attribute is at its default.
    pub fn is_plain(self) -> (r: bool)
        ensures
            r == (self == plain_attrs()),
    {
        self == Attrs::plain()
    }
}

/// A single terminal cell.
#[derive(Debug, Clone, Copy, PartialEq, Eq, Structural)]
pub struct Cell {
    /// The character shown, or a space for continuation cells of a wide glyph.
    pub ch: char,
    /// Text attributes.
    pub attrs: Attrs,
    /// Number of columns the glyph occupies (1 or 2).
    pub width: u8,
}

/// The cell that shows one character with the given attributes.
pub open spec fn cell_of(ch: char, attrs: Attrs) -> Cell {
    Cell { ch, attrs, width: if wide(ch) { 2 } else { 1 } }
}

/// A blank, unstyled cell.
pub open spec fn empty_cell() -> Cell {
    Cell { ch: ' ', attrs: plain_attrs(), width: 1 }
}

impl Cell {
    /// An empty cell.
    pub fn empty() -> (r: Self)
        ensures
            r == empty_cell(),
    {
        Cell { ch: ' ', attrs: Attrs::plain(), width: 1 }
    }

    /// A cell holding one character with the given attributes.
    pub fn new(ch: char, attrs: Attrs) -> (r: Self)
        ensures
            r == cell_of(ch, attrs),
    {
        Cell { ch, attrs, width: if is_wide(ch) { 2 } else { 1 } }
    }

    /// True when the cell is blank and unstyled.
    pub fn is_empty(&self) -> (r: bool)
        ensures
            r == (*self == empty_cell()),
    {
        *self == Cell::empty()
    }
}

impl Default for Cell {
    fn default() -> (r: Self)
        ensures
            r == empty_cell(),
    {
        Cell::empty()
    }
}

/// A row of cells.
#[derive(Debug, PartialEq, Eq)]
pub struct Row {
    /// Cells in the row, left to right.
    pub cells: Vec<Cell>,
    /// True when the remote side marked the line as wrapped.
    pub wrapped: bool,
}

/// The content of a row.
#[verifier::ext_equal]
pub struct RowView {
    pub cells: Seq<Cell>,
    pub wrapped: bool,
}

impl View for Row {
    type V = RowView;

    open spec fn view(&self) -> RowView {
        RowView { cells: self.cells@, wrapped: self.wrapped }
    }
}

/// A row of `cols` empty cells.
pub open spec fn blank_row(cols: nat) -> RowView {
    RowView { cells: Seq::new(cols, |i: int| empty_cell()), wrapped: false }
}

/// The contents of a run of rows.
pub open spec fn row_views(rows: Seq<Row>) -> Seq<RowView> {
    Seq::new(rows.len(), |i: int| rows[i]@)
}

impl Clone for Row {
    fn clone(&self) -> (r: Self)
        ensures
            r@ == self@,
    {
        let cells = self.cells.clone();
        assert(cells@ =~= self.cells@);
        Row { cells, wrapped: self.wrapped }
    }
}

impl Default for Row {
    fn default() -> (r: Self)
        ensures
            r@ == blank_row(0),
    {
        let r = Row { cells: Vec::new(), wrapped: false };
        assert(r@ =~= blank_row(0));
        r
    }
}

impl Row {
    /// A row of `cols` empty cells.
    pub fn blank(cols: usize) -> (r: Self)
        ensures
            r@ == blank_row(cols as nat),
    {
        let mut cells: Vec<Cell> = Vec::with_capacity(cols);
        let mut i: usize = 0;
        while i < cols
            invariant
                i <= cols,
                cells@ =~= Seq::new(i as nat, |k: int| empty_cell()),
            decreases cols - i,
        {
            cells.push(Cell::empty());
            i = i + 1;
        }
        Row { cells, wrapped: false }
    }

    /// The characters of the row, left to right.
    pub open spec fn chars(self) -> Seq<char> {
        Seq::new(self.cells@.len(), |i: int| self.cells@[i].ch)
    }

    /// The printable text of the row with trailing blanks removed.
    pub fn text(&self) -> (r: String)
        ensures
            r@ == trimmed_end(self.chars()),
    {
        let mut out = String::new();
        let mut i: usize = 0;
        while i < self.cells.len()
            invariant
                i <= self.cells.len(),
                out@ =~= self.chars().take(i as int),
            decreases self.cells.len() - i,
        {
            out.push(self.cells[i].ch);
            i = i + 1;
        }
        assert(out@ =~= self.chars());
        crate::text::trim_end(out.as_str())
    }

    /// The text shown for the row.
    pub fn to_string(&self) -> (r: String)
        ensures
            r@ == trimmed_end(self.chars()),
    {
        self.text()
    }
}

/// Whether a character occupies two columns (East Asian wide).
pub open spec fn wide(ch: char) -> bool {
    let c = ch as u32;
    ||| 0x1100 <= c <= 0x115F  // Hangul Jamo initial consonants
    ||| 0x2E80 <= c <= 0x303E  // CJK radicals, Kangxi, CJK symbols
    ||| 0x3041 <= c <= 0x33FF  // Hiragana to CJK compatibility
    ||| 0x3400 <= c <= 0x4DBF  // CJK extension A
    ||| 0x4E00 <= c <= 0x9FFF  // CJK unified
    ||| 0xA000 <= c <= 0xA4CF  // Yi
    ||| 0xAC00 <= c <= 0xD7A3  // Hangul syllables
    ||| 0xF900 <= c <= 0xFAFF  // CJK compatibility ideographs
    ||| 0xFE30 <= c <= 0xFE6F  // CJK compatibility forms
    ||| 0xFF00 <= c <= 0xFF60  // fullwidth forms
    ||| 0xFFE0 <= c <= 0xFFE6
    ||| 0x1F300 <= c <= 0x1F64F  // emoji
    ||| 0x1F900 <= c <= 0x1F9FF
    ||| 0x20000 <= c <= 0x2FFFD
    ||| 0x30000 <= c <= 0x3FFFD
}

/// Returns true for characters that occupy two columns (East Asian wide).
///
/// A small, explicit table is enough for terminal rendering.
pub fn is_wide(ch: char) -> (r: bool)
    ensures
        r == wide(ch),
{
    let c: u32 = ch as u32;
    matches!(c,
        0x1100..=0x115F
        | 0x2E80..=0x303E
        | 0x3041..=0x33FF
        | 0x3400..=0x4DBF
        | 0x4E00..=0x9FFF
        | 0xA000..=0xA4CF
        | 0xAC00..=0xD7A3
        | 0xF900..=0xFAFF
        | 0xFE30..=0xFE6F
        | 0xFF00..=0xFF60
        | 0xFFE0..=0xFFE6
        | 0x1F300..=0x1F64F
        | 0x1F900..=0x1F9FF
        | 0x20000..=0x2FFFD
        | 0x30000..=0x3FFFD
    )
}

/// The last `limit` lines of a history, oldest first.
pub open spec fn newest(lines: Seq<RowView>, limit: nat) -> Seq<RowView> {
    if lines.len() <= limit {
        lines
    } else {
        lines.skip(lines.len() - limit)
    }
}

/// The scrollback ring buffer.
#[derive(Debug)]
pub struct Scrollback {
    limit: usize,
    lines: VecDeque<Row>,
}

impl Scrollback {
    /// The retained lines, oldest first.
    pub closed spec fn lines(self) -> Seq<RowView> {
        row_views(self.lines@)
    }

    /// The configured maximum.
    pub closed spec fn max(self) -> nat {
        self.limit as nat
    }

    /// No more lines are held than the maximum allows.
    pub open spec fn wf(self) -> bool {
        self.lines().len() <= self.max()
    }

    /// Creates a scrollback holding at most `limit` lines.
    pub fn new(limit: usize) -> (r: Self)
        ensures
            r.wf(),
            r.lines() == Seq::<RowView>::empty(),
            r.max() == limit,
    {
        let r = Scrollback { limit, lines: VecDeque::new() };
        assert(r.lines() =~= Seq::<RowView>::empty());
        r
    }

    /// Number of lines currently held.
    pub fn len(&self) -> (r: usize)
        ensures
            r == self.lines().len(),
    {
        self.lines.len()
    }

    /// True when no lines are held.
    pub fn is_empty(&self) -> (r: bool)
        ensures
            r == (self.lines().len() == 0),
    {
        self.lines.len() == 0
    }

    /// Configured maximum.
    pub fn limit(&self) -> (r: usize)
        ensures
            r == self.max(),
    {
        self.limit
    }

    /// Pushes a line, dropping the oldest when full.
    pub fn push(&mut self, row: Row)
        requires
            old(self).wf(),
        ensures
            final(self).wf(),
            final(self).max() == old(self).max(),
            final(self).lines() == newest(old(self).lines().push(row@), old(self).max()),
    {
        if self.limit == 0 {
            assert(self.lines() =~= newest(old(self).lines().push(row@), old(self).max()));
            return;
        }
        if self.lines.len() == self.limit {
            let _dropped = self.lines.pop_front();
        }
        self.lines.push_back(row);
        assert(self.lines() =~= newest(old(self).lines().push(row@), old(self).max()));
    }

    /// Line `index` lines from the oldest retained line.
    pub fn line(&self, index: usize) -> (r: Option<&Row>)
        ensures
            r is Some <==> index < self.lines().len(),
            r is Some ==> r->0@ == self.lines()[index as int],
    {
        if index < self.lines.len() {
            Some(&self.lines[index])
        } else {
            None
        }
    }

    /// Drops every retained line.
    pub fn clear(&mut self)
        ensures
            final(self).wf(),
            final(self).max() == old(self).max(),
            final(self).lines() == Seq::<RowView>::empty(),
    {
        self.lines.clear();
        assert(self.lines() =~= Seq::<RowView>::empty());
    }

    /// Changes the maximum, trimming from the oldest end.
    pub fn set_limit(&mut self, limit: usize)
        ensures
            final(self).wf(),
            final(self).max() == limit,
            final(self).lines() == newest(old(self).lines(), limit as nat),
    {
        self.limit = limit;
        let ghost start = self.lines@;
        while self.lines.len() > self.limit
            invariant
                self.limit == limit,
                self.lines@.len() <= start.len(),
                self.lines@ =~= start.skip(start.len() - self.lines@.len()),
                self.lines@.len() >= limit || self.lines@ == start,
                start == old(self).lines@,
            decreases self.lines@.len(),
        {
            let _dropped = self.lines.pop_front();
        }
        assert(self.lines() =~= newest(old(self).lines(), limit as nat));
    }
}

/// A history that only ever receives lines holds the most recent of them: after
/// any run of pushes onto an empty scrollback exactly the last `limit` lines are
/// retained, in order.
pub proof fn scrollback_keeps_the_newest(pushed: Seq<RowView>, row: RowView, limit: nat)
    ensures
        newest(newest(pushed, limit).push(row), limit) == newest(pushed.push(row), limit),
        newest(pushed, limit).len() <= limit,
{
    assert(newest(newest(pushed, limit).push(row), limit) =~= newest(pushed.push(row), limit));
}

} // verus!
