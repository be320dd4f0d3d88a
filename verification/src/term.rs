//! The terminal state machine: applies parsed actions to the screen model.
//!
//! [`TermView`] is the mathematical content of a terminal and [`applied`] says
//! what one action does to it.  The model is partial: `None` stands for an
//! action that addresses a cell outside the screen, which can only happen after
//! a resize made a saved cursor or a saved screen stale.
use crate::grid::{
    blank_row, cell_of, empty_cell, newest, plain_attrs, row_views, wide, Attrs, Cell, Color, Row,
    RowView, Scrollback,
};
use crate::parser::{
    action_views, initial, run, Action, ActionView, Parser, ParserView,
};
use crate::text::{same, texts};
use vstd::prelude::*;

verus! {

/// Terminal modes that change how input and output behave.
#[derive(Debug, Clone, Copy, PartialEq, Eq, Structural)]
pub struct Modes {
    /// Cursor visible (private mode 25).
    pub cursor_visible: bool,
    /// Application cursor keys (private mode 1): arrows send `ESC O A`.
    pub application_cursor_keys: bool,
    /// Application keypad (private mode 66).
    pub application_keypad: bool,
    /// Bracketed paste (private mode 2004).
    pub bracketed_paste: bool,
    /// Origin mode (private mode 6): cursor addressing is relative to the region.
    pub origin: bool,
    /// Auto-wrap (private mode 7).
    pub auto_wrap: bool,
    /// Alternate screen buffer (private modes 47/1047/1049).
    pub alternate_screen: bool,
    /// Insert/replace mode (private mode 4).
    pub insert: bool,
}

/// The modes by name.
#[derive(Debug, Clone, Copy, PartialEq, Eq, Structural)]
pub enum Mode {
    /// Cursor visible.
    CursorVisible,
    /// Application cursor keys.
    ApplicationCursorKeys,
    /// Application keypad.
    ApplicationKeypad,
    /// Bracketed paste.
    BracketedPaste,
    /// Origin mode.
    Origin,
    /// Auto-wrap.
    AutoWrap,
    /// Alternate screen buffer.
    AlternateScreen,
    /// Insert mode.
    Insert,
}

impl Modes {
    /// Whether a mode is switched on.
    pub open spec fn on(self, mode: Mode) -> bool {
        match mode {
            Mode::CursorVisible => self.cursor_visible,
            Mode::ApplicationCursorKeys => self.application_cursor_keys,
            Mode::ApplicationKeypad => self.application_keypad,
            Mode::BracketedPaste => self.bracketed_paste,
            Mode::Origin => self.origin,
            Mode::AutoWrap => self.auto_wrap,
            Mode::AlternateScreen => self.alternate_screen,
            Mode::Insert => self.insert,
        }
    }

    /// Whether a mode is switched on.
    pub fn get(&self, mode: Mode) -> (r: bool)
        ensures
            r == self@.contains(mode),
            r == self.on(mode),
    {
        proof {
            reveal(mode_set);
        }
        match mode {
            Mode::CursorVisible => self.cursor_visible,
            Mode::ApplicationCursorKeys => self.application_cursor_keys,
            Mode::ApplicationKeypad => self.application_keypad,
            Mode::BracketedPaste => self.bracketed_paste,
            Mode::Origin => self.origin,
            Mode::AutoWrap => self.auto_wrap,
            Mode::AlternateScreen => self.alternate_screen,
            Mode::Insert => self.insert,
        }
    }

    /// Switches a mode on or off.
    pub fn set(&mut self, mode: Mode, enable: bool)
        ensures
            final(self)@ == with_mode(old(self)@, mode, enable),
    {
        proof {
            reveal(mode_set);
        }
        match mode {
            Mode::CursorVisible => {
                self.cursor_visible = enable;
            },
            Mode::ApplicationCursorKeys => {
                self.application_cursor_keys = enable;
            },
            Mode::ApplicationKeypad => {
                self.application_keypad = enable;
            },
            Mode::BracketedPaste => {
                self.bracketed_paste = enable;
            },
            Mode::Origin => {
                self.origin = enable;
            },
            Mode::AutoWrap => {
                self.auto_wrap = enable;
            },
            Mode::AlternateScreen => {
                self.alternate_screen = enable;
            },
            Mode::Insert => {
                self.insert = enable;
            },
        }
        assert(self@ =~= with_mode(old(self)@, mode, enable));
    }
}

/// The modes that are switched on.
#[verifier::opaque]
pub open spec fn mode_set(modes: Modes) -> Set<Mode> {
    Set::new(|mode: Mode| modes.on(mode))
}

/// A mode switched on or off.
pub open spec fn with_mode(modes: Set<Mode>, mode: Mode, enable: bool) -> Set<Mode> {
    if enable {
        modes.insert(mode)
    } else {
        modes.remove(mode)
    }
}

impl View for Modes {
    type V = Set<Mode>;

    open spec fn view(&self) -> Set<Mode> {
        mode_set(*self)
    }
}

impl Default for Modes {
    fn default() -> (r: Self)
        ensures
            r@ == Set::<Mode>::empty(),
    {
        let r = Modes {
            cursor_visible: false,
            application_cursor_keys: false,
            application_keypad: false,
            bracketed_paste: false,
            origin: false,
            auto_wrap: false,
            alternate_screen: false,
            insert: false,
        };
        proof {
            reveal(mode_set);
        }
        assert(r@ =~= Set::<Mode>::empty());
        r
    }
}

/// Cursor position and saved state.
#[derive(Debug, Clone, Copy, PartialEq, Eq, Structural)]
pub struct Cursor {
    /// Zero based row.
    pub row: usize,
    /// Zero based column.
    pub col: usize,
    /// Attributes applied to the next printed character.
    pub attrs: Attrs,
}

/// The cursor in the upper left corner, without styling.
pub open spec fn home() -> Cursor {
    Cursor { row: 0, col: 0, attrs: plain_attrs() }
}

impl Default for Cursor {
    fn default() -> (r: Self)
        ensures
            r == home(),
    {
        Cursor { row: 0, col: 0, attrs: Attrs::plain() }
    }
}

/// A snapshot of the visible screen plus the information the renderer needs.
#[derive(Debug, Clone, PartialEq, Eq)]
pub struct Snapshot {
    /// Visible rows, top to bottom.
    pub rows: Vec<Row>,
    /// Cursor position (only meaningful when the cursor is visible).
    pub cursor: Cursor,
    /// Whether to draw the cursor.
    pub cursor_visible: bool,
    /// The window title requested by the remote side.
    pub title: String,
    /// Number of lines held in scrollback.
    pub scrollback_lines: usize,
    /// True when the screen changed since the previous snapshot.
    pub dirty: bool,
}

/// What a snapshot shows.
pub struct SnapshotView {
    pub rows: Seq<RowView>,
    pub cursor: Cursor,
    pub cursor_visible: bool,
    pub title: Seq<char>,
    pub scrollback_lines: nat,
    pub dirty: bool,
}

impl View for Snapshot {
    type V = SnapshotView;

    open spec fn view(&self) -> SnapshotView {
        SnapshotView {
            rows: row_views(self.rows@),
            cursor: self.cursor,
            cursor_visible: self.cursor_visible,
            title: self.title@,
            scrollback_lines: self.scrollback_lines as nat,
            dirty: self.dirty,
        }
    }
}

/// What a snapshot of a terminal shows.  The alternate screen shows no cursor.
pub open spec fn snapshot_of(v: TermView) -> SnapshotView {
    SnapshotView {
        rows: v.screen,
        cursor: v.cursor,
        cursor_visible: v.modes.contains(Mode::CursorVisible) && !v.modes.contains(
            Mode::AlternateScreen,
        ),
        title: v.title,
        scrollback_lines: v.scrollback.len(),
        dirty: v.dirty,
    }
}

/// A terminal after a snapshot was taken: nothing has changed since.
pub open spec fn snapshot_taken(v: TermView) -> TermView {
    TermView { dirty: false, ..v }
}

/// What a terminal shows and remembers, apart from its parser.
pub struct TermView {
    pub cols: int,
    pub rows: int,
    pub screen: Seq<RowView>,
    pub saved_screen: Option<Seq<RowView>>,
    pub saved_cursor: Option<Cursor>,
    pub scrollback: Seq<RowView>,
    pub limit: nat,
    pub cursor: Cursor,
    pub modes: Set<Mode>,
    pub region_top: int,
    pub region_bottom: int,
    pub title: Seq<char>,
    pub dirty: bool,
    pub wrap_pending: bool,
    pub bells: nat,
}

/// Smaller of two numbers.
pub open spec fn least(a: int, b: int) -> int {
    if a < b { a } else { b }
}

/// Larger of two numbers.
pub open spec fn greatest(a: int, b: int) -> int {
    if a < b { b } else { a }
}

/// A number moved into a range.
pub open spec fn clamped(value: int, low: int, high: int) -> int {
    greatest(low, least(value, high))
}

/// A screen of blank rows.
pub open spec fn blank_screen(cols: int, rows: int) -> Seq<RowView> {
    Seq::new(rows as nat, |i: int| blank_row(cols as nat))
}

/// A freshly started terminal of the given size.
#[verifier::opaque]
pub open spec fn fresh(cols: int, rows: int) -> TermView {
    TermView {
        cols,
        rows,
        screen: blank_screen(cols, rows),
        saved_screen: None,
        saved_cursor: None,
        scrollback: Seq::empty(),
        limit: DEFAULT_SCROLLBACK as nat,
        cursor: home(),
        modes: Set::empty().insert(Mode::CursorVisible).insert(Mode::AutoWrap),
        region_top: 0,
        region_bottom: rows,
        title: Seq::empty(),
        dirty: true,
        wrap_pending: false,
        bells: 0,
    }
}

/// The cursor moved.
pub open spec fn at_row(v: TermView, row: int) -> TermView {
    TermView { cursor: Cursor { row: row as usize, ..v.cursor }, ..v }
}

/// The cursor moved.
pub open spec fn at_col(v: TermView, col: int) -> TermView {
    TermView { cursor: Cursor { col: col as usize, ..v.cursor }, ..v }
}

/// A mode switched on or off.
#[verifier::opaque]
pub open spec fn mode_put(v: TermView, mode: Mode, enable: bool) -> TermView {
    TermView { modes: with_mode(v.modes, mode, enable), ..v }
}

/// The row holding the cursor replaced.
pub open spec fn with_cells(v: TermView, cells: Seq<Cell>) -> TermView {
    TermView {
        screen: v.screen.update(
            v.cursor.row as int,
            RowView { cells, ..v.screen[v.cursor.row as int] },
        ),
        ..v
    }
}

/// A partial step applied `n` times.
pub open spec fn repeated(
    step: spec_fn(TermView) -> Option<TermView>,
    v: TermView,
    n: nat,
) -> Option<TermView>
    decreases n,
{
    if n == 0 {
        Some(v)
    } else {
        match repeated(step, v, (n - 1) as nat) {
            Some(w) => step(w),
            None => None,
        }
    }
}

proof fn repeated_prefix(
    step: spec_fn(TermView) -> Option<TermView>,
    v: TermView,
    k: nat,
    n: nat,
)
    requires
        k <= n,
        repeated(step, v, n) is Some,
    ensures
        repeated(step, v, k) is Some,
    decreases n,
{
    if k < n {
        repeated_prefix(step, v, k, (n - 1) as nat);
    }
}

/// The region moves up by one line; a line that leaves a full-screen region
/// enters the scrollback.
#[verifier::opaque]
pub open spec fn up_once(v: TermView) -> Option<TermView> {
    if 0 <= v.region_top < v.screen.len() && greatest(v.region_bottom - 1, 0) < v.screen.len() {
        Some(
            TermView {
                screen: v.screen.remove(v.region_top).insert(
                    greatest(v.region_bottom - 1, 0),
                    blank_row(v.cols as nat),
                ),
                scrollback: if v.region_top == 0 && v.region_bottom == v.rows {
                    newest(v.scrollback.push(v.screen[v.region_top]), v.limit)
                } else {
                    v.scrollback
                },
                ..v
            },
        )
    } else {
        None
    }
}

/// A blank line is inserted at `at`, pushing the last line of the region out.
#[verifier::opaque]
pub open spec fn line_inserted(v: TermView, at: int) -> Option<TermView> {
    if 1 <= v.region_bottom <= v.screen.len() {
        if 0 <= at < v.screen.len() {
            Some(
                TermView {
                    screen: v.screen.remove(v.region_bottom - 1).insert(
                        at,
                        blank_row(v.cols as nat),
                    ),
                    ..v
                },
            )
        } else {
            None
        }
    } else if v.region_bottom > v.screen.len() && 0 <= at <= v.screen.len() {
        Some(TermView { screen: v.screen.insert(at, blank_row(v.cols as nat)), ..v })
    } else {
        None
    }
}

/// The line at `at` is deleted; a blank line enters at the end of the region.
#[verifier::opaque]
pub open spec fn line_deleted(v: TermView, at: int) -> Option<TermView> {
    if 0 <= at < v.screen.len() && greatest(v.region_bottom - 1, 0) < v.screen.len() {
        Some(
            TermView {
                screen: v.screen.remove(at).insert(
                    greatest(v.region_bottom - 1, 0),
                    blank_row(v.cols as nat),
                ),
                ..v
            },
        )
    } else {
        None
    }
}

/// The screen marked as changed.
#[verifier::opaque]
pub open spec fn dirtied(v: TermView) -> TermView {
    TermView { dirty: true, ..v }
}

/// Marks the screen as changed.
pub open spec fn touched(v: Option<TermView>) -> Option<TermView> {
    match v {
        Some(w) => Some(dirtied(w)),
        None => None,
    }
}

/// The region moved up by `n` lines.
#[verifier::opaque]
pub open spec fn scrolled_up(v: TermView, n: nat) -> Option<TermView> {
    touched(repeated(|w: TermView| up_once(w), v, n))
}

/// The region moved down by `n` lines.
#[verifier::opaque]
pub open spec fn scrolled_down(v: TermView, n: nat) -> Option<TermView> {
    touched(repeated(|w: TermView| line_inserted(w, w.region_top), v, n))
}

/// The cursor moves down a line, scrolling at the end of the region.
#[verifier::opaque]
pub open spec fn fed(v: TermView) -> Option<TermView> {
    let w = TermView { wrap_pending: false, ..v };
    if v.cursor.row + 1 == v.region_bottom {
        scrolled_up(w, 1)
    } else if v.cursor.row + 1 < v.rows {
        Some(at_row(w, v.cursor.row + 1))
    } else {
        Some(w)
    }
}

/// The cursor moves up a line, scrolling at the start of the region.
#[verifier::opaque]
pub open spec fn reversed(v: TermView) -> Option<TermView> {
    if v.cursor.row == v.region_top {
        scrolled_down(v, 1)
    } else {
        Some(at_row(v, greatest(v.cursor.row - 1, 0)))
    }
}

/// A blank cell inserted before column `col`; what falls off the right margin
/// is lost.
pub open spec fn cell_inserted(cells: Seq<Cell>, at: int, cols: int) -> Seq<Cell> {
    let longer = cells.insert(at, empty_cell());
    if longer.len() <= cols {
        longer
    } else {
        longer.take(cols)
    }
}

/// Room made for a character in insert mode: `n` blank cells at the cursor.
pub open spec fn room_made(cells: Seq<Cell>, col: int, cols: int, n: nat) -> Seq<Cell>
    decreases n,
{
    if n == 0 {
        cells
    } else {
        let before = room_made(cells, col, cols, (n - 1) as nat);
        cell_inserted(before, least(col, before.len() as int), cols)
    }
}

/// `n` blank cells inserted at the cursor, at the last cell when the cursor is
/// behind it.
pub open spec fn cells_inserted(cells: Seq<Cell>, col: int, cols: int, n: nat) -> Seq<Cell>
    decreases n,
{
    if n == 0 {
        cells
    } else {
        let before = cells_inserted(cells, col, cols, (n - 1) as nat);
        cell_inserted(before, least(col, greatest(before.len() - 1, 0)), cols)
    }
}

/// `n` cells deleted at the cursor; blank cells enter at the end.
pub open spec fn cells_deleted(cells: Seq<Cell>, col: int, n: nat) -> Seq<Cell>
    decreases n,
{
    if n == 0 {
        cells
    } else {
        let before = cells_deleted(cells, col, (n - 1) as nat);
        if col < before.len() {
            before.remove(col).push(empty_cell())
        } else {
            before.push(empty_cell())
        }
    }
}

/// The glyph written into the cells at the cursor.
#[verifier::opaque]
pub open spec fn glyph_written(v: TermView, ch: char) -> Option<TermView> {
    let row = v.cursor.row as int;
    let col = v.cursor.col as int;
    let cell = cell_of(ch, v.cursor.attrs);
    if row >= v.screen.len() || col >= v.screen[row].cells.len() {
        None
    } else if cell.width == 2 && col + 1 < v.cols && col + 1 >= v.screen[row].cells.len() {
        None
    } else {
        let first = v.screen[row].cells.update(col, cell);
        let cells = if cell.width == 2 && col + 1 < v.cols {
            first.update(col + 1, Cell { ch: ' ', attrs: v.cursor.attrs, width: 1 })
        } else {
            first
        };
        Some(with_cells(v, cells))
    }
}

/// The cursor advanced by `width` columns; at the right margin it stays, with
/// a line break owed when lines wrap.
#[verifier::opaque]
pub open spec fn cursor_advanced(v: TermView, width: int) -> TermView {
    let end = v.cursor.col + width;
    if end < v.cols {
        at_col(v, end)
    } else if v.modes.contains(Mode::AutoWrap) {
        TermView { wrap_pending: true, ..at_col(v, v.cols) }
    } else {
        at_col(v, v.cols - 1)
    }
}

/// The character written at the cursor, the cursor advanced behind it.
#[verifier::opaque]
pub open spec fn put(v: TermView, ch: char) -> Option<TermView> {
    if v.cursor.col >= v.cols {
        Some(v)
    } else {
        match glyph_written(v, ch) {
            Some(w) => Some(dirtied(cursor_advanced(w, if wide(ch) { 2 } else { 1 }))),
            None => None,
        }
    }
}

/// The line break owed by an earlier character at the right margin.
pub open spec fn wrapped(v: TermView) -> Option<TermView> {
    if v.wrap_pending {
        match fed(v) {
            Some(w) => Some(line_start(w)),
            None => None,
        }
    } else {
        Some(v)
    }
}

/// Room made for a character at the cursor, in insert mode.
#[verifier::opaque]
pub open spec fn shifted(v: TermView, ch: char) -> Option<TermView> {
    if !v.modes.contains(Mode::Insert) {
        Some(v)
    } else if v.cursor.row < v.screen.len() {
        Some(
            with_cells(
                v,
                room_made(
                    v.screen[v.cursor.row as int].cells,
                    v.cursor.col as int,
                    v.cols,
                    if wide(ch) { 2 } else { 1 },
                ),
            ),
        )
    } else {
        None
    }
}

/// A character is printed.
#[verifier::opaque]
pub open spec fn printed(v: TermView, ch: char) -> Option<TermView> {
    match wrapped(v) {
        Some(w) => match shifted(w, ch) {
            Some(x) => put(x, ch),
            None => None,
        },
        None => None,
    }
}

/// A bell is counted.
#[verifier::opaque]
pub open spec fn bell_rung(v: TermView) -> Option<TermView> {
    if v.bells < u64::MAX {
        Some(TermView { bells: v.bells + 1, ..v })
    } else {
        None
    }
}

/// The cursor one column to the left.
#[verifier::opaque]
pub open spec fn backspaced(v: TermView) -> TermView {
    TermView { wrap_pending: false, ..at_col(v, greatest(v.cursor.col - 1, 0)) }
}

/// The cursor at the next tab stop: every eighth column, or the right margin.
#[verifier::opaque]
pub open spec fn tabbed(v: TermView) -> TermView {
    at_col(v, least((v.cursor.col as int / 8 + 1) * 8, v.cols - 1))
}

/// The cursor in the first column.
#[verifier::opaque]
pub open spec fn line_start(v: TermView) -> TermView {
    at_col(v, 0)
}

/// The cursor in the first column, no line break owed.
#[verifier::opaque]
pub open spec fn returned(v: TermView) -> TermView {
    TermView { wrap_pending: false, ..at_col(v, 0) }
}

/// A control code is executed.
#[verifier::opaque]
pub open spec fn executed(v: TermView, code: u8) -> Option<TermView> {
    touched(
        if code == 0x07 {
            bell_rung(v)
        } else if code == 0x08 {
            Some(backspaced(v))
        } else if code == 0x09 {
            Some(tabbed(v))
        } else if code == 0x0A || code == 0x0B || code == 0x0C {
            fed(v)
        } else if code == 0x0D {
            Some(returned(v))
        } else {
            Some(v)
        },
    )
}

/// A numeric parameter; a missing or zero one takes its default.
pub open spec fn param(params: Seq<u16>, index: int, default: int) -> int {
    if 0 <= index < params.len() && params[index] != 0 {
        params[index] as int
    } else {
        default
    }
}

/// The row addressed by a zero based row number.
pub open spec fn addressed_row(v: TermView, row: int) -> int {
    if v.modes.contains(Mode::Origin) {
        least(row + v.region_top, v.rows - 1)
    } else {
        least(row, v.rows - 1)
    }
}

#[verifier::opaque]
pub open spec fn moved_up(v: TermView, n: int) -> TermView {
    TermView {
        wrap_pending: false,
        ..at_row(v, greatest(greatest(v.cursor.row - n, 0), v.region_top))
    }
}

#[verifier::opaque]
pub open spec fn moved_down(v: TermView, n: int) -> TermView {
    TermView { wrap_pending: false, ..at_row(v, least(v.cursor.row + n, v.rows - 1)) }
}

#[verifier::opaque]
pub open spec fn moved_right(v: TermView, n: int) -> TermView {
    TermView { wrap_pending: false, ..at_col(v, least(v.cursor.col + n, v.cols - 1)) }
}

#[verifier::opaque]
pub open spec fn moved_left(v: TermView, n: int) -> TermView {
    TermView { wrap_pending: false, ..at_col(v, greatest(v.cursor.col - n, 0)) }
}

/// The cursor in the first column of a line further down.
#[verifier::opaque]
pub open spec fn next_line(v: TermView, n: int) -> TermView {
    at_col(moved_down(v, n), 0)
}

/// The cursor in the first column of a line further up.
#[verifier::opaque]
pub open spec fn previous_line(v: TermView, n: int) -> TermView {
    at_col(moved_up(v, n), 0)
}

/// The cursor in a column.
#[verifier::opaque]
pub open spec fn column_set(v: TermView, col: int) -> TermView {
    at_col(v, least(col, v.cols - 1))
}

/// The cursor in a row.
#[verifier::opaque]
pub open spec fn row_set(v: TermView, row: int) -> TermView {
    at_row(v, addressed_row(v, row))
}

/// The cursor at a position.
#[verifier::opaque]
pub open spec fn placed(v: TermView, row: int, col: int) -> TermView {
    TermView {
        wrap_pending: false,
        ..at_col(at_row(v, addressed_row(v, row)), least(col, v.cols - 1))
    }
}

/// Columns `from..to` of the cursor's row overwritten with styled blanks.
#[verifier::opaque]
pub open spec fn part_erased(v: TermView, from: int, to: int) -> Option<TermView> {
    let row = v.cursor.row as int;
    let end = least(to, v.cols);
    if from >= end {
        Some(v)
    } else if row < v.screen.len() && end <= v.screen[row].cells.len() {
        Some(
            with_cells(
                v,
                Seq::new(
                    v.screen[row].cells.len(),
                    |i: int|
                        if from <= i < end {
                            cell_of(' ', v.cursor.attrs)
                        } else {
                            v.screen[row].cells[i]
                        },
                ),
            ),
        )
    } else {
        None
    }
}

/// A row whose cells are all blank.
pub open spec fn cleared_row(row: RowView) -> RowView {
    RowView { cells: Seq::new(row.cells.len(), |i: int| empty_cell()), wrapped: false }
}

/// Rows `from..to` made blank.
#[verifier::opaque]
pub open spec fn rows_cleared(v: TermView, from: int, to: int) -> Option<TermView> {
    if from >= to {
        Some(v)
    } else if to <= v.screen.len() {
        Some(
            TermView {
                screen: Seq::new(
                    v.screen.len(),
                    |i: int|
                        if from <= i < to {
                            cleared_row(v.screen[i])
                        } else {
                            v.screen[i]
                        },
                ),
                ..v
            },
        )
    } else {
        None
    }
}

/// Erase in display: from the cursor on, up to the cursor, or everything
/// including the scrollback.
#[verifier::opaque]
pub open spec fn display_erased(v: TermView, mode: int) -> Option<TermView> {
    if mode == 0 {
        match part_erased(v, v.cursor.col as int, v.cols) {
            Some(w) => rows_cleared(w, w.cursor.row + 1, w.rows),
            None => None,
        }
    } else if mode == 1 {
        match rows_cleared(v, 0, v.cursor.row as int) {
            Some(w) => part_erased(w, 0, w.cursor.col + 1),
            None => None,
        }
    } else {
        match rows_cleared(v, 0, v.rows) {
            Some(w) => Some(TermView { scrollback: Seq::empty(), cursor: home(), ..w }),
            None => None,
        }
    }
}

/// Erase in line: from the cursor on, up to the cursor, or the whole line.
#[verifier::opaque]
pub open spec fn line_erased(v: TermView, mode: int) -> Option<TermView> {
    if mode == 0 {
        part_erased(v, v.cursor.col as int, v.cols)
    } else if mode == 1 {
        part_erased(v, 0, v.cursor.col + 1)
    } else {
        part_erased(v, 0, v.cols)
    }
}

/// Whether the cursor is inside the scroll region.
pub open spec fn in_region(v: TermView) -> bool {
    v.region_top <= v.cursor.row < v.region_bottom
}

/// The step repeated, then the cursor in the first column.
pub open spec fn to_line_start(v: Option<TermView>) -> Option<TermView> {
    match v {
        Some(w) => Some(line_start(w)),
        None => None,
    }
}

#[verifier::opaque]
pub open spec fn lines_inserted(v: TermView, n: nat) -> Option<TermView> {
    if in_region(v) {
        to_line_start(repeated(|w: TermView| line_inserted(w, w.cursor.row as int), v, n))
    } else {
        Some(v)
    }
}

#[verifier::opaque]
pub open spec fn lines_deleted(v: TermView, n: nat) -> Option<TermView> {
    if in_region(v) {
        to_line_start(repeated(|w: TermView| line_deleted(w, w.cursor.row as int), v, n))
    } else {
        Some(v)
    }
}

#[verifier::opaque]
pub open spec fn chars_deleted(v: TermView, n: nat) -> Option<TermView> {
    if n == 0 {
        Some(v)
    } else if v.cursor.row < v.screen.len() {
        Some(
            with_cells(
                v,
                cells_deleted(v.screen[v.cursor.row as int].cells, v.cursor.col as int, n),
            ),
        )
    } else {
        None
    }
}

#[verifier::opaque]
pub open spec fn chars_inserted(v: TermView, n: nat) -> Option<TermView> {
    if n == 0 {
        Some(v)
    } else if v.cursor.row < v.screen.len() {
        Some(
            with_cells(
                v,
                cells_inserted(
                    v.screen[v.cursor.row as int].cells,
                    v.cursor.col as int,
                    v.cols,
                    n,
                ),
            ),
        )
    } else {
        None
    }
}

/// The scroll region set to `top..bottom`, when that is a region of the screen.
#[verifier::opaque]
pub open spec fn region_set(v: TermView, top: int, bottom: int) -> TermView {
    if top < bottom <= v.rows {
        TermView {
            region_top: top,
            region_bottom: bottom,
            ..at_col(at_row(v, if v.modes.contains(Mode::Origin) { top } else { 0 }), 0)
        }
    } else {
        v
    }
}

#[verifier::opaque]
pub open spec fn cursor_saved(v: TermView) -> TermView {
    TermView { saved_cursor: Some(v.cursor), ..v }
}

#[verifier::opaque]
pub open spec fn cursor_restored(v: TermView) -> TermView {
    match v.saved_cursor {
        Some(cursor) => TermView { cursor, ..v },
        None => v,
    }
}

/// The colour announced by the parameters after `38` or `48`, and how many of
/// them belong to it.
pub open spec fn extended_color(rest: Seq<u16>) -> (Option<Color>, nat) {
    if rest.len() == 0 {
        (None, 0)
    } else if rest[0] == 5 && rest.len() >= 2 {
        (Some(Color::Indexed((rest[1] % 256) as u8)), 2)
    } else if rest[0] == 2 && rest.len() >= 4 {
        (
            Some(
                Color::Rgb((rest[1] % 256) as u8, (rest[2] % 256) as u8, (rest[3] % 256) as u8),
            ),
            4,
        )
    } else {
        (None, 1)
    }
}

/// The attributes after one simple SGR code.
pub open spec fn sgr_code(a: Attrs, code: int) -> Attrs {
    if code == 0 {
        plain_attrs()
    } else if code == 1 {
        Attrs { bold: true, ..a }
    } else if code == 2 {
        Attrs { dim: true, ..a }
    } else if code == 3 {
        Attrs { italic: true, ..a }
    } else if code == 4 {
        Attrs { underline: true, ..a }
    } else if code == 5 || code == 6 {
        Attrs { blink: true, ..a }
    } else if code == 7 {
        Attrs { inverse: true, ..a }
    } else if code == 8 {
        Attrs { hidden: true, ..a }
    } else if code == 9 {
        Attrs { strikethrough: true, ..a }
    } else if code == 21 {
        Attrs { bold: false, ..a }
    } else if code == 22 {
        Attrs { bold: false, dim: false, ..a }
    } else if code == 23 {
        Attrs { italic: false, ..a }
    } else if code == 24 {
        Attrs { underline: false, ..a }
    } else if code == 25 {
        Attrs { blink: false, ..a }
    } else if code == 27 {
        Attrs { inverse: false, ..a }
    } else if code == 28 {
        Attrs { hidden: false, ..a }
    } else if code == 29 {
        Attrs { strikethrough: false, ..a }
    } else if 30 <= code <= 37 {
        Attrs { fg: Color::Indexed((code - 30) as u8), ..a }
    } else if code == 39 {
        Attrs { fg: Color::Default, ..a }
    } else if 40 <= code <= 47 {
        Attrs { bg: Color::Indexed((code - 40) as u8), ..a }
    } else if code == 49 {
        Attrs { bg: Color::Default, ..a }
    } else if 90 <= code <= 97 {
        Attrs { fg: Color::Indexed((code - 90 + 8) as u8), ..a }
    } else if 100 <= code <= 107 {
        Attrs { bg: Color::Indexed((code - 100 + 8) as u8), ..a }
    } else {
        a
    }
}

/// The attributes after a run of SGR parameters.
pub open spec fn sgr_run(a: Attrs, params: Seq<u16>) -> Attrs
    decreases params.len(),
{
    if params.len() == 0 {
        a
    } else if params[0] == 38 || params[0] == 48 {
        let rest = params.skip(1);
        let (color, used) = extended_color(rest);
        let next = match color {
            Some(color) => if params[0] == 38 {
                Attrs { fg: color, ..a }
            } else {
                Attrs { bg: color, ..a }
            },
            None => a,
        };
        sgr_run(next, rest.skip(used as int))
    } else {
        sgr_run(sgr_code(a, params[0] as int), params.skip(1))
    }
}

/// Select graphic rendition; no parameter at all resets the attributes.
#[verifier::opaque]
pub open spec fn sgr_applied(v: TermView, params: Seq<u16>) -> TermView {
    TermView {
        cursor: Cursor {
            attrs: if params.len() == 0 {
                plain_attrs()
            } else {
                sgr_run(v.cursor.attrs, params)
            },
            ..v.cursor
        },
        ..v
    }
}

/// The alternate screen entered or left.
#[verifier::opaque]
pub open spec fn screen_switched(v: TermView, alternate: bool) -> TermView {
    if alternate == v.modes.contains(Mode::AlternateScreen) {
        v
    } else if alternate {
        TermView {
            saved_screen: Some(v.screen),
            screen: blank_screen(v.cols, v.rows),
            saved_cursor: Some(v.cursor),
            cursor: home(),
            modes: v.modes.insert(Mode::AlternateScreen),
            dirty: true,
            ..v
        }
    } else {
        let w = match v.saved_screen {
            Some(screen) => cursor_restored(TermView { screen, saved_screen: None, ..v }),
            None => v,
        };
        TermView { modes: w.modes.remove(Mode::AlternateScreen), dirty: true, ..w }
    }
}

/// Whether a private mode selects the screen buffer.
pub open spec fn screen_mode(mode: int) -> bool {
    mode == 47 || mode == 1047 || mode == 1049
}

/// Origin mode set or reset, which moves the cursor to the origin.
#[verifier::opaque]
pub open spec fn origin_set(v: TermView, enable: bool) -> TermView {
    at_col(at_row(mode_put(v, Mode::Origin, enable), if enable { v.region_top } else { 0 }), 0)
}

/// What a private mode does to the screen, the cursor and the modes.
#[verifier::opaque]
pub open spec fn private_step(v: TermView, mode: int, enable: bool) -> TermView {
    if mode == 1 {
        mode_put(v, Mode::ApplicationCursorKeys, enable)
    } else if mode == 4 {
        mode_put(v, Mode::Insert, enable)
    } else if mode == 6 {
        origin_set(v, enable)
    } else if mode == 7 {
        mode_put(v, Mode::AutoWrap, enable)
    } else if mode == 25 {
        mode_put(v, Mode::CursorVisible, enable)
    } else if mode == 66 {
        mode_put(v, Mode::ApplicationKeypad, enable)
    } else if screen_mode(mode) {
        screen_switched(v, enable)
    } else if mode == 1048 {
        if enable {
            cursor_saved(v)
        } else {
            cursor_restored(v)
        }
    } else if mode == 2004 {
        mode_put(v, Mode::BracketedPaste, enable)
    } else {
        v
    }
}

/// A private mode set or reset.
#[verifier::opaque]
pub open spec fn private_mode(v: TermView, mode: int, enable: bool) -> TermView {
    dirtied(private_step(v, mode, enable))
}

/// What a control sequence without a private marker does to the screen, the
/// cursor and the modes.
#[verifier::opaque]
pub open spec fn csi_step(v: TermView, params: Seq<u16>, action: u8) -> Option<TermView> {
    let n = param(params, 0, 1);
    if action == 0x41 {  // A
        Some(moved_up(v, n))
    } else if action == 0x42 || action == 0x65 {  // B e
        Some(moved_down(v, n))
    } else if action == 0x43 || action == 0x61 {  // C a
        Some(moved_right(v, n))
    } else if action == 0x44 {  // D
        Some(moved_left(v, n))
    } else if action == 0x45 {  // E
        Some(next_line(v, n))
    } else if action == 0x46 {  // F
        Some(previous_line(v, n))
    } else if action == 0x47 || action == 0x60 {  // G `
        Some(column_set(v, n - 1))
    } else if action == 0x48 || action == 0x66 {  // H f
        Some(placed(v, n - 1, param(params, 1, 1) - 1))
    } else if action == 0x64 {  // d
        Some(row_set(v, n - 1))
    } else if action == 0x4A {  // J
        display_erased(v, param(params, 0, 0))
    } else if action == 0x4B {  // K
        line_erased(v, param(params, 0, 0))
    } else if action == 0x4C {  // L
        lines_inserted(v, n as nat)
    } else if action == 0x4D {  // M
        lines_deleted(v, n as nat)
    } else if action == 0x50 {  // P
        chars_deleted(v, n as nat)
    } else if action == 0x40 {  // @
        chars_inserted(v, n as nat)
    } else if action == 0x58 {  // X
        part_erased(v, v.cursor.col as int, v.cursor.col + n)
    } else if action == 0x53 {  // S
        scrolled_up(v, n as nat)
    } else if action == 0x54 {  // T
        scrolled_down(v, n as nat)
    } else if action == 0x72 {  // r
        Some(region_set(v, n - 1, param(params, 1, v.rows)))
    } else if action == 0x73 {  // s
        Some(cursor_saved(v))
    } else if action == 0x75 {  // u
        Some(cursor_restored(v))
    } else if action == 0x6D {  // m
        Some(sgr_applied(v, params))
    } else if action == 0x68 || action == 0x6C {  // h l
        if param(params, 0, 0) == 4 {
            Some(mode_put(v, Mode::Insert, action == 0x68))
        } else {
            Some(v)
        }
    } else {
        Some(v)
    }
}

/// A control sequence without a private marker.
#[verifier::opaque]
pub open spec fn csi_standard(v: TermView, params: Seq<u16>, action: u8) -> Option<TermView> {
    touched(csi_step(v, params, action))
}

/// A control sequence.
pub open spec fn csi_applied(
    v: TermView,
    params: Seq<u16>,
    intermediates: Seq<u8>,
    action: u8,
) -> Option<TermView> {
    if intermediates.contains(0x3F) {
        Some(private_mode(v, param(params, 0, 0), action == 0x68))
    } else {
        csi_standard(v, params, action)
    }
}

/// An escape sequence.
#[verifier::opaque]
pub open spec fn esc_applied(v: TermView, action: u8) -> Option<TermView> {
    touched(
        if action == 0x37 {  // 7
            Some(cursor_saved(v))
        } else if action == 0x38 {  // 8
            Some(cursor_restored(v))
        } else if action == 0x44 {  // D
            fed(v)
        } else if action == 0x4D {  // M
            reversed(v)
        } else if action == 0x45 {  // E
            fed(line_start(v))
        } else if action == 0x63 {  // c
            Some(fresh(v.cols, v.rows))
        } else if action == 0x3D {  // =
            Some(mode_put(v, Mode::ApplicationKeypad, true))
        } else if action == 0x3E {  // >
            Some(mode_put(v, Mode::ApplicationKeypad, false))
        } else {
            Some(v)
        },
    )
}

/// An operating system command: `0`, `1` and `2` set the title.
pub open spec fn osc_applied(v: TermView, params: Seq<Seq<char>>) -> TermView {
    if params.len() >= 2 && (params[0] == "0"@ || params[0] == "1"@ || params[0] == "2"@) {
        TermView { title: params[1], ..v }
    } else {
        v
    }
}

/// What one action does to a terminal.
pub open spec fn applied(v: TermView, action: ActionView) -> Option<TermView> {
    match action {
        ActionView::Print(ch) => printed(v, ch),
        ActionView::Execute(code) => executed(v, code),
        ActionView::Csi { params, intermediates, ignore, action } => if ignore {
            Some(v)
        } else {
            csi_applied(v, params, intermediates, action)
        },
        ActionView::Esc { intermediates, ignore, action } => if ignore {
            Some(v)
        } else {
            esc_applied(v, action)
        },
        ActionView::Osc { params, bell_terminated } => Some(osc_applied(v, params)),
        _ => Some(v),
    }
}

/// What a run of actions does to a terminal.
pub open spec fn applied_all(v: TermView, actions: Seq<ActionView>) -> Option<TermView>
    decreases actions.len(),
{
    if actions.len() == 0 {
        Some(v)
    } else {
        match applied_all(v, actions.drop_last()) {
            Some(w) => applied(w, actions.last()),
            None => None,
        }
    }
}

/// Whether an action resets the whole terminal, its parser included.
pub open spec fn full_reset(action: ActionView) -> bool {
    match action {
        ActionView::Esc { intermediates, ignore, action } => !ignore && action == 0x63,
        _ => false,
    }
}

/// Whether a run of actions resets the whole terminal.
pub open spec fn resets(actions: Seq<ActionView>) -> bool {
    exists|i: int| 0 <= i < actions.len() && full_reset(#[trigger] actions[i])
}

/// What a run of bytes does to the display: they are parsed, then the actions
/// are applied in order.
pub open spec fn fed_bytes(v: TermView, parser: ParserView, bytes: Seq<u8>) -> Option<TermView> {
    applied_all(v, run(parser, bytes).actions)
}

/// What a run of bytes does to the parser of a terminal: a full reset among the
/// actions also discards a partially read sequence.
pub open spec fn parsed_bytes(parser: ParserView, bytes: Seq<u8>) -> ParserView {
    if resets(run(parser, bytes).actions) {
        initial()
    } else {
        run(parser, bytes).parser
    }
}

/// A row brought to a number of columns.
pub open spec fn fitted_row(row: RowView, cols: int) -> RowView {
    RowView {
        cells: Seq::new(
            cols as nat,
            |i: int| if i < row.cells.len() { row.cells[i] } else { empty_cell() },
        ),
        ..row
    }
}

/// Every row of a screen brought to a number of columns.
pub open spec fn fitted_rows(screen: Seq<RowView>, cols: int) -> Seq<RowView> {
    Seq::new(screen.len(), |i: int| fitted_row(screen[i], cols))
}

/// The visible lines of a screen of `before` rows brought to another size:
/// blank lines enter at the end, lines that no longer fit leave at the top.
#[verifier::opaque]
pub open spec fn fitted_screen(
    screen: Seq<RowView>,
    before: int,
    cols: int,
    rows: int,
) -> Seq<RowView> {
    let fitted = fitted_rows(screen, cols);
    if rows > before {
        Seq::new(
            rows as nat,
            |i: int| if i < fitted.len() { fitted[i] } else { blank_row(cols as nat) },
        )
    } else {
        fitted.skip(before - rows)
    }
}

/// The history of a terminal brought to another size: the lines that left the
/// screen at the top are appended.
#[verifier::opaque]
pub open spec fn fitted_history(v: TermView, cols: int, rows: int) -> Seq<RowView> {
    if rows > v.rows {
        v.scrollback
    } else {
        newest(v.scrollback + fitted_rows(v.screen, cols).take(v.rows - rows), v.limit)
    }
}

/// A terminal brought to another size: rows are cut or padded, lines that no
/// longer fit leave at the top and enter the scrollback.
#[verifier::opaque]
pub open spec fn resized(v: TermView, cols: int, rows: int) -> Option<TermView> {
    let c = clamped(cols, 1, 500);
    let r = clamped(rows, 1, 200);
    if c == v.cols && r == v.rows {
        Some(v)
    } else if r <= v.rows && v.rows - r > v.screen.len() {
        None
    } else {
        Some(
            TermView {
                cols: c,
                rows: r,
                screen: fitted_screen(v.screen, v.rows, c, r),
                scrollback: fitted_history(v, c, r),
                region_top: 0,
                region_bottom: r,
                cursor: Cursor {
                    row: least(v.cursor.row as int, r - 1) as usize,
                    col: least(v.cursor.col as int, c - 1) as usize,
                    ..v.cursor
                },
                dirty: true,
                ..v
            },
        )
    }
}

/// Default scrollback depth.
pub const DEFAULT_SCROLLBACK: usize = 10_000;

/// The screen side of a terminal: everything but the parser.
#[derive(Debug)]
struct Display {
    cols: usize,
    rows: usize,
    screen: Vec<Row>,
    saved_screen: Option<Vec<Row>>,
    saved_cursor: Option<Cursor>,
    scrollback: Scrollback,
    cursor: Cursor,
    modes: Modes,
    region_top: usize,
    region_bottom: usize,
    title: String,
    dirty: bool,
    wrap_pending: bool,
    bell_count: u64,
}

/// A VT100/xterm terminal emulator.
///
/// Feed it raw bytes from the remote shell with [`Terminal::advance`] and read
/// the resulting screen with [`Terminal::snapshot`].
#[derive(Debug)]
pub struct Terminal {
    display: Display,
    parser: Parser,
}

/// What holds of every terminal, resized or not.
pub open spec fn bounded(v: TermView) -> bool {
    &&& 1 <= v.cols <= 500
    &&& 1 <= v.rows <= 200
    &&& 0 <= v.region_top < v.region_bottom <= v.rows
    &&& v.cursor.row < 200
    &&& v.cursor.col <= 500
    &&& v.saved_cursor is Some ==> v.saved_cursor->0.row < 200 && v.saved_cursor->0.col <= 500
    &&& v.scrollback.len() <= v.limit
    &&& v.bells <= u64::MAX
}

/// A screen has the given size: one row per line, each at least as long as the
/// terminal is wide.
pub open spec fn sized(screen: Seq<RowView>, cols: int, rows: int) -> bool {
    &&& screen.len() == rows
    &&& forall|i: int| 0 <= i < screen.len() ==> (#[trigger] screen[i]).cells.len() >= cols
}

/// A cursor lies on the screen, or just behind the right margin.
pub open spec fn on_screen(cursor: Cursor, cols: int, rows: int) -> bool {
    cursor.row < rows && cursor.col <= cols
}

/// Everything a terminal shows or keeps fits its size.
pub open spec fn sound(v: TermView) -> bool {
    &&& bounded(v)
    &&& sized(v.screen, v.cols, v.rows)
    &&& on_screen(v.cursor, v.cols, v.rows)
    &&& v.saved_cursor is Some ==> on_screen(v.saved_cursor->0, v.cols, v.rows)
    &&& v.saved_screen is Some ==> sized(v.saved_screen->0, v.cols, v.rows)
}

/// Whether a screen has the given size.
fn is_sized(screen: &Vec<Row>, cols: usize, rows: usize) -> (r: bool)
    ensures
        r == sized(row_views(screen@), cols as int, rows as int),
{
    if screen.len() != rows {
        return false;
    }
    let ghost views = row_views(screen@);
    let mut i: usize = 0;
    while i < screen.len()
        invariant
            i <= screen@.len(),
            screen@.len() == rows,
            views == row_views(screen@),
            forall|k: int| 0 <= k < i ==> (#[trigger] views[k]).cells.len() >= cols,
        decreases screen.len() - i,
    {
        assert(views[i as int] == screen@[i as int]@);
        if screen[i].cells.len() < cols {
            assert(views[i as int].cells.len() < cols);
            return false;
        }
        i = i + 1;
    }
    true
}

impl View for Display {
    type V = TermView;

    closed spec fn view(&self) -> TermView {
        TermView {
            cols: self.cols as int,
            rows: self.rows as int,
            screen: row_views(self.screen@),
            saved_screen: match self.saved_screen {
                Some(screen) => Some(row_views(screen@)),
                None => None,
            },
            saved_cursor: self.saved_cursor,
            scrollback: self.scrollback.lines(),
            limit: self.scrollback.max(),
            cursor: self.cursor,
            modes: self.modes@,
            region_top: self.region_top as int,
            region_bottom: self.region_bottom as int,
            title: self.title@,
            dirty: self.dirty,
            wrap_pending: self.wrap_pending,
            bells: self.bell_count as nat,
        }
    }
}

fn clamp(value: usize, low: usize, high: usize) -> (r: usize)
    requires
        low <= high,
    ensures
        r == clamped(value as int, low as int, high as int),
{
    if value < low {
        low
    } else if value > high {
        high
    } else {
        value
    }
}

fn smaller(a: usize, b: usize) -> (r: usize)
    ensures
        r == least(a as int, b as int),
{
    if a < b {
        a
    } else {
        b
    }
}

/// `rows` blank rows.
fn blank_rows(cols: usize, rows: usize) -> (r: Vec<Row>)
    ensures
        row_views(r@) == blank_screen(cols as int, rows as int),
{
    let mut r: Vec<Row> = Vec::with_capacity(rows);
    let mut i: usize = 0;
    while i < rows
        invariant
            i <= rows,
            r@.len() == i,
            forall|k: int| 0 <= k < i ==> (#[trigger] r@[k])@ == blank_row(cols as nat),
        decreases rows - i,
    {
        r.push(Row::blank(cols));
        i = i + 1;
    }
    assert(row_views(r@) =~= blank_screen(cols as int, rows as int));
    r
}

/// A copy of a run of rows.
fn copy_rows(rows: &Vec<Row>) -> (r: Vec<Row>)
    ensures
        row_views(r@) == row_views(rows@),
{
    let mut r: Vec<Row> = Vec::with_capacity(rows.len());
    let mut i: usize = 0;
    while i < rows.len()
        invariant
            i <= rows.len(),
            r@.len() == i,
            forall|k: int| 0 <= k < i ==> (#[trigger] r@[k])@ == rows@[k]@,
        decreases rows.len() - i,
    {
        r.push(rows[i].clone());
        i = i + 1;
    }
    assert(row_views(r@) =~= row_views(rows@));
    r
}

/// Overwrites one cell.
fn write_cell(screen: &mut Vec<Row>, row: usize, col: usize, cell: Cell)
    requires
        row < old(screen)@.len(),
        col < old(screen)@[row as int].cells@.len(),
    ensures
        row_views(final(screen)@) == row_views(old(screen)@).update(
            row as int,
            RowView {
                cells: old(screen)@[row as int].cells@.update(col as int, cell),
                wrapped: old(screen)@[row as int].wrapped,
            },
        ),
        final(screen)@.len() == old(screen)@.len(),
{
    screen[row].cells[col] = cell;
    assert(row_views(screen@) =~= row_views(old(screen)@).update(
        row as int,
        RowView {
            cells: old(screen)@[row as int].cells@.update(col as int, cell),
            wrapped: old(screen)@[row as int].wrapped,
        },
    ));
}

/// Overwrites columns `from..to` of one row.
fn fill_cells(screen: &mut Vec<Row>, row: usize, from: usize, to: usize, cell: Cell)
    requires
        row < old(screen)@.len(),
        from <= to <= old(screen)@[row as int].cells@.len(),
    ensures
        row_views(final(screen)@) == row_views(old(screen)@).update(
            row as int,
            RowView {
                cells: Seq::new(
                    old(screen)@[row as int].cells@.len(),
                    |i: int|
                        if from <= i < to {
                            cell
                        } else {
                            old(screen)@[row as int].cells@[i]
                        },
                ),
                wrapped: old(screen)@[row as int].wrapped,
            },
        ),
{
    let ghost cells = screen@[row as int].cells@;
    let mut col: usize = from;
    while col < to
        invariant
            from <= col <= to <= cells.len(),
            row < screen@.len(),
            screen@.len() == old(screen)@.len(),
            cells == old(screen)@[row as int].cells@,
            forall|k: int|
                0 <= k < screen@.len() && k != row ==> #[trigger] screen@[k] == old(screen)@[k],
            screen@[row as int].wrapped == old(screen)@[row as int].wrapped,
            screen@[row as int].cells@ =~= Seq::new(
                cells.len(),
                |i: int| if from <= i < col { cell } else { cells[i] },
            ),
        decreases to - col,
    {
        screen[row].cells[col] = cell;
        col = col + 1;
    }
    assert(row_views(screen@) =~= row_views(old(screen)@).update(
        row as int,
        RowView {
            cells: Seq::new(
                cells.len(),
                |i: int| if from <= i < to { cell } else { cells[i] },
            ),
            wrapped: old(screen)@[row as int].wrapped,
        },
    ));
}

/// Makes rows `from..to` blank.
fn blank_out(screen: &mut Vec<Row>, from: usize, to: usize)
    requires
        from <= to <= old(screen)@.len(),
    ensures
        row_views(final(screen)@) == Seq::new(
            old(screen)@.len(),
            |i: int|
                if from <= i < to {
                    cleared_row(row_views(old(screen)@)[i])
                } else {
                    row_views(old(screen)@)[i]
                },
        ),
{
    let ghost before = row_views(screen@);
    let mut row: usize = from;
    while row < to
        invariant
            from <= row <= to <= screen@.len(),
            before == row_views(old(screen)@),
            screen@.len() == old(screen)@.len(),
            forall|k: int|
                0 <= k < screen@.len() ==> (#[trigger] screen@[k])@ == if from <= k < row {
                    cleared_row(before[k])
                } else {
                    before[k]
                },
        decreases to - row,
    {
        let blank = Row::blank(screen[row].cells.len());
        assert(screen@[row as int]@ == before[row as int]);
        assert(blank@ =~= cleared_row(before[row as int]));
        screen[row] = blank;
        row = row + 1;
    }
    assert(row_views(screen@) =~= Seq::new(
        before.len(),
        |i: int| if from <= i < to { cleared_row(before[i]) } else { before[i] },
    ));
}

/// Brings every row to a number of columns.
fn fit_rows(screen: &mut Vec<Row>, cols: usize)
    ensures
        row_views(final(screen)@) == Seq::new(
            old(screen)@.len(),
            |i: int| fitted_row(row_views(old(screen)@)[i], cols as int),
        ),
{
    let ghost before = row_views(screen@);
    let mut i: usize = 0;
    while i < screen.len()
        invariant
            i <= screen@.len(),
            before == row_views(old(screen)@),
            screen@.len() == before.len(),
            forall|k: int|
                0 <= k < screen@.len() ==> (#[trigger] screen@[k])@ == if k < i {
                    fitted_row(before[k], cols as int)
                } else {
                    before[k]
                },
        decreases screen.len() - i,
    {
        let ghost row = screen@[i as int]@;
        assert(row == before[i as int]);
        screen[i].cells.resize(cols, Cell::empty());
        proof {
            let now = screen@[i as int]@;
            assert forall|k: int| 0 <= k < cols implies now.cells[k] == fitted_row(
                row,
                cols as int,
            ).cells[k] by {
                if row.cells.len() < cols && k < row.cells.len() {
                    assert(now.cells.subrange(0, row.cells.len() as int)[k] == now.cells[k]);
                }
            }
            assert(now =~= fitted_row(row, cols as int));
        }
        i = i + 1;
    }
    assert(row_views(screen@) =~= Seq::new(
        before.len(),
        |i: int| fitted_row(before[i], cols as int),
    ));
}

/// Brings a screen to at least its length, or exactly to a number of rows.
fn pad_rows(screen: &mut Vec<Row>, cols: usize, rows: usize)
    ensures
        row_views(final(screen)@) == Seq::new(
            rows as nat,
            |i: int|
                if i < old(screen)@.len() {
                    row_views(old(screen)@)[i]
                } else {
                    blank_row(cols as nat)
                },
        ),
{
    let ghost before = row_views(screen@);
    screen.truncate(rows);
    while screen.len() < rows
        invariant
            screen@.len() <= rows,
            forall|k: int|
                0 <= k < screen@.len() ==> (#[trigger] screen@[k])@ == if k < before.len() {
                    before[k]
                } else {
                    blank_row(cols as nat)
                },
            screen@.len() < rows ==> screen@.len() >= before.len(),
        decreases rows - screen.len(),
    {
        screen.push(Row::blank(cols));
    }
    assert(row_views(screen@) =~= Seq::new(
        rows as nat,
        |i: int| if i < before.len() { before[i] } else { blank_row(cols as nat) },
    ));
}

/// Moves the first `count` rows of a screen into the scrollback.
fn retire_rows(screen: &mut Vec<Row>, scrollback: &mut Scrollback, count: usize)
    requires
        count <= old(screen)@.len(),
        old(scrollback).wf(),
    ensures
        row_views(final(screen)@) == row_views(old(screen)@).skip(count as int),
        final(scrollback).wf(),
        final(scrollback).max() == old(scrollback).max(),
        final(scrollback).lines() == newest(
            old(scrollback).lines() + row_views(old(screen)@).take(count as int),
            old(scrollback).max(),
        ),
{
    let ghost before = row_views(screen@);
    let ghost lines = scrollback.lines();
    let ghost limit = scrollback.max();
    let mut k: usize = 0;
    assert(before.skip(0) =~= before);
    assert(lines + before.take(0) =~= lines);
    while k < count
        invariant
            k <= count <= before.len(),
            screen@.len() == before.len() - k,
            row_views(screen@) == before.skip(k as int),
            scrollback.wf(),
            scrollback.max() == limit,
            scrollback.lines() == newest(lines + before.take(k as int), limit),
        decreases count - k,
    {
        let ghost rest = screen@;
        assert(forall|i: int| 0 <= i < rest.len() ==> (#[trigger] rest[i])@ == before[k + i]) by {
            assert(forall|i: int| 0 <= i < rest.len() ==> (#[trigger] rest[i])@ == row_views(rest)[i]);
        }
        let row = screen.remove(0);
        proof {
            assert(row@ == before[k as int]);
            assert forall|i: int| 0 <= i < screen@.len() implies (#[trigger] screen@[i])@
                == before[k + 1 + i] by {
                assert(screen@[i] == rest[i + 1]);
            }
            assert(row_views(screen@) =~= before.skip(k + 1));
            let so_far = lines + before.take(k as int);
            crate::grid::scrollback_keeps_the_newest(so_far, row@, limit);
            assert(so_far.push(row@) =~= lines + before.take(k + 1));
        }
        scrollback.push(row);
        k = k + 1;
    }
}

/// Makes room for `count` cells at column `col` of one row.
fn make_room(screen: &mut Vec<Row>, row: usize, col: usize, cols: usize, count: usize)
    requires
        row < old(screen)@.len(),
    ensures
        row_views(final(screen)@) == row_views(old(screen)@).update(
            row as int,
            RowView {
                cells: room_made(
                    old(screen)@[row as int].cells@,
                    col as int,
                    cols as int,
                    count as nat,
                ),
                wrapped: old(screen)@[row as int].wrapped,
            },
        ),
{
    let ghost cells = screen@[row as int].cells@;
    let mut k: usize = 0;
    while k < count
        invariant
            k <= count,
            row < screen@.len(),
            screen@.len() == old(screen)@.len(),
            forall|i: int|
                0 <= i < screen@.len() && i != row ==> #[trigger] screen@[i] == old(screen)@[i],
            screen@[row as int].wrapped == old(screen)@[row as int].wrapped,
            screen@[row as int].cells@ == room_made(cells, col as int, cols as int, k as nat),
        decreases count - k,
    {
        let ghost before = screen@[row as int].cells@;
        let at = smaller(col, screen[row].cells.len());
        screen[row].cells.insert(at, Cell::empty());
        screen[row].cells.truncate(cols);
        assert(screen@[row as int].cells@ =~= cell_inserted(before, at as int, cols as int));
        k = k + 1;
    }
    assert(row_views(screen@) =~= row_views(old(screen)@).update(
        row as int,
        RowView {
            cells: room_made(cells, col as int, cols as int, count as nat),
            wrapped: old(screen)@[row as int].wrapped,
        },
    ));
}

/// Deletes `count` cells at column `col` of one row.
fn remove_cells(screen: &mut Vec<Row>, row: usize, col: usize, count: usize)
    requires
        row < old(screen)@.len(),
    ensures
        row_views(final(screen)@) == row_views(old(screen)@).update(
            row as int,
            RowView {
                cells: cells_deleted(old(screen)@[row as int].cells@, col as int, count as nat),
                wrapped: old(screen)@[row as int].wrapped,
            },
        ),
{
    let ghost cells = screen@[row as int].cells@;
    let mut k: usize = 0;
    while k < count
        invariant
            k <= count,
            row < screen@.len(),
            screen@.len() == old(screen)@.len(),
            forall|i: int|
                0 <= i < screen@.len() && i != row ==> #[trigger] screen@[i] == old(screen)@[i],
            screen@[row as int].wrapped == old(screen)@[row as int].wrapped,
            screen@[row as int].cells@ == cells_deleted(cells, col as int, k as nat),
        decreases count - k,
    {
        if col < screen[row].cells.len() {
            let _lost = screen[row].cells.remove(col);
        }
        screen[row].cells.push(Cell::empty());
        k = k + 1;
    }
    assert(row_views(screen@) =~= row_views(old(screen)@).update(
        row as int,
        RowView {
            cells: cells_deleted(cells, col as int, count as nat),
            wrapped: old(screen)@[row as int].wrapped,
        },
    ));
}

/// Inserts `count` blank cells at column `col` of one row.
fn add_cells(screen: &mut Vec<Row>, row: usize, col: usize, cols: usize, count: usize)
    requires
        row < old(screen)@.len(),
    ensures
        row_views(final(screen)@) == row_views(old(screen)@).update(
            row as int,
            RowView {
                cells: cells_inserted(
                    old(screen)@[row as int].cells@,
                    col as int,
                    cols as int,
                    count as nat,
                ),
                wrapped: old(screen)@[row as int].wrapped,
            },
        ),
{
    let ghost cells = screen@[row as int].cells@;
    let mut k: usize = 0;
    while k < count
        invariant
            k <= count,
            row < screen@.len(),
            screen@.len() == old(screen)@.len(),
            forall|i: int|
                0 <= i < screen@.len() && i != row ==> #[trigger] screen@[i] == old(screen)@[i],
            screen@[row as int].wrapped == old(screen)@[row as int].wrapped,
            screen@[row as int].cells@ == cells_inserted(cells, col as int, cols as int, k as nat),
        decreases count - k,
    {
        let ghost before = screen@[row as int].cells@;
        let last: usize = screen[row].cells.len().saturating_sub(1);
        let at = smaller(col, last);
        screen[row].cells.insert(at, Cell::empty());
        screen[row].cells.truncate(cols);
        assert(screen@[row as int].cells@ =~= cell_inserted(before, at as int, cols as int));
        k = k + 1;
    }
    assert(row_views(screen@) =~= row_views(old(screen)@).update(
        row as int,
        RowView {
            cells: cells_inserted(cells, col as int, cols as int, count as nat),
            wrapped: old(screen)@[row as int].wrapped,
        },
    ));
}

fn get_param(params: &[u16], index: usize, default: u16) -> (r: u16)
    ensures
        r == param(params@, index as int, default as int),
{
    if index < params.len() && params[index] != 0 {
        params[index]
    } else {
        default
    }
}

fn has_byte(bytes: &[u8], byte: u8) -> (r: bool)
    ensures
        r == bytes@.contains(byte),
{
    let mut i: usize = 0;
    while i < bytes.len()
        invariant
            i <= bytes.len(),
            forall|k: int| 0 <= k < i ==> bytes@[k] != byte,
        decreases bytes.len() - i,
    {
        if bytes[i] == byte {
            return true;
        }
        i = i + 1;
    }
    false
}

impl View for Terminal {
    type V = TermView;

    closed spec fn view(&self) -> TermView {
        self.display@
    }
}

impl Terminal {
    /// What holds of every terminal.
    pub open spec fn wf(self) -> bool {
        bounded(self@)
    }

    /// What the parser remembers between two bytes.
    pub closed spec fn parser(self) -> ParserView {
        self.parser@
    }

    /// Creates a terminal of the given size.
    pub fn new(cols: usize, rows: usize) -> (r: Self)
        ensures
            r.wf(),
            r@ == fresh(clamped(cols as int, 1, 500), clamped(rows as int, 1, 200)),
            r.parser() == initial(),
    {
        Terminal { display: Display::new(cols, rows), parser: Parser::new() }
    }

    /// Feeds raw bytes and updates the screen.
    pub fn advance(&mut self, data: &[u8])
        requires
            old(self).wf(),
            fed_bytes(old(self)@, old(self).parser(), data@) is Some,
        ensures
            final(self).wf(),
            Some(final(self)@) == fed_bytes(old(self)@, old(self).parser(), data@),
            final(self).parser() == parsed_bytes(old(self).parser(), data@),
    {
        let actions = self.parser.advance(data);
        let ghost start = self.display@;
        let ghost all = action_views(actions@);
        assert(all.take(0) =~= Seq::<ActionView>::empty());
        assert(all.take(all.len() as int) =~= all);
        let mut reset = false;
        let mut i: usize = 0;
        while i < actions.len()
            invariant
                i <= actions.len(),
                all == action_views(actions@),
                self.display.wf(),
                applied_all(start, all) is Some,
                Some(self.display@) == applied_all(start, all.take(i as int)),
                self.parser@ == run(old(self).parser(), data@).parser,
                reset == resets(all.take(i as int)),
            decreases actions.len() - i,
        {
            let ghost next = all.take(i + 1);
            proof {
                assert(next.drop_last() =~= all.take(i as int));
                applied_all_prefix(start, all, i + 1);
                assert(next.last() == actions@[i as int]@);
                assert(forall|k: int| 0 <= k < i ==> next[k] == all.take(i as int)[k]);
            }
            let last = is_full_reset(&actions[i]);
            proof {
                if last {
                    assert(full_reset(next[i as int]));
                    assert(resets(next));
                } else if reset {
                    let k = choose|k: int|
                        0 <= k < all.take(i as int).len() && full_reset(
                            #[trigger] all.take(i as int)[k],
                        );
                    assert(full_reset(next[k]));
                    assert(resets(next));
                } else {
                    assert forall|k: int| 0 <= k < next.len() implies !full_reset(
                        #[trigger] next[k],
                    ) by {
                        if k < i {
                            assert(!full_reset(all.take(i as int)[k]));
                        }
                    }
                    assert(!resets(next));
                }
            }
            if last {
                reset = true;
            }
            self.display.apply(&actions[i]);
            i = i + 1;
        }
        assert(all.take(all.len() as int) =~= all);
        if reset {
            self.parser.reset();
        }
    }

    /// Feeds a UTF-8 string.
    pub fn advance_str(&mut self, data: &str)
        requires
            old(self).wf(),
            fed_bytes(old(self)@, old(self).parser(), vstd::utf8::encode_utf8(data@)) is Some,
        ensures
            final(self).wf(),
            Some(final(self)@) == fed_bytes(
                old(self)@,
                old(self).parser(),
                vstd::utf8::encode_utf8(data@),
            ),
            final(self).parser() == parsed_bytes(
                old(self).parser(),
                vstd::utf8::encode_utf8(data@),
            ),
    {
        self.advance(data.as_bytes());
    }

    /// Whether everything the terminal shows or keeps fits its size; a terminal
    /// that was resized while it kept something larger does not.
    pub fn is_sound(&self) -> (r: bool)
        requires
            self.wf(),
        ensures
            r == sound(self@),
    {
        let cols = self.display.cols;
        let rows = self.display.rows;
        let kept_cursor = match &self.display.saved_cursor {
            Some(cursor) => cursor.row < rows && cursor.col <= cols,
            None => true,
        };
        let kept_screen = match &self.display.saved_screen {
            Some(screen) => is_sized(screen, cols, rows),
            None => true,
        };
        is_sized(&self.display.screen, cols, rows) && self.display.cursor.row < rows
            && self.display.cursor.col <= cols && kept_cursor && kept_screen
    }

    /// Current terminal size.
    pub fn size(&self) -> (r: (usize, usize))
        ensures
            r.0 == self@.cols,
            r.1 == self@.rows,
    {
        (self.display.cols, self.display.rows)
    }

    /// Active modes.
    pub fn modes(&self) -> (r: Modes)
        ensures
            r@ == self@.modes,
    {
        self.display.modes
    }

    /// Window title requested by the remote side.
    pub fn title(&self) -> (r: &str)
        ensures
            r@ == self@.title,
    {
        self.display.title.as_str()
    }

    /// Number of BEL characters received (used for attention indicators).
    pub fn bell_count(&self) -> (r: u64)
        ensures
            r == self@.bells,
    {
        self.display.bell_count
    }

    /// Scrollback contents, oldest first.
    pub fn scrollback(&self) -> (r: &Scrollback)
        ensures
            r.lines() == self@.scrollback,
            r.max() == self@.limit,
    {
        &self.display.scrollback
    }

    /// Visible screen rows.
    pub fn rows(&self) -> (r: &[Row])
        ensures
            row_views(r@) == self@.screen,
    {
        self.display.screen.as_slice()
    }

    /// Cursor state.
    pub fn cursor(&self) -> (r: Cursor)
        ensures
            r == self@.cursor,
    {
        self.display.cursor
    }

    /// Takes a snapshot, clearing the dirty flag.
    pub fn snapshot(&mut self) -> (r: Snapshot)
        ensures
            final(self)@ == snapshot_taken(old(self)@),
            final(self).parser() == old(self).parser(),
            r@ == snapshot_of(old(self)@),
    {
        let dirty = self.display.dirty;
        self.display.dirty = false;
        let modes = self.display.modes;
        Snapshot {
            rows: copy_rows(&self.display.screen),
            cursor: self.display.cursor,
            cursor_visible: modes.get(Mode::CursorVisible) && !modes.get(Mode::AlternateScreen),
            title: self.display.title.clone(),
            scrollback_lines: self.display.scrollback.len(),
            dirty,
        }
    }

    /// Resizes, reflowing nothing (like xterm) but preserving content.
    pub fn resize(&mut self, cols: usize, rows: usize)
        requires
            old(self).wf(),
            resized(old(self)@, cols as int, rows as int) is Some,
        ensures
            final(self).wf(),
            Some(final(self)@) == resized(old(self)@, cols as int, rows as int),
            final(self).parser() == old(self).parser(),
    {
        self.display.resize(cols, rows);
    }

    /// Clears the screen and scrollback.
    pub fn clear_all(&mut self)
        requires
            old(self).wf(),
        ensures
            final(self).wf(),
            final(self)@ == (TermView {
                screen: Seq::new(
                    old(self)@.screen.len(),
                    |i: int| cleared_row(old(self)@.screen[i]),
                ),
                scrollback: Seq::empty(),
                cursor: home(),
                dirty: true,
                ..old(self)@
            }),
            final(self).parser() == old(self).parser(),
    {
        self.display.clear_all();
    }

    /// Discards partial escape state after a reconnect.
    pub fn reset_parser(&mut self)
        requires
            old(self).wf(),
        ensures
            final(self).wf(),
            final(self)@ == (TermView { wrap_pending: false, ..old(self)@ }),
            final(self).parser() == initial(),
    {
        self.parser.reset();
        self.display.wrap_pending = false;
    }
}

/// Whether an action resets the whole terminal, its parser included.
fn is_full_reset(action: &Action) -> (r: bool)
    ensures
        r == full_reset(action@),
{
    match action {
        Action::Esc { intermediates, ignore, action } => !*ignore && *action == 0x63,
        _ => false,
    }
}

impl Display {
    /// What holds of every terminal.
    spec fn wf(self) -> bool {
        bounded(self@)
    }

    /// Creates a terminal of the given size.
    fn new(cols: usize, rows: usize) -> (r: Self)
        ensures
            r.wf(),
            r@ == fresh(clamped(cols as int, 1, 500), clamped(rows as int, 1, 200)),
    {
        proof {
            reveal(fresh);
        }
        let cols = clamp(cols, 1, 500);
        let rows = clamp(rows, 1, 200);
        let mut modes = Modes::default();
        modes.set(Mode::CursorVisible, true);
        modes.set(Mode::AutoWrap, true);
        let r = Display {
            cols,
            rows,
            screen: blank_rows(cols, rows),
            saved_screen: None,
            saved_cursor: None,
            scrollback: Scrollback::new(DEFAULT_SCROLLBACK),
            cursor: Cursor::default(),
            modes,
            region_top: 0,
            region_bottom: rows,
            title: String::new(),
            dirty: true,
            wrap_pending: false,
            bell_count: 0,
        };
        
        r
    }

    /// Resizes, reflowing nothing (like xterm) but preserving content.
    fn resize(&mut self, cols: usize, rows: usize)
        requires
            old(self).wf(),
            resized(old(self)@, cols as int, rows as int) is Some,
        ensures
            final(self).wf(),
            Some(final(self)@) == resized(old(self)@, cols as int, rows as int),
    {
        proof {
            reveal(resized);
        }
        let cols = clamp(cols, 1, 500);
        let rows = clamp(rows, 1, 200);
        if cols == self.cols && rows == self.rows {
            return;
        }
        self.refit(cols, rows);
        self.cols = cols;
        self.rows = rows;
        self.region_top = 0;
        self.region_bottom = rows;
        self.cursor.row = smaller(self.cursor.row, rows - 1);
        self.cursor.col = smaller(self.cursor.col, cols - 1);
        self.dirty = true;
    }

    /// Brings the visible lines and the history to another size.
    fn refit(&mut self, cols: usize, rows: usize)
        requires
            old(self).wf(),
            rows <= old(self)@.rows ==> old(self)@.rows - rows <= old(self)@.screen.len(),
        ensures
            final(self).wf(),
            final(self)@ == (TermView {
                screen: fitted_screen(
                    old(self)@.screen,
                    old(self)@.rows,
                    cols as int,
                    rows as int,
                ),
                scrollback: fitted_history(old(self)@, cols as int, rows as int),
                ..old(self)@
            }),
    {
        proof {
            reveal(fitted_screen);
            reveal(fitted_history);
        }
        let ghost v = self@;
        fit_rows(&mut self.screen, cols);
        assert(row_views(self.screen@) =~= fitted_rows(v.screen, cols as int));
        if rows > self.rows {
            pad_rows(&mut self.screen, cols, rows);
        } else {
            let removed: usize = self.rows - rows;
            retire_rows(&mut self.screen, &mut self.scrollback, removed);
        }
        assert(row_views(self.screen@) =~= fitted_screen(
            v.screen,
            v.rows,
            cols as int,
            rows as int,
        ));
    }

    /// Clears the screen and scrollback.
    fn clear_all(&mut self)
        requires
            old(self).wf(),
        ensures
            final(self).wf(),
            final(self)@ == (TermView {
                screen: Seq::new(
                    old(self)@.screen.len(),
                    |i: int| cleared_row(old(self)@.screen[i]),
                ),
                scrollback: Seq::empty(),
                cursor: home(),
                dirty: true,
                ..old(self)@
            }),
    {
        let count = self.screen.len();
        blank_out(&mut self.screen, 0, count);
        self.scrollback.clear();
        self.cursor = Cursor::default();
        self.dirty = true;
        assert(self@.screen =~= Seq::new(
            old(self)@.screen.len(),
            |i: int| cleared_row(old(self)@.screen[i]),
        ));
    }

    fn touch(&mut self)
        requires
            old(self).wf(),
        ensures
            final(self).wf(),
            final(self)@ == dirtied(old(self)@),
    {
        proof {
            reveal(dirtied);
        }
        self.dirty = true;
    }

    fn write_glyph(&mut self, ch: char)
        requires
            old(self).wf(),
            glyph_written(old(self)@, ch) is Some,
        ensures
            final(self).wf(),
            Some(final(self)@) == glyph_written(old(self)@, ch),
    {
        proof {
            reveal(glyph_written);
        }
        let cell = Cell::new(ch, self.cursor.attrs);
        let row = self.cursor.row;
        let col = self.cursor.col;
        assert(self@.screen[row as int] == self.screen@[row as int]@);
        write_cell(&mut self.screen, row, col, cell);
        if cell.width == 2 && col + 1 < self.cols {
            let filler = Cell { ch: ' ', attrs: cell.attrs, width: 1 };
            assert(self.screen@[row as int]@ == row_views(self.screen@)[row as int]);
            write_cell(&mut self.screen, row, col + 1, filler);
        }
        assert(self@.screen =~= glyph_written(old(self)@, ch)->0.screen);
    }

    fn advance_cursor(&mut self, width: usize)
        requires
            old(self).wf(),
            width <= 2,
        ensures
            final(self).wf(),
            final(self)@ == cursor_advanced(old(self)@, width as int),
    {
        proof {
            reveal(cursor_advanced);
        }
        self.cursor.col = self.cursor.col + width;
        if self.cursor.col >= self.cols {
            if self.modes.get(Mode::AutoWrap) {
                self.cursor.col = self.cols;
                self.wrap_pending = true;
            } else {
                self.cursor.col = self.cols - 1;
            }
        }
    }

    fn bell(&mut self)
        requires
            old(self).wf(),
            bell_rung(old(self)@) is Some,
        ensures
            final(self).wf(),
            Some(final(self)@) == bell_rung(old(self)@),
    {
        proof {
            reveal(bell_rung);
        }
        self.bell_count = self.bell_count + 1;
    }

    fn backspace(&mut self)
        requires
            old(self).wf(),
        ensures
            final(self).wf(),
            final(self)@ == backspaced(old(self)@),
    {
        proof {
            reveal(backspaced);
        }
        self.cursor.col = self.cursor.col.saturating_sub(1);
        self.wrap_pending = false;
    }

    fn tab(&mut self)
        requires
            old(self).wf(),
        ensures
            final(self).wf(),
            final(self)@ == tabbed(old(self)@),
    {
        proof {
            reveal(tabbed);
        }
        let next: usize = (self.cursor.col / 8 + 1) * 8;
        self.cursor.col = smaller(next, self.cols - 1);
    }

    fn carriage_return(&mut self)
        requires
            old(self).wf(),
        ensures
            final(self).wf(),
            final(self)@ == returned(old(self)@),
    {
        proof {
            reveal(returned);
        }
        self.cursor.col = 0;
        self.wrap_pending = false;
    }

    fn to_line_start(&mut self)
        requires
            old(self).wf(),
        ensures
            final(self).wf(),
            final(self)@ == line_start(old(self)@),
    {
        proof {
            reveal(line_start);
        }
        self.cursor.col = 0;
    }

    fn make_cursor_room(&mut self, ch: char)
        requires
            old(self).wf(),
            shifted(old(self)@, ch) is Some,
        ensures
            final(self).wf(),
            Some(final(self)@) == shifted(old(self)@, ch),
    {
        proof {
            reveal(shifted);
        }
        if self.modes.get(Mode::Insert) {
            // Insert mode (IRM) shifts the rest of the line right, dropping
            // whatever falls off the right margin.
            let width: usize = if crate::grid::is_wide(ch) { 2 } else { 1 };
            make_room(&mut self.screen, self.cursor.row, self.cursor.col, self.cols, width);
        }
    }

    fn up_line(&mut self)
        requires
            old(self).wf(),
            up_once(old(self)@) is Some,
        ensures
            final(self).wf(),
            Some(final(self)@) == up_once(old(self)@),
    {
        proof {
            reveal(up_once);
        }
        let ghost w = self@;
        let removed = self.screen.remove(self.region_top);
        assert(removed@ == w.screen[w.region_top]);
        if self.region_top == 0 && self.region_bottom == self.rows {
            self.scrollback.push(removed);
        }
        let blank = Row::blank(self.cols);
        self.screen.insert(self.region_bottom - 1, blank);
        assert(self@.screen =~= up_once(w)->0.screen);
    }

    fn delete_line(&mut self, at: usize)
        requires
            old(self).wf(),
            line_deleted(old(self)@, at as int) is Some,
        ensures
            final(self).wf(),
            Some(final(self)@) == line_deleted(old(self)@, at as int),
    {
        proof {
            reveal(line_deleted);
        }
        let _lost = self.screen.remove(at);
        let blank = Row::blank(self.cols);
        self.screen.insert(self.region_bottom - 1, blank);
        assert(self@.screen =~= line_deleted(old(self)@, at as int)->0.screen);
    }

    fn move_to_next_line(&mut self, count: usize)
        requires
            old(self).wf(),
            count <= u16::MAX,
        ensures
            final(self).wf(),
            final(self)@ == next_line(old(self)@, count as int),
    {
        proof {
            reveal(next_line);
        }
        self.move_cursor_down(count);
        self.cursor.col = 0;
    }

    fn move_to_previous_line(&mut self, count: usize)
        requires
            old(self).wf(),
        ensures
            final(self).wf(),
            final(self)@ == previous_line(old(self)@, count as int),
    {
        proof {
            reveal(previous_line);
        }
        self.move_cursor_up(count);
        self.cursor.col = 0;
    }

    fn set_column(&mut self, col: usize)
        requires
            old(self).wf(),
        ensures
            final(self).wf(),
            final(self)@ == column_set(old(self)@, col as int),
    {
        proof {
            reveal(column_set);
        }
        self.cursor.col = smaller(col, self.cols - 1);
    }

    fn set_row(&mut self, row: usize)
        requires
            old(self).wf(),
            row <= u16::MAX,
        ensures
            final(self).wf(),
            final(self)@ == row_set(old(self)@, row as int),
    {
        proof {
            reveal(row_set);
        }
        self.cursor.row = self.clamp_row(row);
    }

    fn place(&mut self, row: usize, col: usize)
        requires
            old(self).wf(),
            row <= u16::MAX,
        ensures
            final(self).wf(),
            final(self)@ == placed(old(self)@, row as int, col as int),
    {
        proof {
            reveal(placed);
        }
        self.cursor.row = self.clamp_row(row);
        self.cursor.col = smaller(col, self.cols - 1);
        self.wrap_pending = false;
    }

    fn set_region(&mut self, top: usize, bottom: usize)
        requires
            old(self).wf(),
        ensures
            final(self).wf(),
            final(self)@ == region_set(old(self)@, top as int, bottom as int),
    {
        proof {
            reveal(region_set);
        }
        if top < bottom && bottom <= self.rows {
            self.region_top = top;
            self.region_bottom = bottom;
            self.cursor.row = if self.modes.get(Mode::Origin) { top } else { 0 };
            self.cursor.col = 0;
        }
    }

    fn save_cursor(&mut self)
        requires
            old(self).wf(),
        ensures
            final(self).wf(),
            final(self)@ == cursor_saved(old(self)@),
    {
        proof {
            reveal(cursor_saved);
        }
        self.saved_cursor = Some(self.cursor);
    }

    fn put_mode(&mut self, mode: Mode, enable: bool)
        requires
            old(self).wf(),
        ensures
            final(self).wf(),
            final(self)@ == mode_put(old(self)@, mode, enable),
    {
        proof {
            reveal(mode_put);
        }
        self.modes.set(mode, enable);
    }

    fn set_origin(&mut self, enable: bool)
        requires
            old(self).wf(),
        ensures
            final(self).wf(),
            final(self)@ == origin_set(old(self)@, enable),
    {
        proof {
            reveal(origin_set);
            reveal(mode_put);
        }
        self.put_mode(Mode::Origin, enable);
        self.cursor.row = if enable { self.region_top } else { 0 };
        self.cursor.col = 0;
    }

    fn apply(&mut self, action: &Action)
        requires
            old(self).wf(),
            applied(old(self)@, action@) is Some,
        ensures
            final(self).wf(),
            Some(final(self)@) == applied(old(self)@, action@),
    {
        match action {
            Action::Print(ch) => self.print(*ch),
            Action::Execute(code) => self.execute(*code),
            Action::Csi { params, intermediates, ignore, action } => {
                if !*ignore {
                    self.csi(params.as_slice(), intermediates.as_slice(), *action);
                }
            },
            Action::Esc { intermediates, ignore, action } => {
                if !*ignore {
                    self.esc(*action);
                }
            },
            Action::Osc { params, bell_terminated } => self.osc(params),
            // Device control strings (DECRQSS and friends) are accepted and
            // ignored: nothing queries the terminal state.
            Action::DcsStart { params, intermediates, action } => {},
            Action::DcsData(data) => {},
            Action::DcsEnd => {},
        }
    }

    fn print(&mut self, ch: char)
        requires
            old(self).wf(),
            printed(old(self)@, ch) is Some,
        ensures
            final(self).wf(),
            Some(final(self)@) == printed(old(self)@, ch),
    {
        proof {
            reveal(printed);
        }
        if self.wrap_pending {
            self.line_feed();
            self.to_line_start();
        }
        self.make_cursor_room(ch);
        self.put_char(ch);
    }

    fn put_char(&mut self, ch: char)
        requires
            old(self).wf(),
            put(old(self)@, ch) is Some,
        ensures
            final(self).wf(),
            Some(final(self)@) == put(old(self)@, ch),
    {
        proof {
            reveal(put);
        }
        if self.cursor.col >= self.cols {
            return;
        }
        self.write_glyph(ch);
        self.advance_cursor(if crate::grid::is_wide(ch) { 2 } else { 1 });
        self.touch();
    }

    fn execute(&mut self, code: u8)
        requires
            old(self).wf(),
            executed(old(self)@, code) is Some,
        ensures
            final(self).wf(),
            Some(final(self)@) == executed(old(self)@, code),
    {
        proof {
            reveal(executed);
        }
        if code == 0x07 {
            self.bell();
        } else if code == 0x08 {
            self.backspace();
        } else if code == 0x09 {
            self.tab();
        } else if code == 0x0A || code == 0x0B || code == 0x0C {
            self.line_feed();
        } else if code == 0x0D {
            self.carriage_return();
        }
        self.touch();
    }

    fn line_feed(&mut self)
        requires
            old(self).wf(),
            fed(old(self)@) is Some,
        ensures
            final(self).wf(),
            Some(final(self)@) == fed(old(self)@),
    {
        proof {
            reveal(fed);
        }
        self.wrap_pending = false;
        if self.cursor.row + 1 == self.region_bottom {
            self.scroll_up(1);
        } else if self.cursor.row + 1 < self.rows {
            self.cursor.row = self.cursor.row + 1;
        }
    }

    fn reverse_index(&mut self)
        requires
            old(self).wf(),
            reversed(old(self)@) is Some,
        ensures
            final(self).wf(),
            Some(final(self)@) == reversed(old(self)@),
    {
        proof {
            reveal(reversed);
        }
        if self.cursor.row == self.region_top {
            self.scroll_down(1);
        } else {
            self.cursor.row = self.cursor.row.saturating_sub(1);
        }
    }

    fn scroll_up(&mut self, lines: usize)
        requires
            old(self).wf(),
            scrolled_up(old(self)@, lines as nat) is Some,
        ensures
            final(self).wf(),
            Some(final(self)@) == scrolled_up(old(self)@, lines as nat),
    {
        proof {
            reveal(scrolled_up);
        }
        let ghost v = self@;
        let ghost step = |w: TermView| up_once(w);
        let mut i: usize = 0;
        while i < lines
            invariant
                i <= lines,
                self.wf(),
                step == (|w: TermView| up_once(w)),
                repeated(step, v, lines as nat) is Some,
                Some(self@) == repeated(step, v, i as nat),
            decreases lines - i,
        {
            proof {
                repeated_prefix(step, v, (i + 1) as nat, lines as nat);
            }
            self.up_line();
            i = i + 1;
        }
        self.touch();
    }

    /// Inserts a blank line at `at` inside the scroll region.
    fn insert_line(&mut self, at: usize)
        requires
            old(self).wf(),
            line_inserted(old(self)@, at as int) is Some,
        ensures
            final(self).wf(),
            Some(final(self)@) == line_inserted(old(self)@, at as int),
    {
        proof {
            reveal(line_inserted);
        }
        if self.region_bottom <= self.screen.len() {
            let _lost = self.screen.remove(self.region_bottom - 1);
        }
        let blank = Row::blank(self.cols);
        self.screen.insert(at, blank);
        assert(self@.screen =~= line_inserted(old(self)@, at as int)->0.screen);
    }

    fn scroll_down(&mut self, lines: usize)
        requires
            old(self).wf(),
            scrolled_down(old(self)@, lines as nat) is Some,
        ensures
            final(self).wf(),
            Some(final(self)@) == scrolled_down(old(self)@, lines as nat),
    {
        proof {
            reveal(scrolled_down);
        }
        let ghost v = self@;
        let ghost step = |w: TermView| line_inserted(w, w.region_top);
        let mut i: usize = 0;
        while i < lines
            invariant
                i <= lines,
                self.wf(),
                step == (|w: TermView| line_inserted(w, w.region_top)),
                repeated(step, v, lines as nat) is Some,
                Some(self@) == repeated(step, v, i as nat),
            decreases lines - i,
        {
            proof {
                repeated_prefix(step, v, (i + 1) as nat, lines as nat);
            }
            self.insert_line(self.region_top);
            i = i + 1;
        }
        self.touch();
    }

    fn csi(&mut self, params: &[u16], intermediates: &[u8], action: u8)
        requires
            old(self).wf(),
            csi_applied(old(self)@, params@, intermediates@, action) is Some,
        ensures
            final(self).wf(),
            Some(final(self)@) == csi_applied(old(self)@, params@, intermediates@, action),
    {
        proof {
            reveal(csi_standard);
            reveal(csi_step);
        }
        if has_byte(intermediates, 0x3F) {
            self.set_private_mode(get_param(params, 0, 0), action == 0x68);
            return;
        }
        let n: usize = get_param(params, 0, 1) as usize;
        if action == 0x41 {
            self.move_cursor_up(n);
        } else if action == 0x42 || action == 0x65 {
            self.move_cursor_down(n);
        } else if action == 0x43 || action == 0x61 {
            self.move_cursor_right(n);
        } else if action == 0x44 {
            self.move_cursor_left(n);
        } else if action == 0x45 {
            self.move_to_next_line(n);
        } else if action == 0x46 {
            self.move_to_previous_line(n);
        } else if action == 0x47 || action == 0x60 {
            self.set_column(n - 1);
        } else if action == 0x48 || action == 0x66 {
            self.place(n - 1, get_param(params, 1, 1) as usize - 1);
        } else if action == 0x64 {
            self.set_row(n - 1);
        } else if action == 0x4A {
            self.erase_display(get_param(params, 0, 0));
        } else if action == 0x4B {
            self.erase_line(get_param(params, 0, 0));
        } else if action == 0x4C {
            self.insert_lines(n);
        } else if action == 0x4D {
            self.delete_lines(n);
        } else if action == 0x50 {
            self.delete_chars(n);
        } else if action == 0x40 {
            self.insert_chars(n);
        } else if action == 0x58 {
            self.erase_line_part(self.cursor.col, self.cursor.col + n);
        } else if action == 0x53 {
            self.scroll_up(n);
        } else if action == 0x54 {
            self.scroll_down(n);
        } else if action == 0x72 {
            self.set_region(n - 1, get_param(params, 1, self.rows as u16) as usize);
        } else if action == 0x73 {
            self.save_cursor();
        } else if action == 0x75 {
            self.restore_cursor();
        } else if action == 0x6D {
            self.sgr(params);
        } else if action == 0x68 || action == 0x6C {
            if get_param(params, 0, 0) == 4 {
                self.put_mode(Mode::Insert, action == 0x68);
            }
        }
        // Tab stops are fixed at every 8 columns, so clearing them is a no-op;
        // device status, device attributes, window manipulation, cursor shape
        // and repeat are accepted with nothing to render.
        self.touch();
    }

    fn restore_cursor(&mut self)
        requires
            old(self).wf(),
        ensures
            final(self).wf(),
            final(self)@ == cursor_restored(old(self)@),
    {
        proof {
            reveal(cursor_restored);
        }
        if let Some(cursor) = self.saved_cursor {
            self.cursor = cursor;
        }
    }

    fn esc(&mut self, action: u8)
        requires
            old(self).wf(),
            esc_applied(old(self)@, action) is Some,
        ensures
            final(self).wf(),
            Some(final(self)@) == esc_applied(old(self)@, action),
    {
        proof {
            reveal(esc_applied);
        }
        if action == 0x37 {
            self.save_cursor();
        } else if action == 0x38 {
            self.restore_cursor();
        } else if action == 0x44 {
            self.line_feed();
        } else if action == 0x4D {
            self.reverse_index();
        } else if action == 0x45 {
            self.to_line_start();
            self.line_feed();
        } else if action == 0x63 {
            *self = Display::new(self.cols, self.rows);
        } else if action == 0x3D {
            self.put_mode(Mode::ApplicationKeypad, true);
        } else if action == 0x3E {
            self.put_mode(Mode::ApplicationKeypad, false);
        }
        // Charset designations (`ESC ( B`) select ASCII or a DEC supplemental
        // set; both render identically here.
        self.touch();
    }

    fn osc(&mut self, params: &Vec<String>)
        requires
            old(self).wf(),
        ensures
            final(self).wf(),
            final(self)@ == osc_applied(old(self)@, texts(params@)),
    {
        if params.len() >= 2 {
            let kind = params[0].as_str();
            if same(kind, "0") || same(kind, "1") || same(kind, "2") {
                self.title = params[1].clone();
            }
        }
    }

    fn set_private_mode(&mut self, mode: u16, enable: bool)
        requires
            old(self).wf(),
        ensures
            final(self).wf(),
            final(self)@ == private_mode(old(self)@, mode as int, enable),
    {
        proof {
            reveal(private_mode);
            reveal(private_step);
        }
        if mode == 1 {
            self.put_mode(Mode::ApplicationCursorKeys, enable);
        } else if mode == 4 {
            self.put_mode(Mode::Insert, enable);
        } else if mode == 6 {
            self.set_origin(enable);
        } else if mode == 7 {
            self.put_mode(Mode::AutoWrap, enable);
        } else if mode == 25 {
            self.put_mode(Mode::CursorVisible, enable);
        } else if mode == 66 {
            self.put_mode(Mode::ApplicationKeypad, enable);
        } else if mode == 47 || mode == 1047 || mode == 1049 {
            self.switch_screen(enable);
        } else if mode == 1048 {
            if enable {
                self.save_cursor();
            } else {
                self.restore_cursor();
            }
        } else if mode == 2004 {
            self.put_mode(Mode::BracketedPaste, enable);
        }
        self.touch();
    }

    fn switch_screen(&mut self, alternate: bool)
        requires
            old(self).wf(),
        ensures
            final(self).wf(),
            final(self)@ == screen_switched(old(self)@, alternate),
    {
        proof {
            reveal(screen_switched);
            reveal(cursor_restored);
        }
        if alternate == self.modes.get(Mode::AlternateScreen) {
            return;
        }
        if alternate {
            let mut screen = blank_rows(self.cols, self.rows);
            std::mem::swap(&mut self.screen, &mut screen);
            self.saved_screen = Some(screen);
            self.saved_cursor = Some(self.cursor);
            self.cursor = Cursor::default();
        } else {
            let saved = self.saved_screen.take();
            if let Some(screen) = saved {
                self.screen = screen;
                self.restore_cursor();
            }
        }
        self.modes.set(Mode::AlternateScreen, alternate);
        self.dirty = true;
    }

    fn sgr(&mut self, params: &[u16])
        requires
            old(self).wf(),
        ensures
            final(self).wf(),
            final(self)@ == sgr_applied(old(self)@, params@),
    {
        proof {
            reveal(sgr_applied);
        }
        if params.len() == 0 {
            self.cursor.attrs = Attrs::plain();
            return;
        }
        let mut attrs = self.cursor.attrs;
        let ghost result = sgr_run(attrs, params@);
        let mut index: usize = 0;
        assert(params@.skip(0) =~= params@);
        while index < params.len()
            invariant
                index <= params.len(),
                sgr_run(attrs, params@.skip(index as int)) == result,
            decreases params.len() - index,
        {
            let code = params[index];
            index = index + 1;
            let ghost rest = params@.skip(index as int);
            assert(params@.skip(index - 1).skip(1) =~= rest);
            if code == 38 || code == 48 {
                let (color, used) = take_extended_color(params, index);
                if let Some(color) = color {
                    if code == 38 {
                        attrs.fg = color;
                    } else {
                        attrs.bg = color;
                    }
                }
                index = index + used;
                assert(rest.skip(used as int) =~= params@.skip(index as int));
            } else {
                attrs = apply_sgr_code(attrs, code);
            }
        }
        self.cursor.attrs = attrs;
    }

    fn erase_display(&mut self, mode: u16)
        requires
            old(self).wf(),
            display_erased(old(self)@, mode as int) is Some,
        ensures
            final(self).wf(),
            Some(final(self)@) == display_erased(old(self)@, mode as int),
    {
        proof {
            reveal(display_erased);
        }
        if mode == 0 {
            self.erase_line_part(self.cursor.col, self.cols);
            self.clear_rows(self.cursor.row + 1, self.rows);
        } else if mode == 1 {
            self.clear_rows(0, self.cursor.row);
            self.erase_line_part(0, self.cursor.col + 1);
        } else {
            self.clear_rows(0, self.rows);
            self.scrollback.clear();
            self.cursor = Cursor::default();
        }
    }

    fn erase_line(&mut self, mode: u16)
        requires
            old(self).wf(),
            line_erased(old(self)@, mode as int) is Some,
        ensures
            final(self).wf(),
            Some(final(self)@) == line_erased(old(self)@, mode as int),
    {
        proof {
            reveal(line_erased);
        }
        if mode == 0 {
            self.erase_line_part(self.cursor.col, self.cols);
        } else if mode == 1 {
            self.erase_line_part(0, self.cursor.col + 1);
        } else {
            self.erase_line_part(0, self.cols);
        }
    }

    fn erase_line_part(&mut self, from: usize, to: usize)
        requires
            old(self).wf(),
            part_erased(old(self)@, from as int, to as int) is Some,
        ensures
            final(self).wf(),
            Some(final(self)@) == part_erased(old(self)@, from as int, to as int),
    {
        proof {
            reveal(part_erased);
        }
        let end = smaller(to, self.cols);
        if from >= end {
            return;
        }
        let blank = Cell::new(' ', self.cursor.attrs);
        assert(self@.screen[self@.cursor.row as int] == self.screen@[self.cursor.row as int]@);
        fill_cells(&mut self.screen, self.cursor.row, from, end, blank);
        assert(self@.screen =~= part_erased(old(self)@, from as int, to as int)->0.screen);
    }

    /// Makes rows `from..to` blank.
    fn clear_rows(&mut self, from: usize, to: usize)
        requires
            old(self).wf(),
            rows_cleared(old(self)@, from as int, to as int) is Some,
        ensures
            final(self).wf(),
            Some(final(self)@) == rows_cleared(old(self)@, from as int, to as int),
    {
        proof {
            reveal(rows_cleared);
        }
        if from >= to {
            return;
        }
        blank_out(&mut self.screen, from, to);
        assert(self@.screen =~= rows_cleared(old(self)@, from as int, to as int)->0.screen);
    }

    fn insert_lines(&mut self, count: usize)
        requires
            old(self).wf(),
            lines_inserted(old(self)@, count as nat) is Some,
        ensures
            final(self).wf(),
            Some(final(self)@) == lines_inserted(old(self)@, count as nat),
    {
        proof {
            reveal(lines_inserted);
        }
        if self.cursor.row < self.region_top || self.cursor.row >= self.region_bottom {
            return;
        }
        let ghost v = self@;
        let ghost step = |w: TermView| line_inserted(w, w.cursor.row as int);
        let mut i: usize = 0;
        while i < count
            invariant
                i <= count,
                self.wf(),
                step == (|w: TermView| line_inserted(w, w.cursor.row as int)),
                repeated(step, v, count as nat) is Some,
                Some(self@) == repeated(step, v, i as nat),
            decreases count - i,
        {
            proof {
                repeated_prefix(step, v, (i + 1) as nat, count as nat);
            }
            self.insert_line(self.cursor.row);
            i = i + 1;
        }
        self.to_line_start();
    }

    fn delete_lines(&mut self, count: usize)
        requires
            old(self).wf(),
            lines_deleted(old(self)@, count as nat) is Some,
        ensures
            final(self).wf(),
            Some(final(self)@) == lines_deleted(old(self)@, count as nat),
    {
        proof {
            reveal(lines_deleted);
        }
        if self.cursor.row < self.region_top || self.cursor.row >= self.region_bottom {
            return;
        }
        let ghost v = self@;
        let ghost step = |w: TermView| line_deleted(w, w.cursor.row as int);
        let mut i: usize = 0;
        while i < count
            invariant
                i <= count,
                self.wf(),
                step == (|w: TermView| line_deleted(w, w.cursor.row as int)),
                repeated(step, v, count as nat) is Some,
                Some(self@) == repeated(step, v, i as nat),
            decreases count - i,
        {
            proof {
                repeated_prefix(step, v, (i + 1) as nat, count as nat);
            }
            self.delete_line(self.cursor.row);
            i = i + 1;
        }
        self.to_line_start();
    }

    fn delete_chars(&mut self, count: usize)
        requires
            old(self).wf(),
            chars_deleted(old(self)@, count as nat) is Some,
        ensures
            final(self).wf(),
            Some(final(self)@) == chars_deleted(old(self)@, count as nat),
    {
        proof {
            reveal(chars_deleted);
        }
        if count == 0 {
            return;
        }
        remove_cells(&mut self.screen, self.cursor.row, self.cursor.col, count);
    }

    fn insert_chars(&mut self, count: usize)
        requires
            old(self).wf(),
            chars_inserted(old(self)@, count as nat) is Some,
        ensures
            final(self).wf(),
            Some(final(self)@) == chars_inserted(old(self)@, count as nat),
    {
        proof {
            reveal(chars_inserted);
        }
        if count == 0 {
            return;
        }
        add_cells(&mut self.screen, self.cursor.row, self.cursor.col, self.cols, count);
    }

    fn move_cursor_up(&mut self, count: usize)
        requires
            old(self).wf(),
        ensures
            final(self).wf(),
            final(self)@ == moved_up(old(self)@, count as int),
    {
        proof {
            reveal(moved_up);
        }
        let row: usize = self.cursor.row.saturating_sub(count);
        self.cursor.row = if row < self.region_top { self.region_top } else { row };
        self.wrap_pending = false;
    }

    fn move_cursor_down(&mut self, count: usize)
        requires
            old(self).wf(),
            count <= u16::MAX,
        ensures
            final(self).wf(),
            final(self)@ == moved_down(old(self)@, count as int),
    {
        proof {
            reveal(moved_down);
        }
        self.cursor.row = smaller(self.cursor.row + count, self.rows - 1);
        self.wrap_pending = false;
    }

    fn move_cursor_right(&mut self, count: usize)
        requires
            old(self).wf(),
            count <= u16::MAX,
        ensures
            final(self).wf(),
            final(self)@ == moved_right(old(self)@, count as int),
    {
        proof {
            reveal(moved_right);
        }
        self.cursor.col = smaller(self.cursor.col + count, self.cols - 1);
        self.wrap_pending = false;
    }

    fn move_cursor_left(&mut self, count: usize)
        requires
            old(self).wf(),
        ensures
            final(self).wf(),
            final(self)@ == moved_left(old(self)@, count as int),
    {
        proof {
            reveal(moved_left);
        }
        self.cursor.col = self.cursor.col.saturating_sub(count);
        self.wrap_pending = false;
    }

    fn clamp_row(&self, row: usize) -> (r: usize)
        requires
            self.wf(),
            row <= u16::MAX,
        ensures
            r == addressed_row(self@, row as int),
    {
        if self.modes.get(Mode::Origin) {
            smaller(row + self.region_top, self.rows - 1)
        } else {
            smaller(row, self.rows - 1)
        }
    }
}

/// Reads the colour announced by the parameters from `index` on, and how many
/// of them belong to it.
fn take_extended_color(params: &[u16], index: usize) -> (r: (Option<Color>, usize))
    requires
        index <= params@.len(),
    ensures
        r.0 == extended_color(params@.skip(index as int)).0,
        r.1 == extended_color(params@.skip(index as int)).1,
        index + r.1 <= params@.len(),
{
    let left: usize = params.len() - index;
    if left == 0 {
        (None, 0)
    } else if params[index] == 5 && left >= 2 {
        (Some(Color::Indexed((params[index + 1] % 256) as u8)), 2)
    } else if params[index] == 2 && left >= 4 {
        let r: u8 = (params[index + 1] % 256) as u8;
        let g: u8 = (params[index + 2] % 256) as u8;
        let b: u8 = (params[index + 3] % 256) as u8;
        (Some(Color::Rgb(r, g, b)), 4)
    } else {
        (None, 1)
    }
}

fn apply_sgr_code(attrs: Attrs, code: u16) -> (r: Attrs)
    ensures
        r == sgr_code(attrs, code as int),
{
    let mut a = attrs;
    if code == 0 {
        a = Attrs::plain();
    } else if code == 1 {
        a.bold = true;
    } else if code == 2 {
        a.dim = true;
    } else if code == 3 {
        a.italic = true;
    } else if code == 4 {
        a.underline = true;
    } else if code == 5 || code == 6 {
        a.blink = true;
    } else if code == 7 {
        a.inverse = true;
    } else if code == 8 {
        a.hidden = true;
    } else if code == 9 {
        a.strikethrough = true;
    } else if code == 21 {
        a.bold = false;
    } else if code == 22 {
        a.bold = false;
        a.dim = false;
    } else if code == 23 {
        a.italic = false;
    } else if code == 24 {
        a.underline = false;
    } else if code == 25 {
        a.blink = false;
    } else if code == 27 {
        a.inverse = false;
    } else if code == 28 {
        a.hidden = false;
    } else if code == 29 {
        a.strikethrough = false;
    } else if 30 <= code && code <= 37 {
        a.fg = Color::normal((code - 30) as u8);
    } else if code == 39 {
        a.fg = Color::Default;
    } else if 40 <= code && code <= 47 {
        a.bg = Color::normal((code - 40) as u8);
    } else if code == 49 {
        a.bg = Color::Default;
    } else if 90 <= code && code <= 97 {
        a.fg = Color::bright((code - 90) as u8);
    } else if 100 <= code && code <= 107 {
        a.bg = Color::bright((code - 100) as u8);
    }
    a
}

proof fn applied_all_prefix(v: TermView, actions: Seq<ActionView>, k: int)
    requires
        0 <= k <= actions.len(),
        applied_all(v, actions) is Some,
    ensures
        applied_all(v, actions.take(k)) is Some,
    decreases actions.len(),
{
    if k < actions.len() {
        assert(actions.drop_last().take(k) =~= actions.take(k));
        applied_all_prefix(v, actions.drop_last(), k);
    } else {
        assert(actions.take(k) =~= actions);
    }
}

} // verus!
