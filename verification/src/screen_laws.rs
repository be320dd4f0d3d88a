//! Laws of the screen: what each control sequence and each character does to the
//! cells, the lines and the cursor of a terminal.
use crate::grid::{blank_row, empty_cell, plain_attrs, wide, Attrs, Cell, Color, RowView};
use crate::parser::ActionView;
use crate::term::{
    applied, backspaced, bell_rung, cell_inserted, cells_deleted, cells_inserted, chars_deleted,
    chars_inserted, column_set, csi_standard, csi_step, cursor_advanced, cursor_restored,
    cursor_saved, dirtied, display_erased, esc_applied, executed, fed, fitted_history,
    fitted_screen, fresh, glyph_written, line_deleted, line_erased, line_inserted,
    line_start, lines_deleted, lines_inserted, mode_put, mode_set, moved_down, moved_left,
    moved_right, moved_up, next_line, origin_set, part_erased, placed, previous_line,
    printed, private_mode, private_step, put, region_set, repeated, resized, returned, reversed,
    room_made, row_set, rows_cleared, screen_switched, scrolled_down, scrolled_up, sgr_applied,
    sgr_run, shifted, sound, tabbed, up_once, Cursor, Mode, Modes, TermView,
};
use crate::term_laws::sound_terminals_take_every_action;
use vstd::prelude::*;

verus! {

/// A control sequence with nothing but numbers and a final byte.
pub open spec fn sequence(params: Seq<u16>, action: u8) -> ActionView {
    ActionView::Csi { params, intermediates: Seq::empty(), ignore: false, action }
}

/// The first number of a sequence as a count: one when it is missing or zero.
pub open spec fn count(params: Seq<u16>) -> int {
    if params.len() == 0 || params[0] == 0 {
        1
    } else {
        params[0] as int
    }
}

/// The first number of a sequence as a choice: zero when it is missing.
pub open spec fn choice(params: Seq<u16>) -> int {
    if params.len() == 0 {
        0
    } else {
        params[0] as int
    }
}

/// A blank cell without styling.
pub open spec fn blank_cell(cell: Cell) -> bool {
    cell.ch == ' ' && cell.width == 1 && plain(cell.attrs)
}

/// Attributes without styling.
pub open spec fn plain(a: Attrs) -> bool {
    &&& a.fg == Color::Default
    &&& a.bg == Color::Default
    &&& !a.bold
    &&& !a.dim
    &&& !a.italic
    &&& !a.underline
    &&& !a.blink
    &&& !a.inverse
    &&& !a.hidden
    &&& !a.strikethrough
}

/// A line of blank cells without styling, of a length.
pub open spec fn blank_line(row: RowView, cols: int) -> bool {
    &&& row.cells.len() == cols
    &&& forall|c: int| 0 <= c < cols ==> blank_cell(#[trigger] row.cells[c])
}

/// What a step on the screen leaves alone: the size, what is set aside, the modes, the
/// region, the title and the bells. The next snapshot reports a change.
pub open spec fn settings_kept(v: TermView, w: TermView) -> bool {
    &&& w.cols == v.cols
    &&& w.rows == v.rows
    &&& w.saved_screen == v.saved_screen
    &&& w.saved_cursor == v.saved_cursor
    &&& w.limit == v.limit
    &&& w.modes == v.modes
    &&& w.region_top == v.region_top
    &&& w.region_bottom == v.region_bottom
    &&& w.title == v.title
    &&& w.bells == v.bells
    &&& w.dirty
}

/// A step that moves the cursor and changes nothing else that is shown or kept.
pub open spec fn only_moved(v: TermView, w: TermView) -> bool {
    &&& settings_kept(v, w)
    &&& w.screen == v.screen
    &&& w.scrollback == v.scrollback
    &&& w.cursor.attrs == v.cursor.attrs
}

/// Erasing in the display: from the cursor to the end (0), from the start to the
/// cursor (1), or everything with the scrollback (otherwise). What is erased is blank,
/// in the cursor's line with the cursor's style, and every other cell is kept.
pub proof fn erasing_the_display_clears_its_part(v: TermView, params: Seq<u16>, row: int, col: int)
    requires
        sound(v),
        0 <= row < v.rows,
        0 <= col < v.screen[row].cells.len(),
    ensures
        ({
            let w = applied(v, sequence(params, 0x4A));
            let mode = choice(params);
            let on = row == v.cursor.row;
            let old = v.screen[row].cells[col];
            &&& w is Some
            &&& settings_kept(v, w->0) && w->0.wrap_pending == v.wrap_pending
            &&& w->0.screen.len() == v.screen.len()
            &&& w->0.screen[row].cells.len() == v.screen[row].cells.len()
            &&& ({
                let new = w->0.screen[row].cells[col];
                &&& mode == 0 ==> {
                    &&& row > v.cursor.row ==> blank_cell(new)
                    &&& on && v.cursor.col <= col < v.cols ==> new.ch == ' ' && new.width == 1
                        && new.attrs == v.cursor.attrs
                    &&& row < v.cursor.row || on && col < v.cursor.col ==> new == old
                }
                &&& mode == 1 ==> {
                    &&& row < v.cursor.row ==> blank_cell(new)
                    &&& on && col <= v.cursor.col && col < v.cols ==> new.ch == ' ' && new.width
                        == 1 && new.attrs == v.cursor.attrs
                    &&& row > v.cursor.row || on && col > v.cursor.col ==> new == old
                }
                &&& mode >= 2 ==> blank_cell(new)
            })
            &&& mode <= 1 ==> w->0.cursor == v.cursor && w->0.scrollback == v.scrollback
            &&& mode >= 2 ==> w->0.cursor.row == 0 && w->0.cursor.col == 0 && plain(
                w->0.cursor.attrs,
            ) && w->0.scrollback.len() == 0
        }),
{
    sound_terminals_take_every_action(v, sequence(params, 0x4A));
    reveal(csi_standard);
    reveal(csi_step);
    reveal(display_erased);
    reveal(part_erased);
    reveal(rows_cleared);
    reveal(dirtied);
    assert(v.screen[v.cursor.row as int].cells.len() >= v.cols);
}

/// Erasing in the line: from the cursor to the end (0), from the start to the cursor
/// (1), or the whole line (otherwise). Other lines and other cells are kept.
pub proof fn erasing_a_line_clears_its_part(v: TermView, params: Seq<u16>, row: int, col: int)
    requires
        sound(v),
        0 <= row < v.rows,
        0 <= col < v.screen[row].cells.len(),
    ensures
        ({
            let w = applied(v, sequence(params, 0x4B));
            let mode = choice(params);
            let erased = row == v.cursor.row && col < v.cols && (mode == 0 && col >= v.cursor.col
                || mode == 1 && col <= v.cursor.col || mode >= 2);
            &&& w is Some
            &&& settings_kept(v, w->0) && w->0.wrap_pending == v.wrap_pending
            &&& w->0.cursor == v.cursor
            &&& w->0.scrollback == v.scrollback
            &&& w->0.screen.len() == v.screen.len()
            &&& w->0.screen[row].cells.len() == v.screen[row].cells.len()
            &&& erased ==> w->0.screen[row].cells[col].ch == ' '
                && w->0.screen[row].cells[col].width == 1 && w->0.screen[row].cells[col].attrs
                == v.cursor.attrs
            &&& !erased ==> w->0.screen[row].cells[col] == v.screen[row].cells[col]
        }),
{
    sound_terminals_take_every_action(v, sequence(params, 0x4B));
    reveal(csi_standard);
    reveal(csi_step);
    reveal(line_erased);
    reveal(part_erased);
    reveal(dirtied);
    assert(v.screen[v.cursor.row as int].cells.len() >= v.cols);
}

/// Erasing characters blanks as many cells from the cursor on as the sequence counts,
/// and moves nothing.
pub proof fn erasing_characters_blanks_them(v: TermView, params: Seq<u16>, row: int, col: int)
    requires
        sound(v),
        0 <= row < v.rows,
        0 <= col < v.screen[row].cells.len(),
    ensures
        ({
            let w = applied(v, sequence(params, 0x58));
            let erased = row == v.cursor.row && v.cursor.col <= col < v.cursor.col + count(params)
                && col < v.cols;
            &&& w is Some
            &&& settings_kept(v, w->0) && w->0.wrap_pending == v.wrap_pending
            &&& w->0.cursor == v.cursor
            &&& w->0.scrollback == v.scrollback
            &&& w->0.screen.len() == v.screen.len()
            &&& w->0.screen[row].cells.len() == v.screen[row].cells.len()
            &&& erased ==> w->0.screen[row].cells[col].ch == ' '
                && w->0.screen[row].cells[col].width == 1 && w->0.screen[row].cells[col].attrs
                == v.cursor.attrs
            &&& !erased ==> w->0.screen[row].cells[col] == v.screen[row].cells[col]
        }),
{
    sound_terminals_take_every_action(v, sequence(params, 0x58));
    reveal(csi_standard);
    reveal(csi_step);
    reveal(part_erased);
    reveal(dirtied);
    assert(v.screen[v.cursor.row as int].cells.len() >= v.cols);
}

proof fn deleted_cells(cells: Seq<Cell>, col: int, n: nat, c: int)
    requires
        0 <= col < cells.len(),
        0 <= c < cells.len(),
    ensures
        cells_deleted(cells, col, n).len() == cells.len(),
        cells_deleted(cells, col, n)[c] == if c < col {
            cells[c]
        } else if c + n < cells.len() {
            cells[c + n]
        } else {
            empty_cell()
        },
    decreases n,
{
    if n > 0 {
        let before = cells_deleted(cells, col, (n - 1) as nat);
        deleted_cells(cells, col, (n - 1) as nat, c);
        if c + 1 < cells.len() {
            deleted_cells(cells, col, (n - 1) as nat, c + 1);
        }
        let after = before.remove(col).push(empty_cell());
        if c < col {
            assert(after[c] == before[c]);
        } else if c + 1 < cells.len() {
            assert(after[c] == before[c + 1]);
        } else {
            assert(after[c] == empty_cell());
        }
    }
}

/// Deleting characters draws the rest of the line to the cursor; blank cells enter at
/// its end, and other lines are kept.
pub proof fn deleting_characters_closes_the_gap(v: TermView, params: Seq<u16>, row: int, col: int)
    requires
        sound(v),
        v.cursor.col < v.cols,
        0 <= row < v.rows,
        0 <= col < v.screen[row].cells.len(),
    ensures
        ({
            let w = applied(v, sequence(params, 0x50));
            let n = count(params);
            let cells = v.screen[row].cells;
            &&& w is Some
            &&& settings_kept(v, w->0) && w->0.wrap_pending == v.wrap_pending
            &&& w->0.cursor == v.cursor
            &&& w->0.scrollback == v.scrollback
            &&& w->0.screen.len() == v.screen.len()
            &&& w->0.screen[row].cells.len() == cells.len()
            &&& row != v.cursor.row || col < v.cursor.col ==> w->0.screen[row].cells[col]
                == cells[col]
            &&& row == v.cursor.row && col >= v.cursor.col ==> {
                &&& col + n < cells.len() ==> w->0.screen[row].cells[col] == cells[col + n]
                &&& col + n >= cells.len() ==> blank_cell(w->0.screen[row].cells[col])
            }
        }),
{
    sound_terminals_take_every_action(v, sequence(params, 0x50));
    reveal(csi_standard);
    reveal(csi_step);
    reveal(chars_deleted);
    reveal(dirtied);
    let cells = v.screen[v.cursor.row as int].cells;
    assert(cells.len() >= v.cols);
    if row == v.cursor.row {
        deleted_cells(cells, v.cursor.col as int, count(params) as nat, col);
    }
}

proof fn inserted_cells(cells: Seq<Cell>, col: int, cols: int, n: nat, c: int)
    requires
        0 <= col < cols <= cells.len(),
        0 <= c < cols,
        n > 0,
    ensures
        cells_inserted(cells, col, cols, n).len() == cols,
        cells_inserted(cells, col, cols, n)[c] == if c < col {
            cells[c]
        } else if c < col + n {
            empty_cell()
        } else {
            cells[c - n]
        },
    decreases n,
{
    let m = (n - 1) as nat;
    let before = cells_inserted(cells, col, cols, m);
    if m > 0 {
        inserted_cells(cells, col, cols, m, c);
        if c > 0 {
            inserted_cells(cells, col, cols, m, c - 1);
        }
    }
    let longer = before.insert(col, empty_cell());
    let after = cell_inserted(before, col, cols);
    assert(after == longer.take(cols));
    assert(after[c] == longer[c]);
    if c < col {
        assert(longer[c] == before[c]);
    } else if c == col {
        assert(longer[c] == empty_cell());
    } else {
        assert(longer[c] == before[c - 1]);
    }
}

/// Inserting characters pushes the rest of the line to the right; blank cells enter at
/// the cursor, what passes the right margin is lost, and other lines are kept.
pub proof fn inserting_characters_opens_a_gap(v: TermView, params: Seq<u16>, row: int, col: int)
    requires
        sound(v),
        v.cursor.col < v.cols,
        0 <= row < v.rows,
        0 <= col < v.cols,
    ensures
        ({
            let w = applied(v, sequence(params, 0x40));
            let n = count(params);
            let cells = v.screen[row].cells;
            &&& w is Some
            &&& settings_kept(v, w->0) && w->0.wrap_pending == v.wrap_pending
            &&& w->0.cursor == v.cursor
            &&& w->0.scrollback == v.scrollback
            &&& w->0.screen.len() == v.screen.len()
            &&& row != v.cursor.row || col < v.cursor.col ==> w->0.screen[row].cells[col]
                == cells[col]
            &&& row == v.cursor.row && v.cursor.col <= col < v.cursor.col + n ==> blank_cell(
                w->0.screen[row].cells[col],
            )
            &&& row == v.cursor.row && v.cursor.col + n <= col ==> w->0.screen[row].cells[col]
                == cells[col - n]
        }),
{
    sound_terminals_take_every_action(v, sequence(params, 0x40));
    reveal(csi_standard);
    reveal(csi_step);
    reveal(chars_inserted);
    reveal(dirtied);
    let cells = v.screen[v.cursor.row as int].cells;
    assert(cells.len() >= v.cols);
    if row == v.cursor.row {
        inserted_cells(cells, v.cursor.col as int, v.cols, count(params) as nat, col);
    }
}

/// The lines of a screen that were moved up by `n` between `top` and `bottom`: blank
/// lines enter at the bottom, and lines outside stay.
pub open spec fn lines_moved_up(
    before: Seq<RowView>,
    after: Seq<RowView>,
    top: int,
    bottom: int,
    n: int,
    cols: int,
) -> bool {
    &&& after.len() == before.len()
    &&& forall|r: int|
        0 <= r < before.len() && !(top <= r < bottom) ==> #[trigger] after[r] == before[r]
    &&& forall|r: int| top <= r < bottom && r + n < bottom ==> #[trigger] after[r] == before[r + n]
    &&& forall|r: int|
        top <= r < bottom && r + n >= bottom ==> blank_line(#[trigger] after[r], cols)
}

/// The lines of a screen that were moved down by `n` between `top` and `bottom`: blank
/// lines enter at the top, and lines outside stay.
pub open spec fn lines_moved_down(
    before: Seq<RowView>,
    after: Seq<RowView>,
    top: int,
    bottom: int,
    n: int,
    cols: int,
) -> bool {
    &&& after.len() == before.len()
    &&& forall|r: int|
        0 <= r < before.len() && !(top <= r < bottom) ==> #[trigger] after[r] == before[r]
    &&& forall|r: int| top <= r < bottom && r - n >= top ==> #[trigger] after[r] == before[r - n]
    &&& forall|r: int| top <= r < bottom && r - n < top ==> blank_line(#[trigger] after[r], cols)
}

/// A step changed nothing but lines and history.
spec fn lines_only(v: TermView, w: TermView) -> bool {
    w == (TermView { screen: w.screen, scrollback: w.scrollback, ..v })
}

proof fn up_moves_lines(v: TermView, n: nat)
    requires
        sound(v),
    ensures
        ({
            let w = repeated(|w: TermView| up_once(w), v, n);
            &&& w is Some
            &&& lines_only(v, w->0)
            &&& lines_moved_up(v.screen, w->0.screen, v.region_top, v.region_bottom, n as int, v.cols)
            &&& v.region_top > 0 || v.region_bottom < v.rows ==> w->0.scrollback == v.scrollback
            &&& v.region_top == 0 && v.region_bottom == v.rows && n <= v.rows ==> history_grew(
                v,
                w->0,
                n as int,
            )
        }),
    decreases n,
{
    let step = |w: TermView| up_once(w);
    if n == 0 {
        assert(v.scrollback + v.screen.take(0) =~= v.scrollback);
        assert(v.scrollback =~= v.scrollback.skip(0));
    } else {
        up_moves_lines(v, (n - 1) as nat);
        let w = repeated(step, v, (n - 1) as nat)->0;
        reveal(up_once);
        let x = up_once(w)->0;
        assert(up_once(w) is Some);
        assert(step(w) == up_once(w));
        let short = w.screen.remove(w.region_top);
        assert(x.screen == short.insert(w.region_bottom - 1, blank_row(v.cols as nat)));
        assert forall|r: int| 0 <= r < v.screen.len() implies #[trigger] x.screen[r] == if r
            < v.region_top || r >= v.region_bottom {
            w.screen[r]
        } else if r == v.region_bottom - 1 {
            blank_row(v.cols as nat)
        } else {
            w.screen[r + 1]
        } by {
            if r < v.region_top {
                assert(short[r] == w.screen[r]);
            } else if r < v.region_bottom - 1 {
                assert(short[r] == w.screen[r + 1]);
            } else if r >= v.region_bottom {
                assert(short[r - 1] == w.screen[r]);
            }
        }
        if v.region_top == 0 && v.region_bottom == v.rows && n <= v.rows {
            assert(w.screen[0] == v.screen[n - 1]);
            let more = v.screen.take(n as int);
            assert(v.screen.take(n - 1).push(v.screen[n - 1]) =~= more);
            let all = v.scrollback + more;
            let part = v.scrollback + v.screen.take(n - 1);
            assert(part.push(v.screen[n - 1]) =~= all);
            let held = w.scrollback.push(w.screen[0]);
            if held.len() <= v.limit {
                assert(x.scrollback =~= all.skip(all.len() - x.scrollback.len()));
            } else {
                assert(x.scrollback =~= held.skip(held.len() - v.limit));
                assert(x.scrollback =~= all.skip(all.len() - x.scrollback.len()));
            }
        }
    }
}

/// The history grew by the first `n` lines of the screen, and holds the newest lines
/// up to its limit.
pub open spec fn history_grew(v: TermView, w: TermView, n: int) -> bool {
    let all = v.scrollback + v.screen.take(n);
    &&& w.scrollback.len() == if all.len() <= v.limit { all.len() } else { v.limit }
    &&& w.scrollback == all.skip(all.len() - w.scrollback.len())
}

/// Scrolling up moves the lines of the region up by the count; over the whole screen
/// the lines that leave enter the history.
pub proof fn scrolling_up_moves_the_region(v: TermView, params: Seq<u16>)
    requires
        sound(v),
    ensures
        ({
            let w = applied(v, sequence(params, 0x53));
            let n = count(params);
            &&& w is Some
            &&& settings_kept(v, w->0) && w->0.wrap_pending == v.wrap_pending
            &&& w->0.cursor == v.cursor
            &&& lines_moved_up(v.screen, w->0.screen, v.region_top, v.region_bottom, n, v.cols)
            &&& v.region_top > 0 || v.region_bottom < v.rows ==> w->0.scrollback == v.scrollback
            &&& v.region_top == 0 && v.region_bottom == v.rows && n <= v.rows ==> history_grew(
                v,
                w->0,
                n,
            )
        }),
{
    reveal(csi_standard);
    reveal(csi_step);
    reveal(scrolled_up);
    reveal(dirtied);
    up_moves_lines(v, count(params) as nat);
}

proof fn insertion_moves_lines(v: TermView, at: int, top: bool, n: nat)
    requires
        sound(v),
        v.region_top <= at < v.region_bottom,
        at == if top { v.region_top } else { v.cursor.row as int },
    ensures
        ({
            let w = if top {
                repeated(|w: TermView| line_inserted(w, w.region_top), v, n)
            } else {
                repeated(|w: TermView| line_inserted(w, w.cursor.row as int), v, n)
            };
            &&& w is Some
            &&& lines_only(v, w->0)
            &&& w->0.scrollback == v.scrollback
            &&& lines_moved_down(v.screen, w->0.screen, at, v.region_bottom, n as int, v.cols)
        }),
    decreases n,
{
    let by_top = |w: TermView| line_inserted(w, w.region_top);
    let by_row = |w: TermView| line_inserted(w, w.cursor.row as int);
    if n > 0 {
        insertion_moves_lines(v, at, top, (n - 1) as nat);
        let w = if top {
            repeated(by_top, v, (n - 1) as nat)->0
        } else {
            repeated(by_row, v, (n - 1) as nat)->0
        };
        reveal(line_inserted);
        let x = line_inserted(w, at)->0;
        assert(line_inserted(w, at) is Some);
        assert(by_top(w) == line_inserted(w, w.region_top));
        assert(by_row(w) == line_inserted(w, w.cursor.row as int));
        let short = w.screen.remove(w.region_bottom - 1);
        assert(x.screen == short.insert(at, blank_row(v.cols as nat)));
        assert forall|r: int| 0 <= r < v.screen.len() implies #[trigger] x.screen[r] == if r < at || r
            >= v.region_bottom {
            w.screen[r]
        } else if r == at {
            blank_row(v.cols as nat)
        } else {
            w.screen[r - 1]
        } by {
            if r < at {
                assert(short[r] == w.screen[r]);
            } else if at < r < v.region_bottom {
                assert(short[r - 1] == w.screen[r - 1]);
            } else if r >= v.region_bottom {
                assert(short[r - 1] == w.screen[r]);
            }
        }
    }
}

/// Scrolling down moves the lines of the region down by the count and leaves the
/// history alone.
pub proof fn scrolling_down_moves_the_region(v: TermView, params: Seq<u16>)
    requires
        sound(v),
    ensures
        ({
            let w = applied(v, sequence(params, 0x54));
            &&& w is Some
            &&& settings_kept(v, w->0) && w->0.wrap_pending == v.wrap_pending
            &&& w->0.cursor == v.cursor
            &&& w->0.scrollback == v.scrollback
            &&& lines_moved_down(
                v.screen,
                w->0.screen,
                v.region_top,
                v.region_bottom,
                count(params),
                v.cols,
            )
        }),
{
    reveal(csi_standard);
    reveal(csi_step);
    reveal(scrolled_down);
    reveal(dirtied);
    insertion_moves_lines(v, v.region_top, true, count(params) as nat);
}

/// Inserting lines moves the cursor's line and those below it down to the end of the
/// region, and the cursor to the first column; outside the region nothing happens.
pub proof fn inserting_lines_moves_lines_down(v: TermView, params: Seq<u16>)
    requires
        sound(v),
    ensures
        ({
            let w = applied(v, sequence(params, 0x4C));
            let inside = v.region_top <= v.cursor.row < v.region_bottom;
            &&& w is Some
            &&& settings_kept(v, w->0) && w->0.wrap_pending == v.wrap_pending
            &&& w->0.scrollback == v.scrollback
            &&& !inside ==> w->0.screen == v.screen && w->0.cursor == v.cursor
            &&& inside ==> w->0.cursor == (Cursor { col: 0, ..v.cursor }) && lines_moved_down(
                v.screen,
                w->0.screen,
                v.cursor.row as int,
                v.region_bottom,
                count(params),
                v.cols,
            )
        }),
{
    reveal(csi_standard);
    reveal(csi_step);
    reveal(lines_inserted);
    reveal(line_start);
    reveal(dirtied);
    if v.region_top <= v.cursor.row < v.region_bottom {
        insertion_moves_lines(v, v.cursor.row as int, false, count(params) as nat);
    }
}

proof fn deletion_moves_lines(v: TermView, n: nat)
    requires
        sound(v),
        v.region_top <= v.cursor.row < v.region_bottom,
    ensures
        ({
            let w = repeated(|w: TermView| line_deleted(w, w.cursor.row as int), v, n);
            &&& w is Some
            &&& lines_only(v, w->0)
            &&& w->0.scrollback == v.scrollback
            &&& lines_moved_up(
                v.screen,
                w->0.screen,
                v.cursor.row as int,
                v.region_bottom,
                n as int,
                v.cols,
            )
        }),
    decreases n,
{
    let step = |w: TermView| line_deleted(w, w.cursor.row as int);
    if n > 0 {
        deletion_moves_lines(v, (n - 1) as nat);
        let w = repeated(step, v, (n - 1) as nat)->0;
        let at = v.cursor.row as int;
        reveal(line_deleted);
        let x = line_deleted(w, at)->0;
        assert(line_deleted(w, at) is Some);
        assert(step(w) == line_deleted(w, at));
        let short = w.screen.remove(at);
        assert(x.screen == short.insert(w.region_bottom - 1, blank_row(v.cols as nat)));
        assert forall|r: int| 0 <= r < v.screen.len() implies #[trigger] x.screen[r] == if r < at || r
            >= v.region_bottom {
            w.screen[r]
        } else if r == v.region_bottom - 1 {
            blank_row(v.cols as nat)
        } else {
            w.screen[r + 1]
        } by {
            if r < at {
                assert(short[r] == w.screen[r]);
            } else if r < v.region_bottom - 1 {
                assert(short[r] == w.screen[r + 1]);
            } else if r >= v.region_bottom {
                assert(short[r - 1] == w.screen[r]);
            }
        }
    }
}

/// Deleting lines moves the lines below the cursor up to it; blank lines enter at the
/// end of the region, and outside the region nothing happens.
pub proof fn deleting_lines_moves_lines_up(v: TermView, params: Seq<u16>)
    requires
        sound(v),
    ensures
        ({
            let w = applied(v, sequence(params, 0x4D));
            let inside = v.region_top <= v.cursor.row < v.region_bottom;
            &&& w is Some
            &&& settings_kept(v, w->0) && w->0.wrap_pending == v.wrap_pending
            &&& w->0.scrollback == v.scrollback
            &&& !inside ==> w->0.screen == v.screen && w->0.cursor == v.cursor
            &&& inside ==> w->0.cursor == (Cursor { col: 0, ..v.cursor }) && lines_moved_up(
                v.screen,
                w->0.screen,
                v.cursor.row as int,
                v.region_bottom,
                count(params),
                v.cols,
            )
        }),
{
    reveal(csi_standard);
    reveal(csi_step);
    reveal(lines_deleted);
    reveal(line_start);
    reveal(dirtied);
    if v.region_top <= v.cursor.row < v.region_bottom {
        deletion_moves_lines(v, count(params) as nat);
    }
}

/// The smaller of two numbers.
pub open spec fn smaller(a: int, b: int) -> int {
    if a < b {
        a
    } else {
        b
    }
}

/// The larger of two numbers.
pub open spec fn larger(a: int, b: int) -> int {
    if a < b {
        b
    } else {
        a
    }
}

/// The cursor moves by the count in the direction of the sequence: A up to the top of
/// the region, B and e down to the last line, C and a right to the last column, D left
/// to the first.
pub proof fn cursor_sequences_move_the_cursor(v: TermView, params: Seq<u16>)
    requires
        sound(v),
    ensures
        ({
            let n = count(params);
            let row = v.cursor.row as int;
            let col = v.cursor.col as int;
            let up = applied(v, sequence(params, 0x41));
            let down = applied(v, sequence(params, 0x42));
            let also_down = applied(v, sequence(params, 0x65));
            let right = applied(v, sequence(params, 0x43));
            let also_right = applied(v, sequence(params, 0x61));
            let left = applied(v, sequence(params, 0x44));
            &&& up is Some && only_moved(v, up->0) && up->0.cursor.row == larger(
                row - n,
                v.region_top,
            ) && up->0.cursor.col == col
            &&& down is Some && only_moved(v, down->0) && down->0.cursor.row == smaller(
                row + n,
                v.rows - 1,
            ) && down->0.cursor.col == col
            &&& also_down == down
            &&& right is Some && only_moved(v, right->0) && right->0.cursor.col == smaller(
                col + n,
                v.cols - 1,
            ) && right->0.cursor.row == row
            &&& also_right == right
            &&& left is Some && only_moved(v, left->0) && left->0.cursor.col == larger(col - n, 0)
                && left->0.cursor.row == row
            &&& !up->0.wrap_pending && !down->0.wrap_pending && !right->0.wrap_pending
                && !left->0.wrap_pending
        }),
{
    reveal(csi_standard);
    reveal(csi_step);
    reveal(dirtied);
    reveal(moved_up);
    reveal(moved_down);
    reveal(moved_right);
    reveal(moved_left);
}

/// E and F move the cursor by lines, down and up, and to the first column.
pub proof fn line_sequences_move_to_the_line_start(v: TermView, params: Seq<u16>)
    requires
        sound(v),
    ensures
        ({
            let n = count(params);
            let row = v.cursor.row as int;
            let down = applied(v, sequence(params, 0x45));
            let up = applied(v, sequence(params, 0x46));
            &&& down is Some && only_moved(v, down->0) && down->0.cursor.row == smaller(
                row + n,
                v.rows - 1,
            ) && down->0.cursor.col == 0 && !down->0.wrap_pending && !up->0.wrap_pending
            &&& up is Some && only_moved(v, up->0) && up->0.cursor.row == larger(
                row - n,
                v.region_top,
            ) && up->0.cursor.col == 0
        }),
{
    reveal(csi_standard);
    reveal(csi_step);
    reveal(dirtied);
    reveal(moved_up);
    reveal(moved_down);
    reveal(next_line);
    reveal(previous_line);
}

/// The second number of a sequence as a position: one when it is missing or zero.
pub open spec fn second(params: Seq<u16>) -> int {
    if params.len() < 2 || params[1] == 0 {
        1
    } else {
        params[1] as int
    }
}

/// The line that a one based line number means: counted from the top of the screen, or
/// of the region in origin mode, and at most the last.
pub open spec fn line_meant(v: TermView, number: int) -> int {
    smaller(
        number - 1 + if v.modes.contains(Mode::Origin) {
            v.region_top
        } else {
            0
        },
        v.rows - 1,
    )
}

/// H and f put the cursor at a line and a column, G at a column and d at a line; the
/// numbers count from one, and what lies outside the screen means its edge.
pub proof fn positions_place_the_cursor(v: TermView, params: Seq<u16>)
    requires
        sound(v),
    ensures
        ({
            let at = applied(v, sequence(params, 0x48));
            let also_at = applied(v, sequence(params, 0x66));
            let column = applied(v, sequence(params, 0x47));
            let also_column = applied(v, sequence(params, 0x60));
            let line = applied(v, sequence(params, 0x64));
            &&& at is Some && only_moved(v, at->0) && !at->0.wrap_pending
            &&& at->0.cursor.row == line_meant(v, count(params))
            &&& at->0.cursor.col == smaller(second(params) - 1, v.cols - 1)
            &&& also_at == at
            &&& column is Some && only_moved(v, column->0)
            &&& column->0.wrap_pending == v.wrap_pending && line->0.wrap_pending == v.wrap_pending
            &&& column->0.cursor.row == v.cursor.row
            &&& column->0.cursor.col == smaller(count(params) - 1, v.cols - 1)
            &&& also_column == column
            &&& line is Some && only_moved(v, line->0)
            &&& line->0.cursor.row == line_meant(v, count(params))
            &&& line->0.cursor.col == v.cursor.col
        }),
{
    reveal(csi_standard);
    reveal(csi_step);
    reveal(dirtied);
    reveal(placed);
    reveal(column_set);
    reveal(row_set);
}

/// The number of columns of a character.
pub open spec fn columns_of(ch: char) -> int {
    if wide(ch) {
        2
    } else {
        1
    }
}

/// Where the cursor stands behind a character that was written at `col`: behind it, or
/// at the right margin, where lines that wrap owe a line break.
pub open spec fn behind_character(v: TermView, w: TermView, col: int, ch: char) -> bool {
    let end = col + columns_of(ch);
    &&& w.cursor.row == v.cursor.row
    &&& w.cursor.attrs == v.cursor.attrs
    &&& end < v.cols ==> w.cursor.col == end && w.wrap_pending == v.wrap_pending
    &&& end >= v.cols && v.modes.contains(Mode::AutoWrap) ==> w.cursor.col == v.cols
        && w.wrap_pending
    &&& end >= v.cols && !v.modes.contains(Mode::AutoWrap) ==> w.cursor.col == v.cols - 1
        && w.wrap_pending == v.wrap_pending
}

/// Printing writes the character into the cell at the cursor in the cursor's style; a
/// wide one takes the next cell too. Every other cell is kept, and the cursor moves
/// behind the character.
pub proof fn printing_writes_one_character(v: TermView, ch: char, row: int, col: int)
    requires
        sound(v),
        !v.wrap_pending,
        !v.modes.contains(Mode::Insert),
        v.cursor.col < v.cols,
        0 <= row < v.rows,
        0 <= col < v.screen[row].cells.len(),
    ensures
        ({
            let w = applied(v, ActionView::Print(ch));
            let here = row == v.cursor.row && col == v.cursor.col;
            let next = row == v.cursor.row && col == v.cursor.col + 1 && wide(ch) && col < v.cols;
            &&& w is Some
            &&& settings_kept(v, w->0)
            &&& w->0.scrollback == v.scrollback
            &&& behind_character(v, w->0, v.cursor.col as int, ch)
            &&& w->0.screen.len() == v.screen.len()
            &&& w->0.screen[row].cells.len() == v.screen[row].cells.len()
            &&& ({
                let new = w->0.screen[row].cells[col];
                &&& here ==> new.ch == ch && new.attrs == v.cursor.attrs && new.width
                    == columns_of(ch)
                &&& next ==> new.ch == ' ' && new.attrs == v.cursor.attrs && new.width == 1
                &&& !here && !next ==> new == v.screen[row].cells[col]
            })
        }),
{
    sound_terminals_take_every_action(v, ActionView::Print(ch));
    reveal(printed);
    reveal(shifted);
    reveal(put);
    reveal(glyph_written);
    reveal(cursor_advanced);
    reveal(dirtied);
    assert(v.screen[v.cursor.row as int].cells.len() >= v.cols);
}

/// A character that follows a full line is printed as if a line feed and a carriage
/// return stood before it.
pub proof fn full_lines_wrap(v: TermView, ch: char)
    requires
        sound(v),
        v.wrap_pending,
    ensures
        ({
            let lower = applied(v, ActionView::Execute(0x0A))->0;
            let start = applied(lower, ActionView::Execute(0x0D))->0;
            applied(v, ActionView::Print(ch)) == applied(start, ActionView::Print(ch))
        }),
{
    sound_terminals_take_every_action(v, ActionView::Execute(0x0A));
    let lower = applied(v, ActionView::Execute(0x0A))->0;
    sound_terminals_take_every_action(lower, ActionView::Execute(0x0D));
    let start = applied(lower, ActionView::Execute(0x0D))->0;
    sound_terminals_take_every_action(start, ActionView::Print(ch));
    reveal(executed);
    reveal(fed);
    reveal(scrolled_up);
    reveal(returned);
    reveal(line_start);
    reveal(printed);
    reveal(shifted);
    reveal(put);
    reveal(glyph_written);
    reveal(cursor_advanced);
    reveal(dirtied);
    if v.cursor.row + 1 == v.region_bottom {
        up_moves_lines(TermView { wrap_pending: false, ..v }, 1);
    }
    let w = crate::term::wrapped(v)->0;
    assert(start == dirtied(w));
    assert(start.screen == w.screen && start.cursor == w.cursor && !w.wrap_pending);
}

proof fn room_in_cells(cells: Seq<Cell>, col: int, cols: int, n: nat, c: int)
    requires
        0 <= col < cols <= cells.len(),
        0 <= c < cols,
        n > 0,
    ensures
        room_made(cells, col, cols, n).len() == cols,
        room_made(cells, col, cols, n)[c] == if c < col {
            cells[c]
        } else if c < col + n {
            empty_cell()
        } else {
            cells[c - n]
        },
    decreases n,
{
    let m = (n - 1) as nat;
    let before = room_made(cells, col, cols, m);
    if m > 0 {
        room_in_cells(cells, col, cols, m, c);
        if c > 0 {
            room_in_cells(cells, col, cols, m, c - 1);
        }
    }
    let longer = before.insert(col, empty_cell());
    let after = cell_inserted(before, col, cols);
    assert(after == longer.take(cols));
    assert(after[c] == longer[c]);
    if c < col {
        assert(longer[c] == before[c]);
    } else if c == col {
        assert(longer[c] == empty_cell());
    } else {
        assert(longer[c] == before[c - 1]);
    }
}

/// In insert mode the character is written too, and the rest of the line moves to the
/// right by its columns.
pub proof fn insert_mode_moves_the_rest(v: TermView, ch: char, row: int, col: int)
    requires
        sound(v),
        !v.wrap_pending,
        v.modes.contains(Mode::Insert),
        v.cursor.col < v.cols,
        0 <= row < v.rows,
        0 <= col < v.cols,
    ensures
        ({
            let w = applied(v, ActionView::Print(ch));
            let n = columns_of(ch);
            let cells = v.screen[row].cells;
            &&& w is Some
            &&& settings_kept(v, w->0)
            &&& w->0.scrollback == v.scrollback
            &&& behind_character(v, w->0, v.cursor.col as int, ch)
            &&& w->0.screen.len() == v.screen.len()
            &&& row != v.cursor.row || col < v.cursor.col ==> w->0.screen[row].cells[col]
                == cells[col]
            &&& row == v.cursor.row && col == v.cursor.col ==> w->0.screen[row].cells[col].ch == ch
                && w->0.screen[row].cells[col].attrs == v.cursor.attrs
            &&& row == v.cursor.row && v.cursor.col < col < v.cursor.col + n
                ==> w->0.screen[row].cells[col].ch == ' '
            &&& row == v.cursor.row && col >= v.cursor.col + n ==> w->0.screen[row].cells[col]
                == cells[col - n]
        }),
{
    sound_terminals_take_every_action(v, ActionView::Print(ch));
    reveal(printed);
    reveal(shifted);
    reveal(put);
    reveal(glyph_written);
    reveal(cursor_advanced);
    reveal(dirtied);
    let cells = v.screen[v.cursor.row as int].cells;
    assert(cells.len() >= v.cols);
    if row == v.cursor.row {
        room_in_cells(cells, v.cursor.col as int, v.cols, columns_of(ch) as nat, col);
    }
    room_in_cells(cells, v.cursor.col as int, v.cols, columns_of(ch) as nat, 0);
}

/// A carriage return moves to the first column and a backspace one column to the left;
/// a tab moves to the next column that is a multiple of eight, or to the last.
pub proof fn control_codes_move_in_the_line(v: TermView)
    requires
        sound(v),
    ensures
        ({
            let start = applied(v, ActionView::Execute(0x0D));
            let back = applied(v, ActionView::Execute(0x08));
            let tab = applied(v, ActionView::Execute(0x09));
            let col = v.cursor.col as int;
            &&& start is Some && only_moved(v, start->0) && start->0.cursor.row == v.cursor.row
            &&& start->0.cursor.col == 0 && !start->0.wrap_pending
            &&& back is Some && only_moved(v, back->0) && back->0.cursor.row == v.cursor.row
            &&& back->0.cursor.col == larger(col - 1, 0) && !back->0.wrap_pending
            &&& tab is Some && only_moved(v, tab->0) && tab->0.cursor.row == v.cursor.row
            &&& tab->0.cursor.col < v.cols && tab->0.wrap_pending == v.wrap_pending
            &&& tab->0.cursor.col == v.cols - 1 || (tab->0.cursor.col as int % 8 == 0 && col
                < tab->0.cursor.col <= col + 8)
            &&& forall|stop: int|
                col < stop < tab->0.cursor.col ==> #[trigger] (stop % 8) != 0
        }),
{
    reveal(executed);
    reveal(returned);
    reveal(backspaced);
    reveal(tabbed);
    reveal(dirtied);
    let col = v.cursor.col as int;
    assert forall|stop: int| col < stop < (col / 8 + 1) * 8 implies #[trigger] (stop % 8) != 0 by {
        assert(col / 8 <= stop / 8);
        if stop % 8 == 0 {
            assert(stop == (stop / 8) * 8);
            assert(stop / 8 == col / 8);
        }
    }
    assert(((col / 8 + 1) * 8) % 8 == 0);
}

/// A line feed, a vertical tab and a form feed move the cursor down a line; at the end
/// of the region the region moves up instead, and at the end of the screen nothing
/// moves.
pub proof fn line_feeds_move_down(v: TermView, code: u8)
    requires
        sound(v),
        code == 0x0A || code == 0x0B || code == 0x0C,
    ensures
        ({
            let w = applied(v, ActionView::Execute(code));
            let row = v.cursor.row as int;
            &&& w is Some
            &&& settings_kept(v, w->0)
            &&& !w->0.wrap_pending
            &&& row + 1 == v.region_bottom ==> w->0.cursor == v.cursor && lines_moved_up(
                v.screen,
                w->0.screen,
                v.region_top,
                v.region_bottom,
                1,
                v.cols,
            ) && (v.region_top == 0 && v.region_bottom == v.rows ==> history_grew(v, w->0, 1)) && (
            v.region_top > 0 || v.region_bottom < v.rows ==> w->0.scrollback == v.scrollback)
            &&& row + 1 != v.region_bottom ==> only_moved(v, w->0) && w->0.cursor.col
                == v.cursor.col && w->0.cursor.row == smaller(row + 1, v.rows - 1)
        }),
{
    reveal(executed);
    reveal(fed);
    reveal(scrolled_up);
    reveal(dirtied);
    if v.cursor.row + 1 == v.region_bottom {
        up_moves_lines(TermView { wrap_pending: false, ..v }, 1);
    }
}

/// A bell is counted and shows nothing; control codes without a meaning do nothing.
pub proof fn bells_are_counted(v: TermView, code: u8)
    requires
        sound(v),
        v.bells < u64::MAX,
        code == 0x07 || code < 0x07 || 0x0E <= code,
    ensures
        ({
            let w = applied(v, ActionView::Execute(code));
            &&& w is Some
            &&& w->0.bells == v.bells + if code == 0x07 {
                1nat
            } else {
                0
            }
            &&& w->0.screen == v.screen
            &&& w->0.cursor == v.cursor
            &&& w->0.scrollback == v.scrollback
            &&& w->0.modes == v.modes
            &&& w->0.title == v.title
        }),
{
    reveal(executed);
    reveal(bell_rung);
    reveal(dirtied);
}

/// A style sequence changes the style of what is printed next, and nothing else.
pub proof fn styles_change_only_the_style(v: TermView, params: Seq<u16>)
    ensures
        ({
            let w = applied(v, sequence(params, 0x6D));
            &&& w is Some
            &&& settings_kept(v, w->0)
            &&& w->0.screen == v.screen
            &&& w->0.scrollback == v.scrollback
            &&& w->0.cursor.row == v.cursor.row
            &&& w->0.cursor.col == v.cursor.col
            &&& w->0.wrap_pending == v.wrap_pending
        }),
{
    reveal(csi_standard);
    reveal(csi_step);
    reveal(sgr_applied);
    reveal(dirtied);
}

/// The style behind a style sequence.
pub open spec fn style(v: TermView, params: Seq<u16>) -> Attrs {
    applied(v, sequence(params, 0x6D))->0.cursor.attrs
}

proof fn style_runs(v: TermView, params: Seq<u16>)
    ensures
        params.len() > 0 ==> style(v, params) == sgr_run(v.cursor.attrs, params),
        params.len() == 0 ==> style(v, params) == plain_attrs(),
{
    reveal(csi_standard);
    reveal(csi_step);
    reveal(sgr_applied);
    reveal(dirtied);
}

/// The codes of the styles: each switches one property on or off and leaves the others.
pub proof fn style_codes_switch_properties(v: TermView)
    ensures
        ({
            let a = v.cursor.attrs;
            &&& plain(style(v, Seq::empty()))
            &&& plain(style(v, seq![0u16]))
            &&& style(v, seq![1u16]) == (Attrs { bold: true, ..a })
            &&& style(v, seq![2u16]) == (Attrs { dim: true, ..a })
            &&& style(v, seq![3u16]) == (Attrs { italic: true, ..a })
            &&& style(v, seq![4u16]) == (Attrs { underline: true, ..a })
            &&& style(v, seq![5u16]) == (Attrs { blink: true, ..a })
            &&& style(v, seq![6u16]) == (Attrs { blink: true, ..a })
            &&& style(v, seq![7u16]) == (Attrs { inverse: true, ..a })
            &&& style(v, seq![8u16]) == (Attrs { hidden: true, ..a })
            &&& style(v, seq![9u16]) == (Attrs { strikethrough: true, ..a })
            &&& style(v, seq![21u16]) == (Attrs { bold: false, ..a })
            &&& style(v, seq![22u16]) == (Attrs { bold: false, dim: false, ..a })
            &&& style(v, seq![23u16]) == (Attrs { italic: false, ..a })
            &&& style(v, seq![24u16]) == (Attrs { underline: false, ..a })
            &&& style(v, seq![25u16]) == (Attrs { blink: false, ..a })
            &&& style(v, seq![27u16]) == (Attrs { inverse: false, ..a })
            &&& style(v, seq![28u16]) == (Attrs { hidden: false, ..a })
            &&& style(v, seq![29u16]) == (Attrs { strikethrough: false, ..a })
            &&& style(v, seq![39u16]) == (Attrs { fg: Color::Default, ..a })
            &&& style(v, seq![49u16]) == (Attrs { bg: Color::Default, ..a })
        }),
{
    style_runs(v, Seq::empty());
    assert forall|code: u16| code != 38 && code != 48 implies #[trigger] style(v, seq![code])
        == crate::term::sgr_code(v.cursor.attrs, code as int) by {
        one_code(v, code);
    }
}

proof fn one_code(v: TermView, code: u16)
    requires
        code != 38,
        code != 48,
    ensures
        style(v, seq![code]) == crate::term::sgr_code(v.cursor.attrs, code as int),
{
    style_runs(v, seq![code]);
    assert(seq![code].skip(1) =~= Seq::<u16>::empty());
    reveal_with_fuel(sgr_run, 2);
}

/// The codes of the sixteen colours: 30 to 37 and 90 to 97 for the text, 40 to 47 and
/// 100 to 107 for the background; the second range is the bright one. Codes without a
/// meaning change nothing.
pub proof fn style_codes_choose_colors(v: TermView, n: u16)
    ensures
        ({
            let a = v.cursor.attrs;
            &&& n < 8 ==> style(v, seq![(30 + n) as u16]) == (Attrs {
                fg: Color::Indexed(n as u8),
                ..a
            })
            &&& n < 8 ==> style(v, seq![(90 + n) as u16]) == (Attrs {
                fg: Color::Indexed((8 + n) as u8),
                ..a
            })
            &&& n < 8 ==> style(v, seq![(40 + n) as u16]) == (Attrs {
                bg: Color::Indexed(n as u8),
                ..a
            })
            &&& n < 8 ==> style(v, seq![(100 + n) as u16]) == (Attrs {
                bg: Color::Indexed((8 + n) as u8),
                ..a
            })
            &&& 10 <= n <= 20 || n == 26 || 50 <= n <= 89 || n >= 108 ==> style(v, seq![n]) == a
        }),
{
    if n < 8 {
        one_code(v, (30 + n) as u16);
        one_code(v, (90 + n) as u16);
        one_code(v, (40 + n) as u16);
        one_code(v, (100 + n) as u16);
    }
    if 10 <= n <= 20 || n == 26 || 50 <= n <= 89 || n >= 108 {
        one_code(v, n);
    }
}

/// 38 chooses the colour of the text and 48 that of the background, by a number of the
/// palette behind 5 or by its parts behind 2; what follows goes on from there.
pub proof fn style_codes_choose_any_color(v: TermView, n: u16, r: u16, g: u16, b: u16, rest: Seq<u16>)
    requires
        rest.len() > 0,
    ensures
        ({
            let fg = Attrs { fg: Color::Indexed((n % 256) as u8), ..v.cursor.attrs };
            let bg = Attrs { bg: Color::Indexed((n % 256) as u8), ..v.cursor.attrs };
            let color = Color::Rgb((r % 256) as u8, (g % 256) as u8, (b % 256) as u8);
            let true_fg = Attrs { fg: color, ..v.cursor.attrs };
            let true_bg = Attrs { bg: color, ..v.cursor.attrs };
            &&& style(v, seq![38u16, 5, n]) == fg
            &&& style(v, seq![48u16, 5, n]) == bg
            &&& style(v, seq![38u16, 2, r, g, b]) == true_fg
            &&& style(v, seq![48u16, 2, r, g, b]) == true_bg
            &&& style(v, seq![38u16, 5, n] + rest) == style(in_style(v, fg), rest)
            &&& style(v, seq![48u16, 5, n] + rest) == style(in_style(v, bg), rest)
            &&& style(v, seq![38u16, 2, r, g, b] + rest) == style(in_style(v, true_fg), rest)
            &&& style(v, seq![48u16, 2, r, g, b] + rest) == style(in_style(v, true_bg), rest)
        }),
{
    palette_code(v, 38, n, Seq::empty());
    palette_code(v, 48, n, Seq::empty());
    palette_code(v, 38, n, rest);
    palette_code(v, 48, n, rest);
    parts_code(v, 38, r, g, b, Seq::empty());
    parts_code(v, 48, r, g, b, Seq::empty());
    parts_code(v, 38, r, g, b, rest);
    parts_code(v, 48, r, g, b, rest);
    assert(seq![38u16, 5, n] + Seq::<u16>::empty() =~= seq![38u16, 5, n]);
    assert(seq![48u16, 5, n] + Seq::<u16>::empty() =~= seq![48u16, 5, n]);
    assert(seq![38u16, 2, r, g, b] + Seq::<u16>::empty() =~= seq![38u16, 2, r, g, b]);
    assert(seq![48u16, 2, r, g, b] + Seq::<u16>::empty() =~= seq![48u16, 2, r, g, b]);
}

/// A terminal with another style for what is printed next.
pub open spec fn in_style(v: TermView, attrs: Attrs) -> TermView {
    TermView { cursor: Cursor { attrs, ..v.cursor }, ..v }
}

proof fn palette_code(v: TermView, code: u16, n: u16, rest: Seq<u16>)
    requires
        code == 38 || code == 48,
    ensures
        ({
            let color = Color::Indexed((n % 256) as u8);
            let next = if code == 38 {
                Attrs { fg: color, ..v.cursor.attrs }
            } else {
                Attrs { bg: color, ..v.cursor.attrs }
            };
            &&& rest.len() == 0 ==> style(v, seq![code, 5, n] + rest) == next
            &&& rest.len() > 0 ==> style(v, seq![code, 5, n] + rest) == style(
                in_style(v, next),
                rest,
            )
        }),
{
    let all = seq![code, 5, n] + rest;
    style_runs(v, all);
    let tail = all.skip(1);
    assert(tail[0] == 5 && tail[1] == n);
    assert(tail.skip(2) =~= rest);
    assert(all[0] == code);
    let color = Color::Indexed((n % 256) as u8);
    let next = if code == 38 {
        Attrs { fg: color, ..v.cursor.attrs }
    } else {
        Attrs { bg: color, ..v.cursor.attrs }
    };
    style_runs(in_style(v, next), rest);
}

proof fn parts_code(v: TermView, code: u16, r: u16, g: u16, b: u16, rest: Seq<u16>)
    requires
        code == 38 || code == 48,
    ensures
        ({
            let color = Color::Rgb((r % 256) as u8, (g % 256) as u8, (b % 256) as u8);
            let next = if code == 38 {
                Attrs { fg: color, ..v.cursor.attrs }
            } else {
                Attrs { bg: color, ..v.cursor.attrs }
            };
            &&& rest.len() == 0 ==> style(v, seq![code, 2, r, g, b] + rest) == next
            &&& rest.len() > 0 ==> style(v, seq![code, 2, r, g, b] + rest) == style(
                in_style(v, next),
                rest,
            )
        }),
{
    let all = seq![code, 2, r, g, b] + rest;
    style_runs(v, all);
    let tail = all.skip(1);
    assert(tail[0] == 2 && tail[1] == r && tail[2] == g && tail[3] == b);
    assert(tail.skip(4) =~= rest);
    assert(all[0] == code);
    let color = Color::Rgb((r % 256) as u8, (g % 256) as u8, (b % 256) as u8);
    let next = if code == 38 {
        Attrs { fg: color, ..v.cursor.attrs }
    } else {
        Attrs { bg: color, ..v.cursor.attrs }
    };
    style_runs(in_style(v, next), rest);
}

/// Several codes in one sequence act one after the other.
pub proof fn style_codes_act_in_order(v: TermView, code: u16, rest: Seq<u16>)
    requires
        code != 38,
        code != 48,
        rest.len() > 0,
    ensures
        style(v, seq![code] + rest) == style(in_style(v, style(v, seq![code])), rest),
{
    let all = seq![code] + rest;
    one_code(v, code);
    style_runs(v, all);
    assert(all[0] == code);
    assert(all.skip(1) =~= rest);
    style_runs(in_style(v, style(v, seq![code])), rest);
}

/// A control sequence with a private number.
pub open spec fn private_sequence(number: u16, action: u8) -> ActionView {
    ActionView::Csi {
        params: seq![number],
        intermediates: seq![0x3Fu8],
        ignore: false,
        action,
    }
}

/// Whether a sequence with a private number switches one mode on by h and off by l, and
/// does nothing else.
pub open spec fn switches(v: TermView, number: u16, mode: Mode) -> bool {
    let on = applied(v, private_sequence(number, 0x68));
    let off = applied(v, private_sequence(number, 0x6C));
    &&& on is Some && off is Some
    &&& on->0 == (TermView { modes: v.modes.insert(mode), dirty: true, ..v })
    &&& off->0 == (TermView { modes: v.modes.remove(mode), dirty: true, ..v })
}

proof fn private_numbers(v: TermView, number: u16, enable: bool)
    ensures
        applied(v, private_sequence(number, if enable { 0x68u8 } else { 0x6C })) == Some(
            private_mode(v, number as int, enable),
        ),
{
    assert(seq![0x3Fu8][0] == 0x3F);
    assert(seq![0x3Fu8].contains(0x3F));
}

/// The private numbers of the modes, and insert mode by its public number.
pub proof fn numbers_switch_their_modes(v: TermView)
    ensures
        switches(v, 1, Mode::ApplicationCursorKeys),
        switches(v, 4, Mode::Insert),
        switches(v, 7, Mode::AutoWrap),
        switches(v, 25, Mode::CursorVisible),
        switches(v, 66, Mode::ApplicationKeypad),
        switches(v, 2004, Mode::BracketedPaste),
        applied(v, sequence(seq![4u16], 0x68)) == Some(
            TermView { modes: v.modes.insert(Mode::Insert), dirty: true, ..v },
        ),
        applied(v, sequence(seq![4u16], 0x6C)) == Some(
            TermView { modes: v.modes.remove(Mode::Insert), dirty: true, ..v },
        ),
{
    private_numbers(v, 1, true);
    private_numbers(v, 1, false);
    private_numbers(v, 4, true);
    private_numbers(v, 4, false);
    private_numbers(v, 7, true);
    private_numbers(v, 7, false);
    private_numbers(v, 25, true);
    private_numbers(v, 25, false);
    private_numbers(v, 66, true);
    private_numbers(v, 66, false);
    private_numbers(v, 2004, true);
    private_numbers(v, 2004, false);
    reveal(private_mode);
    reveal(private_step);
    reveal(mode_put);
    reveal(dirtied);
    reveal(csi_standard);
    reveal(csi_step);
}

/// Origin mode moves the cursor to its origin: the top of the region when it is
/// switched on, and of the screen when it is switched off.
pub proof fn origin_mode_moves_to_the_origin(v: TermView)
    requires
        sound(v),
    ensures
        ({
            let on = applied(v, private_sequence(6, 0x68));
            let off = applied(v, private_sequence(6, 0x6C));
            &&& on is Some && on->0.modes == v.modes.insert(Mode::Origin)
            &&& on->0.cursor.row == v.region_top && on->0.cursor.col == 0
            &&& off is Some && off->0.modes == v.modes.remove(Mode::Origin)
            &&& off->0.cursor.row == 0 && off->0.cursor.col == 0
            &&& on->0.screen == v.screen && off->0.screen == v.screen
        }),
{
    private_numbers(v, 6, true);
    private_numbers(v, 6, false);
    reveal(private_mode);
    reveal(private_step);
    reveal(origin_set);
    reveal(mode_put);
    reveal(dirtied);
}

/// 47, 1047 and 1049 enter the alternate screen: it is blank, the cursor is in its
/// upper left corner, and the lines and the cursor of the main screen are set aside.
pub proof fn entering_the_alternate_screen(v: TermView, number: u16)
    requires
        number == 47 || number == 1047 || number == 1049,
        !v.modes.contains(Mode::AlternateScreen),
        v.cols >= 0,
        v.rows >= 0,
    ensures
        ({
            let w = applied(v, private_sequence(number, 0x68));
            &&& w is Some
            &&& w->0.modes == v.modes.insert(Mode::AlternateScreen)
            &&& w->0.screen.len() == v.rows
            &&& forall|r: int| 0 <= r < v.rows ==> blank_line(#[trigger] w->0.screen[r], v.cols)
            &&& w->0.cursor.row == 0 && w->0.cursor.col == 0 && plain(w->0.cursor.attrs)
            &&& w->0.saved_screen == Some(v.screen)
            &&& w->0.saved_cursor == Some(v.cursor)
            &&& w->0.scrollback == v.scrollback
        }),
{
    private_numbers(v, number, true);
    reveal(private_mode);
    reveal(private_step);
    reveal(screen_switched);
    reveal(dirtied);
}

/// Leaving the alternate screen by any of the three numbers shows the lines that were
/// set aside, and the cursor where it was.
pub proof fn leaving_the_alternate_screen(v: TermView, number: u16)
    requires
        number == 47 || number == 1047 || number == 1049,
        v.modes.contains(Mode::AlternateScreen),
        v.saved_screen is Some,
        v.saved_cursor is Some,
    ensures
        ({
            let w = applied(v, private_sequence(number, 0x6C));
            &&& w is Some
            &&& w->0.modes == v.modes.remove(Mode::AlternateScreen)
            &&& w->0.screen == v.saved_screen->0
            &&& w->0.cursor == v.saved_cursor->0
            &&& w->0.saved_screen is None
            &&& w->0.scrollback == v.scrollback
        }),
{
    private_numbers(v, number, false);
    reveal(private_mode);
    reveal(private_step);
    reveal(screen_switched);
    reveal(cursor_restored);
    reveal(dirtied);
}

/// Saving and restoring the cursor, by the escape sequences 7 and 8, by s and u, or by
/// the private number 1048: what is restored is what was saved, style included.
pub proof fn saved_cursors_come_back(v: TermView, moved: Cursor)
    ensures
        ({
            let by_escape = applied(v, escape(0x37))->0;
            let by_sequence = applied(v, sequence(Seq::empty(), 0x73))->0;
            let by_number = applied(v, private_sequence(1048, 0x68))->0;
            let saved = TermView { saved_cursor: Some(v.cursor), dirty: true, ..v };
            let away = TermView { cursor: moved, ..saved };
            let back = TermView { cursor: v.cursor, ..saved };
            &&& by_escape == saved
            &&& by_sequence == saved
            &&& by_number == saved
            &&& applied(away, escape(0x38)) == Some(back)
            &&& applied(away, sequence(Seq::empty(), 0x75)) == Some(back)
            &&& applied(away, private_sequence(1048, 0x6C)) == Some(back)
        }),
{
    private_numbers(v, 1048, true);
    let away = TermView { cursor: moved, saved_cursor: Some(v.cursor), dirty: true, ..v };
    private_numbers(away, 1048, false);
    reveal(private_mode);
    reveal(private_step);
    reveal(csi_standard);
    reveal(csi_step);
    reveal(esc_applied);
    reveal(cursor_saved);
    reveal(cursor_restored);
    reveal(dirtied);
}

/// An escape sequence of one byte.
pub open spec fn escape(action: u8) -> ActionView {
    ActionView::Esc { intermediates: Seq::empty(), ignore: false, action }
}

/// The escape sequence D moves down like a line feed, and E does and moves to the first
/// column.
pub proof fn index_moves_down(v: TermView)
    requires
        sound(v),
    ensures
        applied(v, escape(0x44)) == applied(v, ActionView::Execute(0x0A)),
        ({
            let down = applied(v, ActionView::Execute(0x0A));
            let next = applied(v, escape(0x45));
            &&& next is Some
            &&& next->0.screen == down->0.screen
            &&& next->0.scrollback == down->0.scrollback
            &&& next->0.cursor.row == down->0.cursor.row
            &&& next->0.cursor.col == 0
        }),
{
    sound_terminals_take_every_action(v, escape(0x45));
    reveal(esc_applied);
    reveal(executed);
    reveal(line_start);
    reveal(fed);
    reveal(scrolled_up);
    reveal(dirtied);
    if v.cursor.row + 1 == v.region_bottom {
        let u = TermView { wrap_pending: false, ..v };
        let x = TermView { cursor: Cursor { col: 0, ..v.cursor }, ..u };
        reveal_with_fuel(repeated, 2);
        reveal(up_once);
        up_moves_lines(u, 1);
        up_moves_lines(x, 1);
    }
}

/// The escape sequence M moves up a line; at the top of the region the region moves
/// down instead.
pub proof fn reverse_index_moves_up(v: TermView)
    requires
        sound(v),
    ensures
        ({
            let w = applied(v, escape(0x4D));
            &&& w is Some
            &&& settings_kept(v, w->0) && w->0.wrap_pending == v.wrap_pending
            &&& w->0.scrollback == v.scrollback
            &&& v.cursor.row == v.region_top ==> w->0.cursor == v.cursor && lines_moved_down(
                v.screen,
                w->0.screen,
                v.region_top,
                v.region_bottom,
                1,
                v.cols,
            )
            &&& v.cursor.row != v.region_top ==> w->0.screen == v.screen && w->0.cursor == (Cursor {
                row: larger(v.cursor.row - 1, 0) as usize,
                ..v.cursor
            })
        }),
{
    reveal(esc_applied);
    reveal(reversed);
    reveal(scrolled_down);
    reveal(dirtied);
    insertion_moves_lines(v, v.region_top, true, 1);
}

/// The escape sequences = and > switch the application keypad on and off.
pub proof fn keypad_is_switched_by_escapes(v: TermView)
    ensures
        applied(v, escape(0x3D)) == Some(
            TermView { modes: v.modes.insert(Mode::ApplicationKeypad), dirty: true, ..v },
        ),
        applied(v, escape(0x3E)) == Some(
            TermView { modes: v.modes.remove(Mode::ApplicationKeypad), dirty: true, ..v },
        ),
{
    reveal(esc_applied);
    reveal(mode_put);
    reveal(dirtied);
}

/// What a terminal is like at the start: blank lines, no history and no title, the
/// cursor visible in the upper left corner, lines that wrap, and the whole screen as
/// its region.
pub open spec fn as_new(v: TermView, cols: int, rows: int) -> bool {
    &&& v.cols == cols
    &&& v.rows == rows
    &&& v.screen.len() == rows
    &&& forall|r: int| 0 <= r < rows ==> blank_line(#[trigger] v.screen[r], cols)
    &&& v.scrollback.len() == 0
    &&& v.limit == 10_000
    &&& v.title.len() == 0
    &&& v.cursor.row == 0
    &&& v.cursor.col == 0
    &&& plain(v.cursor.attrs)
    &&& v.saved_screen is None
    &&& v.saved_cursor is None
    &&& v.modes == Set::empty().insert(Mode::CursorVisible).insert(Mode::AutoWrap)
    &&& v.region_top == 0
    &&& v.region_bottom == rows
    &&& !v.wrap_pending
    &&& v.bells == 0
}

/// A new terminal is like that, and the escape sequence c makes any terminal so in its
/// size.
pub proof fn resets_start_anew(v: TermView, cols: int, rows: int)
    requires
        cols >= 0,
        rows >= 0,
        v.cols >= 0,
        v.rows >= 0,
    ensures
        as_new(fresh(cols, rows), cols, rows),
        applied(v, escape(0x63)) is Some,
        as_new(applied(v, escape(0x63))->0, v.cols, v.rows),
{
    reveal(fresh);
    reveal(esc_applied);
    reveal(dirtied);
}

/// The commands 0, 1 and 2 set the title to their text, and other commands nothing.
pub proof fn titles_are_set(v: TermView, command: Seq<char>, text: Seq<char>, bell: bool)
    ensures
        ({
            let w = applied(
                v,
                ActionView::Osc { params: seq![command, text], bell_terminated: bell },
            );
            &&& w is Some
            &&& command == seq!['0'] || command == seq!['1'] || command == seq!['2'] ==> w->0 == (
            TermView { title: text, ..v })
            &&& !(command == seq!['0'] || command == seq!['1'] || command == seq!['2']) ==> w->0
                == v
        }),
{
    reveal_strlit("0");
    reveal_strlit("1");
    reveal_strlit("2");
    assert("0"@ =~= seq!['0']);
    assert("1"@ =~= seq!['1']);
    assert("2"@ =~= seq!['2']);
}

/// The sequence r sets the region from its first line to its last, both counted from
/// one, and moves the cursor to the first column of the first line, in origin mode of
/// the region; a region that does not fit changes nothing.
pub proof fn regions_are_set(v: TermView, params: Seq<u16>)
    requires
        sound(v),
    ensures
        ({
            let w = applied(v, sequence(params, 0x72));
            let top = count(params) - 1;
            let bottom = if params.len() < 2 || params[1] == 0 {
                v.rows
            } else {
                params[1] as int
            };
            &&& w is Some
            &&& w->0.screen == v.screen && w->0.scrollback == v.scrollback && w->0.modes == v.modes
            &&& top < bottom <= v.rows ==> {
                &&& w->0.region_top == top
                &&& w->0.region_bottom == bottom
                &&& w->0.cursor.col == 0
                &&& w->0.cursor.row == if v.modes.contains(Mode::Origin) {
                    top
                } else {
                    0
                }
            }
            &&& !(top < bottom <= v.rows) ==> w->0.region_top == v.region_top
                && w->0.region_bottom == v.region_bottom && w->0.cursor == v.cursor
        }),
{
    reveal(csi_standard);
    reveal(csi_step);
    reveal(region_set);
    reveal(dirtied);
}

/// A sequence that was malformed, of either kind, does nothing.
pub proof fn malformed_sequences_do_nothing(
    v: TermView,
    params: Seq<u16>,
    intermediates: Seq<u8>,
    action: u8,
)
    ensures
        applied(v, ActionView::Csi { params, intermediates, ignore: true, action }) == Some(v),
        applied(v, ActionView::Esc { intermediates, ignore: true, action }) == Some(v),
{
}

/// Resizing keeps what fits: every line that stays is kept up to the narrower width and
/// blank beyond it; a lower screen loses its first lines to the history, and a higher
/// one gains blank lines below. The region is the whole screen, and the cursor stays
/// inside.
pub proof fn resizing_keeps_lines(v: TermView, cols: int, rows: int, row: int, col: int)
    requires
        sound(v),
        1 <= cols <= 500,
        1 <= rows <= 200,
        cols != v.cols || rows != v.rows,
        0 <= row < rows,
        0 <= col < cols,
    ensures
        ({
            let w = resized(v, cols, rows);
            let gone = larger(v.rows - rows, 0);
            &&& w is Some
            &&& w->0.cols == cols
            &&& w->0.rows == rows
            &&& w->0.screen.len() == rows
            &&& w->0.screen[row].cells.len() == cols
            &&& row + gone < v.rows && col < v.screen[row + gone].cells.len()
                ==> w->0.screen[row].cells[col] == v.screen[row + gone].cells[col]
            &&& row + gone >= v.rows || col >= v.screen[row + gone].cells.len() ==> blank_cell(
                w->0.screen[row].cells[col],
            )
            &&& w->0.cursor.row == smaller(v.cursor.row as int, rows - 1)
            &&& w->0.cursor.col == smaller(v.cursor.col as int, cols - 1)
            &&& w->0.cursor.attrs == v.cursor.attrs
            &&& w->0.region_top == 0
            &&& w->0.region_bottom == rows
            &&& w->0.modes == v.modes
            &&& w->0.title == v.title
            &&& w->0.limit == v.limit
            &&& rows >= v.rows ==> w->0.scrollback == v.scrollback
            &&& v.scrollback.len() + gone <= v.limit ==> w->0.scrollback.len()
                == v.scrollback.len() + gone
        }),
{
    reveal(resized);
    reveal(fitted_screen);
    reveal(fitted_history);
    if rows == v.rows {
        assert(v.scrollback + crate::term::fitted_rows(v.screen, cols).take(0) =~= v.scrollback);
    }
}

/// A size beyond the limits means the nearest within them: 1 to 500 columns and 1 to 200
/// lines; the size that a terminal has changes nothing.
pub proof fn sizes_are_limited(v: TermView, cols: int, rows: int)
    ensures
        resized(v, v.cols, v.rows) == Some(v) || !(1 <= v.cols <= 500 && 1 <= v.rows <= 200),
        cols > 500 ==> resized(v, cols, rows) == resized(v, 500, rows),
        cols < 1 ==> resized(v, cols, rows) == resized(v, 1, rows),
        rows > 200 ==> resized(v, cols, rows) == resized(v, cols, 200),
        rows < 1 ==> resized(v, cols, rows) == resized(v, cols, 1),
{
    reveal(resized);
}

/// The lines that a lower screen loses are the newest of the history.
pub proof fn resizing_keeps_lost_lines(v: TermView, cols: int, rows: int, i: int, col: int)
    requires
        sound(v),
        1 <= cols <= 500,
        1 <= rows < v.rows,
        v.scrollback.len() + (v.rows - rows) <= v.limit,
        0 <= i < v.rows - rows,
        0 <= col < cols,
        col < v.screen[i].cells.len(),
    ensures
        ({
            let w = resized(v, cols, rows)->0;
            &&& w.scrollback.len() == v.scrollback.len() + (v.rows - rows)
            &&& w.scrollback[v.scrollback.len() + i].cells[col] == v.screen[i].cells[col]
            &&& w.scrollback.take(v.scrollback.len() as int) == v.scrollback
        }),
{
    reveal(resized);
    reveal(fitted_screen);
    reveal(fitted_history);
    let w = resized(v, cols, rows)->0;
    assert(w.scrollback.take(v.scrollback.len() as int) =~= v.scrollback);
}

/// The modes that are on are those whose fields say so.
pub proof fn fields_name_the_modes(modes: Modes)
    ensures
        modes@.contains(Mode::CursorVisible) == modes.cursor_visible,
        modes@.contains(Mode::ApplicationCursorKeys) == modes.application_cursor_keys,
        modes@.contains(Mode::ApplicationKeypad) == modes.application_keypad,
        modes@.contains(Mode::BracketedPaste) == modes.bracketed_paste,
        modes@.contains(Mode::Origin) == modes.origin,
        modes@.contains(Mode::AutoWrap) == modes.auto_wrap,
        modes@.contains(Mode::AlternateScreen) == modes.alternate_screen,
        modes@.contains(Mode::Insert) == modes.insert,
{
    reveal(mode_set);
}

/// What a snapshot shows is what the terminal shows; the cursor is shown when it is
/// visible and the main screen is.
pub proof fn snapshots_show_the_terminal(v: TermView)
    ensures
        ({
            let s = crate::term::snapshot_of(v);
            &&& s.rows == v.screen
            &&& s.cursor == v.cursor
            &&& s.title == v.title
            &&& s.scrollback_lines == v.scrollback.len()
            &&& s.dirty == v.dirty
            &&& s.cursor_visible <==> v.modes.contains(Mode::CursorVisible) && !v.modes.contains(
                Mode::AlternateScreen,
            )
        }),
{
}

/// The characters that take two columns are those of the East Asian scripts, their
/// wide forms and the emoji.
pub proof fn wide_characters(ch: char)
    ensures
        wide(ch) <==> (0x1100 <= ch as u32 <= 0x115F || 0x2E80 <= ch as u32 <= 0x303E || 0x3041
            <= ch as u32 <= 0x33FF || 0x3400 <= ch as u32 <= 0x4DBF || 0x4E00 <= ch as u32 <= 0x9FFF
            || 0xA000 <= ch as u32 <= 0xA4CF || 0xAC00 <= ch as u32 <= 0xD7A3 || 0xF900 <= ch as u32
            <= 0xFAFF || 0xFE30 <= ch as u32 <= 0xFE6F || 0xFF00 <= ch as u32 <= 0xFF60 || 0xFFE0
            <= ch as u32 <= 0xFFE6 || 0x1F300 <= ch as u32 <= 0x1F64F || 0x1F900 <= ch as u32
            <= 0x1F9FF || 0x20000 <= ch as u32 <= 0x2FFFD || 0x30000 <= ch as u32 <= 0x3FFFD),
{
}

/// Numbers and final bytes without a meaning do nothing but report a change.
pub proof fn unknown_sequences_do_nothing(v: TermView, params: Seq<u16>, number: u16, action: u8)
    ensures
        number != 1 && number != 4 && number != 6 && number != 7 && number != 25 && number != 47
            && number != 66 && number != 1047 && number != 1048 && number != 1049 && number != 2004
            ==> applied(v, private_sequence(number, 0x68)) == Some(TermView { dirty: true, ..v })
            && applied(v, private_sequence(number, 0x6C)) == Some(TermView { dirty: true, ..v }),
        action == 0x49 || action == 0x4E || action == 0x4F || action == 0x51 || action == 0x52
            || action == 0x55 || action == 0x56 || action == 0x57 || 0x59 <= action <= 0x5F || action
            == 0x62 || action == 0x63 || action == 0x67 || 0x69 <= action <= 0x6B || 0x6E <= action
            <= 0x71 || action == 0x74 || 0x76 <= action <= 0x7E ==> applied(
            v,
            sequence(params, action),
        ) == Some(TermView { dirty: true, ..v }),
        0x30 <= action <= 0x36 || 0x39 <= action <= 0x3C || 0x3F <= action <= 0x43 || 0x46 <= action
            <= 0x4C || 0x4E <= action <= 0x62 || 0x64 <= action <= 0x7E ==> applied(
            v,
            escape(action),
        ) == Some(TermView { dirty: true, ..v }),
{
    private_numbers(v, number, true);
    private_numbers(v, number, false);
    reveal(private_mode);
    reveal(private_step);
    reveal(csi_standard);
    reveal(csi_step);
    reveal(esc_applied);
    reveal(dirtied);
}

/// Public modes other than insert mode are not known and change nothing.
pub proof fn other_public_modes_do_nothing(v: TermView, params: Seq<u16>, action: u8)
    requires
        action == 0x68 || action == 0x6C,
        params.len() == 0 || params[0] != 4,
    ensures
        applied(v, sequence(params, action)) == Some(TermView { dirty: true, ..v }),
{
    reveal(csi_standard);
    reveal(csi_step);
    reveal(dirtied);
}

/// Actions are carried out in order, and bytes do what their actions do.
pub proof fn actions_are_carried_out_in_order(
    v: TermView,
    actions: Seq<ActionView>,
    action: ActionView,
    parser: crate::parser::ParserView,
    bytes: Seq<u8>,
)
    ensures
        crate::term::applied_all(v, Seq::empty()) == Some(v),
        crate::term::applied_all(v, actions) is Some ==> crate::term::applied_all(
            v,
            actions.push(action),
        ) == applied(crate::term::applied_all(v, actions)->0, action),
        crate::term::fed_bytes(v, parser, bytes) == crate::term::applied_all(
            v,
            crate::parser::run(parser, bytes).actions,
        ),
{
    assert(actions.push(action).drop_last() =~= actions);
}

} // verus!
