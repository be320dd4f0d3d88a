//! Laws of the terminal: what every action keeps, what leaving the alternate
//! screen undoes, and what scrolling leaves alone.
use crate::grid::{blank_row, wide, Cell, RowView};
use crate::parser::{
    chunking_is_invisible, cleared, collected, csi_dispatched, in_string, initial, pushed, quiet, run,
    transition, ActionView, ParserView, State,
};
use crate::term::{
    applied, applied_all, backspaced, bell_rung, cells_deleted, cells_inserted,
    chars_deleted, chars_inserted, column_set, csi_standard, csi_step, cursor_advanced, cursor_restored,
    cursor_saved, dirtied, display_erased, esc_applied, executed, fed, fed_bytes, fitted_history,
    fitted_screen, fresh, full_reset, glyph_written, least, line_deleted, line_erased, line_inserted,
    line_start, lines_deleted, lines_inserted, mode_put, moved_down, moved_left, moved_right,
    moved_up, next_line, on_screen, origin_set, param, parsed_bytes, part_erased, placed, previous_line,
    printed, private_mode, private_step, put, region_set, repeated, resets, resized, returned, reversed,
    room_made, row_set, rows_cleared, screen_mode, screen_switched, scrolled_down, scrolled_up,
    sgr_applied, shifted, sized, snapshot_of, snapshot_taken, sound, tabbed, touched, up_once,
    with_cells, wrapped, Mode, SnapshotView, TermView, DEFAULT_SCROLLBACK,
};
use vstd::prelude::*;

verus! {

/// The state after a step that may fail is again sound and of the same size.
pub open spec fn kept(v: TermView, w: Option<TermView>) -> bool {
    &&& w is Some
    &&& sound(w->0)
    &&& w->0.cols == v.cols
    &&& w->0.rows == v.rows
}

/// A step that inserts one blank line at `at` and drops the line at `from`.
proof fn lines_stay_sized(screen: Seq<RowView>, from: int, at: int, cols: int, rows: int)
    requires
        sized(screen, cols, rows),
        cols >= 0,
        0 <= from < rows,
        0 <= at < rows,
    ensures
        sized(screen.remove(from).insert(at, blank_row(cols as nat)), cols, rows),
{
    let after = screen.remove(from).insert(at, blank_row(cols as nat));
    assert forall|i: int| 0 <= i < after.len() implies (#[trigger] after[i]).cells.len() >= cols by {
        if i < at {
            assert(after[i] == screen.remove(from)[i]);
        } else if i > at {
            assert(after[i] == screen.remove(from)[i - 1]);
        }
    }
}

proof fn up_once_is_sound(v: TermView)
    requires
        sound(v),
    ensures
        kept(v, up_once(v)),
        up_once(v)->0.cursor == v.cursor,
        up_once(v)->0.region_top == v.region_top,
        up_once(v)->0.region_bottom == v.region_bottom,
{
    reveal(up_once);
    lines_stay_sized(v.screen, v.region_top, v.region_bottom - 1, v.cols, v.rows);
}

proof fn line_inserted_is_sound(v: TermView, at: int)
    requires
        sound(v),
        0 <= at < v.rows,
    ensures
        kept(v, line_inserted(v, at)),
        line_inserted(v, at)->0.cursor == v.cursor,
        line_inserted(v, at)->0.region_top == v.region_top,
        line_inserted(v, at)->0.region_bottom == v.region_bottom,
{
    reveal(line_inserted);
    lines_stay_sized(v.screen, v.region_bottom - 1, at, v.cols, v.rows);
}

proof fn line_deleted_is_sound(v: TermView, at: int)
    requires
        sound(v),
        0 <= at < v.rows,
    ensures
        kept(v, line_deleted(v, at)),
        line_deleted(v, at)->0.cursor == v.cursor,
        line_deleted(v, at)->0.region_top == v.region_top,
        line_deleted(v, at)->0.region_bottom == v.region_bottom,
{
    reveal(line_deleted);
    lines_stay_sized(v.screen, at, v.region_bottom - 1, v.cols, v.rows);
}

proof fn repeated_up_is_sound(v: TermView, n: nat)
    requires
        sound(v),
    ensures
        kept(v, repeated(|w: TermView| up_once(w), v, n)),
    decreases n,
{
    if n > 0 {
        repeated_up_is_sound(v, (n - 1) as nat);
        up_once_is_sound(repeated(|w: TermView| up_once(w), v, (n - 1) as nat)->0);
    }
}

proof fn repeated_down_is_sound(v: TermView, n: nat)
    requires
        sound(v),
    ensures
        kept(v, repeated(|w: TermView| line_inserted(w, w.region_top), v, n)),
    decreases n,
{
    if n > 0 {
        repeated_down_is_sound(v, (n - 1) as nat);
        let w = repeated(|w: TermView| line_inserted(w, w.region_top), v, (n - 1) as nat)->0;
        line_inserted_is_sound(w, w.region_top);
    }
}

proof fn repeated_insert_is_sound(v: TermView, n: nat)
    requires
        sound(v),
    ensures
        kept(v, repeated(|w: TermView| line_inserted(w, w.cursor.row as int), v, n)),
    decreases n,
{
    if n > 0 {
        repeated_insert_is_sound(v, (n - 1) as nat);
        let w = repeated(
            |w: TermView| line_inserted(w, w.cursor.row as int),
            v,
            (n - 1) as nat,
        )->0;
        line_inserted_is_sound(w, w.cursor.row as int);
    }
}

proof fn repeated_delete_is_sound(v: TermView, n: nat)
    requires
        sound(v),
    ensures
        kept(v, repeated(|w: TermView| line_deleted(w, w.cursor.row as int), v, n)),
    decreases n,
{
    if n > 0 {
        repeated_delete_is_sound(v, (n - 1) as nat);
        let w = repeated(
            |w: TermView| line_deleted(w, w.cursor.row as int),
            v,
            (n - 1) as nat,
        )->0;
        line_deleted_is_sound(w, w.cursor.row as int);
    }
}

proof fn touched_is_sound(v: TermView, w: Option<TermView>)
    requires
        kept(v, w),
    ensures
        kept(v, touched(w)),
{
    reveal(dirtied);
}

proof fn line_start_is_sound(v: TermView)
    requires
        sound(v),
    ensures
        kept(v, Some(line_start(v))),
{
    reveal(line_start);
}

proof fn fed_is_sound(v: TermView)
    requires
        sound(v),
    ensures
        kept(v, fed(v)),
{
    reveal(fed);
    reveal(scrolled_up);
    let w = TermView { wrap_pending: false, ..v };
    repeated_up_is_sound(w, 1);
    touched_is_sound(w, repeated(|w: TermView| up_once(w), w, 1));
}

proof fn reversed_is_sound(v: TermView)
    requires
        sound(v),
    ensures
        kept(v, reversed(v)),
{
    reveal(reversed);
    reveal(scrolled_down);
    repeated_down_is_sound(v, 1);
    touched_is_sound(v, repeated(|w: TermView| line_inserted(w, w.region_top), v, 1));
}

/// Replacing the cells of the cursor's row by at least as many as the terminal
/// is wide.
proof fn cells_replaced_is_sound(v: TermView, cells: Seq<Cell>)
    requires
        sound(v),
        cells.len() >= v.cols,
    ensures
        kept(v, Some(with_cells(v, cells))),
        with_cells(v, cells).cursor == v.cursor,
{
    let w = with_cells(v, cells);
    assert forall|i: int| 0 <= i < w.screen.len() implies (#[trigger] w.screen[i]).cells.len()
        >= w.cols by {
        if i != v.cursor.row {
            assert(w.screen[i] == v.screen[i]);
        }
    }
}

proof fn room_stays_wide(cells: Seq<Cell>, col: int, cols: int, n: nat)
    requires
        cells.len() >= cols >= 0,
        0 <= col,
    ensures
        room_made(cells, col, cols, n).len() >= cols,
    decreases n,
{
    if n > 0 {
        room_stays_wide(cells, col, cols, (n - 1) as nat);
    }
}

proof fn inserted_stays_wide(cells: Seq<Cell>, col: int, cols: int, n: nat)
    requires
        cells.len() >= cols >= 1,
        0 <= col,
    ensures
        cells_inserted(cells, col, cols, n).len() >= cols,
    decreases n,
{
    if n > 0 {
        inserted_stays_wide(cells, col, cols, (n - 1) as nat);
    }
}

proof fn deleted_stays_wide(cells: Seq<Cell>, col: int, cols: int, n: nat)
    requires
        cells.len() >= cols,
        0 <= col,
    ensures
        cells_deleted(cells, col, n).len() >= cols,
    decreases n,
{
    if n > 0 {
        deleted_stays_wide(cells, col, cols, (n - 1) as nat);
    }
}

proof fn glyph_is_sound(v: TermView, ch: char)
    requires
        sound(v),
        v.cursor.col < v.cols,
    ensures
        kept(v, glyph_written(v, ch)),
        glyph_written(v, ch)->0.cursor == v.cursor,
{
    reveal(glyph_written);
    let row = v.cursor.row as int;
    let w = glyph_written(v, ch)->0;
    assert(v.screen[row].cells.len() >= v.cols);
    assert(w.screen[row].cells.len() == v.screen[row].cells.len());
    assert forall|i: int| 0 <= i < w.screen.len() implies (#[trigger] w.screen[i]).cells.len()
        >= w.cols by {
        if i != row {
            assert(w.screen[i] == v.screen[i]);
        }
    }
}

proof fn put_is_sound(v: TermView, ch: char)
    requires
        sound(v),
    ensures
        kept(v, put(v, ch)),
{
    reveal(put);
    if v.cursor.col < v.cols {
        glyph_is_sound(v, ch);
        reveal(cursor_advanced);
        reveal(dirtied);
    }
}

proof fn printed_is_sound(v: TermView, ch: char)
    requires
        sound(v),
    ensures
        kept(v, printed(v, ch)),
{
    reveal(printed);
    reveal(shifted);
    fed_is_sound(v);
    if v.wrap_pending {
        line_start_is_sound(fed(v)->0);
    }
    let w = wrapped(v)->0;
    let row = w.cursor.row as int;
    let n: nat = if wide(ch) { 2 } else { 1 };
    assert(w.screen[row].cells.len() >= w.cols);
    room_stays_wide(w.screen[row].cells, w.cursor.col as int, w.cols, n);
    cells_replaced_is_sound(w, room_made(w.screen[row].cells, w.cursor.col as int, w.cols, n));
    put_is_sound(shifted(w, ch)->0, ch);
}

proof fn executed_is_sound(v: TermView, code: u8)
    requires
        sound(v),
        code == 0x07 ==> v.bells < u64::MAX,
    ensures
        kept(v, executed(v, code)),
{
    reveal(executed);
    fed_is_sound(v);
    assert(code == 0x07 ==> kept(v, bell_rung(v))) by {
        reveal(bell_rung);
    }
    assert(kept(v, Some(backspaced(v)))) by {
        reveal(backspaced);
    }
    assert(kept(v, Some(tabbed(v)))) by {
        reveal(tabbed);
    }
    assert(kept(v, Some(returned(v)))) by {
        reveal(returned);
    }
    reveal(dirtied);
}

proof fn part_erased_is_sound(v: TermView, from: int, to: int)
    requires
        sound(v),
    ensures
        kept(v, part_erased(v, from, to)),
        part_erased(v, from, to)->0.cursor == v.cursor,
{
    reveal(part_erased);
    let row = v.cursor.row as int;
    assert(v.screen[row].cells.len() >= v.cols);
    let end = least(to, v.cols);
    if from < end {
        cells_replaced_is_sound(
            v,
            Seq::new(
                v.screen[row].cells.len(),
                |i: int|
                    if from <= i < end {
                        crate::grid::cell_of(' ', v.cursor.attrs)
                    } else {
                        v.screen[row].cells[i]
                    },
            ),
        );
    }
}

proof fn rows_cleared_is_sound(v: TermView, from: int, to: int)
    requires
        sound(v),
        to <= v.rows,
    ensures
        kept(v, rows_cleared(v, from, to)),
        rows_cleared(v, from, to)->0.cursor == v.cursor,
{
    reveal(rows_cleared);
    let w = rows_cleared(v, from, to)->0;
    assert forall|i: int| 0 <= i < w.screen.len() implies (#[trigger] w.screen[i]).cells.len()
        >= w.cols by {
        assert(v.screen[i].cells.len() >= v.cols);
    }
}

proof fn erased_is_sound(v: TermView, mode: int)
    requires
        sound(v),
    ensures
        kept(v, display_erased(v, mode)),
        kept(v, line_erased(v, mode)),
{
    reveal(display_erased);
    reveal(line_erased);
    part_erased_is_sound(v, v.cursor.col as int, v.cols);
    part_erased_is_sound(v, 0, v.cursor.col + 1);
    part_erased_is_sound(v, 0, v.cols);
    rows_cleared_is_sound(v, 0, v.cursor.row as int);
    rows_cleared_is_sound(v, 0, v.rows);
    rows_cleared_is_sound(part_erased(v, v.cursor.col as int, v.cols)->0, v.cursor.row + 1, v.rows);
    part_erased_is_sound(rows_cleared(v, 0, v.cursor.row as int)->0, 0, v.cursor.col + 1);
}

proof fn lines_are_sound(v: TermView, n: nat)
    requires
        sound(v),
    ensures
        kept(v, lines_inserted(v, n)),
        kept(v, lines_deleted(v, n)),
        kept(v, scrolled_up(v, n)),
        kept(v, scrolled_down(v, n)),
{
    reveal(lines_inserted);
    reveal(lines_deleted);
    reveal(scrolled_up);
    reveal(scrolled_down);
    repeated_insert_is_sound(v, n);
    repeated_delete_is_sound(v, n);
    repeated_up_is_sound(v, n);
    repeated_down_is_sound(v, n);
    let i = repeated(|w: TermView| line_inserted(w, w.cursor.row as int), v, n);
    let d = repeated(|w: TermView| line_deleted(w, w.cursor.row as int), v, n);
    line_start_is_sound(i->0);
    line_start_is_sound(d->0);
    touched_is_sound(v, repeated(|w: TermView| up_once(w), v, n));
    touched_is_sound(v, repeated(|w: TermView| line_inserted(w, w.region_top), v, n));
}

proof fn chars_are_sound(v: TermView, n: nat)
    requires
        sound(v),
    ensures
        kept(v, chars_inserted(v, n)),
        kept(v, chars_deleted(v, n)),
{
    reveal(chars_inserted);
    reveal(chars_deleted);
    let row = v.cursor.row as int;
    let cells = v.screen[row].cells;
    assert(cells.len() >= v.cols);
    inserted_stays_wide(cells, v.cursor.col as int, v.cols, n);
    deleted_stays_wide(cells, v.cursor.col as int, v.cols, n);
    cells_replaced_is_sound(v, cells_inserted(cells, v.cursor.col as int, v.cols, n));
    cells_replaced_is_sound(v, cells_deleted(cells, v.cursor.col as int, n));
}

proof fn moves_are_sound(v: TermView, n: int)
    requires
        sound(v),
        1 <= n,
    ensures
        kept(v, Some(moved_up(v, n))),
        kept(v, Some(moved_down(v, n))),
        kept(v, Some(moved_right(v, n))),
        kept(v, Some(moved_left(v, n))),
        kept(v, Some(next_line(v, n))),
        kept(v, Some(previous_line(v, n))),
        kept(v, Some(column_set(v, n - 1))),
        kept(v, Some(row_set(v, n - 1))),
{
    assert(kept(v, Some(moved_up(v, n)))) by {
        reveal(moved_up);
    }
    assert(kept(v, Some(moved_down(v, n)))) by {
        reveal(moved_down);
    }
    assert(kept(v, Some(moved_right(v, n)))) by {
        reveal(moved_right);
    }
    assert(kept(v, Some(moved_left(v, n)))) by {
        reveal(moved_left);
    }
    assert(kept(v, Some(next_line(v, n)))) by {
        reveal(next_line);
    }
    assert(kept(v, Some(previous_line(v, n)))) by {
        reveal(previous_line);
    }
    assert(kept(v, Some(column_set(v, n - 1)))) by {
        reveal(column_set);
    }
    assert(kept(v, Some(row_set(v, n - 1)))) by {
        reveal(row_set);
    }
}

proof fn settings_are_sound(v: TermView, a: int, b: int, mode: Mode, enable: bool)
    requires
        sound(v),
        0 <= a,
        0 <= b,
    ensures
        kept(v, Some(placed(v, a, b))),
        kept(v, Some(region_set(v, a, b))),
        kept(v, Some(cursor_saved(v))),
        kept(v, Some(cursor_restored(v))),
        kept(v, Some(mode_put(v, mode, enable))),
        kept(v, Some(origin_set(v, enable))),
{
    assert(kept(v, Some(placed(v, a, b)))) by {
        reveal(placed);
    }
    assert(kept(v, Some(region_set(v, a, b)))) by {
        reveal(region_set);
    }
    assert(kept(v, Some(cursor_saved(v)))) by {
        reveal(cursor_saved);
    }
    assert(kept(v, Some(cursor_restored(v)))) by {
        reveal(cursor_restored);
    }
    assert(kept(v, Some(mode_put(v, mode, enable)))) by {
        reveal(mode_put);
    }
    assert(kept(v, Some(origin_set(v, enable)))) by {
        reveal(origin_set);
        reveal(mode_put);
    }
}

proof fn switch_is_sound(v: TermView, alternate: bool)
    requires
        sound(v),
    ensures
        kept(v, Some(screen_switched(v, alternate))),
{
    reveal(screen_switched);
    reveal(cursor_restored);
}

/// [`kept`], as an atom.
#[verifier::opaque]
spec fn keeps(v: TermView, w: Option<TermView>) -> bool {
    kept(v, w)
}

proof fn private_is_sound(v: TermView, mode: int, enable: bool)
    requires
        sound(v),
    ensures
        kept(v, Some(private_mode(v, mode, enable))),
{
    let e = enable;
    assert(keeps(v, Some(mode_put(v, Mode::ApplicationCursorKeys, e)))) by {
        reveal(keeps);
        settings_are_sound(v, 0, 0, Mode::ApplicationCursorKeys, e);
    }
    assert(keeps(v, Some(mode_put(v, Mode::Insert, e)))) by {
        reveal(keeps);
        settings_are_sound(v, 0, 0, Mode::Insert, e);
    }
    assert(keeps(v, Some(mode_put(v, Mode::AutoWrap, e)))) by {
        reveal(keeps);
        settings_are_sound(v, 0, 0, Mode::AutoWrap, e);
    }
    assert(keeps(v, Some(mode_put(v, Mode::CursorVisible, e)))) by {
        reveal(keeps);
        settings_are_sound(v, 0, 0, Mode::CursorVisible, e);
    }
    assert(keeps(v, Some(mode_put(v, Mode::ApplicationKeypad, e)))) by {
        reveal(keeps);
        settings_are_sound(v, 0, 0, Mode::ApplicationKeypad, e);
    }
    assert(keeps(v, Some(mode_put(v, Mode::BracketedPaste, e)))) by {
        reveal(keeps);
        settings_are_sound(v, 0, 0, Mode::BracketedPaste, e);
    }
    assert(keeps(v, Some(origin_set(v, e)))) by {
        reveal(keeps);
        settings_are_sound(v, 0, 0, Mode::Insert, e);
    }
    assert(keeps(v, Some(cursor_saved(v)))) by {
        reveal(keeps);
        settings_are_sound(v, 0, 0, Mode::Insert, e);
    }
    assert(keeps(v, Some(cursor_restored(v)))) by {
        reveal(keeps);
        settings_are_sound(v, 0, 0, Mode::Insert, e);
    }
    assert(keeps(v, Some(screen_switched(v, e)))) by {
        reveal(keeps);
        switch_is_sound(v, e);
    }
    assert(keeps(v, Some(v))) by {
        reveal(keeps);
    }
    assert(keeps(v, Some(private_step(v, mode, enable)))) by {
        reveal(private_step);
    }
    reveal(keeps);
    reveal(private_mode);
    touched_is_sound(v, Some(private_step(v, mode, enable)));
}

proof fn csi_step_is_sound(v: TermView, params: Seq<u16>, action: u8)
    requires
        sound(v),
    ensures
        keeps(v, csi_step(v, params, action)),
{
    let n = param(params, 0, 1);
    let m = param(params, 1, 1);
    let b = param(params, 1, v.rows);
    let z = param(params, 0, 0);
    let h = action == 0x68;
    assert(keeps(v, Some(moved_up(v, n)))) by {
        reveal(keeps);
        moves_are_sound(v, n);
    }
    assert(keeps(v, Some(moved_down(v, n)))) by {
        reveal(keeps);
        moves_are_sound(v, n);
    }
    assert(keeps(v, Some(moved_right(v, n)))) by {
        reveal(keeps);
        moves_are_sound(v, n);
    }
    assert(keeps(v, Some(moved_left(v, n)))) by {
        reveal(keeps);
        moves_are_sound(v, n);
    }
    assert(keeps(v, Some(next_line(v, n)))) by {
        reveal(keeps);
        moves_are_sound(v, n);
    }
    assert(keeps(v, Some(previous_line(v, n)))) by {
        reveal(keeps);
        moves_are_sound(v, n);
    }
    assert(keeps(v, Some(column_set(v, n - 1)))) by {
        reveal(keeps);
        moves_are_sound(v, n);
    }
    assert(keeps(v, Some(row_set(v, n - 1)))) by {
        reveal(keeps);
        moves_are_sound(v, n);
    }
    assert(keeps(v, Some(placed(v, n - 1, m - 1)))) by {
        reveal(keeps);
        settings_are_sound(v, n - 1, m - 1, Mode::Insert, h);
    }
    assert(keeps(v, Some(region_set(v, n - 1, b)))) by {
        reveal(keeps);
        settings_are_sound(v, n - 1, b, Mode::Insert, h);
    }
    assert(keeps(v, Some(cursor_saved(v)))) by {
        reveal(keeps);
        settings_are_sound(v, 0, 0, Mode::Insert, h);
    }
    assert(keeps(v, Some(cursor_restored(v)))) by {
        reveal(keeps);
        settings_are_sound(v, 0, 0, Mode::Insert, h);
    }
    assert(keeps(v, Some(mode_put(v, Mode::Insert, h)))) by {
        reveal(keeps);
        settings_are_sound(v, 0, 0, Mode::Insert, h);
    }
    assert(keeps(v, display_erased(v, z))) by {
        reveal(keeps);
        erased_is_sound(v, z);
    }
    assert(keeps(v, line_erased(v, z))) by {
        reveal(keeps);
        erased_is_sound(v, z);
    }
    assert(keeps(v, lines_inserted(v, n as nat))) by {
        reveal(keeps);
        lines_are_sound(v, n as nat);
    }
    assert(keeps(v, lines_deleted(v, n as nat))) by {
        reveal(keeps);
        lines_are_sound(v, n as nat);
    }
    assert(keeps(v, scrolled_up(v, n as nat))) by {
        reveal(keeps);
        lines_are_sound(v, n as nat);
    }
    assert(keeps(v, scrolled_down(v, n as nat))) by {
        reveal(keeps);
        lines_are_sound(v, n as nat);
    }
    assert(keeps(v, chars_inserted(v, n as nat))) by {
        reveal(keeps);
        chars_are_sound(v, n as nat);
    }
    assert(keeps(v, chars_deleted(v, n as nat))) by {
        reveal(keeps);
        chars_are_sound(v, n as nat);
    }
    assert(keeps(v, part_erased(v, v.cursor.col as int, v.cursor.col + n))) by {
        reveal(keeps);
        part_erased_is_sound(v, v.cursor.col as int, v.cursor.col + n);
    }
    assert(keeps(v, Some(sgr_applied(v, params)))) by {
        reveal(keeps);
        reveal(sgr_applied);
    }
    assert(keeps(v, Some(v))) by {
        reveal(keeps);
    }
    reveal(csi_step);
}

proof fn csi_is_sound(v: TermView, params: Seq<u16>, action: u8)
    requires
        sound(v),
    ensures
        kept(v, csi_standard(v, params, action)),
{
    csi_step_is_sound(v, params, action);
    reveal(keeps);
    reveal(csi_standard);
    touched_is_sound(v, csi_step(v, params, action));
}

proof fn esc_is_sound(v: TermView, action: u8)
    requires
        sound(v),
    ensures
        kept(v, esc_applied(v, action)),
{
    reveal(esc_applied);
    settings_are_sound(v, 0, 0, Mode::ApplicationKeypad, true);
    settings_are_sound(v, 0, 0, Mode::ApplicationKeypad, false);
    fed_is_sound(v);
    reversed_is_sound(v);
    line_start_is_sound(v);
    fed_is_sound(line_start(v));
    fresh_terminals_are_sound(v.cols, v.rows);
    assert(fresh(v.cols, v.rows).cols == v.cols && fresh(v.cols, v.rows).rows == v.rows) by {
        reveal(fresh);
    }
    reveal(dirtied);
}

/// Every new terminal is sound.
pub proof fn fresh_terminals_are_sound(cols: int, rows: int)
    requires
        1 <= cols <= 500,
        1 <= rows <= 200,
    ensures
        sound(fresh(cols, rows)),
{
    reveal(fresh);
}

/// A sound terminal takes every action without failing, stays sound and keeps
/// its size; only a bell counter at its maximum cannot count another bell.
pub proof fn sound_terminals_take_every_action(v: TermView, action: ActionView)
    requires
        sound(v),
        action == ActionView::Execute(0x07) ==> v.bells < u64::MAX,
    ensures
        applied(v, action) is Some,
        sound(applied(v, action)->0),
        applied(v, action)->0.cols == v.cols,
        applied(v, action)->0.rows == v.rows,
{
    match action {
        ActionView::Print(ch) => printed_is_sound(v, ch),
        ActionView::Execute(code) => executed_is_sound(v, code),
        ActionView::Csi { params, intermediates, ignore, action } => {
            csi_is_sound(v, params, action);
            private_is_sound(v, param(params, 0, 0), action == 0x68);
        },
        ActionView::Esc { intermediates, ignore, action } => esc_is_sound(v, action),
        _ => {},
    }
}

/// Number of bells in a run of actions.
pub open spec fn bells_in(actions: Seq<ActionView>) -> nat
    decreases actions.len(),
{
    if actions.len() == 0 {
        0
    } else {
        bells_in(actions.drop_last()) + if actions.last() == ActionView::Execute(0x07) {
            1nat
        } else {
            0
        }
    }
}

/// Neither the bell counter nor the scrollback limit changes.
spec fn steady(v: TermView, w: TermView) -> bool {
    w.bells == v.bells && w.limit == v.limit
}

proof fn repeated_keeps_bells(step: spec_fn(TermView) -> Option<TermView>, v: TermView, n: nat)
    requires
        forall|w: TermView| (#[trigger] step(w)) is Some ==> steady(w, step(w)->0),
    ensures
        repeated(step, v, n) is Some ==> steady(v, repeated(step, v, n)->0),
    decreases n,
{
    if n > 0 {
        repeated_keeps_bells(step, v, (n - 1) as nat);
    }
}

/// Only the bell itself and a full reset change the bell counter, and only a full
/// reset changes the scrollback limit, to the default.
proof fn bells_follow(v: TermView, action: ActionView)
    ensures
        applied(v, action) is Some ==> applied(v, action)->0.bells <= v.bells + if action
            == ActionView::Execute(0x07) {
            1nat
        } else {
            0
        },
        applied(v, action) is Some ==> applied(v, action)->0.limit == if full_reset(action) {
            DEFAULT_SCROLLBACK as nat
        } else {
            v.limit
        },
{
    assert forall|w: TermView| (#[trigger] scrolled_up(w, 1)) is Some implies steady(
        w,
        scrolled_up(w, 1)->0,
    ) by {
        scrolling_keeps_bells(w, 1);
    }
    reveal(dirtied);
    reveal(line_start);
    match action {
        ActionView::Print(ch) => {
            reveal(printed);
            reveal(fed);
            reveal(shifted);
            reveal(put);
            reveal(glyph_written);
            reveal(cursor_advanced);
        },
        ActionView::Execute(code) => {
            reveal(executed);
            reveal(fed);
            reveal(bell_rung);
            reveal(backspaced);
            reveal(tabbed);
            reveal(returned);
        },
        ActionView::Csi { params, intermediates, ignore, action } => {
            private_keeps_bells(v, param(params, 0, 0), action == 0x68);
            csi_keeps_bells(v, params, action);
        },
        ActionView::Esc { intermediates, ignore, action } => {
            reveal(esc_applied);
            reveal(fed);
            reveal(reversed);
            scrolling_keeps_bells(v, 1);
            reveal(fresh);
            reveal(cursor_saved);
            reveal(cursor_restored);
            reveal(mode_put);
        },
        _ => {},
    }
}

proof fn scrolling_keeps_bells(v: TermView, n: nat)
    ensures
        scrolled_up(v, n) is Some ==> steady(v, scrolled_up(v, n)->0),
        scrolled_down(v, n) is Some ==> steady(v, scrolled_down(v, n)->0),
        lines_inserted(v, n) is Some ==> steady(v, lines_inserted(v, n)->0),
        lines_deleted(v, n) is Some ==> steady(v, lines_deleted(v, n)->0),
{
    reveal(scrolled_up);
    reveal(scrolled_down);
    reveal(lines_inserted);
    reveal(lines_deleted);
    reveal(up_once);
    reveal(line_inserted);
    reveal(line_deleted);
    reveal(dirtied);
    reveal(line_start);
    repeated_keeps_bells(|w: TermView| up_once(w), v, n);
    repeated_keeps_bells(|w: TermView| line_inserted(w, w.region_top), v, n);
    repeated_keeps_bells(|w: TermView| line_inserted(w, w.cursor.row as int), v, n);
    repeated_keeps_bells(|w: TermView| line_deleted(w, w.cursor.row as int), v, n);
}

proof fn private_keeps_bells(v: TermView, mode: int, enable: bool)
    ensures
        steady(v, private_mode(v, mode, enable)),
{
    reveal(private_mode);
    reveal(private_step);
    reveal(origin_set);
    reveal(mode_put);
    reveal(screen_switched);
    reveal(cursor_saved);
    reveal(cursor_restored);
    reveal(dirtied);
}

proof fn csi_keeps_bells(v: TermView, params: Seq<u16>, action: u8)
    ensures
        csi_standard(v, params, action) is Some ==> steady(
            v,
            csi_standard(v, params, action)->0,
        ),
{
    reveal(csi_standard);
    reveal(csi_step);
    let n = param(params, 0, 1);
    scrolling_keeps_bells(v, n as nat);
    reveal(dirtied);
    assert(steady(v, moved_up(v, n))) by {
        reveal(moved_up);
    }
    assert(steady(v, moved_down(v, n))) by {
        reveal(moved_down);
    }
    assert(steady(v, moved_right(v, n))) by {
        reveal(moved_right);
    }
    assert(steady(v, moved_left(v, n))) by {
        reveal(moved_left);
    }
    assert(steady(v, next_line(v, n))) by {
        reveal(next_line);
        reveal(moved_down);
    }
    assert(steady(v, previous_line(v, n))) by {
        reveal(previous_line);
        reveal(moved_up);
    }
    assert(steady(v, column_set(v, n - 1))) by {
        reveal(column_set);
    }
    assert(steady(v, row_set(v, n - 1))) by {
        reveal(row_set);
    }
    assert(steady(v, placed(v, n - 1, param(params, 1, 1) - 1))) by {
        reveal(placed);
    }
    assert(steady(v, region_set(v, n - 1, param(params, 1, v.rows)))) by {
        reveal(region_set);
    }
    assert(steady(v, cursor_saved(v)) && steady(v, cursor_restored(v))) by {
        reveal(cursor_saved);
        reveal(cursor_restored);
    }
    assert(steady(v, sgr_applied(v, params))) by {
        reveal(sgr_applied);
    }
    assert(steady(v, mode_put(v, Mode::Insert, action == 0x68))) by {
        reveal(mode_put);
    }
    reveal(display_erased);
    reveal(line_erased);
    reveal(part_erased);
    reveal(rows_cleared);
    reveal(chars_deleted);
    reveal(chars_inserted);
}

/// A sound terminal takes every run of actions whose bells it can count.
pub proof fn sound_terminals_take_every_run(v: TermView, actions: Seq<ActionView>)
    requires
        sound(v),
        v.bells + bells_in(actions) <= u64::MAX,
    ensures
        applied_all(v, actions) is Some,
        sound(applied_all(v, actions)->0),
        applied_all(v, actions)->0.cols == v.cols,
        applied_all(v, actions)->0.rows == v.rows,
        applied_all(v, actions)->0.bells <= v.bells + bells_in(actions),
        v.limit == DEFAULT_SCROLLBACK ==> applied_all(v, actions)->0.limit == DEFAULT_SCROLLBACK,
        !resets(actions) ==> applied_all(v, actions)->0.limit == v.limit,
    decreases actions.len(),
{
    if actions.len() > 0 {
        sound_terminals_take_every_run(v, actions.drop_last());
        let w = applied_all(v, actions.drop_last())->0;
        sound_terminals_take_every_action(w, actions.last());
        bells_follow(w, actions.last());
        if !resets(actions) {
            assert forall|i: int| 0 <= i < actions.len() - 1 implies !full_reset(
                #[trigger] actions.drop_last()[i],
            ) by {
                assert(!full_reset(actions[i]));
            }
            assert(!full_reset(actions[actions.len() - 1]));
        }
    }
}

/// A sound terminal takes every input: whatever bytes the remote side sends,
/// the terminal does not fail, stays sound and keeps its size, and the scrollback
/// keeps its limit, which only a full reset sets back to the default.
pub proof fn sound_terminals_take_every_input(v: TermView, parser: ParserView, bytes: Seq<u8>)
    requires
        sound(v),
        v.bells + bells_in(run(parser, bytes).actions) <= u64::MAX,
    ensures
        fed_bytes(v, parser, bytes) is Some,
        sound(fed_bytes(v, parser, bytes)->0),
        fed_bytes(v, parser, bytes)->0.cols == v.cols,
        fed_bytes(v, parser, bytes)->0.rows == v.rows,
        fed_bytes(v, parser, bytes)->0.scrollback.len() <= fed_bytes(v, parser, bytes)->0.limit,
        v.limit == DEFAULT_SCROLLBACK ==> fed_bytes(v, parser, bytes)->0.limit
            == DEFAULT_SCROLLBACK,
        !resets(run(parser, bytes).actions) ==> fed_bytes(v, parser, bytes)->0.limit == v.limit,
{
    sound_terminals_take_every_run(v, run(parser, bytes).actions);
}

/// A terminal that was made in some size and has been fed any bytes since, but never
/// resized, has that size, one line per row, the cursor on the screen or just behind
/// the right margin, and no more history than the default.
pub proof fn fed_terminals_stay_in_bounds(cols: int, rows: int, bytes: Seq<u8>)
    requires
        1 <= cols <= 500,
        1 <= rows <= 200,
        bells_in(run(initial(), bytes).actions) <= u64::MAX,
    ensures
        ({
            let w = fed_bytes(fresh(cols, rows), initial(), bytes);
            &&& w is Some
            &&& w->0.cols == cols
            &&& w->0.rows == rows
            &&& w->0.screen.len() == rows
            &&& w->0.cursor.row < rows
            &&& w->0.cursor.col <= cols
            &&& w->0.scrollback.len() <= DEFAULT_SCROLLBACK
        }),
{
    fresh_terminals_are_sound(cols, rows);
    assert(fresh(cols, rows).bells == 0 && fresh(cols, rows).limit == DEFAULT_SCROLLBACK
        && fresh(cols, rows).cols == cols && fresh(cols, rows).rows == rows) by {
        reveal(fresh);
    }
    sound_terminals_take_every_input(fresh(cols, rows), initial(), bytes);
}

/// Resizing a sound terminal succeeds, and the result is sound again when what
/// was saved, if anything, fits the new size.
pub proof fn resizing_keeps_what_fits(v: TermView, cols: int, rows: int)
    requires
        sound(v),
    ensures
        resized(v, cols, rows) is Some,
        ({
            let w = resized(v, cols, rows)->0;
            &&& w.saved_cursor == v.saved_cursor
            &&& w.saved_screen == v.saved_screen
            &&& (w.saved_cursor is Some ==> on_screen(w.saved_cursor->0, w.cols, w.rows)) && (
            w.saved_screen is Some ==> sized(w.saved_screen->0, w.cols, w.rows)) ==> sound(w)
        }),
{
    reveal(resized);
    reveal(fitted_screen);
    reveal(fitted_history);
}

/// Whether an action selects a screen buffer or resets the terminal.
pub open spec fn selects_screen(action: ActionView) -> bool {
    match action {
        ActionView::Csi { params, intermediates, ignore, action } => !ignore
            && intermediates.contains(0x3F) && screen_mode(param(params, 0, 0)),
        ActionView::Esc { intermediates, ignore, action } => !ignore && action == 0x63,
        _ => false,
    }
}

/// The main screen, set aside while the alternate screen is shown, and the fact
/// that it is shown, survive a step.
pub open spec fn aside_kept(v: TermView, w: Option<TermView>) -> bool {
    w is Some ==> w->0.saved_screen == v.saved_screen && w->0.modes.contains(Mode::AlternateScreen)
        == v.modes.contains(Mode::AlternateScreen)
}

/// Whether an action saves the position of the cursor.
pub open spec fn saves_cursor(action: ActionView) -> bool {
    match action {
        ActionView::Csi { params, intermediates, ignore, action } => !ignore && if intermediates.contains(
            0x3F,
        ) {
            param(params, 0, 0) == 1048 && action == 0x68
        } else {
            action == 0x73
        },
        ActionView::Esc { intermediates, ignore, action } => !ignore && action == 0x37,
        _ => false,
    }
}

/// What is set aside while the alternate screen is shown, the saved cursor
/// included, survives a step.
pub open spec fn both_kept(v: TermView, w: Option<TermView>) -> bool {
    aside_kept(v, w) && (w is Some ==> w->0.saved_cursor == v.saved_cursor)
}

proof fn repeated_keeps_aside(step: spec_fn(TermView) -> Option<TermView>, v: TermView, n: nat)
    requires
        forall|w: TermView| both_kept(w, #[trigger] step(w)),
    ensures
        both_kept(v, repeated(step, v, n)),
    decreases n,
{
    if n > 0 {
        repeated_keeps_aside(step, v, (n - 1) as nat);
    }
}

proof fn scrolling_keeps_aside(v: TermView, n: nat)
    ensures
        both_kept(v, scrolled_up(v, n)),
        both_kept(v, scrolled_down(v, n)),
        both_kept(v, lines_inserted(v, n)),
        both_kept(v, lines_deleted(v, n)),
{
    reveal(scrolled_up);
    reveal(scrolled_down);
    reveal(lines_inserted);
    reveal(lines_deleted);
    reveal(up_once);
    reveal(line_inserted);
    reveal(line_deleted);
    reveal(dirtied);
    reveal(line_start);
    repeated_keeps_aside(|w: TermView| up_once(w), v, n);
    repeated_keeps_aside(|w: TermView| line_inserted(w, w.region_top), v, n);
    repeated_keeps_aside(|w: TermView| line_inserted(w, w.cursor.row as int), v, n);
    repeated_keeps_aside(|w: TermView| line_deleted(w, w.cursor.row as int), v, n);
}

proof fn fed_keeps_aside(v: TermView)
    ensures
        both_kept(v, fed(v)),
        both_kept(v, reversed(v)),
{
    reveal(fed);
    reveal(reversed);
    scrolling_keeps_aside(v, 1);
    scrolling_keeps_aside(TermView { wrap_pending: false, ..v }, 1);
}

proof fn csi_keeps_aside(v: TermView, params: Seq<u16>, action: u8)
    ensures
        aside_kept(v, csi_standard(v, params, action)),
        action != 0x73 ==> both_kept(v, csi_standard(v, params, action)),
{
    reveal(csi_standard);
    reveal(csi_step);
    let n = param(params, 0, 1);
    scrolling_keeps_aside(v, n as nat);
    reveal(dirtied);
    assert(both_kept(v, Some(moved_up(v, n)))) by {
        reveal(moved_up);
    }
    assert(both_kept(v, Some(moved_down(v, n)))) by {
        reveal(moved_down);
    }
    assert(both_kept(v, Some(moved_right(v, n)))) by {
        reveal(moved_right);
    }
    assert(both_kept(v, Some(moved_left(v, n)))) by {
        reveal(moved_left);
    }
    assert(both_kept(v, Some(next_line(v, n)))) by {
        reveal(next_line);
        reveal(moved_down);
    }
    assert(both_kept(v, Some(previous_line(v, n)))) by {
        reveal(previous_line);
        reveal(moved_up);
    }
    assert(both_kept(v, Some(column_set(v, n - 1)))) by {
        reveal(column_set);
    }
    assert(both_kept(v, Some(row_set(v, n - 1)))) by {
        reveal(row_set);
    }
    assert(both_kept(v, Some(placed(v, n - 1, param(params, 1, 1) - 1)))) by {
        reveal(placed);
    }
    assert(both_kept(v, Some(region_set(v, n - 1, param(params, 1, v.rows))))) by {
        reveal(region_set);
    }
    assert(aside_kept(v, Some(cursor_saved(v))) && both_kept(v, Some(cursor_restored(v)))) by {
        reveal(cursor_saved);
        reveal(cursor_restored);
    }
    assert(both_kept(v, Some(sgr_applied(v, params)))) by {
        reveal(sgr_applied);
    }
    assert(both_kept(v, Some(mode_put(v, Mode::Insert, action == 0x68)))) by {
        reveal(mode_put);
    }
    assert(both_kept(v, display_erased(v, param(params, 0, 0)))) by {
        reveal(display_erased);
        reveal(part_erased);
        reveal(rows_cleared);
    }
    assert(both_kept(v, line_erased(v, param(params, 0, 0)))) by {
        reveal(line_erased);
        reveal(part_erased);
    }
    assert(both_kept(v, part_erased(v, v.cursor.col as int, v.cursor.col + n))) by {
        reveal(part_erased);
    }
    assert(both_kept(v, chars_deleted(v, n as nat))) by {
        reveal(chars_deleted);
    }
    assert(both_kept(v, chars_inserted(v, n as nat))) by {
        reveal(chars_inserted);
    }
}

proof fn action_keeps_aside(v: TermView, action: ActionView)
    requires
        !selects_screen(action),
    ensures
        aside_kept(v, applied(v, action)),
        !saves_cursor(action) ==> both_kept(v, applied(v, action)),
{
    reveal(dirtied);
    match action {
        ActionView::Print(ch) => {
            reveal(printed);
            fed_keeps_aside(v);
            reveal(line_start);
            reveal(shifted);
            reveal(put);
            reveal(glyph_written);
            reveal(cursor_advanced);
        },
        ActionView::Execute(code) => {
            reveal(executed);
            fed_keeps_aside(v);
            reveal(bell_rung);
            reveal(backspaced);
            reveal(tabbed);
            reveal(returned);
        },
        ActionView::Csi { params, intermediates, ignore, action } => {
            csi_keeps_aside(v, params, action);
            reveal(private_mode);
            reveal(private_step);
            reveal(origin_set);
            reveal(mode_put);
            reveal(cursor_saved);
            reveal(cursor_restored);
        },
        ActionView::Esc { intermediates, ignore, action } => {
            reveal(esc_applied);
            fed_keeps_aside(v);
            fed_keeps_aside(line_start(v));
            reveal(line_start);
            reveal(cursor_saved);
            reveal(cursor_restored);
            reveal(mode_put);
        },
        _ => {},
    }
}

proof fn run_keeps_aside(v: TermView, actions: Seq<ActionView>)
    requires
        forall|i: int| 0 <= i < actions.len() ==> !selects_screen(#[trigger] actions[i]),
    ensures
        aside_kept(v, applied_all(v, actions)),
        (forall|i: int| 0 <= i < actions.len() ==> !saves_cursor(#[trigger] actions[i]))
            ==> both_kept(v, applied_all(v, actions)),
    decreases actions.len(),
{
    if actions.len() > 0 {
        run_keeps_aside(v, actions.drop_last());
        assert forall|i: int| 0 <= i < actions.len() - 1 implies actions.drop_last()[i]
            == #[trigger] actions[i] by {}
        if applied_all(v, actions.drop_last()) is Some {
            action_keeps_aside(applied_all(v, actions.drop_last())->0, actions.last());
        }
    }
}

/// Leaving the alternate screen brings the main screen back: whatever was drawn
/// in between, short of switching screens again or resetting the terminal, the
/// lines shown are those shown before it was entered.
pub proof fn alternate_screen_restores_the_main_screen(v: TermView, drawn: Seq<ActionView>)
    requires
        !v.modes.contains(Mode::AlternateScreen),
        forall|i: int| 0 <= i < drawn.len() ==> !selects_screen(#[trigger] drawn[i]),
        applied_all(screen_switched(v, true), drawn) is Some,
    ensures
        ({
            let left = screen_switched(applied_all(screen_switched(v, true), drawn)->0, false);
            &&& left.screen == v.screen
            &&& left.saved_screen is None
            &&& !left.modes.contains(Mode::AlternateScreen)
        }),
{
    run_keeps_aside(screen_switched(v, true), drawn);
    reveal(screen_switched);
    reveal(cursor_restored);
}

/// Leaving the alternate screen puts the cursor back: whatever was drawn in
/// between, short of saving another position, switching screens again or resetting
/// the terminal, it stands where it stood before the screen was entered.
pub proof fn alternate_screen_restores_the_cursor(v: TermView, drawn: Seq<ActionView>)
    requires
        !v.modes.contains(Mode::AlternateScreen),
        forall|i: int| 0 <= i < drawn.len() ==> !selects_screen(#[trigger] drawn[i]),
        forall|i: int| 0 <= i < drawn.len() ==> !saves_cursor(#[trigger] drawn[i]),
        applied_all(screen_switched(v, true), drawn) is Some,
    ensures
        screen_switched(applied_all(screen_switched(v, true), drawn)->0, false).cursor == v.cursor,
{
    run_keeps_aside(screen_switched(v, true), drawn);
    reveal(screen_switched);
    reveal(cursor_restored);
}

/// A byte of plain text: a printable ASCII character, a carriage return or a line
/// feed.
pub open spec fn plain_text(byte: u8) -> bool {
    0x20 <= byte <= 0x7E || byte == 0x0D || byte == 0x0A
}

proof fn plain_text_is_drawn(p: ParserView, bytes: Seq<u8>)
    requires
        p.state == State::Ground,
        p.utf8.len() == 0,
        forall|i: int| 0 <= i < bytes.len() ==> plain_text(#[trigger] bytes[i]),
    ensures
        run(p, bytes).parser == p,
        forall|i: int|
            0 <= i < run(p, bytes).actions.len() ==> ((#[trigger] run(p, bytes).actions[i]) is Print
                || run(p, bytes).actions[i] == ActionView::Execute(0x0D) || run(
                p,
                bytes,
            ).actions[i] == ActionView::Execute(0x0A)),
        bells_in(run(p, bytes).actions) == 0,
    decreases bytes.len(),
{
    if bytes.len() > 0 {
        let before = bytes.drop_last();
        assert forall|i: int| 0 <= i < before.len() implies plain_text(#[trigger] before[i]) by {
            assert(before[i] == bytes[i]);
        }
        plain_text_is_drawn(p, before);
        assert(plain_text(bytes[bytes.len() - 1]));
        let actions = run(p, bytes).actions;
        assert(actions.drop_last() =~= run(p, before).actions);
        assert forall|i: int| 0 <= i < actions.len() implies ((#[trigger] actions[i]) is Print
            || actions[i] == ActionView::Execute(0x0D) || actions[i] == ActionView::Execute(
            0x0A,
        )) by {
            if i < actions.len() - 1 {
                assert(actions[i] == run(p, before).actions[i]);
            }
        }
    }
}

/// The sequence that enters or leaves the alternate screen.
pub open spec fn screen_sequence(enter: bool) -> Seq<u8> {
    seq![0x1Bu8, 0x5B, 0x3F, 0x31, 0x30, 0x34, 0x39, if enter { 0x68u8 } else { 0x6C }]
}

proof fn screen_sequence_parses(p: ParserView, enter: bool)
    requires
        !in_string(p.state),
    ensures
        run(p, screen_sequence(enter)).parser.state == State::Ground,
        run(p, screen_sequence(enter)).parser.utf8.len() == 0,
        run(p, screen_sequence(enter)).actions == seq![
            ActionView::Csi {
                params: seq![1049u16],
                intermediates: seq![0x3Fu8],
                ignore: false,
                action: if enter { 0x68u8 } else { 0x6C },
            },
        ],
{
    let all = screen_sequence(enter);
    let q1 = ParserView { state: State::Escape, ..cleared(p) };
    let q2 = ParserView { state: State::CsiEntry, ..q1 };
    let q3 = collected(q2, 0x3F, State::CsiParam);
    let q4 = ParserView { current: Some(1u16), ..q3 };
    let q5 = ParserView { current: Some(10u16), ..q3 };
    let q6 = ParserView { current: Some(104u16), ..q3 };
    let q7 = ParserView { current: Some(1049u16), ..q3 };
    assert(transition(p, 0x1B) == quiet(q1));
    assert(transition(q1, 0x5B) == quiet(q2));
    assert(transition(q2, 0x3F) == quiet(q3));
    assert(transition(q3, 0x31) == quiet(q4));
    assert(transition(q4, 0x30) == quiet(q5));
    assert(transition(q5, 0x34) == quiet(q6));
    assert(transition(q6, 0x39) == quiet(q7));
    assert(all.take(0) =~= Seq::<u8>::empty());
    steps_quietly(p, all, 0, p, q1);
    steps_quietly(p, all, 1, q1, q2);
    steps_quietly(p, all, 2, q2, q3);
    steps_quietly(p, all, 3, q3, q4);
    steps_quietly(p, all, 4, q4, q5);
    steps_quietly(p, all, 5, q5, q6);
    steps_quietly(p, all, 6, q6, q7);
    assert(all.drop_last() =~= all.take(7));
    assert(pushed(q7).params =~= seq![1049u16]);
    assert(q7.intermediates =~= seq![0x3Fu8]);
    let last = transition(q7, all[7]);
    assert(last == csi_dispatched(q7, all[7]));
    assert(run(p, all).parser == last.parser);
    assert(run(p, all).actions =~= last.actions);
}

/// A parser that has read `n` bytes silently reads another one silently.
proof fn steps_quietly(p: ParserView, all: Seq<u8>, n: int, here: ParserView, next: ParserView)
    requires
        0 <= n < all.len(),
        run(p, all.take(n)) == quiet(here),
        transition(here, all[n]) == quiet(next),
    ensures
        run(p, all.take(n + 1)) == quiet(next),
{
    let more = all.take(n + 1);
    assert(more.drop_last() =~= all.take(n));
    assert(more.last() == all[n]);
    assert(run(p, more).actions =~= Seq::<ActionView>::empty());
}

/// A program that takes the alternate screen, writes text to it and gives it back
/// leaves the lines and the cursor as they were.
pub proof fn full_screen_programs_leave_no_trace(v: TermView, parser: ParserView, text: Seq<u8>)
    requires
        sound(v),
        !v.modes.contains(Mode::AlternateScreen),
        !in_string(parser.state),
        forall|i: int| 0 <= i < text.len() ==> plain_text(#[trigger] text[i]),
    ensures
        ({
            let after = fed_bytes(v, parser, screen_sequence(true) + text + screen_sequence(false));
            &&& after is Some
            &&& after->0.screen == v.screen
            &&& after->0.cursor == v.cursor
            &&& !after->0.modes.contains(Mode::AlternateScreen)
        }),
{
    let enter = screen_sequence(true);
    let leave = screen_sequence(false);
    let first = run(parser, enter);
    let second = run(first.parser, text);
    let third = run(second.parser, leave);
    screen_sequence_parses(parser, true);
    plain_text_is_drawn(first.parser, text);
    screen_sequence_parses(second.parser, false);
    chunking_is_invisible(parser, enter, text);
    chunking_is_invisible(parser, enter + text, leave);
    let w = screen_switched(v, true);
    assert(applied_all(v, first.actions) == Some(w)) by {
        reveal_with_fuel(applied_all, 2);
        assert(first.actions.drop_last() =~= Seq::<ActionView>::empty());
        reveal(private_mode);
        reveal(private_step);
        reveal(screen_switched);
        reveal(dirtied);
        assert(seq![0x3Fu8].contains(0x3F)) by {
            assert(seq![0x3Fu8][0] == 0x3F);
        }
    }
    switch_is_sound(v, true);
    assert(w.bells == v.bells) by {
        reveal(screen_switched);
    }
    sound_terminals_take_every_run(w, second.actions);
    let x = applied_all(w, second.actions)->0;
    alternate_screen_restores_the_main_screen(v, second.actions);
    alternate_screen_restores_the_cursor(v, second.actions);
    assert(applied_all(x, third.actions) == Some(screen_switched(x, false)) || applied_all(
        x,
        third.actions,
    ) == Some(dirtied(screen_switched(x, false)))) by {
        reveal_with_fuel(applied_all, 2);
        assert(third.actions.drop_last() =~= Seq::<ActionView>::empty());
        reveal(private_mode);
        reveal(private_step);
        assert(seq![0x3Fu8].contains(0x3F)) by {
            assert(seq![0x3Fu8][0] == 0x3F);
        }
    }
    reveal(dirtied);
    applied_all_joins(v, first.actions, second.actions);
    applied_all_joins(v, first.actions + second.actions, third.actions);
}

/// A snapshot reports a change once: another one taken at once shows the same and
/// reports none.
pub proof fn snapshots_report_changes_once(v: TermView)
    ensures
        snapshot_of(snapshot_taken(v)) == (SnapshotView { dirty: false, ..snapshot_of(v) }),
{
}

/// Printing a character makes the next snapshot report a change, unless the cursor
/// was put behind the right margin, where nothing is written.
pub proof fn printing_is_reported(v: TermView, ch: char)
    requires
        sound(v),
        v.cursor.col < v.cols || v.wrap_pending,
    ensures
        applied(v, ActionView::Print(ch)) is Some,
        snapshot_of(applied(v, ActionView::Print(ch))->0).dirty,
{
    sound_terminals_take_every_action(v, ActionView::Print(ch));
    reveal(printed);
    reveal(line_start);
    reveal(shifted);
    reveal(put);
    reveal(dirtied);
}

/// A printable character that is fed between sequences makes the next snapshot
/// report a change, unless the cursor was put behind the right margin.
pub proof fn printable_input_is_reported(v: TermView, parser: ParserView, byte: u8)
    requires
        sound(v),
        v.cursor.col < v.cols || v.wrap_pending,
        parser.state == State::Ground,
        parser.utf8.len() == 0,
        0x20 <= byte <= 0x7E,
    ensures
        fed_bytes(v, parser, seq![byte]) is Some,
        snapshot_of(fed_bytes(v, parser, seq![byte])->0).dirty,
{
    printing_is_reported(v, byte as char);
    reveal_with_fuel(run, 2);
    reveal_with_fuel(applied_all, 2);
    assert(seq![byte].drop_last() =~= Seq::<u8>::empty());
    let actions = run(parser, seq![byte]).actions;
    assert(actions =~= seq![ActionView::Print(byte as char)]);
    assert(actions.drop_last() =~= Seq::<ActionView>::empty());
}

/// Lines outside the scroll region are those of the other state.
pub open spec fn outside_kept(v: TermView, w: TermView) -> bool {
    &&& w.screen.len() == v.screen.len()
    &&& forall|i: int|
        0 <= i < v.screen.len() && !(v.region_top <= i < v.region_bottom) ==> #[trigger] w.screen[i]
            == v.screen[i]
}

proof fn up_is_confined(v: TermView, n: nat)
    requires
        sound(v),
    ensures
        ({
            let w = repeated(|w: TermView| up_once(w), v, n)->0;
            &&& outside_kept(v, w)
            &&& w.region_top == v.region_top
            &&& w.region_bottom == v.region_bottom
            &&& w.rows == v.rows
            &&& !(v.region_top == 0 && v.region_bottom == v.rows) ==> w.scrollback == v.scrollback
        }),
    decreases n,
{
    if n > 0 {
        up_is_confined(v, (n - 1) as nat);
        repeated_up_is_sound(v, (n - 1) as nat);
        let w = repeated(|w: TermView| up_once(w), v, (n - 1) as nat)->0;
        up_once_is_sound(w);
        reveal(up_once);
        let x = up_once(w)->0;
        assert forall|i: int|
            0 <= i < v.screen.len() && !(v.region_top <= i < v.region_bottom) implies #[trigger] x.screen[i]
            == v.screen[i] by {
            assert(w.screen[i] == v.screen[i]);
            let short = w.screen.remove(w.region_top);
            if i < w.region_top {
                assert(short[i] == w.screen[i]);
                assert(x.screen[i] == short[i]);
            } else {
                assert(short[i - 1] == w.screen[i]);
                assert(x.screen[i] == short[i - 1]);
            }
        }
    }
}

proof fn down_is_confined(v: TermView, n: nat)
    requires
        sound(v),
    ensures
        ({
            let w = repeated(|w: TermView| line_inserted(w, w.region_top), v, n)->0;
            &&& outside_kept(v, w)
            &&& w.region_top == v.region_top
            &&& w.region_bottom == v.region_bottom
            &&& w.rows == v.rows
            &&& w.scrollback == v.scrollback
        }),
    decreases n,
{
    if n > 0 {
        down_is_confined(v, (n - 1) as nat);
        repeated_down_is_sound(v, (n - 1) as nat);
        let w = repeated(|w: TermView| line_inserted(w, w.region_top), v, (n - 1) as nat)->0;
        line_inserted_is_sound(w, w.region_top);
        reveal(line_inserted);
        let x = line_inserted(w, w.region_top)->0;
        assert forall|i: int|
            0 <= i < v.screen.len() && !(v.region_top <= i < v.region_bottom) implies #[trigger] x.screen[i]
            == v.screen[i] by {
            assert(w.screen[i] == v.screen[i]);
            let short = w.screen.remove(w.region_bottom - 1);
            if i < w.region_top {
                assert(short[i] == w.screen[i]);
                assert(x.screen[i] == short[i]);
            } else {
                assert(short[i - 1] == w.screen[i]);
                assert(x.screen[i] == short[i - 1]);
            }
        }
    }
}

/// A scroll region confines scrolling: lines outside it stay where they are, and
/// nothing enters the scrollback unless the region is the whole screen and moves
/// up.
pub proof fn scrolling_is_confined_to_the_region(v: TermView, n: nat)
    requires
        sound(v),
    ensures
        scrolled_up(v, n) is Some,
        scrolled_down(v, n) is Some,
        outside_kept(v, scrolled_up(v, n)->0),
        outside_kept(v, scrolled_down(v, n)->0),
        !(v.region_top == 0 && v.region_bottom == v.rows) ==> scrolled_up(v, n)->0.scrollback
            == v.scrollback,
        scrolled_down(v, n)->0.scrollback == v.scrollback,
{
    lines_are_sound(v, n);
    up_is_confined(v, n);
    down_is_confined(v, n);
    reveal(scrolled_up);
    reveal(scrolled_down);
    reveal(dirtied);
}

proof fn applied_all_joins(v: TermView, a: Seq<ActionView>, b: Seq<ActionView>)
    ensures
        applied_all(v, a + b) == match applied_all(v, a) {
            Some(w) => applied_all(w, b),
            None => None,
        },
    decreases b.len(),
{
    if b.len() == 0 {
        assert(a + b =~= a);
    } else {
        assert((a + b).drop_last() =~= a + b.drop_last());
        applied_all_joins(v, a, b.drop_last());
    }
}

/// Where a stream is cut makes no difference to what a terminal shows: feeding
/// it in two pieces leaves the same display as feeding it whole, provided that
/// the first piece does not reset the terminal in the middle of a sequence.
pub proof fn feeding_in_pieces_shows_the_same(
    v: TermView,
    parser: ParserView,
    a: Seq<u8>,
    b: Seq<u8>,
)
    requires
        parsed_bytes(parser, a) == run(parser, a).parser,
    ensures
        fed_bytes(v, parser, a + b) == match fed_bytes(v, parser, a) {
            Some(w) => fed_bytes(w, parsed_bytes(parser, a), b),
            None => None,
        },
{
    chunking_is_invisible(parser, a, b);
    applied_all_joins(v, run(parser, a).actions, run(run(parser, a).parser, b).actions);
}

/// Where a stream is cut makes no difference to the parser of a terminal either,
/// provided that no piece before the last resets the terminal.
pub proof fn feeding_in_pieces_parses_the_same(parser: ParserView, a: Seq<u8>, b: Seq<u8>)
    requires
        !resets(run(parser, a).actions),
    ensures
        parsed_bytes(parser, a + b) == parsed_bytes(parsed_bytes(parser, a), b),
{
    chunking_is_invisible(parser, a, b);
    let first = run(parser, a).actions;
    let second = run(run(parser, a).parser, b).actions;
    let all = first + second;
    if resets(second) {
        let k = choose|k: int| 0 <= k < second.len() && full_reset(#[trigger] second[k]);
        assert(full_reset(all[first.len() + k]));
    } else {
        assert forall|k: int| 0 <= k < all.len() implies !full_reset(#[trigger] all[k]) by {
            if k < first.len() {
                assert(all[k] == first[k]);
            } else {
                assert(all[k] == second[k - first.len()]);
            }
        }
    }
}

} // verus!
