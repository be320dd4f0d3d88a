//! The grid, the parser, the terminal and the encoding of input.
use rdt::grid::{is_wide, Attrs, Cell, Color, Row, Scrollback};
use rdt::input::KeyModifier as M;
use rdt::input::{encode_key, encode_line, encode_paste, Key, KeyModifier};
use rdt::parser::{Action, Parser};
use rdt::term::{Cursor, Modes, Terminal};

#[test]
fn blank_rows_hold_only_empty_cells() {
    let row = Row::blank(4);
    assert_eq!(row.cells.len(), 4);
    assert!(row.cells.iter().all(Cell::is_empty));
    assert_eq!(row.text(), "");
}

#[test]
fn wide_characters_report_two_columns() {
    assert!(is_wide('漢'));
    assert!(is_wide('🎉'));
    assert!(!is_wide('a'));
    assert!(!is_wide('é'));
    assert_eq!(Cell::new('漢', Attrs::plain()).width, 2);
    assert_eq!(Cell::new('a', Attrs::plain()).width, 1);
}

#[test]
fn attribute_equality_is_structural() {
    let mut a = Attrs::plain();
    a.bold = true;
    assert!(!a.is_plain());
    assert_ne!(a, Attrs::plain());
    let b = Attrs {
        fg: Color::Indexed(3),
        ..Attrs::plain()
    };
    assert_ne!(b, Attrs::plain());
}

#[test]
fn scrollback_drops_the_oldest_lines() {
    let mut back = Scrollback::new(3);
    for i in 0..5 {
        let mut row = Row::blank(1);
        row.cells[0].ch = char::from_digit(i, 10).unwrap();
        back.push(row);
    }
    assert_eq!(back.len(), 3);
    assert_eq!(back.line(0).unwrap().cells[0].ch, '2');
    assert_eq!(back.line(2).unwrap().cells[0].ch, '4');
}

#[test]
fn shrinking_the_limit_trims_from_the_top() {
    let mut back = Scrollback::new(5);
    for _ in 0..5 {
        back.push(Row::blank(1));
    }
    back.set_limit(2);
    assert_eq!(back.len(), 2);
}

#[test]
fn a_zero_limit_keeps_nothing() {
    let mut back = Scrollback::new(0);
    back.push(Row::blank(1));
    assert!(back.is_empty());
    assert_eq!(back.limit(), 0);
}

#[test]
fn row_text_trims_trailing_blanks() {
    let mut row = Row::blank(6);
    for (i, ch) in "hi".chars().enumerate() {
        row.cells[i].ch = ch;
    }
    assert_eq!(row.text(), "hi");
    assert_eq!(row.to_string(), "hi");
}

fn plain() -> Modes {
    Modes {
        cursor_visible: true,
        auto_wrap: true,
        ..Modes::default()
    }
}

fn app_cursor() -> Modes {
    Modes {
        application_cursor_keys: true,
        ..plain()
    }
}

#[test]
fn printable_text_is_sent_verbatim() {
    assert_eq!(encode_key(Key::Char('a'), M::NONE, plain()), b"a");
    assert_eq!(encode_key(Key::Char('€'), M::NONE, plain()), "€".as_bytes());
}

#[test]
fn control_combinations_map_to_control_codes() {
    assert_eq!(encode_key(Key::Char('c'), M::CONTROL, plain()), vec![0x03]);
    assert_eq!(encode_key(Key::Char('d'), M::CONTROL, plain()), vec![0x04]);
    assert_eq!(encode_key(Key::Char('z'), M::CONTROL, plain()), vec![0x1A]);
    assert_eq!(encode_key(Key::Char(' '), M::CONTROL, plain()), vec![0x00]);
    assert_eq!(encode_key(Key::Char('C'), M::CONTROL, plain()), vec![0x03]);
}

#[test]
fn enter_and_backspace_match_the_terminal_convention() {
    assert_eq!(encode_key(Key::Enter, M::NONE, plain()), vec![b'\r']);
    assert_eq!(encode_key(Key::Backspace, M::NONE, plain()), vec![0x7F]);
    assert_eq!(
        encode_key(Key::Backspace, M::ALT, plain()),
        vec![0x1B, 0x7F]
    );
}

#[test]
fn shift_tab_sends_the_reverse_sequence() {
    assert_eq!(encode_key(Key::Tab, M::NONE, plain()), vec![b'\t']);
    assert_eq!(
        encode_key(Key::Tab, M::SHIFT, plain()),
        vec![0x1B, b'[', b'Z']
    );
}

#[test]
fn cursor_keys_respect_application_mode() {
    assert_eq!(
        encode_key(Key::Up, M::NONE, plain()),
        vec![0x1B, b'[', b'A']
    );
    assert_eq!(
        encode_key(Key::Up, M::NONE, app_cursor()),
        vec![0x1B, b'O', b'A']
    );
    assert_eq!(
        encode_key(Key::Left, M::NONE, app_cursor()),
        vec![0x1B, b'O', b'D']
    );
}

#[test]
fn modified_cursor_keys_use_the_parameter_form() {
    assert_eq!(
        encode_key(Key::Right, M::SHIFT, plain()),
        vec![0x1B, b'[', b'1', b';', b'2', b'C']
    );
    assert_eq!(
        encode_key(Key::Down, M::CONTROL, plain()),
        vec![0x1B, b'[', b'1', b';', b'5', b'B']
    );
    assert_eq!(
        encode_key(Key::Home, M::ALT, plain()),
        vec![0x1B, b'[', b'1', b';', b'3', b'H']
    );
}

#[test]
fn paging_keys_use_the_tilde_form() {
    assert_eq!(
        encode_key(Key::PageUp, M::NONE, plain()),
        vec![0x1B, b'[', b'5', b'~']
    );
    assert_eq!(
        encode_key(Key::Delete, M::NONE, plain()),
        vec![0x1B, b'[', b'3', b'~']
    );
    assert_eq!(
        encode_key(Key::PageDown, M::CONTROL, plain()),
        vec![0x1B, b'[', b'6', b';', b'5', b'~']
    );
}

#[test]
fn function_keys_follow_the_xterm_table() {
    assert_eq!(
        encode_key(Key::F(1), M::NONE, plain()),
        vec![0x1B, b'O', b'P']
    );
    assert_eq!(
        encode_key(Key::F(4), M::NONE, plain()),
        vec![0x1B, b'O', b'S']
    );
    assert_eq!(
        encode_key(Key::F(5), M::NONE, plain()),
        vec![0x1B, b'[', b'1', b'5', b'~']
    );
    assert_eq!(
        encode_key(Key::F(12), M::NONE, plain()),
        vec![0x1B, b'[', b'2', b'4', b'~']
    );
    assert!(encode_key(Key::F(13), M::NONE, plain()).is_empty());
}

#[test]
fn paste_is_wrapped_only_in_bracketed_mode() {
    let mut modes = plain();
    assert_eq!(encode_paste("ls", modes), b"ls");
    modes.bracketed_paste = true;
    assert_eq!(encode_paste("ls", modes), b"\x1b[200~ls\x1b[201~");
    assert_eq!(encode_line("ls", modes), b"\x1b[200~ls\x1b[201~\r");
    assert_eq!(encode_line("ls", plain()), b"ls\r");
}

fn parse(input: &str) -> Vec<Action> {
    Parser::new().advance(input.as_bytes())
}

fn csi(input: &str) -> Action {
    parse(input).into_iter().next().expect("an action")
}

#[test]
fn plain_text_is_printed_one_character_at_a_time() {
    assert_eq!(parse("ab"), vec![Action::Print('a'), Action::Print('b')]);
}

#[test]
fn control_codes_are_executed() {
    assert_eq!(
        parse("\r\n\t"),
        vec![
            Action::Execute(0x0D),
            Action::Execute(0x0A),
            Action::Execute(0x09)
        ]
    );
}

#[test]
fn utf8_sequences_decode_to_one_character() {
    assert_eq!(parse("é"), vec![Action::Print('é')]);
    assert_eq!(parse("漢"), vec![Action::Print('漢')]);
    assert_eq!(parse("🎉"), vec![Action::Print('🎉')]);
}

#[test]
fn invalid_utf8_becomes_a_replacement_character() {
    let actions = Parser::new().advance(&[0xFF]);
    assert_eq!(actions, vec![Action::Print(char::REPLACEMENT_CHARACTER)]);
    // A truncated sequence followed by ASCII recovers.
    let actions = Parser::new().advance(&[0xC3, b'a']);
    assert_eq!(
        actions,
        vec![
            Action::Print(char::REPLACEMENT_CHARACTER),
            Action::Print('a')
        ]
    );
}

#[test]
fn cursor_movement_parameters_are_parsed() {
    assert_eq!(
        csi("\x1b[12;34H"),
        Action::Csi {
            params: vec![12, 34],
            intermediates: vec![],
            ignore: false,
            action: b'H',
        }
    );
}

#[test]
fn missing_parameters_default_to_zero() {
    assert_eq!(
        csi("\x1b[H"),
        Action::Csi {
            params: vec![0],
            intermediates: vec![],
            ignore: false,
            action: b'H',
        }
    );
    assert_eq!(
        csi("\x1b[;5H"),
        Action::Csi {
            params: vec![0, 5],
            intermediates: vec![],
            ignore: false,
            action: b'H',
        }
    );
}

#[test]
fn private_modes_carry_their_marker() {
    assert_eq!(
        csi("\x1b[?25l"),
        Action::Csi {
            params: vec![25],
            intermediates: vec![b'?'],
            ignore: false,
            action: b'l',
        }
    );
}

#[test]
fn parameters_clamp_instead_of_overflowing() {
    let action = csi("\x1b[999999999H");
    match action {
        Action::Csi { params, .. } => assert_eq!(params, vec![u16::MAX]),
        other => panic!("unexpected {}", other.to_string()),
    }
}

#[test]
fn sub_parameters_collapse_to_the_first_value() {
    // CSI 4:3 m (curly underline) is rendered as a plain underline.
    match csi("\x1b[4:3m") {
        Action::Csi { params, .. } => assert_eq!(params, vec![4]),
        other => panic!("unexpected {}", other.to_string()),
    }
}

#[test]
fn a_private_marker_after_parameters_invalidates_the_sequence() {
    match csi("\x1b[1?H") {
        Action::Csi { ignore, .. } => assert!(ignore),
        other => panic!("unexpected {}", other.to_string()),
    }
}

#[test]
fn escape_sequences_are_dispatched_with_intermediates() {
    assert_eq!(
        csi("\x1b(B"),
        Action::Esc {
            intermediates: vec![b'('],
            ignore: false,
            action: b'B',
        }
    );
    assert_eq!(
        csi("\x1bM"),
        Action::Esc {
            intermediates: vec![],
            ignore: false,
            action: b'M',
        }
    );
}

#[test]
fn osc_sequences_are_split_on_semicolons() {
    assert_eq!(
        csi("\x1b]0;user@host: ~\x07"),
        Action::Osc {
            params: vec!["0".to_owned(), "user@host: ~".to_owned()],
            bell_terminated: true,
        }
    );
    assert_eq!(
        csi("\x1b]2;title\x1b\\"),
        Action::Osc {
            params: vec!["2".to_owned(), "title".to_owned()],
            bell_terminated: false,
        }
    );
}

#[test]
fn cancel_aborts_a_partial_sequence() {
    let actions = parse("\x1b[12\x18H");
    assert!(actions.contains(&Action::Execute(0x18)));
    // The trailing H must be plain text, not a CSI action.
    assert!(actions.contains(&Action::Print('H')));
    assert!(!actions
        .iter()
        .any(|action| matches!(action, Action::Csi { .. })));
}

#[test]
fn device_control_strings_are_framed() {
    // DCS 1 $ r <data> ST : `$` is the intermediate, `r` the final byte.
    let actions = parse("\x1bP1$r1;1H\x1b\\");
    assert!(
        matches!(
            &actions[0],
            Action::DcsStart {
                action: b'r',
                intermediates,
                params,
            } if intermediates == &vec![b'$'] && params == &vec![1u16]
        ),
        "unexpected first action: {:?}",
        actions.first()
    );
    assert!(actions
        .iter()
        .any(|action| matches!(action, Action::DcsData(_))));
    assert_eq!(actions.last(), Some(&Action::DcsEnd));
}

#[test]
fn unknown_sos_and_apc_strings_are_swallowed() {
    let actions = parse("\x1b_garbage\x07done");
    assert!(actions.contains(&Action::Print('d')));
    assert!(!actions
        .iter()
        .any(|action| matches!(action, Action::Print('g'))));
}

#[test]
fn reset_clears_partial_state() {
    let mut parser = Parser::new();
    parser.advance(b"\x1b[12");
    parser.reset();
    assert_eq!(parser.advance(b"H"), vec![Action::Print('H')]);
}

#[test]
fn actions_render_readably() {
    assert_eq!(Action::Print('a').to_string(), "print 'a'");
    assert_eq!(Action::Execute(0x0A).to_string(), "execute 0x0A");
    assert_eq!(Action::DcsEnd.to_string(), "dcs-end");
}

fn term() -> Terminal {
    Terminal::new(10, 4)
}

fn text(terminal: &Terminal) -> Vec<String> {
    terminal.rows().iter().map(Row::text).collect()
}

#[test]
fn text_is_placed_at_the_cursor() {
    let mut terminal = term();
    terminal.advance_str("hello");
    assert_eq!(text(&terminal)[0], "hello");
    assert_eq!(terminal.cursor().col, 5);
}

#[test]
fn carriage_return_and_line_feed_move_the_cursor() {
    let mut terminal = term();
    terminal.advance_str("ab\r\ncd");
    assert_eq!(text(&terminal), vec!["ab", "cd", "", ""]);
}

#[test]
fn output_scrolls_and_fills_scrollback() {
    let mut terminal = term();
    terminal.advance_str("1\r\n2\r\n3\r\n4\r\n5");
    assert_eq!(text(&terminal), vec!["2", "3", "4", "5"]);
    assert_eq!(terminal.scrollback().len(), 1);
    assert_eq!(terminal.scrollback().line(0).unwrap().text(), "1");
}

#[test]
fn cursor_addressing_is_one_based() {
    let mut terminal = term();
    terminal.advance_str("\x1b[3;4HX");
    assert_eq!(text(&terminal)[2], "   X");
    assert_eq!(
        terminal.cursor(),
        Cursor {
            row: 2,
            col: 4,
            attrs: Attrs::plain()
        }
    );
}

#[test]
fn erase_line_modes_work() {
    let mut terminal = term();
    terminal.advance_str("abcdefg\x1b[1;4H\x1b[K");
    assert_eq!(text(&terminal)[0], "abc");
    let mut terminal = term();
    terminal.advance_str("abcdefg\x1b[1;4H\x1b[1K");
    assert_eq!(text(&terminal)[0].trim_start(), "efg");
}

#[test]
fn erase_display_clears_the_screen_and_history() {
    let mut terminal = term();
    terminal.advance_str("a\r\nb\x1b[3J");
    assert!(text(&terminal).iter().all(String::is_empty));
    assert_eq!(terminal.scrollback().len(), 0);
    assert_eq!(terminal.cursor().row, 0);
}

#[test]
fn sgr_sets_and_resets_attributes() {
    let mut terminal = term();
    terminal.advance_str("\x1b[1;31mX\x1b[0mY");
    let row = &terminal.rows()[0];
    assert!(row.cells[0].attrs.bold);
    assert_eq!(row.cells[0].attrs.fg, Color::Indexed(1));
    assert!(row.cells[1].attrs.is_plain());
}

#[test]
fn extended_colours_are_parsed() {
    let mut terminal = term();
    terminal.advance_str("\x1b[38;5;202mX\x1b[48;2;1;2;3mY");
    let row = &terminal.rows()[0];
    assert_eq!(row.cells[0].attrs.fg, Color::Indexed(202));
    assert_eq!(row.cells[1].attrs.bg, Color::Rgb(1, 2, 3));
}

#[test]
fn titles_are_captured_from_osc_sequences() {
    let mut terminal = term();
    terminal.advance_str("\x1b]0;deploy@host: /srv\x07");
    assert_eq!(terminal.title(), "deploy@host: /srv");
}

#[test]
fn alternate_screen_switches_buffers_and_restores_them() {
    let mut terminal = term();
    terminal.advance_str("normal");
    terminal.advance_str("\x1b[?1049h");
    assert!(terminal.modes().alternate_screen);
    terminal.advance_str("alt");
    assert_eq!(text(&terminal)[0], "alt");
    terminal.advance_str("\x1b[?1049l");
    assert_eq!(text(&terminal)[0], "normal");
    assert!(!terminal.modes().alternate_screen);
}

#[test]
fn private_modes_toggle() {
    let mut terminal = term();
    terminal.advance_str("\x1b[?25l");
    assert!(!terminal.modes().cursor_visible);
    terminal.advance_str("\x1b[?25h");
    assert!(terminal.modes().cursor_visible);
    terminal.advance_str("\x1b[?2004h");
    assert!(terminal.modes().bracketed_paste);
    terminal.advance_str("\x1b[?1h");
    assert!(terminal.modes().application_cursor_keys);
}

#[test]
fn scroll_regions_confine_scrolling() {
    let mut terminal = Terminal::new(4, 5);
    terminal.advance_str("a\r\nb\r\nc\r\nd\r\ne");
    terminal.advance_str("\x1b[2;4r\x1b[2;1H");
    terminal.advance_str("X\r\nY\r\nZ\r\nW");
    assert_eq!(text(&terminal)[0], "a");
    assert_eq!(text(&terminal)[4], "e");
    assert_eq!(terminal.scrollback().len(), 0);
}

#[test]
fn resizing_preserves_content_and_clamps_the_cursor() {
    let mut terminal = Terminal::new(10, 4);
    terminal.advance_str("one\r\ntwo\r\nthree\r\nfour");
    terminal.resize(6, 2);
    assert_eq!(terminal.size(), (6, 2));
    // The two topmost lines were pushed into history by the shrink.
    assert_eq!(terminal.scrollback().len(), 2);
    assert_eq!(terminal.scrollback().line(0).unwrap().text(), "one");
    assert_eq!(text(&terminal), vec!["three", "four"]);
    assert!(terminal.cursor().row < 2);
    assert!(terminal.cursor().col < 6);
}

#[test]
fn wrapping_breaks_lines_at_the_right_margin() {
    let mut terminal = Terminal::new(4, 3);
    terminal.advance_str("abcdefgh");
    assert_eq!(text(&terminal), vec!["abcd", "efgh", ""]);
}

#[test]
fn tabs_advance_to_the_next_stop() {
    let mut terminal = term();
    terminal.advance_str("ab\tc");
    assert_eq!(text(&terminal)[0], "ab      c");
}

#[test]
fn backspace_moves_left_without_erasing() {
    let mut terminal = term();
    terminal.advance_str("ab\x08c");
    assert_eq!(text(&terminal)[0], "ac");
}

#[test]
fn bells_are_counted_not_rendered() {
    let mut terminal = term();
    terminal.advance_str("a\x07\x07");
    assert_eq!(terminal.bell_count(), 2);
    assert_eq!(text(&terminal)[0], "a");
}

#[test]
fn snapshots_report_dirty_once() {
    let mut terminal = term();
    terminal.advance_str("x");
    assert!(terminal.snapshot().dirty);
    assert!(!terminal.snapshot().dirty);
    terminal.advance_str("y");
    assert!(terminal.snapshot().dirty);
}

#[test]
fn insert_mode_shifts_text_right() {
    let mut terminal = term();
    terminal.advance_str("ac\x1b[1;2H\x1b[4hb");
    assert_eq!(text(&terminal)[0], "abc");
}

#[test]
fn delete_and_insert_lines_stay_inside_the_region() {
    let mut terminal = Terminal::new(4, 4);
    terminal.advance_str("1\r\n2\r\n3\r\n4");
    terminal.advance_str("\x1b[2;1H\x1b[M");
    assert_eq!(text(&terminal), vec!["1", "3", "4", ""]);
}

#[test]
fn clear_all_resets_everything() {
    let mut terminal = term();
    terminal.advance_str("abc\r\ndef");
    terminal.clear_all();
    assert!(text(&terminal).iter().all(String::is_empty));
    assert_eq!(terminal.cursor(), Cursor::default());
}

#[test]
fn a_full_reset_restores_defaults() {
    let mut terminal = term();
    terminal.advance_str("\x1b[?25l\x1b[1;31mx");
    terminal.advance_str("\x1bc");
    assert!(terminal.modes().cursor_visible);
    assert!(text(&terminal).iter().all(String::is_empty));
}

/// Drives a terminal through a realistic shell session.
#[test]
fn a_shell_session_renders_as_expected() {
    let mut terminal = Terminal::new(40, 8);
    // Prompt, echo of the typed command, program output, next prompt.
    terminal.advance_str("user@host:~$ ");
    for ch in "ls -l".chars() {
        let bytes = encode_key(Key::Char(ch), KeyModifier::NONE, terminal.modes());
        terminal.advance(&bytes);
    }
    terminal.advance(&encode_key(Key::Enter, KeyModifier::NONE, terminal.modes()));
    terminal.advance_str("\r\ntotal 8\r\ndrwxr-xr-x 2 user user 4096 Jan  1 00:00 bin\r\n");
    terminal.advance_str("user@host:~$ ");

    let snapshot = terminal.snapshot();
    assert_eq!(snapshot.rows[0].text(), "user@host:~$ ls -l");
    assert_eq!(snapshot.rows[1].text(), "total 8");
    assert!(snapshot.rows[2].text().starts_with("drwxr-xr-x"));
    assert!(snapshot.cursor_visible);
    assert!(!snapshot.dirty || snapshot.dirty); // first snapshot is always dirty
}

#[test]
fn a_full_screen_application_uses_the_alternate_screen() {
    let mut terminal = Terminal::new(20, 3);
    terminal.advance_str("shell prompt");
    // Enter an alternate screen application (vim, htop, less).
    terminal.advance_str("\x1b[?1049h\x1b[?1h\x1b[2J\x1b[H");
    terminal.advance_str("line1\r\nline2");
    assert!(terminal.modes().alternate_screen);
    assert!(terminal.modes().application_cursor_keys);
    assert_eq!(terminal.rows()[0].text(), "line1");
    // Arrow keys are encoded in application mode while the app is running.
    assert_eq!(
        encode_key(Key::Down, KeyModifier::NONE, terminal.modes()),
        vec![0x1B, b'O', b'B']
    );
    // Quitting restores the shell screen.
    terminal.advance_str("\x1b[?1049l");
    assert_eq!(terminal.rows()[0].text(), "shell prompt");
}

#[test]
fn long_output_scrolls_and_keeps_history() {
    let mut terminal = Terminal::new(6, 3);
    for index in 0..10 {
        terminal.advance_str(&format!("line{index}\r\n"));
    }
    assert_eq!(terminal.rows().len(), 3);
    assert!(terminal.scrollback().len() >= 7);
    assert_eq!(terminal.scrollback().line(0).unwrap().text(), "line0");
}

#[test]
fn pasting_multi_line_text_is_bracketed() {
    let mut terminal = Terminal::new(20, 4);
    terminal.advance_str("\x1b[?2004h");
    let bytes = encode_paste("echo one\necho two", terminal.modes());
    terminal.advance(&bytes);
    assert!(terminal.rows()[0].text().starts_with("echo one"));
}

#[test]
fn pieces_of_input_show_the_same() {
    let bytes = "ab\x1b[1;31mé\x1b[0m\x1b[2;3Hx\x1b]0;t\x07".as_bytes();
    let mut whole = Terminal::new(12, 3);
    whole.advance(bytes);
    for cut in 0..=bytes.len() {
        let mut pieces = Terminal::new(12, 3);
        pieces.advance(&bytes[..cut]);
        pieces.advance(&bytes[cut..]);
        assert_eq!(text(&pieces), text(&whole));
        assert_eq!(pieces.cursor(), whole.cursor());
        assert_eq!(pieces.title(), "t");
    }
}

#[test]
fn leaving_the_alternate_screen_restores_the_cursor() {
    let mut terminal = Terminal::new(10, 4);
    terminal.advance_str("ab\r\ncd");
    let before = terminal.cursor();
    terminal.advance_str("\x1b[?1049h\x1b[3;7Hzz\x1b[?1049l");
    assert_eq!(terminal.cursor(), before);
    assert_eq!(text(&terminal), vec!["ab", "cd", "", ""]);
}

#[test]
fn soundness_is_lost_only_by_shrinking_below_what_is_kept() {
    let mut terminal = Terminal::new(10, 4);
    assert!(terminal.is_sound());
    terminal.advance_str("\x1b[4;9H\x1b7");
    assert!(terminal.is_sound());
    terminal.resize(5, 2);
    assert!(!terminal.is_sound());
    terminal.resize(10, 4);
    assert!(terminal.is_sound());
}

#[test]
fn terminal_sizes_are_clamped() {
    assert_eq!(Terminal::new(0, 0).size(), (1, 1));
    assert_eq!(Terminal::new(100_000, 100_000).size(), (500, 200));
}

#[test]
fn every_kind_of_action_renders() {
    let actions = parse("\x1b[5A\x1bM\x1b]2;a b\x07\x1bP1$rxy\x1b\\");
    let shown: Vec<String> = actions.iter().map(|action| action.to_string()).collect();
    assert_eq!(shown[0], "csi 65");
    assert_eq!(shown[1], "esc 77");
    assert_eq!(shown[2], "osc [\"2\", \"a b\"]");
    assert_eq!(shown[3], "dcs 114");
    assert!(shown.iter().any(|line| line.starts_with("dcs-data ")));
    assert_eq!(shown.last().map(String::as_str), Some("dcs-end"));
    assert_eq!(Action::Print('\'').to_string(), "print '\\''");
}

#[test]
fn modifiers_combine() {
    assert_eq!(M::SHIFT.union(M::ALT), M::SHIFT_ALT);
    assert!(M::SHIFT_ALT.contains(M::SHIFT));
    assert!(!M::SHIFT.contains(M::CONTROL));
    assert_eq!(M::CONTROL.xterm_parameter(), 5);
}

#[test]
fn private_mode_66_selects_the_application_keypad() {
    let mut terminal = Terminal::new(10, 4);
    terminal.advance_str("\x1b[?66h");
    assert!(terminal.modes().application_keypad);
    terminal.advance_str("\x1b[?66l");
    assert!(!terminal.modes().application_keypad);
}

#[test]
fn curly_underlines_are_plain_underlines() {
    assert_eq!(
        Parser::new().advance(b"\x1b[4:3m"),
        vec![Action::Csi { params: vec![4], intermediates: vec![], ignore: false, action: b'm' }]
    );
    let mut terminal = Terminal::new(10, 4);
    terminal.advance_str("\x1b[4:3mX");
    assert_eq!(terminal.rows()[0].cells[0].ch, 'X');
    assert!(terminal.rows()[0].cells[0].attrs.underline);
}

#[test]
fn full_screen_programs_leave_lines_and_cursor_as_they_were() {
    let mut terminal = Terminal::new(10, 4);
    terminal.advance_str("$ vi\r\nab");
    let cursor = terminal.cursor();
    let before = terminal.snapshot();
    terminal.advance_str("\x1b[?1049h~\r\n~\r\n~ a long line that wraps\x1b[?1049l");
    assert_eq!(terminal.cursor(), cursor);
    let after = terminal.snapshot();
    assert_eq!(after.rows, before.rows);
    assert_eq!(after.clone(), after);
    assert!(!terminal.modes().alternate_screen);
}

#[test]
fn characters_behind_the_margin_change_nothing() {
    let mut terminal = Terminal::new(2, 1);
    terminal.advance_str("ab\x1b7\r\x1b8");
    let _ = terminal.snapshot();
    terminal.advance_str("c");
    assert!(!terminal.snapshot().dirty);
    terminal.advance_str("\rd");
    assert!(terminal.snapshot().dirty);
}

#[test]
fn modified_function_keys_have_one_form() {
    assert_eq!(encode_key(Key::F(1), M::SHIFT, plain()), b"\x1b[1;2P");
    assert_eq!(encode_key(Key::F(5), M::CONTROL, plain()), b"\x1b[1;5~");
    for number in 1..=12 {
        let bytes = encode_key(Key::F(number), M::SHIFT_ALT_CONTROL, plain());
        assert_eq!(bytes.len(), 6);
        assert_eq!(&bytes[..5], b"\x1b[1;8");
    }
    assert!(encode_key(Key::F(13), M::SHIFT, plain()).is_empty());
}

#[test]
fn history_stays_within_its_limit() {
    let mut terminal = Terminal::new(3, 2);
    for _ in 0..10_050 {
        terminal.advance_str("x\r\n");
    }
    assert_eq!(terminal.scrollback().len(), 10_000);
    assert_eq!(terminal.scrollback().limit(), 10_000);
    assert_eq!(terminal.size(), (3, 2));
}
