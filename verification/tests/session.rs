use freya_terminal::buffer::{TerminalBuffer, TerminalSelection};
use freya_terminal::emulator::Emulator;
use freya_terminal::pty::{extract_buffer, query_max_scrollback};
use freya_terminal::reply::Effect;
use freya_terminal::session::Session;

/// The text of one row of a buffer, blank cells as spaces, trailing ones dropped.
fn text(buffer: &TerminalBuffer, row: usize) -> String {
    let mut line = String::new();
    for cell in &buffer.rows[row] {
        if cell.contents().is_empty() {
            line.push(' ');
        } else {
            line.push_str(cell.contents());
        }
    }
    line.trim_end().to_string()
}

fn read(session: &mut Session, data: &[u8]) -> Vec<Effect<Vec<u8>>> {
    session.on_read(Some(data)).expect("output goes on")
}

fn writes(effects: &[Effect<Vec<u8>>]) -> Vec<Vec<u8>> {
    effects
        .iter()
        .filter_map(|effect| match effect {
            Effect::Write(bytes) => Some(bytes.clone()),
            _ => None,
        })
        .collect()
}

fn lines(from: usize, to: usize) -> Vec<u8> {
    let mut out = String::new();
    for i in from..to {
        out.push_str(&format!("line {i}\r\n"));
    }
    out.into_bytes()
}

#[test]
fn a_new_emulator_is_blank() {
    let mut emulator = Emulator::with_scrollback(100);
    assert_eq!(query_max_scrollback(&mut emulator), 0);
    let buffer = extract_buffer(&emulator, 3, 5);
    assert_eq!(buffer.rows.len(), 24);
    assert!(buffer.rows.iter().all(|row| row.len() == 80));
    assert!(buffer.rows.iter().flatten().all(|cell| !cell.has_contents()));
    assert_eq!((buffer.rows_count, buffer.cols), (24, 80));
    assert_eq!((buffer.cursor_row, buffer.cursor_col), (0, 0));
    assert!(buffer.cursor_visible);
    assert_eq!(buffer.selection, None);
    assert_eq!((buffer.scroll_offset, buffer.total_scrollback), (3, 5));
}

#[test]
fn a_new_session_shows_and_knows_nothing() {
    let session = Session::new(100);
    assert_eq!(session.buffer.rows.len(), 0);
    assert_eq!((session.buffer.rows_count, session.buffer.cols), (0, 0));
    assert_eq!(session.buffer.selection, None);
    assert_eq!(session.buffer.total_scrollback, 0);
    assert!(!session.buffer.cursor_visible);
    assert!(session.writer_open);
    assert_eq!(session.reports.cwd, None);
    assert_eq!(session.reports.title, None);
    assert_eq!(session.reports.clipboard_content, None);
}

#[test]
fn output_reaches_the_buffer_at_the_next_update() {
    let mut session = Session::new(100);
    let effects = read(&mut session, b"hello\r\nworld");
    assert!(matches!(
        effects[..],
        [Effect::SendUpdate, Effect::NotifyOutput]
    ));
    assert_eq!(session.buffer.rows.len(), 0);

    let effects = session.on_update();
    assert!(matches!(effects[..], [Effect::RequestRedraw]));
    assert_eq!(text(&session.buffer, 0), "hello");
    assert_eq!(text(&session.buffer, 1), "world");
    assert_eq!(session.buffer.cursor_row, 1);
    assert_eq!(session.buffer.cursor_col, 5);
    assert!(session.buffer.cursor_visible);
}

#[test]
fn an_empty_or_failed_read_ends_the_reading() {
    let mut session = Session::new(100);
    assert!(session.on_read(Some(b"")).is_none());
    assert!(session.on_read(None).is_none());
    assert!(session.writer_open);
}

#[test]
fn queries_in_the_output_are_answered() {
    let mut session = Session::new(100);
    let effects = read(&mut session, b"\x1b[c\x1b[>c\x1b[5n");
    assert_eq!(
        writes(&effects),
        vec![
            b"\x1b[?62;22c".to_vec(),
            b"\x1b[>0;0;0c".to_vec(),
            b"\x1b[0n".to_vec(),
        ]
    );
    assert!(matches!(
        effects[3..],
        [Effect::Flush, Effect::SendUpdate, Effect::NotifyOutput]
    ));
}

#[test]
fn the_cursor_is_reported_where_the_chunk_leaves_it() {
    let mut session = Session::new(100);
    // The second line is printed after the query, but in the same chunk.
    let effects = read(&mut session, b"ab\x1b[6ncd\r\ne");
    assert_eq!(writes(&effects), vec![b"\x1b[2;2R".to_vec()]);
    let effects = read(&mut session, b"\x1b[24;80H\x1b[6n");
    assert_eq!(writes(&effects), vec![b"\x1b[24;80R".to_vec()]);
    // A full line leaves the cursor past its end until it wraps.
    let effects = read(&mut session, b"x\x1b[6n");
    assert_eq!(writes(&effects), vec![b"\x1b[24;81R".to_vec()]);
}

#[test]
fn reports_are_remembered_and_announced() {
    let mut session = Session::new(100);
    let effects = read(
        &mut session,
        b"\x1b]7;file://box/srv/www\x1b\\\x1b]2;vim\x07\x1b]52;c;aGVsbG8=\x07",
    );
    assert!(matches!(
        effects[..],
        [
            Effect::NotifyTitle,
            Effect::NotifyClipboard,
            Effect::SendUpdate,
            Effect::NotifyOutput
        ]
    ));
    assert_eq!(session.reports.cwd.as_deref(), Some("/srv/www"));
    assert_eq!(session.reports.title.as_deref(), Some("vim"));
    assert_eq!(session.reports.clipboard_content.as_deref(), Some("hello"));

    read(&mut session, b"\x1b]0;top\x07");
    assert_eq!(session.reports.title.as_deref(), Some("top"));
}

#[test]
fn a_query_may_be_split_over_reads() {
    let mut session = Session::new(100);
    assert_eq!(writes(&read(&mut session, b"\x1b[")).len(), 0);
    assert_eq!(
        writes(&read(&mut session, b"5n")),
        vec![b"\x1b[0n".to_vec()]
    );
}

#[test]
fn a_closed_session_writes_nothing() {
    let mut session = Session::new(100);
    let effects = session.on_closed();
    assert!(matches!(
        effects[..],
        [
            Effect::DropWriter,
            Effect::NotifyClosed,
            Effect::RequestRedraw
        ]
    ));
    assert!(!session.writer_open);
    let effects = read(&mut session, b"\x1b[6n\x1b]2;t\x07");
    assert!(matches!(
        effects[..],
        [
            Effect::NotifyTitle,
            Effect::SendUpdate,
            Effect::NotifyOutput
        ]
    ));
    session.on_update();
    assert!(!session.writer_open);
}

#[test]
fn history_grows_up_to_its_limit() {
    let mut session = Session::new(10);
    read(&mut session, &lines(0, 23));
    assert_eq!(query_max_scrollback(&mut session.emulator), 0);
    read(&mut session, &lines(23, 27));
    assert_eq!(query_max_scrollback(&mut session.emulator), 4);
    read(&mut session, &lines(27, 100));
    session.on_update();
    assert_eq!(session.buffer.total_scrollback, 10);
}

#[test]
fn asking_for_the_history_does_not_move_the_view() {
    let mut session = Session::new(100);
    read(&mut session, &lines(0, 40));
    session.on_update();
    let before: Vec<String> = (0..24).map(|row| text(&session.buffer, row)).collect();
    assert_eq!(query_max_scrollback(&mut session.emulator), 17);
    assert_eq!(query_max_scrollback(&mut session.emulator), 17);
    let after = extract_buffer(&session.emulator, 0, 17);
    let after: Vec<String> = (0..24).map(|row| text(&after, row)).collect();
    assert_eq!(before, after);
    assert_eq!(before[0], "line 17");
    assert_eq!(before[23], "");
}

#[test]
fn the_buffer_is_a_window_on_what_was_printed() {
    let mut session = Session::new(100);
    read(&mut session, &lines(0, 60));
    for (offset, top) in [(0, 37), (5, 32), (24, 13), (30, 7), (37, 0), (1000, 0)] {
        session.buffer.scroll_offset = offset;
        session.on_update();
        assert_eq!(session.buffer.scroll_offset, offset);
        assert_eq!(session.buffer.total_scrollback, 37);
        assert_eq!(session.buffer.rows.len(), 24);
        assert!(session.buffer.rows.iter().all(|row| row.len() == 80));
        for row in 0..23 {
            assert_eq!(text(&session.buffer, row), format!("line {}", top + row));
        }
    }
}

#[test]
fn a_selection_moves_back_with_its_lines() {
    let selection = TerminalSelection {
        start_row: 1,
        start_col: 2,
        start_scroll: 3,
        end_row: 4,
        end_col: 5,
        end_scroll: usize::MAX - 2,
    };
    let mut session = Session::new(100);
    read(&mut session, &lines(0, 30));
    session.on_update();
    assert_eq!(session.buffer.total_scrollback, 7);
    session.buffer.selection = Some(selection);

    read(&mut session, &lines(30, 36));
    session.on_update();
    assert_eq!(session.buffer.total_scrollback, 13);
    let moved = session.buffer.selection.expect("selection");
    assert_eq!(moved.start_scroll, 9);
    assert_eq!(moved.end_scroll, usize::MAX);
    assert_eq!((moved.start_row, moved.start_col), (1, 2));
    assert_eq!((moved.end_row, moved.end_col), (4, 5));

    session.on_update();
    assert_eq!(session.buffer.selection, Some(moved));
}

#[test]
fn a_selection_stays_when_the_history_goes_away() {
    let mut session = Session::new(100);
    read(&mut session, &lines(0, 30));
    session.on_update();
    let mut selection = TerminalSelection {
        start_row: 0,
        start_col: 0,
        start_scroll: 3,
        end_row: 0,
        end_col: 0,
        end_scroll: 3,
    };
    session.buffer.selection = Some(selection);
    // The alternate screen keeps no history.
    read(&mut session, b"\x1b[?1049h");
    session.on_update();
    assert_eq!(session.buffer.total_scrollback, 0);
    assert_eq!(session.buffer.selection, Some(selection));
    read(&mut session, b"\x1b[?1049l");
    session.on_update();
    assert_eq!(session.buffer.total_scrollback, 7);
    selection.shift(7);
    assert_eq!(session.buffer.selection, Some(selection));
    assert_eq!(selection.start_scroll, 10);
}

#[test]
fn updating_twice_changes_nothing() {
    let mut session = Session::new(100);
    read(&mut session, &lines(0, 40));
    session.buffer.scroll_offset = 4;
    session.on_update();
    let first: Vec<String> = (0..24).map(|row| text(&session.buffer, row)).collect();
    session.on_update();
    let second: Vec<String> = (0..24).map(|row| text(&session.buffer, row)).collect();
    assert_eq!(first, second);
    assert_eq!(session.buffer.total_scrollback, 17);
}

#[test]
fn a_hidden_cursor_is_not_shown() {
    let mut session = Session::new(100);
    read(&mut session, b"\x1b[?25l");
    session.on_update();
    assert!(!session.buffer.cursor_visible);
    read(&mut session, b"\x1b[?25h");
    session.on_update();
    assert!(session.buffer.cursor_visible);
}

#[test]
fn the_size_outlives_any_output() {
    let mut session = Session::new(50);
    read(
        &mut session,
        "\x1b[8;10;20t\x1bc\x1b[5;10r\x1b[?6h\x1b[99;99H漢字\t\x1b[3@\x1b[2P\x1b[4L\x1b[9M\x1b[?47h界\x1b[S"
            .as_bytes(),
    );
    session.on_update();
    assert_eq!((session.buffer.rows_count, session.buffer.cols), (24, 80));
    assert_eq!(session.buffer.rows.len(), 24);
    assert!(session.buffer.rows.iter().all(|row| row.len() == 80));
    assert!(session.buffer.cursor_row < 24);
    assert!(session.buffer.cursor_col <= 80);
}

#[test]
fn a_character_of_three_columns_keeps_to_the_screen() {
    let mut session = Session::new(50);
    // There is just room for it here. The cursor moves on by two columns.
    read(&mut session, "\x1b[1;78H\u{17d8}".as_bytes());
    session.on_update();
    assert_eq!((session.buffer.cursor_row, session.buffer.cursor_col), (0, 79));
    // There is none here: the line wraps first.
    for col in [79, 80] {
        read(&mut session, format!("\x1b[1;{col}H\u{17d8}").as_bytes());
        session.on_update();
        assert_eq!((session.buffer.cursor_row, session.buffer.cursor_col), (1, 2));
        assert_eq!(session.buffer.rows[1][0].contents(), "\u{17d8}");
    }
    // On the last row the screen scrolls.
    read(&mut session, "\x1b[24;80H\u{17d8}\u{17d8}".as_bytes());
    session.on_update();
    assert_eq!((session.buffer.cursor_row, session.buffer.cursor_col), (23, 4));
    assert_eq!(session.buffer.total_scrollback, 1);
    assert_eq!((session.buffer.rows_count, session.buffer.cols), (24, 80));
    assert_eq!(session.buffer.rows.len(), 24);
    assert!(session.buffer.rows.iter().all(|row| row.len() == 80));
}

#[test]
fn output_may_be_cut_anywhere() {
    let output = b"a\x1b[c\x1b]7;file://box/tmp\x07b\x1b[>c\x1b]0;one\x07\x1b]2;zw\xc3\xb6lf\x1b\\\x1b]52;c;aGk=\x07\x1b[5n\r\nc";
    let expected = vec![
        b"\x1b[?62;22c".to_vec(),
        b"\x1b[>0;0;0c".to_vec(),
        b"\x1b[0n".to_vec(),
    ];
    for size in 1..=output.len() {
        let mut session = Session::new(50);
        let mut written: Vec<Vec<u8>> = Vec::new();
        let mut titles = 0;
        for chunk in output.chunks(size) {
            let effects = read(&mut session, chunk);
            written.extend(writes(&effects));
            titles += effects
                .iter()
                .filter(|effect| matches!(effect, Effect::NotifyTitle))
                .count();
        }
        session.on_update();
        assert_eq!(written, expected);
        assert_eq!(titles, 2);
        assert_eq!(session.reports.cwd.as_deref(), Some("/tmp"));
        assert_eq!(session.reports.title.as_deref(), Some("zw\u{f6}lf"));
        assert_eq!(session.reports.clipboard_content.as_deref(), Some("hi"));
        assert_eq!(text(&session.buffer, 0), "ab");
        assert_eq!(text(&session.buffer, 1), "c");
    }
}

#[test]
fn the_screen_does_not_depend_on_cuts_between_characters() {
    let output = "ab\x1b[31mc\u{e9}d\u{20ac}\r\n\u{1f600}x\u{754c}\x1b[2;9Hy\u{17d8}z\tend";
    let mut whole = Session::new(50);
    read(&mut whole, output.as_bytes());
    whole.on_update();
    assert_eq!(text(&whole.buffer, 0), "abc\u{e9}d\u{20ac}");
    for first in 0..output.len() {
        for second in first + 1..output.len() {
            if !output.is_char_boundary(first) || !output.is_char_boundary(second) {
                continue;
            }
            let mut cut = Session::new(50);
            for chunk in [&output[..first], &output[first..second], &output[second..]] {
                cut.on_read(Some(chunk.as_bytes()));
            }
            cut.on_update();
            assert!(cut.buffer.rows == whole.buffer.rows);
            assert_eq!(cut.buffer.cursor_row, whole.buffer.cursor_row);
            assert_eq!(cut.buffer.cursor_col, whole.buffer.cursor_col);
        }
    }
}

#[test]
fn a_control_string_may_be_cut_too() {
    // A request for a setting, which ends in `q`, and a query after it.
    let output = b"\x1bP$qm\x1b\\\x1b[5n";
    for size in 1..=output.len() {
        let mut session = Session::new(50);
        let mut written: Vec<Vec<u8>> = Vec::new();
        for chunk in output.chunks(size) {
            written.extend(writes(&read(&mut session, chunk)));
        }
        assert_eq!(written, vec![b"\x1b[0n".to_vec()]);
    }
}

#[test]
fn the_close_comes_after_the_pending_updates() {
    for end in [None, Some(&b""[..])] {
        let mut session = Session::new(50);
        let mut pending = 0;
        let mut notices = 0;
        for chunk in [&b"one\r\n"[..], b"two\r\n", b"three\x1b[5n"] {
            for effect in read(&mut session, chunk) {
                match effect {
                    Effect::SendUpdate => pending += 1,
                    Effect::NotifyOutput => notices += 1,
                    Effect::Write(bytes) => assert_eq!(bytes, b"\x1b[0n"),
                    Effect::Flush => {}
                    _ => panic!("not called for by a read"),
                }
            }
        }
        assert_eq!((pending, notices), (3, 3));
        assert!(session.on_read(end).is_none());
        for _ in 0..pending {
            assert!(matches!(session.on_update()[..], [Effect::RequestRedraw]));
            assert!(session.writer_open);
        }
        assert_eq!(text(&session.buffer, 2), "three");
        assert!(matches!(
            session.on_closed()[..],
            [
                Effect::DropWriter,
                Effect::NotifyClosed,
                Effect::RequestRedraw
            ]
        ));
        assert!(!session.writer_open);
    }
}
