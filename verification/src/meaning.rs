//! What each operation does, said of its inputs and its results alone.
use vstd::prelude::*;

use crate::buffer::{captured, refreshed, BufferView};
use crate::decoder::{events_in, TermEvent};
use crate::emulator::{screen_of, ScreenView};
use crate::fd_pty::{dup_result, fault_text, writer_attempt, writer_attempts, PtyFault};
use crate::laws::{law_path_drops_host, lemma_attempts_len, lemma_ended, lemma_taken_stays_taken};
use crate::lifecycle::{advanced, run, steps, Setup, Step, TerminalError};
use crate::reply::{
    all_reported, decimal, lemma_last_report, lemma_no_report, notices, path_of, position_report,
    read_effects, replies, written, Effect, Reports,
};
use crate::session::{close_calls_for, update_calls_for, SessionView};
use crate::size::{size_of, winsize_of, PtySize, Winsize};

verus! {

/// A number in decimal is made of digits, has no zero in front unless it is zero
/// itself, and read as a decimal number it is that number.
pub proof fn law_decimal_reads_back(n: nat)
    ensures
        decimal(n).len() > 0,
        forall|i: int| 0 <= i < decimal(n).len() ==> 48 <= #[trigger] decimal(n)[i] <= 57,
        decimal(n)[0] == 48 ==> n == 0,
        n == 0 ==> decimal(n).len() == 1,
        decimal(n).fold_left(0int, |value: int, digit: u8| 10 * value + (digit - 48)) == n,
    decreases n,
{
    let read = |value: int, digit: u8| 10 * value + (digit - 48);
    if n < 10 {
        assert(decimal(n).drop_last() =~= Seq::empty());
        reveal_with_fuel(Seq::fold_left, 2);
    } else {
        law_decimal_reads_back(n / 10);
        assert(decimal(n).drop_last() =~= decimal(n / 10));
        assert(decimal(n).last() == 48 + n % 10);
        assert(decimal(n).fold_left(0int, read) == read(
            decimal(n / 10).fold_left(0int, read),
            decimal(n).last(),
        ));
    }
}

/// A position report is `ESC [`, the row, a semicolon, the column and `R`, both counted
/// from one where the cursor is counted from zero.
pub proof fn law_position_report_counts_from_one(row: nat, col: nat)
    ensures
        position_report(row, col) == seq![0x1bu8, 0x5b] + decimal(row + 1) + seq![0x3bu8]
            + decimal(col + 1) + seq![0x52u8],
{
}

/// The answers to a list of events are one for each query in it, in order. Which one
/// depends on the kind of the query alone, and for the cursor on where it stands.
pub proof fn law_answers_by_kind(events: Seq<TermEvent<Seq<char>>>, row: nat, col: nat)
    ensures
        replies(events, row, col) == events.filter(
            |event: TermEvent<Seq<char>>|
                event is PrimaryAttributes || event is SecondaryAttributes || event is StatusReport
                    || event is CursorPosition,
        ).map_values(
            |event: TermEvent<Seq<char>>|
                match event {
                    TermEvent::PrimaryAttributes => seq![
                        0x1bu8,
                        0x5b,
                        0x3f,
                        0x36,
                        0x32,
                        0x3b,
                        0x32,
                        0x32,
                        0x63,
                    ],
                    TermEvent::SecondaryAttributes => seq![
                        0x1bu8,
                        0x5b,
                        0x3e,
                        0x30,
                        0x3b,
                        0x30,
                        0x3b,
                        0x30,
                        0x63,
                    ],
                    TermEvent::StatusReport => seq![0x1bu8, 0x5b, 0x30, 0x6e],
                    _ => seq![0x1bu8, 0x5b] + decimal(row + 1) + seq![0x3bu8] + decimal(col + 1)
                        + seq![0x52u8],
                },
        ),
    decreases events.len(),
{
    reveal(Seq::filter);
    if events.len() > 0 {
        law_answers_by_kind(events.drop_last(), row, col);
    }
}

/// The announcements of a list of events are one of the title for each event that sets
/// it and one of the clipboard for each event that sets that, in order, whatever text
/// they carry, and nothing else.
pub proof fn law_announcements_by_kind(events: Seq<TermEvent<Seq<char>>>)
    ensures
        notices(events) == events.filter(
            |event: TermEvent<Seq<char>>|
                event is WindowTitle || event is IconNameAndWindowTitle || event is Selection,
        ).map_values(
            |event: TermEvent<Seq<char>>|
                if event is Selection {
                    Effect::<Seq<u8>>::NotifyClipboard
                } else {
                    Effect::NotifyTitle
                },
        ),
    decreases events.len(),
{
    reveal(Seq::filter);
    if events.len() > 0 {
        law_announcements_by_kind(events.drop_last());
    }
}

/// What a chunk of output calls for: the announcements of what it sets, then, while the
/// program can be written to, the answers to what it asks and a flush if there are any,
/// then an update and the news that there was output.
pub proof fn law_what_output_calls_for(
    events: Seq<TermEvent<Seq<char>>>,
    row: nat,
    col: nat,
    writer_open: bool,
)
    ensures
        ({
            let effects = read_effects(events, row, col, writer_open);
            let told = events.filter(
                |event: TermEvent<Seq<char>>|
                    event is WindowTitle || event is IconNameAndWindowTitle || event is Selection,
            );
            let asked = events.filter(
                |event: TermEvent<Seq<char>>|
                    event is PrimaryAttributes || event is SecondaryAttributes || event
                        is StatusReport || event is CursorPosition,
            );
            let answered: nat = if writer_open {
                asked.len()
            } else {
                0
            };
            let flushed: nat = if answered > 0 {
                1
            } else {
                0
            };
            &&& effects.len() == told.len() + answered + flushed + 2
            &&& forall|i: int|
                0 <= i < told.len() ==> if told[i] is Selection {
                    #[trigger] effects[i] is NotifyClipboard
                } else {
                    effects[i] is NotifyTitle
                }
            &&& forall|i: int|
                0 <= i < answered ==> {
                    let answer = effects[told.len() + i];
                    &&& answer is Write
                    &&& match #[trigger] asked[i] {
                        TermEvent::PrimaryAttributes => answer->Write_0 == seq![
                            0x1bu8,
                            0x5b,
                            0x3f,
                            0x36,
                            0x32,
                            0x3b,
                            0x32,
                            0x32,
                            0x63,
                        ],
                        TermEvent::SecondaryAttributes => answer->Write_0 == seq![
                            0x1bu8,
                            0x5b,
                            0x3e,
                            0x30,
                            0x3b,
                            0x30,
                            0x3b,
                            0x30,
                            0x63,
                        ],
                        TermEvent::StatusReport => answer->Write_0 == seq![
                            0x1bu8,
                            0x5b,
                            0x30,
                            0x6e,
                        ],
                        _ => answer->Write_0 == seq![0x1bu8, 0x5b] + decimal(row + 1)
                            + seq![0x3bu8] + decimal(col + 1) + seq![0x52u8],
                    }
                }
            &&& flushed > 0 ==> effects[(told.len() + answered) as int] is Flush
            &&& effects[effects.len() - 2] is SendUpdate
            &&& effects[effects.len() - 1] is NotifyOutput
        }),
{
    law_answers_by_kind(events, row, col);
    law_announcements_by_kind(events);
}

/// What a read calls for, on a session that has read before or not: each query in its
/// bytes is answered, and a query for the cursor by the place where the screen has the
/// cursor after the bytes were drawn.
pub proof fn law_what_a_read_calls_for(session: SessionView, bytes: Seq<u8>)
    ensures
        ({
            let events = events_in(session.fed, bytes);
            let effects = session.read_calls_for(bytes);
            let screen = screen_of(session.after_read(bytes).emulator);
            let told = events.filter(
                |event: TermEvent<Seq<char>>|
                    event is WindowTitle || event is IconNameAndWindowTitle || event is Selection,
            );
            let asked = events.filter(
                |event: TermEvent<Seq<char>>|
                    event is PrimaryAttributes || event is SecondaryAttributes || event
                        is StatusReport || event is CursorPosition,
            );
            let answered: nat = if session.writer_open {
                asked.len()
            } else {
                0
            };
            let flushed: nat = if answered > 0 {
                1
            } else {
                0
            };
            &&& effects.len() == told.len() + answered + flushed + 2
            &&& forall|i: int|
                0 <= i < told.len() ==> if told[i] is Selection {
                    #[trigger] effects[i] is NotifyClipboard
                } else {
                    effects[i] is NotifyTitle
                }
            &&& forall|i: int|
                0 <= i < answered ==> {
                    let answer = effects[told.len() + i];
                    &&& answer is Write
                    &&& match #[trigger] asked[i] {
                        TermEvent::PrimaryAttributes => answer->Write_0 == seq![
                            0x1bu8,
                            0x5b,
                            0x3f,
                            0x36,
                            0x32,
                            0x3b,
                            0x32,
                            0x32,
                            0x63,
                        ],
                        TermEvent::SecondaryAttributes => answer->Write_0 == seq![
                            0x1bu8,
                            0x5b,
                            0x3e,
                            0x30,
                            0x3b,
                            0x30,
                            0x3b,
                            0x30,
                            0x63,
                        ],
                        TermEvent::StatusReport => answer->Write_0 == seq![
                            0x1bu8,
                            0x5b,
                            0x30,
                            0x6e,
                        ],
                        _ => answer->Write_0 == seq![0x1bu8, 0x5b] + decimal(screen.cursor_row as nat + 1)
                            + seq![0x3bu8] + decimal(screen.cursor_col as nat + 1) + seq![0x52u8],
                    }
                }
            &&& flushed > 0 ==> effects[(told.len() + answered) as int] is Flush
            &&& effects[effects.len() - 2] is SendUpdate
            &&& effects[effects.len() - 1] is NotifyOutput
        }),
{
    let screen = screen_of(session.after_read(bytes).emulator);
    law_what_output_calls_for(
        events_in(session.fed, bytes),
        screen.cursor_row as nat,
        screen.cursor_col as nat,
        session.writer_open,
    );
}

/// What is written is the answers, in order, and then a flush, and nothing at all
/// where there is no answer or no program left to write to.
pub proof fn law_what_is_written(answers: Seq<Seq<u8>>, writer_open: bool)
    ensures
        !writer_open || answers.len() == 0 ==> written(answers, writer_open).len() == 0,
        writer_open && answers.len() > 0 ==> {
            let effects = written(answers, writer_open);
            &&& effects.len() == answers.len() + 1
            &&& forall|i: int|
                0 <= i < answers.len() ==> #[trigger] effects[i] == Effect::Write(answers[i])
            &&& effects[answers.len() as int] is Flush
        },
{
}

/// What is known of a program changes with each report: the text of the last one of its
/// kind, and where there was none what was known before.
pub proof fn law_what_is_remembered(
    before: Reports<Seq<char>>,
    events: Seq<TermEvent<Seq<char>>>,
    last: int,
)
    requires
        -1 <= last < events.len(),
    ensures
        ({
            let after = all_reported(before, events);
            let later_title = exists|i: int|
                last < i < events.len() && (#[trigger] events[i] is WindowTitle || events[i]
                    is IconNameAndWindowTitle);
            let later_text = exists|i: int|
                last < i < events.len() && #[trigger] events[i] is Selection;
            let later_path = exists|i: int|
                last < i < events.len() && #[trigger] events[i] is WorkingDirectory;
            &&& last == -1 && !later_title ==> after.title == before.title
            &&& last == -1 && !later_text ==> after.clipboard_content == before.clipboard_content
            &&& last == -1 && !later_path ==> after.cwd == before.cwd
            &&& last >= 0 && !later_title && events[last] is WindowTitle ==> after.title == Some(
                events[last]->WindowTitle_0,
            )
            &&& last >= 0 && !later_title && events[last] is IconNameAndWindowTitle ==> after.title
                == Some(events[last]->IconNameAndWindowTitle_0)
            &&& last >= 0 && !later_text && events[last] is Selection ==> after.clipboard_content
                == Some(events[last]->Selection_0)
            &&& last >= 0 && !later_path && events[last] is WorkingDirectory ==> after.cwd == Some(
                path_of(events[last]->WorkingDirectory_0),
            )
        }),
{
    lemma_no_report(before, events);
    if last >= 0 {
        lemma_last_report(before, events, last);
    }
}

/// The path in a working directory report. Without the scheme it is the report itself.
/// With it, the path starts at the first slash after the scheme, and where there is
/// none, it is all that follows the scheme.
pub proof fn law_path_of_a_report(url: Seq<char>, host: Seq<char>, path: Seq<char>)
    requires
        !host.contains('/'),
    ensures
        !"file://"@.is_prefix_of(url) ==> path_of(url) == url,
        path_of("file://"@ + host) == host,
        path_of("file://"@ + host + seq!['/'] + path) == seq!['/'] + path,
{
    let bare = "file://"@ + host;
    assert(bare.subrange(0, "file://"@.len() as int) =~= "file://"@);
    assert(bare.skip("file://"@.len() as int) =~= host);
    law_path_drops_host(host, path);
}

/// The text of a fault says which call failed and what the kernel said of it, or that
/// the writer is gone.
pub proof fn law_fault_texts(os_error: Seq<char>)
    ensures
        fault_text(PtyFault::SetSize, os_error) == "ioctl(TIOCSWINSZ) failed: "@ + os_error,
        fault_text(PtyFault::GetSize, os_error) == "ioctl(TIOCGWINSZ) failed: "@ + os_error,
        fault_text(PtyFault::Dup, os_error) == "dup() failed: "@ + os_error,
        fault_text(PtyFault::WriterTaken, os_error) == "cannot take writer more than once"@,
{
}

/// A size keeps its rows, its columns and its two sides in pixels on the way to the
/// kernel and on the way back, each under its own name.
pub proof fn law_size_fields_keep_their_names(size: PtySize, ws: Winsize)
    ensures
        winsize_of(size).ws_row == size.rows,
        winsize_of(size).ws_col == size.cols,
        winsize_of(size).ws_xpixel == size.pixel_width,
        winsize_of(size).ws_ypixel == size.pixel_height,
        size_of(ws).rows == ws.ws_row,
        size_of(ws).cols == ws.ws_col,
        size_of(ws).pixel_width == ws.ws_xpixel,
        size_of(ws).pixel_height == ws.ws_ypixel,
{
}

/// Every descriptor that the kernel grants is handed on as it is, and every refusal is
/// a fault: for a reader each time, for the writer until one has been granted.
pub proof fn law_granted_descriptors_are_handed_on(duped: i32)
    ensures
        duped >= 0 ==> dup_result(duped) == Ok::<i32, PtyFault>(duped),
        duped < 0 ==> dup_result(duped) == Err::<i32, PtyFault>(PtyFault::Dup),
        duped >= 0 ==> writer_attempt(false, duped) == (true, Ok::<i32, PtyFault>(duped)),
        duped < 0 ==> writer_attempt(false, duped) == (false, Err::<i32, PtyFault>(PtyFault::Dup)),
        writer_attempt(true, duped) == (true, Err::<i32, PtyFault>(PtyFault::WriterTaken)),
{
}

/// In a run of attempts to take a writer that nobody has, exactly the first descriptor
/// that is granted is handed out. Before it every attempt is refused, and after it
/// every one is told that the writer is taken.
pub proof fn law_first_grant_takes_the_writer(dups: Seq<i32>, at: int)
    requires
        0 <= at < dups.len(),
    ensures
        writer_attempts(false, dups).len() == dups.len(),
        (exists|i: int| 0 <= i < at && #[trigger] dups[i] >= 0) ==> writer_attempts(
            false,
            dups,
        )[at] == Err::<i32, PtyFault>(PtyFault::WriterTaken),
        (forall|i: int| 0 <= i < at ==> #[trigger] dups[i] < 0) ==> writer_attempts(
            false,
            dups,
        )[at] == if dups[at] >= 0 {
            Ok::<i32, PtyFault>(dups[at])
        } else {
            Err(PtyFault::Dup)
        },
    decreases dups.len(),
{
    let rest = dups.skip(1);
    if dups[0] >= 0 {
        lemma_taken_stays_taken(rest);
    } else {
        if at > 0 {
            law_first_grant_takes_the_writer(rest, at - 1);
            assert(forall|i: int| 0 <= i < rest.len() ==> #[trigger] rest[i] == dups[i + 1]);
            if exists|i: int| 0 <= i < at && #[trigger] dups[i] >= 0 {
                let i = choose|i: int| 0 <= i < at && #[trigger] dups[i] >= 0;
                assert(rest[i - 1] >= 0);
            }
        } else {
            lemma_attempts_len(false, rest);
        }
    }
}

/// A refreshed buffer has the cursor where the screen has it and shows it unless the
/// screen hides it. It has the size of the screen, keeps how far the user has scrolled
/// back, and tells how long the history is.
pub proof fn law_buffer_tells_the_screen(screen: ScreenView, buffer: BufferView)
    requires
        screen.history.len() <= usize::MAX,
    ensures
        refreshed(screen, buffer).cursor_row == screen.cursor_row,
        refreshed(screen, buffer).cursor_col == screen.cursor_col,
        refreshed(screen, buffer).cursor_visible == !screen.cursor_hidden,
        refreshed(screen, buffer).cols == screen.cols,
        refreshed(screen, buffer).rows_count == screen.rows,
        refreshed(screen, buffer).rows.len() == screen.rows,
        refreshed(screen, buffer).scroll_offset == buffer.scroll_offset,
        refreshed(screen, buffer).total_scrollback == screen.history.len(),
{
}

/// A row of a refreshed buffer is the line that stands there with the user scrolled
/// back as far as they are, or as far as the history goes. The newest lines, those of
/// the grid, are at the bottom, and the oldest one of the history comes first.
pub proof fn law_buffer_row_is_a_line(screen: ScreenView, buffer: BufferView, row: int)
    requires
        screen.grid.len() == screen.rows,
        forall|i: int|
            0 <= i < screen.grid.len() ==> (#[trigger] screen.grid[i]).len() == screen.cols,
        forall|i: int|
            0 <= i < screen.history.len() ==> (#[trigger] screen.history[i]).len() == screen.cols,
        0 <= row < screen.rows,
    ensures
        ({
            let scrolled: int = if buffer.scroll_offset <= screen.history.len() {
                buffer.scroll_offset as int
            } else {
                screen.history.len() as int
            };
            let line = screen.history.len() - scrolled + row;
            refreshed(screen, buffer).rows[row] == if line < screen.history.len() {
                screen.history[line]
            } else {
                screen.grid[line - screen.history.len()]
            }
        }),
{
}

/// A selection keeps its rows and columns. Both ends move back by as many lines as the
/// history has gained, as far as a `usize` can tell, and stay where it has gained none.
pub proof fn law_selection_moves_with_the_history(screen: ScreenView, buffer: BufferView)
    requires
        screen.history.len() <= usize::MAX,
    ensures
        buffer.selection is None ==> refreshed(screen, buffer).selection is None,
        buffer.selection matches Some(before) ==> {
            let gained: int = if screen.history.len() > buffer.total_scrollback {
                screen.history.len() - buffer.total_scrollback
            } else {
                0
            };
            &&& refreshed(screen, buffer).selection is Some
            &&& {
                let after = refreshed(screen, buffer).selection->0;
                &&& after.start_row == before.start_row
                &&& after.start_col == before.start_col
                &&& after.end_row == before.end_row
                &&& after.end_col == before.end_col
                &&& before.start_scroll + gained <= usize::MAX ==> after.start_scroll
                    == before.start_scroll + gained
                &&& before.start_scroll + gained > usize::MAX ==> after.start_scroll == usize::MAX
                &&& before.end_scroll + gained <= usize::MAX ==> after.end_scroll
                    == before.end_scroll + gained
                &&& before.end_scroll + gained > usize::MAX ==> after.end_scroll == usize::MAX
            }
        },
{
}

/// A snapshot has the cursor where the screen has it and shows it unless the screen
/// hides it, has the size of the screen, and no selection. How far it is scrolled back
/// and how long the history is are as they were given.
pub proof fn law_snapshot_tells_the_screen(
    screen: ScreenView,
    scroll_offset: usize,
    total_scrollback: usize,
)
    ensures
        ({
            let buffer = captured(screen, scroll_offset, total_scrollback);
            &&& buffer.cursor_row == screen.cursor_row
            &&& buffer.cursor_col == screen.cursor_col
            &&& buffer.cursor_visible == !screen.cursor_hidden
            &&& buffer.cols == screen.cols
            &&& buffer.rows_count == screen.rows
            &&& buffer.rows.len() == screen.rows
            &&& buffer.selection is None
            &&& buffer.scroll_offset == scroll_offset
            &&& buffer.total_scrollback == total_scrollback
        }),
{
}

/// An update changes the buffer and what the emulator has in view. What has been read,
/// what is known of the program and the writer stay, and the window is drawn again.
pub proof fn law_update_keeps_the_rest(session: SessionView)
    ensures
        session.after_update().seen == session.seen,
        session.after_update().fed == session.fed,
        session.after_update().reports == session.reports,
        session.after_update().writer_open == session.writer_open,
        update_calls_for().len() == 1,
        update_calls_for()[0] is RequestRedraw,
{
}

/// The end of the updates closes the writer and changes nothing else. The writer is
/// dropped, those who wait are told, and the window is drawn again, in that order.
pub proof fn law_close_keeps_the_rest(session: SessionView)
    ensures
        !session.after_close().writer_open,
        session.after_close().emulator == session.emulator,
        session.after_close().seen == session.seen,
        session.after_close().fed == session.fed,
        session.after_close().buffer == session.buffer,
        session.after_close().reports == session.reports,
        close_calls_for().len() == 3,
        close_calls_for()[0] is DropWriter,
        close_calls_for()[1] is NotifyClosed,
        close_calls_for()[2] is RequestRedraw,
{
}

/// A read takes its bytes in at the end of what was read before, and leaves the buffer
/// and the writer alone.
pub proof fn law_read_keeps_the_rest(session: SessionView, bytes: Seq<u8>)
    ensures
        session.after_read(bytes).seen == session.seen + bytes,
        session.after_read(bytes).fed == session.fed + seq![bytes],
        session.after_read(bytes).buffer == session.buffer,
        session.after_read(bytes).writer_open == session.writer_open,
{
    assert(session.fed.push(bytes) =~= session.fed + seq![bytes]);
}

/// Starting a terminal from nothing, with the first failure, if there is one, at the
/// step `failed`. Without one the pty is opened with 24 rows of 80 columns, the command
/// started, the writer taken and a reader cloned, and the terminal is ready. With one
/// there is no terminal, for the reason that that step gave; and if the command was
/// running, it is killed and then waited for, once each.
pub proof fn law_how_a_spawn_goes(outcomes: Seq<Result<(), Seq<char>>>, failed: int)
    requires
        outcomes.len() >= 6,
        0 <= failed <= 4,
        forall|i: int| 0 <= i < failed ==> #[trigger] outcomes[i] is Ok,
        failed < 4 ==> outcomes[failed] is Err,
    ensures
        ({
            let carried_out = steps(Setup::Opening, outcomes);
            let all = seq![
                Step::OpenPty(PtySize { rows: 24, cols: 80, pixel_width: 0, pixel_height: 0 }),
                Step::SpawnCommand,
                Step::TakeWriter,
                Step::CloneReader,
            ];
            &&& failed == 4 ==> run(Setup::Opening, outcomes) is Ready && carried_out == all
            &&& failed < 4 ==> run(Setup::Opening, outcomes) == (Setup::Failed {
                error: TerminalError::PtyError(outcomes[failed]->Err_0),
            })
            &&& failed < 2 ==> carried_out == all.take(failed + 1)
            &&& 2 <= failed < 4 ==> carried_out == all.take(failed + 1) + seq![
                Step::KillChild,
                Step::ReapChild,
            ]
        }),
{
    let start = Setup::<Seq<char>>::Opening;
    let first = outcomes.skip(1);
    let second = first.skip(1);
    let third = second.skip(1);
    let fourth = third.skip(1);
    let fifth = fourth.skip(1);
    let sixth = fifth.skip(1);
    reveal_with_fuel(run, 7);
    reveal_with_fuel(steps, 7);
    assert(first[0] == outcomes[1] && second[0] == outcomes[2] && third[0] == outcomes[3]);
    let all = seq![
        Step::OpenPty(PtySize { rows: 24, cols: 80, pixel_width: 0, pixel_height: 0 }),
        Step::SpawnCommand,
        Step::TakeWriter,
        Step::CloneReader,
    ];
    if failed == 0 {
        lemma_ended(advanced(start, outcomes[0]), first);
        assert(steps(start, outcomes) =~= all.take(1));
    } else if failed == 1 {
        lemma_ended(advanced(advanced(start, outcomes[0]), outcomes[1]), second);
        assert(steps(start, outcomes) =~= all.take(2));
    } else if failed == 4 {
        lemma_ended(Setup::Ready, fourth);
        assert(steps(start, outcomes) =~= all);
    } else if failed == 2 {
        let error = TerminalError::PtyError(outcomes[2]->Err_0);
        lemma_ended(Setup::Failed { error }, fifth);
        assert(steps(start, outcomes) =~= all.take(3) + seq![Step::KillChild, Step::ReapChild]);
    } else {
        let error = TerminalError::PtyError(outcomes[3]->Err_0);
        lemma_ended(Setup::Failed { error }, sixth);
        assert(steps(start, outcomes) =~= all.take(4) + seq![Step::KillChild, Step::ReapChild]);
    }
}

/// Attaching to a master, with or without a command running on it, and with the first
/// failure, if there is one, at the step `failed`: the writer is taken, then a reader is
/// cloned. A failure of either is the reason why there is no terminal, and only a
/// command that was started here is killed and waited for.
pub proof fn law_how_an_attach_goes(
    child: bool,
    outcomes: Seq<Result<(), Seq<char>>>,
    failed: int,
)
    requires
        outcomes.len() >= 4,
        0 <= failed <= 2,
        forall|i: int| 0 <= i < failed ==> #[trigger] outcomes[i] is Ok,
        failed < 2 ==> outcomes[failed] is Err,
    ensures
        ({
            let start = Setup::TakingWriter { child };
            let all = seq![Step::TakeWriter, Step::CloneReader];
            &&& failed == 2 ==> run(start, outcomes) is Ready && steps(start, outcomes) == all
            &&& failed < 2 ==> run(start, outcomes) == (Setup::Failed {
                error: TerminalError::PtyError(outcomes[failed]->Err_0),
            })
            &&& failed < 2 && !child ==> steps(start, outcomes) == all.take(failed + 1)
            &&& failed < 2 && child ==> steps(start, outcomes) == all.take(failed + 1) + seq![
                Step::KillChild,
                Step::ReapChild,
            ]
        }),
{
    let start = Setup::<Seq<char>>::TakingWriter { child };
    let first = outcomes.skip(1);
    let second = first.skip(1);
    let third = second.skip(1);
    let fourth = third.skip(1);
    reveal_with_fuel(run, 5);
    reveal_with_fuel(steps, 5);
    assert(first[0] == outcomes[1]);
    let all = seq![Step::TakeWriter, Step::CloneReader];
    if failed == 2 {
        lemma_ended(Setup::Ready, second);
        assert(steps(start, outcomes) =~= all);
    } else {
        let error = TerminalError::PtyError(outcomes[failed]->Err_0);
        let done = Setup::Failed { error };
        lemma_ended(done, first);
        lemma_ended(done, second);
        lemma_ended(done, third);
        lemma_ended(done, fourth);
        if child {
            assert(steps(start, outcomes) =~= all.take(failed + 1) + seq![
                Step::KillChild,
                Step::ReapChild,
            ]);
        } else {
            assert(steps(start, outcomes) =~= all.take(failed + 1));
        }
    }
}

} // verus!
