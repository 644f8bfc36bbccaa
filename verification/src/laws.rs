//! Laws that tie the functions of the library together.
use vstd::prelude::*;

use crate::buffer::{refreshed, BufferView};
use crate::decoder::TermEvent;
use crate::emulator::ScreenView;
use crate::fd_pty::{writer_attempt, writer_attempts, PtyFault};
use crate::lifecycle::{advanced, awaited, run, steps, Setup, Step, TerminalError};
use crate::reply::{
    all_reported, decimal, file_scheme, notices, path_of, position_report, read_effects, replies,
    reply_to, Reports,
};
use crate::size::{size_of, winsize_of, PtySize, Winsize};

verus! {

/// A size survives the way to the kernel and back, so asking for the size after a
/// resize tells the size that was set.
pub proof fn law_size_round_trip(size: PtySize, ws: Winsize)
    ensures
        size_of(winsize_of(size)) == size,
        winsize_of(size_of(ws)) == ws,
{
}

pub proof fn lemma_attempts_len(taken: bool, dups: Seq<i32>)
    ensures
        writer_attempts(taken, dups).len() == dups.len(),
    decreases dups.len(),
{
    if dups.len() > 0 {
        lemma_attempts_len(writer_attempt(taken, dups[0]).0, dups.skip(1));
    }
}

pub proof fn lemma_taken_stays_taken(dups: Seq<i32>)
    ensures
        writer_attempts(true, dups).len() == dups.len(),
        forall|i: int|
            0 <= i < dups.len() ==> #[trigger] writer_attempts(true, dups)[i] == Err::<
                i32,
                PtyFault,
            >(PtyFault::WriterTaken),
    decreases dups.len(),
{
    if dups.len() > 0 {
        lemma_taken_stays_taken(dups.skip(1));
    }
}

/// The writer is taken at most once: once an attempt has succeeded, every later one
/// is told that the writer is taken, whatever the kernel answers.
pub proof fn law_writer_taken_once(taken: bool, dups: Seq<i32>, first: int, later: int)
    requires
        0 <= first < later < dups.len(),
        writer_attempts(taken, dups)[first] is Ok,
    ensures
        writer_attempts(taken, dups).len() == dups.len(),
        writer_attempts(taken, dups)[later] == Err::<i32, PtyFault>(PtyFault::WriterTaken),
    decreases dups.len(),
{
    lemma_attempts_len(taken, dups);
    lemma_attempts_len(writer_attempt(taken, dups[0]).0, dups.skip(1));
    if taken {
        lemma_taken_stays_taken(dups);
    } else if first == 0 {
        lemma_taken_stays_taken(dups.skip(1));
    } else if writer_attempt(taken, dups[0]).0 {
        lemma_taken_stays_taken(dups.skip(1));
    } else {
        law_writer_taken_once(false, dups.skip(1), first - 1, later - 1);
    }
}

/// Failed duplications do not use the writer up: however many there were, the first
/// one that the kernel grants hands the writer out.
pub proof fn law_failed_dup_does_not_poison(dups: Seq<i32>, granted: int)
    requires
        0 <= granted < dups.len(),
        forall|i: int| 0 <= i < granted ==> dups[i] < 0,
        dups[granted] >= 0,
    ensures
        forall|i: int|
            0 <= i < granted ==> #[trigger] writer_attempts(false, dups)[i] == Err::<i32, PtyFault>(
                PtyFault::Dup,
            ),
        writer_attempts(false, dups)[granted] == Ok::<i32, PtyFault>(dups[granted]),
    decreases granted,
{
    lemma_attempts_len(false, dups);
    lemma_attempts_len(writer_attempt(false, dups[0]).0, dups.skip(1));
    if granted > 0 {
        let rest = dups.skip(1);
        assert(forall|i: int| 0 <= i < granted - 1 ==> rest[i] == dups[i + 1]);
        law_failed_dup_does_not_poison(rest, granted - 1);
        let all = writer_attempts(false, dups);
        assert(all =~= seq![Err::<i32, PtyFault>(PtyFault::Dup)] + writer_attempts(false, rest));
        assert forall|i: int| 0 <= i < granted implies #[trigger] all[i] == Err::<i32, PtyFault>(
            PtyFault::Dup,
        ) by {
            if i > 0 {
                assert(all[i] == writer_attempts(false, rest)[i - 1]);
            }
        }
    }
}

/// A setup that fails with its command running kills the command and then waits for
/// it, once each and last of all, before the failure comes out. The failure is that
/// of the step on the master, however the killing and the waiting went.
pub proof fn law_failed_attach_kills_and_reaps(outcomes: Seq<Result<(), Seq<char>>>)
    requires
        run(Setup::TakingWriter { child: true }, outcomes) is Failed,
    ensures
        outcomes.len() >= 3,
        outcomes[0] is Err ==> {
            &&& steps(Setup::TakingWriter { child: true }, outcomes) == seq![
                Step::TakeWriter,
                Step::KillChild,
                Step::ReapChild,
            ]
            &&& run(Setup::TakingWriter { child: true }, outcomes) == (Setup::Failed {
                error: TerminalError::PtyError(outcomes[0]->Err_0),
            })
        },
        outcomes[0] is Ok ==> {
            &&& outcomes.len() >= 4
            &&& outcomes[1] is Err
            &&& steps(Setup::TakingWriter { child: true }, outcomes) == seq![
                Step::TakeWriter,
                Step::CloneReader,
                Step::KillChild,
                Step::ReapChild,
            ]
            &&& run(Setup::TakingWriter { child: true }, outcomes) == (Setup::Failed {
                error: TerminalError::PtyError(outcomes[1]->Err_0),
            })
        },
{
    let start = Setup::<Seq<char>>::TakingWriter { child: true };
    reveal_with_fuel(run, 6);
    reveal_with_fuel(steps, 6);
    assert(outcomes.len() > 0);
    if outcomes[0] is Err {
        let failed = advanced(
            advanced(advanced(start, outcomes[0]), outcomes[1]),
            outcomes[2],
        );
        lemma_ended(failed, outcomes.skip(1).skip(1).skip(1));
        assert(steps(start, outcomes) =~= seq![Step::TakeWriter, Step::KillChild, Step::ReapChild]);
    } else {
        let second = advanced(advanced(start, outcomes[0]), outcomes[1]);
        if outcomes[1] is Ok {
            lemma_ended(second, outcomes.skip(1).skip(1));
        } else {
            let failed = advanced(advanced(second, outcomes[2]), outcomes[3]);
            lemma_ended(failed, outcomes.skip(1).skip(1).skip(1).skip(1));
            assert(steps(start, outcomes) =~= seq![
                Step::TakeWriter,
                Step::CloneReader,
                Step::KillChild,
                Step::ReapChild,
            ]);
        }
    }
}

pub proof fn lemma_ended(state: Setup<Seq<char>>, outcomes: Seq<Result<(), Seq<char>>>)
    requires
        awaited(state) is None,
    ensures
        run(state, outcomes) == state,
        steps(state, outcomes) == Seq::<Step>::empty(),
    decreases outcomes.len(),
{
    if outcomes.len() > 0 {
        lemma_ended(state, outcomes.skip(1));
    }
}

/// A setup that succeeds has taken the writer and cloned a reader and done nothing
/// else, and leaves the command alone.
pub proof fn law_ready_leaves_the_child_alone(child: bool, outcomes: Seq<Result<(), Seq<char>>>)
    requires
        run(Setup::TakingWriter { child }, outcomes) is Ready,
    ensures
        outcomes.len() >= 2,
        outcomes[0] is Ok,
        outcomes[1] is Ok,
        steps(Setup::TakingWriter { child }, outcomes) == seq![Step::TakeWriter, Step::CloneReader],
{
    let start = Setup::<Seq<char>>::TakingWriter { child };
    reveal_with_fuel(run, 3);
    reveal_with_fuel(steps, 3);
    assert(outcomes.len() > 0);
    let first = advanced(start, outcomes[0]);
    if outcomes[0] is Err {
        lemma_abandoned_never_ready(first, outcomes.skip(1));
    } else {
        assert(outcomes.len() > 1);
        let second = advanced(first, outcomes[1]);
        if outcomes[1] is Err {
            lemma_abandoned_never_ready(second, outcomes.skip(1).skip(1));
        } else {
            lemma_ended(second, outcomes.skip(1).skip(1));
            assert(steps(start, outcomes) =~= seq![Step::TakeWriter, Step::CloneReader]);
        }
    }
}

proof fn lemma_abandoned_never_ready(
    state: Setup<Seq<char>>,
    outcomes: Seq<Result<(), Seq<char>>>,
)
    requires
        state is Killing || state is Reaping || state is Failed,
    ensures
        !(run(state, outcomes) is Ready),
    decreases outcomes.len(),
{
    if outcomes.len() > 0 {
        lemma_abandoned_never_ready(advanced(state, outcomes[0]), outcomes.skip(1));
    }
}

/// A master that was opened elsewhere has no command to clean up after: nothing is
/// killed or waited for, however its setup goes.
pub proof fn law_adopted_master_kills_nothing(outcomes: Seq<Result<(), Seq<char>>>, i: int)
    requires
        0 <= i < steps(Setup::TakingWriter { child: false }, outcomes).len(),
    ensures
        steps(Setup::TakingWriter { child: false }, outcomes)[i] is TakeWriter || steps(
            Setup::TakingWriter { child: false },
            outcomes,
        )[i] is CloneReader,
{
    let start = Setup::<Seq<char>>::TakingWriter { child: false };
    reveal_with_fuel(steps, 3);
    if outcomes.len() > 0 {
        let first = advanced(start, outcomes[0]);
        if outcomes[0] is Err {
            lemma_ended(first, outcomes.skip(1));
        } else if outcomes.len() > 1 {
            lemma_ended(advanced(first, outcomes[1]), outcomes.skip(1).skip(1));
        }
    }
}

/// A setup that cannot open the pty or start the command has nothing to clean up:
/// it fails at once, with the text of that step. Once both have worked it goes on
/// like a setup whose command has just been started.
pub proof fn law_spawn_goes_on_as_attach(outcomes: Seq<Result<(), Seq<char>>>)
    requires
        outcomes.len() >= 2,
    ensures
        outcomes[0] is Err ==> {
            &&& steps(Setup::Opening, outcomes).len() == 1
            &&& steps(Setup::Opening, outcomes)[0] is OpenPty
            &&& run(Setup::Opening, outcomes) == (Setup::Failed {
                error: TerminalError::PtyError(outcomes[0]->Err_0),
            })
        },
        outcomes[0] is Ok && outcomes[1] is Err ==> {
            &&& steps(Setup::Opening, outcomes).len() == 2
            &&& steps(Setup::Opening, outcomes)[0] is OpenPty
            &&& steps(Setup::Opening, outcomes)[1] is SpawnCommand
            &&& run(Setup::Opening, outcomes) == (Setup::Failed {
                error: TerminalError::PtyError(outcomes[1]->Err_0),
            })
        },
        outcomes[0] is Ok && outcomes[1] is Ok ==> {
            &&& steps(Setup::Opening, outcomes) == seq![
                awaited(Setup::Opening)->0,
                Step::SpawnCommand,
            ] + steps(Setup::TakingWriter { child: true }, outcomes.skip(2))
            &&& run(Setup::Opening, outcomes) == run(
                Setup::TakingWriter { child: true },
                outcomes.skip(2),
            )
        },
{
    let start = Setup::<Seq<char>>::Opening;
    reveal_with_fuel(run, 3);
    reveal_with_fuel(steps, 3);
    let first = advanced(start, outcomes[0]);
    let second = advanced(first, outcomes[1]);
    assert(outcomes.skip(1).skip(1) =~= outcomes.skip(2));
    if outcomes[0] is Err {
        lemma_ended(first, outcomes.skip(1));
        assert(steps(start, outcomes) =~= seq![awaited(start)->0]);
    } else if outcomes[1] is Err {
        lemma_ended(second, outcomes.skip(2));
        assert(steps(start, outcomes) =~= seq![awaited(start)->0, Step::SpawnCommand]);
    } else {
        assert(steps(start, outcomes) =~= seq![awaited(start)->0, Step::SpawnCommand] + steps(
            second,
            outcomes.skip(2),
        ));
    }
}

/// No setup goes on for ever: six steps are enough for any.
pub proof fn law_setup_ends(state: Setup<Seq<char>>, outcomes: Seq<Result<(), Seq<char>>>)
    requires
        outcomes.len() >= 6,
    ensures
        awaited(run(state, outcomes)) is None,
{
    lemma_setup_ends(state, outcomes);
}

/// The most steps that a state can still be away from the end.
spec fn steps_left(state: Setup<Seq<char>>) -> nat {
    match state {
        Setup::Opening => 6,
        Setup::Spawning => 5,
        Setup::TakingWriter { .. } => 4,
        Setup::CloningReader { .. } => 3,
        Setup::Killing { .. } => 2,
        Setup::Reaping { .. } => 1,
        _ => 0,
    }
}

proof fn lemma_setup_ends(state: Setup<Seq<char>>, outcomes: Seq<Result<(), Seq<char>>>)
    requires
        outcomes.len() >= steps_left(state),
    ensures
        awaited(run(state, outcomes)) is None,
    decreases outcomes.len(),
{
    if outcomes.len() > 0 {
        lemma_setup_ends(advanced(state, outcomes[0]), outcomes.skip(1));
    }
}

/// Events can be dealt with in one go or in two: the answers, the announcements and
/// what is remembered are the same.
pub proof fn law_events_split(
    reports: Reports<Seq<char>>,
    first: Seq<TermEvent<Seq<char>>>,
    second: Seq<TermEvent<Seq<char>>>,
    row: nat,
    col: nat,
)
    ensures
        replies(first + second, row, col) == replies(first, row, col) + replies(second, row, col),
        notices(first + second) == notices(first) + notices(second),
        all_reported(reports, first + second) == all_reported(
            all_reported(reports, first),
            second,
        ),
    decreases second.len(),
{
    if second.len() == 0 {
        assert(first + second =~= first);
        assert(replies(first, row, col) + replies(second, row, col) =~= replies(first, row, col));
        assert(notices(first) + notices(second) =~= notices(first));
    } else {
        law_events_split(reports, first, second.drop_last(), row, col);
        assert((first + second).drop_last() =~= first + second.drop_last());
        assert((first + second).last() == second.last());
        assert(replies(first + second, row, col) =~= replies(first, row, col) + replies(
            second,
            row,
            col,
        ));
        assert(notices(first + second) =~= notices(first) + notices(second));
    }
}

/// Whether an event sets the title.
pub open spec fn is_title(event: TermEvent<Seq<char>>) -> bool {
    event is WindowTitle || event is IconNameAndWindowTitle
}

/// The last report of each kind is the one that is remembered.
pub proof fn law_last_report_wins(
    reports: Reports<Seq<char>>,
    events: Seq<TermEvent<Seq<char>>>,
    last: int,
)
    requires
        0 <= last < events.len(),
    ensures
        events[last] matches TermEvent::WorkingDirectory(url) ==> ((forall|i: int|
            last < i < events.len() ==> !(#[trigger] events[i] is WorkingDirectory))
            ==> all_reported(reports, events).cwd == Some(path_of(url))),
        events[last] matches TermEvent::WindowTitle(title) ==> ((forall|i: int|
            last < i < events.len() ==> !is_title(#[trigger] events[i]))
            ==> all_reported(reports, events).title == Some(title)),
        events[last] matches TermEvent::IconNameAndWindowTitle(title) ==> ((forall|i: int|
            last < i < events.len() ==> !is_title(#[trigger] events[i]))
            ==> all_reported(reports, events).title == Some(title)),
        events[last] matches TermEvent::Selection(text) ==> ((forall|i: int|
            last < i < events.len() ==> !(#[trigger] events[i] is Selection))
            ==> all_reported(reports, events).clipboard_content == Some(text)),
    decreases events.len(),
{
    if last < events.len() - 1 {
        let earlier = events.drop_last();
        law_last_report_wins(reports, earlier, last);
        assert(forall|i: int| last < i < earlier.len() ==> earlier[i] == events[i]);
        assert(events.last() == events[events.len() - 1]);
    }
}

/// Whether an event asks for an answer.
pub open spec fn is_query(event: TermEvent<Seq<char>>) -> bool {
    event is PrimaryAttributes || event is SecondaryAttributes || event is StatusReport
        || event is CursorPosition
}

/// Every query is answered once, in the order in which they come, and nothing else
/// is answered.
pub proof fn law_one_reply_per_query(events: Seq<TermEvent<Seq<char>>>, row: nat, col: nat)
    ensures
        replies(events, row, col) == events.filter(
            |event: TermEvent<Seq<char>>| is_query(event),
        ).map_values(|event: TermEvent<Seq<char>>| reply_to(event, row, col)->0),
    decreases events.len(),
{
    let query = |event: TermEvent<Seq<char>>| is_query(event);
    let answer = |event: TermEvent<Seq<char>>| reply_to(event, row, col)->0;
    reveal(Seq::filter);
    if events.len() == 0 {
        assert(replies(events, row, col) =~= events.filter(query).map_values(answer));
    } else {
        let earlier = events.drop_last();
        law_one_reply_per_query(earlier, row, col);
        if is_query(events.last()) {
            assert(events.filter(query) == earlier.filter(query).push(events.last()));
            assert(events.filter(query).map_values(answer) =~= earlier.filter(query).map_values(
                answer,
            ).push(answer(events.last())));
        }
    }
}

/// A program that has exited is not written to: no answer and no flush, whatever
/// its last output asks.
pub proof fn law_closed_writes_nothing(
    events: Seq<TermEvent<Seq<char>>>,
    row: nat,
    col: nat,
    i: int,
)
    requires
        0 <= i < read_effects(events, row, col, false).len(),
    ensures
        !(read_effects(events, row, col, false)[i] is Write),
        !(read_effects(events, row, col, false)[i] is Flush),
{
    lemma_notices_only_notify(events);
    let effects = read_effects(events, row, col, false);
    if i < notices(events).len() {
        assert(effects[i] == notices(events)[i]);
    }
}

pub proof fn lemma_notices_only_notify(events: Seq<TermEvent<Seq<char>>>)
    ensures
        forall|i: int|
            0 <= i < notices(events).len() ==> (#[trigger] notices(events)[i] is NotifyTitle
                || notices(events)[i] is NotifyClipboard),
    decreases events.len(),
{
    if events.len() > 0 {
        lemma_notices_only_notify(events.drop_last());
    }
}

/// A working directory on a host names the path on that host: whatever stands
/// between the scheme and the first slash is dropped. Without a host this is
/// `file:///path`.
pub proof fn law_path_drops_host(host: Seq<char>, path: Seq<char>)
    requires
        !host.contains('/'),
    ensures
        path_of(file_scheme() + host + seq!['/'] + path) == seq!['/'] + path,
{
    let url = file_scheme() + host + seq!['/'] + path;
    let rest = host + seq!['/'] + path;
    assert(url.subrange(0, file_scheme().len() as int) =~= file_scheme());
    assert(url.skip(file_scheme().len() as int) =~= rest);
    assert(rest[host.len() as int] == '/');
    rest.index_of_first_ensures('/');
    let slash = rest.index_of_first('/')->0;
    if slash < host.len() {
        assert(rest[slash] == host[slash]);
    }
    assert(slash == host.len());
    assert(rest.skip(slash) =~= seq!['/'] + path);
}

/// A path that was taken out of a report is not changed when it is reported again.
pub proof fn law_path_is_stable(url: Seq<char>)
    ensures
        path_of(path_of(url)) == path_of(url),
{
    let scheme = file_scheme();
    reveal_strlit("file://");
    if scheme.is_prefix_of(url) {
        let rest = url.skip(scheme.len() as int);
        rest.index_of_first_ensures('/');
        let path = path_of(url);
        if scheme.is_prefix_of(path) {
            assert(path[0] == scheme[0]);
            assert(path[5] == scheme[5]);
        }
    }
}

proof fn lemma_decimal_digits(n: nat)
    ensures
        decimal(n).len() > 0,
        decimal(n).last() == 48 + n % 10,
        n >= 10 ==> decimal(n).len() > 1,
        forall|i: int| 0 <= i < decimal(n).len() ==> 48 <= #[trigger] decimal(n)[i] <= 57,
    decreases n,
{
    if n >= 10 {
        lemma_decimal_digits(n / 10);
    }
}

proof fn lemma_decimal_injective(a: nat, b: nat)
    requires
        decimal(a) == decimal(b),
    ensures
        a == b,
    decreases a,
{
    lemma_decimal_digits(a);
    lemma_decimal_digits(b);
    assert(decimal(a).last() == decimal(b).last());
    if a >= 10 {
        assert(decimal(a).drop_last() =~= decimal(a / 10));
        assert(decimal(b).drop_last() =~= decimal(b / 10));
        lemma_decimal_injective(a / 10, b / 10);
    }
}

/// A cursor position can be read back from its report: two positions with the same
/// report are the same.
pub proof fn law_position_report_is_faithful(row: nat, col: nat, other_row: nat, other_col: nat)
    requires
        position_report(row, col) == position_report(other_row, other_col),
    ensures
        row == other_row,
        col == other_col,
{
    let report = position_report(row, col);
    let rows = decimal(row + 1);
    let cols = decimal(col + 1);
    let other_rows = decimal(other_row + 1);
    let other_cols = decimal(other_col + 1);
    lemma_decimal_digits(row + 1);
    lemma_decimal_digits(other_row + 1);
    assert(report[2int + rows.len()] == 0x3b);
    assert(report[2int + other_rows.len()] == 0x3b);
    if rows.len() < other_rows.len() {
        assert(report[2int + rows.len()] == other_rows[rows.len() as int]);
    }
    if other_rows.len() < rows.len() {
        assert(report[2int + other_rows.len()] == rows[other_rows.len() as int]);
    }
    assert(report.subrange(2, 2int + rows.len()) =~= rows);
    assert(report.subrange(2, 2int + rows.len()) =~= other_rows);
    lemma_decimal_injective(row + 1, other_row + 1);
    assert(report.subrange(3int + rows.len(), report.len() - 1) =~= cols);
    assert(report.subrange(3int + rows.len(), report.len() - 1) =~= other_cols);
    lemma_decimal_injective(col + 1, other_col + 1);
}

/// A buffer shows a window of what the terminal has printed, the history followed by
/// the grid: as many lines as the screen has, ending as far above the last as the
/// user has scrolled back, or at the oldest line where that is further than there is.
pub proof fn law_buffer_is_a_window(screen: ScreenView, buffer: BufferView)
    requires
        screen.sound(),
    ensures
        ({
            let printed = screen.history + screen.grid;
            let top = screen.history.len() - screen.at(buffer.scroll_offset as nat).offset;
            refreshed(screen, buffer).rows == printed.subrange(top, top + screen.rows)
        }),
{
    let shown = screen.at(buffer.scroll_offset as nat);
    let printed = screen.history + screen.grid;
    let top = screen.history.len() - shown.offset;
    let window = printed.subrange(top, top + screen.rows);
    assert(shown.visible() =~= window);
    assert forall|i: int| 0 <= i < screen.rows implies window[i].len() == screen.cols by {
        if top + i < screen.history.len() {
            assert(window[i] == screen.history[top + i]);
        } else {
            assert(window[i] == screen.grid[top + i - screen.history.len()]);
        }
    }
    assert(refreshed(screen, buffer).rows =~= window);
}

/// A buffer that is not scrolled back shows the grid.
pub proof fn law_unscrolled_buffer_shows_the_grid(screen: ScreenView, buffer: BufferView)
    requires
        screen.sound(),
        buffer.scroll_offset == 0,
    ensures
        refreshed(screen, buffer).rows == screen.grid,
{
    law_buffer_is_a_window(screen, buffer);
    let printed = screen.history + screen.grid;
    let top = screen.history.len() as int;
    assert(printed.subrange(top, top + screen.rows) =~= screen.grid);
}

/// A buffer is a full rectangle of cells: as many lines as it counts, each as wide as
/// it says. The cursor is on one of them, or just past its end.
pub proof fn law_buffer_is_a_rectangle(screen: ScreenView, buffer: BufferView)
    requires
        screen.sound(),
    ensures
        refreshed(screen, buffer).rows.len() == refreshed(screen, buffer).rows_count,
        forall|i: int|
            0 <= i < refreshed(screen, buffer).rows.len() ==> (#[trigger] refreshed(
                screen,
                buffer,
            ).rows[i]).len() == refreshed(screen, buffer).cols,
        refreshed(screen, buffer).cursor_row < refreshed(screen, buffer).rows_count,
        refreshed(screen, buffer).cursor_col <= refreshed(screen, buffer).cols,
{
    law_buffer_is_a_window(screen, buffer);
    let top = screen.history.len() - screen.at(buffer.scroll_offset as nat).offset;
    let rows = refreshed(screen, buffer).rows;
    assert forall|i: int| 0 <= i < rows.len() implies (#[trigger] rows[i]).len() == screen.cols by {
        if top + i < screen.history.len() {
            assert(rows[i] == screen.history[top + i]);
        } else {
            assert(rows[i] == screen.grid[top + i - screen.history.len()]);
        }
    }
}

/// Refreshing again, with nothing printed since, changes nothing.
pub proof fn law_refresh_is_idempotent(screen: ScreenView, buffer: BufferView)
    ensures
        refreshed(screen.at(0), refreshed(screen, buffer)) == refreshed(screen, buffer),
{
    let once = refreshed(screen, buffer);
    assert(screen.at(0).at(buffer.scroll_offset as nat) == screen.at(buffer.scroll_offset as nat));
    assert(refreshed(screen.at(0), once).rows =~= once.rows);
}

/// A selection stays on the text that it covers: as the history grows, each end
/// keeps its distance from the oldest line, and its row and column.
pub proof fn law_selection_keeps_its_lines(screen: ScreenView, buffer: BufferView)
    requires
        buffer.selection is Some,
        buffer.total_scrollback <= screen.history.len() <= usize::MAX,
        buffer.selection->0.start_scroll + (screen.history.len() - buffer.total_scrollback)
            <= usize::MAX,
        buffer.selection->0.end_scroll + (screen.history.len() - buffer.total_scrollback)
            <= usize::MAX,
    ensures
        ({
            let before = buffer.selection->0;
            let after = refreshed(screen, buffer).selection->0;
            let total = refreshed(screen, buffer).total_scrollback;
            &&& refreshed(screen, buffer).selection is Some
            &&& total - after.start_scroll == buffer.total_scrollback - before.start_scroll
            &&& total - after.end_scroll == buffer.total_scrollback - before.end_scroll
            &&& (after.start_row, after.start_col) == (before.start_row, before.start_col)
            &&& (after.end_row, after.end_col) == (before.end_row, before.end_col)
        }),
{
}

/// Refreshing neither makes a selection nor drops one, and leaves it as it is where
/// the history has not grown.
pub proof fn law_selection_is_carried_over(screen: ScreenView, buffer: BufferView)
    ensures
        refreshed(screen, buffer).selection is Some <==> buffer.selection is Some,
        screen.history.len() <= buffer.total_scrollback ==> refreshed(screen, buffer).selection
            == buffer.selection,
{
}

} // verus!
