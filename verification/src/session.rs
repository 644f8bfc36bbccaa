//! A running terminal: the emulator, the decoder and what they have brought to
//! light so far. The event loop around it reads from the program, hands the bytes
//! in, and carries out the effects that come back.
use termwiz::escape::parser::Parser;
use vstd::prelude::*;

use crate::buffer::{empty_buffer, refreshed, BufferView, TerminalBuffer, TerminalSelection};
use crate::decoder::{decode, event_views, events_in, fed, parsed_events, TermEvent};
use crate::emulator::{
    blank, drawn, processed, screen_of, scrollback_limit, scrolled, seen, Emulator, ScreenView,
    SCREEN_COLS, SCREEN_ROWS,
};
use crate::meaning::law_what_output_calls_for;
use crate::pty::{extract_buffer, query_max_scrollback};
use crate::reply::{
    all_reported, decimal, effect_views, lemma_last_report, lemma_no_report, list_effects, path_of,
    read_effects, Effect, Reports,
};

verus! {

/// The state of one terminal.
pub struct Session {
    /// The screen that output is drawn on.
    pub emulator: Emulator,
    /// Where the stream of output stands.
    pub decoder: Parser,
    /// What the widget draws. The user's scrolling and selecting are kept here too.
    pub buffer: TerminalBuffer,
    /// Working directory, title and clipboard, as far as the program has set them.
    pub reports: Reports<String>,
    /// Whether the program can still be written to.
    pub writer_open: bool,
}

/// What a session holds.
pub struct SessionView {
    pub emulator: Emulator,
    /// The bytes that the emulator has drawn.
    pub seen: Seq<u8>,
    /// The chunks that the decoder has been given.
    pub fed: Seq<Seq<u8>>,
    pub buffer: BufferView,
    pub reports: Reports<Seq<char>>,
    pub writer_open: bool,
}

impl View for Session {
    type V = SessionView;

    open spec fn view(&self) -> SessionView {
        SessionView {
            emulator: self.emulator,
            seen: seen(self.emulator),
            fed: fed(self.decoder),
            buffer: self.buffer@,
            reports: self.reports@,
            writer_open: self.writer_open,
        }
    }
}

impl SessionView {
    /// The session after a read that gave `bytes`.
    pub open spec fn after_read(self, bytes: Seq<u8>) -> SessionView {
        SessionView {
            emulator: drawn(self.emulator, self.seen, bytes),
            seen: self.seen + bytes,
            fed: self.fed.push(bytes),
            reports: all_reported(self.reports, events_in(self.fed, bytes)),
            ..self
        }
    }

    /// What a read that gives `bytes` calls for. The cursor is reported where those
    /// bytes leave it.
    pub open spec fn read_calls_for(self, bytes: Seq<u8>) -> Seq<Effect<Seq<u8>>> {
        let screen = screen_of(self.after_read(bytes).emulator);
        read_effects(
            events_in(self.fed, bytes),
            screen.cursor_row as nat,
            screen.cursor_col as nat,
            self.writer_open,
        )
    }

    /// The session after an update: the buffer shows the screen, and the emulator has
    /// the newest lines in view.
    pub open spec fn after_update(self) -> SessionView {
        SessionView {
            emulator: scrolled(self.emulator, 0),
            buffer: refreshed(screen_of(self.emulator), self.buffer),
            ..self
        }
    }

    /// The session after the end of the updates.
    pub open spec fn after_close(self) -> SessionView {
        SessionView { writer_open: false, ..self }
    }
}

/// What an update calls for.
pub open spec fn update_calls_for() -> Seq<Effect<Seq<u8>>> {
    seq![Effect::RequestRedraw]
}

/// What the end of the updates calls for.
pub open spec fn close_calls_for() -> Seq<Effect<Seq<u8>>> {
    seq![Effect::DropWriter, Effect::NotifyClosed, Effect::RequestRedraw]
}

proof fn lemma_effects_behind(effects: Seq<Effect<Vec<u8>>>)
    ensures
        effect_views(effects).len() == effects.len(),
        forall|i: int|
            0 <= i < effects.len() ==> effect_views(effects)[i] == (#[trigger] effects[i])@,
{
}

proof fn lemma_reports_kept(
    before: Reports<String>,
    after: Reports<String>,
    events: Seq<TermEvent<Seq<char>>>,
)
    requires
        after@ == all_reported(before@, events),
    ensures
        ({
            &&& forall|i: int|
                0 <= i < events.len() && (#[trigger] events[i] is WindowTitle || events[i] is IconNameAndWindowTitle)
                    && (forall|j: int|
                    i < j < events.len() ==> !(#[trigger] events[j] is WindowTitle || events[j]
                        is IconNameAndWindowTitle)) ==> after.title is Some && after.title->0@ == (
                if events[i] is WindowTitle {
                    events[i]->WindowTitle_0
                } else {
                    events[i]->IconNameAndWindowTitle_0
                })
            &&& (forall|i: int|
                0 <= i < events.len() ==> !(#[trigger] events[i] is WindowTitle || events[i]
                    is IconNameAndWindowTitle)) ==> (after.title is Some <==> before.title is Some)
                    && (after.title is Some ==> after.title->0@ == before.title->0@)
            &&& forall|i: int|
                0 <= i < events.len() && #[trigger] events[i] is Selection && (forall|j: int|
                    i < j < events.len() ==> !(#[trigger] events[j] is Selection))
                    ==> after.clipboard_content is Some && after.clipboard_content->0@
                    == events[i]->Selection_0
            &&& (forall|i: int| 0 <= i < events.len() ==> !(#[trigger] events[i] is Selection))
                ==> (after.clipboard_content is Some <==> before.clipboard_content is Some)
                    && (after.clipboard_content is Some ==> after.clipboard_content->0@ == before.clipboard_content->0@)
            &&& forall|i: int|
                0 <= i < events.len() && #[trigger] events[i] is WorkingDirectory && (forall|j: int|
                    i < j < events.len() ==> !(#[trigger] events[j] is WorkingDirectory))
                    ==> after.cwd is Some && after.cwd->0@ == path_of(events[i]->WorkingDirectory_0)
            &&& (forall|i: int| 0 <= i < events.len() ==> !(#[trigger] events[i] is WorkingDirectory))
                ==> (after.cwd is Some <==> before.cwd is Some)
                    && (after.cwd is Some ==> after.cwd->0@ == before.cwd->0@)
        }),
{
    lemma_no_report(before@, events);
    assert forall|i: int|
        0 <= i < events.len() && (#[trigger] events[i] is WindowTitle || events[i]
            is IconNameAndWindowTitle) && (forall|j: int|
            i < j < events.len() ==> !(#[trigger] events[j] is WindowTitle || events[j]
                is IconNameAndWindowTitle)) implies after.title is Some && after.title->0@ == (
    if events[i] is WindowTitle {
        events[i]->WindowTitle_0
    } else {
        events[i]->IconNameAndWindowTitle_0
    }) by {
        lemma_last_report(before@, events, i);
    }
    assert forall|i: int|
        0 <= i < events.len() && #[trigger] events[i] is Selection && (forall|j: int|
            i < j < events.len() ==> !(#[trigger] events[j] is Selection)) implies
        after.clipboard_content is Some && after.clipboard_content->0@
        == events[i]->Selection_0 by {
        lemma_last_report(before@, events, i);
    }
    assert forall|i: int|
        0 <= i < events.len() && #[trigger] events[i] is WorkingDirectory && (forall|j: int|
            i < j < events.len() ==> !(#[trigger] events[j] is WorkingDirectory)) implies after.cwd
        is Some && after.cwd->0@ == path_of(events[i]->WorkingDirectory_0) by {
        lemma_last_report(before@, events, i);
    }
}

impl Session {
    /// What the screen holds.
    pub open spec fn screen(&self) -> ScreenView {
        screen_of(self.emulator)
    }

    /// The screen has sound geometry and keeps no more history than it may.
    pub open spec fn wf(&self) -> bool {
        &&& self.screen().sound()
        &&& self.screen().history.len() <= scrollback_limit(self.emulator)
    }

    /// A session that has read nothing, with room for `scrollback_size` lines of
    /// history.
    pub open spec fn is_new(&self, scrollback_size: usize) -> bool {
        &&& self.wf()
        &&& self.emulator == blank(SCREEN_ROWS, SCREEN_COLS, scrollback_size)
        &&& scrollback_limit(self.emulator) == scrollback_size
        &&& self.screen().rows == SCREEN_ROWS
        &&& self.screen().cols == SCREEN_COLS
        &&& self.screen().history.len() == 0
        &&& self.screen().cursor_row == 0
        &&& self.screen().cursor_col == 0
        &&& !self.screen().cursor_hidden
        &&& seen(self.emulator) == Seq::<u8>::empty()
        &&& fed(self.decoder) == Seq::<Seq<u8>>::empty()
        &&& self.buffer@ == empty_buffer()
        &&& self.reports@ == (Reports::<Seq<char>> {
            cwd: None,
            title: None,
            clipboard_content: None,
        })
        &&& self.writer_open
    }

    /// A terminal whose program has not printed anything yet.
    pub fn new(scrollback_size: usize) -> (session: Session)
        ensures
            session.is_new(scrollback_size),
            session.emulator == blank(24, 80, scrollback_size),
            scrollback_limit(session.emulator) == scrollback_size,
            screen_of(session.emulator).rows == 24,
            screen_of(session.emulator).cols == 80,
            screen_of(session.emulator).history.len() == 0,
            screen_of(session.emulator).cursor_row == 0,
            screen_of(session.emulator).cursor_col == 0,
            !screen_of(session.emulator).cursor_hidden,
            seen(session.emulator) == Seq::<u8>::empty(),
            fed(session.decoder) == Seq::<Seq<u8>>::empty(),
            session.buffer.rows@.len() == 0,
            session.buffer.rows_count == 0,
            session.buffer.cols == 0,
            session.buffer.cursor_row == 0,
            session.buffer.cursor_col == 0,
            session.buffer.selection is None,
            session.buffer.scroll_offset == 0,
            session.buffer.total_scrollback == 0,
            !session.buffer.cursor_visible,
            session.reports.cwd is None,
            session.reports.title is None,
            session.reports.clipboard_content is None,
            session.writer_open,
    {
        Session {
            emulator: Emulator::with_scrollback(scrollback_size),
            decoder: Parser::new(),
            buffer: TerminalBuffer::default(),
            reports: Reports::new(),
            writer_open: true,
        }
    }

    /// Takes in what a read from the program gave: its bytes, or `None` where the
    /// read failed. A failed read and an empty one end the reading: the result is
    /// then `None`. Otherwise it lists what is to be done.
    #[verifier::rlimit(30)]
    pub fn on_read(&mut self, data: Option<&[u8]>) -> (effects: Option<Vec<Effect<Vec<u8>>>>)
        ensures
            old(self).wf() ==> final(self).wf(),
            effects is Some ==> final(self).wf(),
            final(self).buffer == old(self).buffer,
            final(self).writer_open == old(self).writer_open,
            scrollback_limit(final(self).emulator) == scrollback_limit(old(self).emulator),
            final(self).screen().rows == old(self).screen().rows,
            final(self).screen().cols == old(self).screen().cols,
            effects is None <==> (data is None || data->0@.len() == 0),
            effects is None ==> *final(self) == *old(self),
            effects matches Some(list) ==> {
                &&& final(self)@ == old(self)@.after_read(data->0@)
                &&& effect_views(list@) == old(self)@.read_calls_for(data->0@)
            },
            effects is Some ==> {
                &&& final(self).emulator == processed(old(self).emulator, data->0@)
                &&& seen(final(self).emulator) == seen(old(self).emulator) + data->0@
                &&& fed(final(self).decoder) == fed(old(self).decoder).push(data->0@)
            },
            // The announcements, then the answers and a flush, then the update and the news.
            effects matches Some(list) ==> {
                let events = parsed_events(fed(old(self).decoder), data->0@);
                let screen = screen_of(final(self).emulator);
                let told = events.filter(
                    |event: TermEvent<Seq<char>>|
                        event is WindowTitle || event is IconNameAndWindowTitle || event is Selection,
                );
                let asked = events.filter(
                    |event: TermEvent<Seq<char>>|
                        event is PrimaryAttributes || event is SecondaryAttributes || event
                            is StatusReport || event is CursorPosition,
                );
                let answered: nat = if old(self).writer_open {
                    asked.len()
                } else {
                    0
                };
                let flushed: nat = if answered > 0 {
                    1
                } else {
                    0
                };
                &&& list@.len() == told.len() + answered + flushed + 2
                &&& forall|i: int|
                    0 <= i < told.len() ==> if told[i] is Selection {
                        #[trigger] list@[i] is NotifyClipboard
                    } else {
                        list@[i] is NotifyTitle
                    }
                &&& forall|i: int|
                    0 <= i < answered ==> {
                        let answer = list@[told.len() + i];
                        &&& answer is Write
                        &&& match #[trigger] asked[i] {
                            TermEvent::PrimaryAttributes => answer->Write_0@ == seq![
                                0x1bu8,
                                0x5b,
                                0x3f,
                                0x36,
                                0x32,
                                0x3b,
                                0x32,
                                0x32,
                                0x63,
                            ],
                            TermEvent::SecondaryAttributes => answer->Write_0@ == seq![
                                0x1bu8,
                                0x5b,
                                0x3e,
                                0x30,
                                0x3b,
                                0x30,
                                0x3b,
                                0x30,
                                0x63,
                            ],
                            TermEvent::StatusReport => answer->Write_0@ == seq![
                                0x1bu8,
                                0x5b,
                                0x30,
                                0x6e,
                            ],
                            _ => answer->Write_0@ == seq![0x1bu8, 0x5b] + decimal(screen.cursor_row as nat + 1)
                                + seq![0x3bu8] + decimal(screen.cursor_col as nat + 1) + seq![0x52u8],
                        }
                    }
                &&& flushed > 0 ==> list@[(told.len() + answered) as int] is Flush
                &&& list@[list@.len() - 2] is SendUpdate
                &&& list@[list@.len() - 1] is NotifyOutput
            },
            // The last report of each kind is remembered.
            effects is Some ==> {
                let events = parsed_events(fed(old(self).decoder), data->0@);
                &&& forall|i: int|
                    0 <= i < events.len() && (#[trigger] events[i] is WindowTitle || events[i] is IconNameAndWindowTitle)
                        && (forall|j: int|
                        i < j < events.len() ==> !(#[trigger] events[j] is WindowTitle || events[j]
                            is IconNameAndWindowTitle)) ==> final(self).reports.title is Some && final(self).reports.title->0@ == (
                    if events[i] is WindowTitle {
                        events[i]->WindowTitle_0
                    } else {
                        events[i]->IconNameAndWindowTitle_0
                    })
                &&& (forall|i: int|
                    0 <= i < events.len() ==> !(#[trigger] events[i] is WindowTitle || events[i]
                        is IconNameAndWindowTitle)) ==> (final(self).reports.title is Some <==> old(self).reports.title is Some)
                        && (final(self).reports.title is Some ==> final(self).reports.title->0@ == old(self).reports.title->0@)
                &&& forall|i: int|
                    0 <= i < events.len() && #[trigger] events[i] is Selection && (forall|j: int|
                        i < j < events.len() ==> !(#[trigger] events[j] is Selection))
                        ==> final(self).reports.clipboard_content is Some && final(self).reports.clipboard_content->0@
                        == events[i]->Selection_0
                &&& (forall|i: int| 0 <= i < events.len() ==> !(#[trigger] events[i] is Selection))
                    ==> (final(self).reports.clipboard_content is Some <==> old(self).reports.clipboard_content is Some)
                        && (final(self).reports.clipboard_content is Some ==> final(self).reports.clipboard_content->0@ == old(self).reports.clipboard_content->0@)
                &&& forall|i: int|
                    0 <= i < events.len() && #[trigger] events[i] is WorkingDirectory && (forall|j: int|
                        i < j < events.len() ==> !(#[trigger] events[j] is WorkingDirectory))
                        ==> final(self).reports.cwd is Some && final(self).reports.cwd->0@ == path_of(events[i]->WorkingDirectory_0)
                &&& (forall|i: int| 0 <= i < events.len() ==> !(#[trigger] events[i] is WorkingDirectory))
                    ==> (final(self).reports.cwd is Some <==> old(self).reports.cwd is Some)
                        && (final(self).reports.cwd is Some ==> final(self).reports.cwd->0@ == old(self).reports.cwd->0@)
            },
    {
        let bytes: &[u8] = match data {
            Some(bytes) => bytes,
            None => {
                return None;
            },
        };
        if bytes.len() == 0 {
            return None;
        }
        self.emulator.process(bytes);
        let events: Vec<TermEvent<String>> = decode(&mut self.decoder, bytes);
        let ghost parsed = parsed_events(fed(old(self).decoder), bytes@);
        assert(event_views(events@) =~= parsed);
        let (row, col) = self.emulator.cursor_position();
        let (notified, responses) = self.reports.apply(events, row, col);
        let effects: Vec<Effect<Vec<u8>>> = list_effects(notified, responses, self.writer_open);
        proof {
            law_what_output_calls_for(parsed, row as nat, col as nat, self.writer_open);
            lemma_effects_behind(effects@);
            lemma_reports_kept(old(self).reports, self.reports, parsed);
        }
        Some(effects)
    }

    /// Deals with an update that was sent for: brings the buffer up to date with the
    /// screen and has it drawn. The emulator is left with the newest lines in view.
    pub fn on_update(&mut self) -> (effects: Vec<Effect<Vec<u8>>>)
        ensures
            old(self).wf() ==> final(self).wf(),
            final(self)@ == old(self)@.after_update(),
            old(self).wf() ==> final(self).buffer.total_scrollback <= scrollback_limit(
                final(self).emulator,
            ),
            final(self).screen() == old(self).screen().at(0),
            scrollback_limit(final(self).emulator) == scrollback_limit(old(self).emulator),
            final(self).decoder == old(self).decoder,
            final(self).reports == old(self).reports,
            final(self).writer_open == old(self).writer_open,
            effect_views(effects@) == update_calls_for(),
            effects@.len() == 1,
            effects@[0] is RequestRedraw,
            final(self).emulator == scrolled(old(self).emulator, 0),
            // The cursor, the size and the history are those of the screen.
            final(self).buffer.cursor_row == screen_of(old(self).emulator).cursor_row,
            final(self).buffer.cursor_col == screen_of(old(self).emulator).cursor_col,
            final(self).buffer.cursor_visible == !screen_of(old(self).emulator).cursor_hidden,
            final(self).buffer.cols == screen_of(old(self).emulator).cols,
            final(self).buffer.rows_count == screen_of(old(self).emulator).rows,
            final(self).buffer.rows@.len() == screen_of(old(self).emulator).rows,
            final(self).buffer.total_scrollback == screen_of(old(self).emulator).history.len(),
            final(self).buffer.scroll_offset == old(self).buffer.scroll_offset,
            // The lines are those that stand as far back as the user has scrolled.
            ({
                let screen = screen_of(old(self).emulator);
                &&& screen.grid.len() == screen.rows
                &&& forall|i: int|
                    0 <= i < screen.grid.len() ==> (#[trigger] screen.grid[i]).len() == screen.cols
                &&& forall|i: int|
                    0 <= i < screen.history.len() ==> (#[trigger] screen.history[i]).len()
                        == screen.cols
            }) ==> forall|row: int|
                #![trigger final(self).buffer.rows@[row]]
                0 <= row < final(self).buffer.rows@.len() ==> {
                    let screen = screen_of(old(self).emulator);
                    let offset: int = if old(self).buffer.scroll_offset <= screen.history.len() {
                        old(self).buffer.scroll_offset as int
                    } else {
                        screen.history.len() as int
                    };
                    let line = screen.history.len() - offset + row;
                    final(self).buffer.rows@[row]@ == if line < screen.history.len() {
                        screen.history[line]
                    } else {
                        screen.grid[line - screen.history.len()]
                    }
                },
            // The selection moves back by as many lines as the history has gained.
            old(self).buffer.selection is None ==> final(self).buffer.selection is None,
            old(self).buffer.selection is Some ==> final(self).buffer.selection is Some && {
                let before = old(self).buffer.selection->0;
                let after = final(self).buffer.selection->0;
                let grown: int = if screen_of(old(self).emulator).history.len()
                    > old(self).buffer.total_scrollback {
                    screen_of(old(self).emulator).history.len()
                        - old(self).buffer.total_scrollback
                } else {
                    0
                };
                &&& after.start_row == before.start_row
                &&& after.start_col == before.start_col
                &&& after.end_row == before.end_row
                &&& after.end_col == before.end_col
                &&& after.start_scroll == if before.start_scroll + grown <= usize::MAX {
                    before.start_scroll + grown
                } else {
                    usize::MAX as int
                }
                &&& after.end_scroll == if before.end_scroll + grown <= usize::MAX {
                    before.end_scroll + grown
                } else {
                    usize::MAX as int
                }
            },
    {
        let total_scrollback: usize = query_max_scrollback(&mut self.emulator);
        let old_total_scrollback: usize = self.buffer.total_scrollback;
        let delta: usize = total_scrollback.saturating_sub(old_total_scrollback);
        self.emulator.set_scrollback(self.buffer.scroll_offset);
        let mut new_buffer: TerminalBuffer = extract_buffer(
            &self.emulator,
            self.buffer.scroll_offset,
            total_scrollback,
        );
        self.emulator.set_scrollback(0);
        new_buffer.selection = match self.buffer.selection.take() {
            Some(selection) => {
                let mut moved: TerminalSelection = selection;
                moved.shift(delta);
                Some(moved)
            },
            None => None,
        };
        self.buffer = new_buffer;
        let effects: Vec<Effect<Vec<u8>>> = vec![Effect::RequestRedraw];
        assert(effect_views(effects@) =~= update_calls_for());
        effects
    }

    /// Deals with the end of the updates, which means that the program has exited:
    /// from now on nothing is written.
    pub fn on_closed(&mut self) -> (effects: Vec<Effect<Vec<u8>>>)
        ensures
            final(self)@ == old(self)@.after_close(),
            final(self).emulator == old(self).emulator,
            final(self).decoder == old(self).decoder,
            final(self).buffer == old(self).buffer,
            final(self).reports == old(self).reports,
            effect_views(effects@) == close_calls_for(),
            !final(self).writer_open,
            effects@.len() == 3,
            effects@[0] is DropWriter,
            effects@[1] is NotifyClosed,
            effects@[2] is RequestRedraw,
    {
        self.writer_open = false;
        let effects: Vec<Effect<Vec<u8>>> = vec![
            Effect::DropWriter,
            Effect::NotifyClosed,
            Effect::RequestRedraw,
        ];
        assert(effect_views(effects@) =~= close_calls_for());
        effects
    }
}

} // verus!
