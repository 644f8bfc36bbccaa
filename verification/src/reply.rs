//! What a terminal answers, remembers and announces when its output holds a query
//! or a report.
use vstd::prelude::*;
use vstd::string::*;

use crate::decoder::{event_views, TermEvent};

verus! {

/// Work for the event loop around a terminal, to be done in the order in which it
/// is listed. Bytes are a `Vec<u8>` in a running terminal and a `Seq<u8>` in
/// contracts.
pub enum Effect<B> {
    /// Tell those who watch the title that it was set.
    NotifyTitle,
    /// Tell those who watch the clipboard that it was set.
    NotifyClipboard,
    /// Write to the program.
    Write(B),
    /// Flush what was written.
    Flush,
    /// Ask for the buffer to be brought up to date.
    SendUpdate,
    /// Tell those who watch the output that there was some.
    NotifyOutput,
    /// Tell those who wait for the program that it has exited.
    NotifyClosed,
    /// Ask for the window to be drawn again.
    RequestRedraw,
    /// Drop the handle that is written to.
    DropWriter,
}

impl View for Effect<Vec<u8>> {
    type V = Effect<Seq<u8>>;

    open spec fn view(&self) -> Effect<Seq<u8>> {
        match *self {
            Effect::NotifyTitle => Effect::NotifyTitle,
            Effect::NotifyClipboard => Effect::NotifyClipboard,
            Effect::Write(bytes) => Effect::Write(bytes@),
            Effect::Flush => Effect::Flush,
            Effect::SendUpdate => Effect::SendUpdate,
            Effect::NotifyOutput => Effect::NotifyOutput,
            Effect::NotifyClosed => Effect::NotifyClosed,
            Effect::RequestRedraw => Effect::RequestRedraw,
            Effect::DropWriter => Effect::DropWriter,
        }
    }
}

/// The contents of a list of effects.
pub open spec fn effect_views(effects: Seq<Effect<Vec<u8>>>) -> Seq<Effect<Seq<u8>>> {
    effects.map_values(|effect: Effect<Vec<u8>>| effect@)
}

/// The contents of a list of replies.
pub open spec fn reply_views(replies: Seq<Vec<u8>>) -> Seq<Seq<u8>> {
    replies.map_values(|reply: Vec<u8>| reply@)
}

/// What a program has told the terminal about itself.
pub struct Reports<S> {
    pub cwd: Option<S>,
    pub title: Option<S>,
    pub clipboard_content: Option<S>,
}

/// The contents of an optional text.
pub open spec fn text_view(text: Option<String>) -> Option<Seq<char>> {
    match text {
        Some(text) => Some(text@),
        None => None,
    }
}

impl View for Reports<String> {
    type V = Reports<Seq<char>>;

    open spec fn view(&self) -> Reports<Seq<char>> {
        Reports {
            cwd: text_view(self.cwd),
            title: text_view(self.title),
            clipboard_content: text_view(self.clipboard_content),
        }
    }
}

/// `n` in decimal, as ASCII digits.
pub open spec fn decimal(n: nat) -> Seq<u8>
    decreases n,
{
    if n < 10 {
        seq![(48 + n) as u8]
    } else {
        decimal(n / 10).push((48 + n % 10) as u8)
    }
}

/// The answer to DA1: a VT220 with ANSI color, `ESC [ ? 62 ; 22 c`.
pub open spec fn primary_attributes() -> Seq<u8> {
    seq![0x1bu8, 0x5b, 0x3f, 0x36, 0x32, 0x3b, 0x32, 0x32, 0x63]
}

/// The answer to DA2: `ESC [ > 0 ; 0 ; 0 c`.
pub open spec fn secondary_attributes() -> Seq<u8> {
    seq![0x1bu8, 0x5b, 0x3e, 0x30, 0x3b, 0x30, 0x3b, 0x30, 0x63]
}

/// The answer to DSR 5, all in order: `ESC [ 0 n`.
pub open spec fn status_ok() -> Seq<u8> {
    seq![0x1bu8, 0x5b, 0x30, 0x6e]
}

/// The answer to DSR 6: `ESC [ row ; column R`, both counted from one. The
/// arguments are counted from zero.
pub open spec fn position_report(row: nat, col: nat) -> Seq<u8> {
    seq![0x1bu8, 0x5b] + decimal(row + 1) + seq![0x3bu8] + decimal(col + 1) + seq![0x52u8]
}

/// The answer that an event asks for, if it asks for one, with the cursor at `row`
/// and `col`.
pub open spec fn reply_to(event: TermEvent<Seq<char>>, row: nat, col: nat) -> Option<Seq<u8>> {
    match event {
        TermEvent::PrimaryAttributes => Some(primary_attributes()),
        TermEvent::SecondaryAttributes => Some(secondary_attributes()),
        TermEvent::StatusReport => Some(status_ok()),
        TermEvent::CursorPosition => Some(position_report(row, col)),
        _ => None,
    }
}

/// The answers to a list of events, in its order.
pub open spec fn replies(events: Seq<TermEvent<Seq<char>>>, row: nat, col: nat) -> Seq<Seq<u8>>
    decreases events.len(),
{
    if events.len() == 0 {
        Seq::empty()
    } else {
        match reply_to(events.last(), row, col) {
            Some(reply) => replies(events.drop_last(), row, col).push(reply),
            None => replies(events.drop_last(), row, col),
        }
    }
}

/// Whom an event is announced to, if to anyone.
pub open spec fn notice_of(event: TermEvent<Seq<char>>) -> Option<Effect<Seq<u8>>> {
    match event {
        TermEvent::WindowTitle(_) | TermEvent::IconNameAndWindowTitle(_) => Some(
            Effect::NotifyTitle,
        ),
        TermEvent::Selection(_) => Some(Effect::NotifyClipboard),
        _ => None,
    }
}

/// The announcements of a list of events, in its order.
pub open spec fn notices(events: Seq<TermEvent<Seq<char>>>) -> Seq<Effect<Seq<u8>>>
    decreases events.len(),
{
    if events.len() == 0 {
        Seq::empty()
    } else {
        match notice_of(events.last()) {
            Some(notice) => notices(events.drop_last()).push(notice),
            None => notices(events.drop_last()),
        }
    }
}

/// What is known of the program after an event.
pub open spec fn reported(
    reports: Reports<Seq<char>>,
    event: TermEvent<Seq<char>>,
) -> Reports<Seq<char>> {
    match event {
        TermEvent::WorkingDirectory(url) => Reports { cwd: Some(path_of(url)), ..reports },
        TermEvent::WindowTitle(title) => Reports { title: Some(title), ..reports },
        TermEvent::IconNameAndWindowTitle(title) => Reports { title: Some(title), ..reports },
        TermEvent::Selection(text) => Reports { clipboard_content: Some(text), ..reports },
        _ => reports,
    }
}

/// What is known of the program after a list of events.
pub open spec fn all_reported(
    reports: Reports<Seq<char>>,
    events: Seq<TermEvent<Seq<char>>>,
) -> Reports<Seq<char>>
    decreases events.len(),
{
    if events.len() == 0 {
        reports
    } else {
        reported(all_reported(reports, events.drop_last()), events.last())
    }
}

/// The scheme that a working directory may be given with.
pub open spec fn file_scheme() -> Seq<char> {
    "file://"@
}

/// The path that a working directory report names. `file:///path` and
/// `file://hostname/path` both name `/path`; what has no such scheme is a path
/// already, and a scheme without any path leaves what follows it.
pub open spec fn path_of(url: Seq<char>) -> Seq<char> {
    if !file_scheme().is_prefix_of(url) {
        url
    } else {
        let rest = url.skip(file_scheme().len() as int);
        if rest.contains('/') {
            rest.skip(rest.index_of_first('/')->0)
        } else {
            rest
        }
    }
}

/// The writes of a list of replies, and the flush that ends them. Nothing is
/// written where there is no reply, or no program left to write to.
pub open spec fn written(replies: Seq<Seq<u8>>, writer_open: bool) -> Seq<Effect<Seq<u8>>> {
    if writer_open && replies.len() > 0 {
        replies.map_values(|reply: Seq<u8>| Effect::Write(reply)).push(Effect::Flush)
    } else {
        Seq::empty()
    }
}

/// Everything that a chunk of output with these events calls for.
pub open spec fn read_effects(
    events: Seq<TermEvent<Seq<char>>>,
    row: nat,
    col: nat,
    writer_open: bool,
) -> Seq<Effect<Seq<u8>>> {
    notices(events) + written(replies(events, row, col), writer_open) + seq![
        Effect::SendUpdate,
        Effect::NotifyOutput,
    ]
}

/// Appends `n` in decimal.
fn push_decimal(out: &mut Vec<u8>, n: u32)
    ensures
        final(out)@ == old(out)@ + decimal(n as nat),
    decreases n,
{
    if n >= 10 {
        push_decimal(out, n / 10);
    }
    out.push(48 + (n % 10) as u8);
}

/// Builds the answer to a cursor position query. The cursor is counted from zero
/// and the report from one.
pub fn report_position(row: u16, col: u16) -> (report: Vec<u8>)
    requires
        row < u16::MAX,
        col < u16::MAX,
    ensures
        report@ == position_report(row as nat, col as nat),
        report@ == seq![0x1bu8, 0x5b] + decimal(row as nat + 1) + seq![0x3bu8] + decimal(
            col as nat + 1,
        ) + seq![0x52u8],
{
    let mut report: Vec<u8> = vec![0x1b, 0x5b];
    push_decimal(&mut report, row as u32 + 1);
    report.push(0x3b);
    push_decimal(&mut report, col as u32 + 1);
    report.push(0x52);
    assert(report@ =~= position_report(row as nat, col as nat));
    report
}

/// The characters of a text.
fn characters(text: &str) -> (chars: Vec<char>)
    ensures
        chars@ == text@,
{
    let mut chars: Vec<char> = Vec::new();
    for c in it: text.chars()
        invariant
            it.seq() == text@,
            chars@ == text@.take(it.index() as int),
    {
        chars.push(c);
    }
    assert(text@.take(text@.len() as int) =~= text@);
    chars
}

/// Strips the scheme and the host, if any, from a working directory report.
pub fn working_directory_path(url: &str) -> (path: String)
    ensures
        path@ == path_of(url@),
        !"file://"@.is_prefix_of(url@) ==> path@ == url@,
        "file://"@.is_prefix_of(url@) && !url@.skip(7).contains('/') ==> path@ == url@.skip(7),
        "file://"@.is_prefix_of(url@) && url@.skip(7).contains('/') ==> exists|slash: int|
            7 <= slash < url@.len() && #[trigger] url@[slash] == '/' && !url@.subrange(
                7,
                slash,
            ).contains('/') && path@ == url@.skip(slash),
{
    let chars: Vec<char> = characters(url);
    let scheme: Vec<char> = characters("file://");
    let mut start: usize = 0;
    while start < scheme.len() && start < chars.len() && chars[start] == scheme[start]
        invariant
            start <= scheme.len(),
            start <= chars.len(),
            forall|i: int| 0 <= i < start ==> chars[i] == scheme[i],
        decreases scheme.len() - start,
    {
        start = start + 1;
    }
    if start < scheme.len() {
        assert(!file_scheme().is_prefix_of(url@)) by {
            if file_scheme().is_prefix_of(url@) {
                assert(url@.subrange(0, scheme.len() as int)[start as int] == url@[start as int]);
            }
        }
        return url.to_owned();
    }
    assert(file_scheme() =~= url@.subrange(0, file_scheme().len() as int));
    let ghost rest = url@.skip(start as int);
    let mut slash: usize = start;
    while slash < chars.len() && chars[slash] != '/'
        invariant
            start <= slash <= chars.len(),
            forall|i: int| start <= i < slash ==> chars[i] != '/',
        decreases chars.len() - slash,
    {
        slash = slash + 1;
    }
    proof {
        rest.index_of_first_ensures('/');
        if slash < chars.len() {
            assert(rest[slash - start] == '/');
        }
    }
    let from: usize = if slash < chars.len() {
        slash
    } else {
        start
    };
    let path = url.substring_char(from, chars.len()).to_owned();
    assert(path@ =~= path_of(url@));
    proof {
        reveal_strlit("file://");
        if rest.contains('/') {
            assert(url@[slash as int] == '/');
            assert(path@ =~= url@.skip(slash as int));
        }
    }
    path
}

pub proof fn lemma_last_report(
    before: Reports<Seq<char>>,
    events: Seq<TermEvent<Seq<char>>>,
    last: int,
)
    requires
        0 <= last < events.len(),
    ensures
        (events[last] is WindowTitle || events[last] is IconNameAndWindowTitle) && (forall|j: int|
            last < j < events.len() ==> !(#[trigger] events[j] is WindowTitle || events[j]
                is IconNameAndWindowTitle)) ==> all_reported(before, events).title == Some(
            if events[last] is WindowTitle {
                events[last]->WindowTitle_0
            } else {
                events[last]->IconNameAndWindowTitle_0
            },
        ),
        events[last] is Selection && (forall|j: int|
            last < j < events.len() ==> !(#[trigger] events[j] is Selection)) ==> all_reported(
            before,
            events,
        ).clipboard_content == Some(events[last]->Selection_0),
        events[last] is WorkingDirectory && (forall|j: int|
            last < j < events.len() ==> !(#[trigger] events[j] is WorkingDirectory))
            ==> all_reported(before, events).cwd == Some(path_of(events[last]->WorkingDirectory_0)),
    decreases events.len(),
{
    if last < events.len() - 1 {
        let earlier = events.drop_last();
        lemma_last_report(before, earlier, last);
        assert(forall|j: int| last < j < earlier.len() ==> #[trigger] earlier[j] == events[j]);
        assert(events.last() == events[events.len() - 1]);
    }
}

pub proof fn lemma_no_report(before: Reports<Seq<char>>, events: Seq<TermEvent<Seq<char>>>)
    ensures
        (forall|i: int|
            0 <= i < events.len() ==> !(#[trigger] events[i] is WindowTitle || events[i]
                is IconNameAndWindowTitle)) ==> all_reported(before, events).title == before.title,
        (forall|i: int| 0 <= i < events.len() ==> !(#[trigger] events[i] is Selection))
            ==> all_reported(before, events).clipboard_content == before.clipboard_content,
        (forall|i: int| 0 <= i < events.len() ==> !(#[trigger] events[i] is WorkingDirectory))
            ==> all_reported(before, events).cwd == before.cwd,
    decreases events.len(),
{
    if events.len() > 0 {
        let earlier = events.drop_last();
        lemma_no_report(before, earlier);
        assert(forall|i: int| 0 <= i < earlier.len() ==> #[trigger] earlier[i] == events[i]);
        assert(events.last() == events[events.len() - 1]);
    }
}

proof fn lemma_announcements_of(events: Seq<TermEvent<String>>, told: Seq<Effect<Vec<u8>>>)
    requires
        effect_views(told) == notices(event_views(events)),
    ensures
        told == events.filter(
            |event: TermEvent<String>|
                event is WindowTitle || event is IconNameAndWindowTitle || event is Selection,
        ).map_values(
            |event: TermEvent<String>|
                if event is Selection {
                    Effect::<Vec<u8>>::NotifyClipboard
                } else {
                    Effect::NotifyTitle
                },
        ),
    decreases events.len(),
{
    reveal(Seq::filter);
    let views = event_views(events);
    assert(effect_views(told).len() == told.len());
    assert(forall|i: int| 0 <= i < told.len() ==> effect_views(told)[i] == (#[trigger] told[i])@);
    if events.len() > 0 {
        assert(views.drop_last() =~= event_views(events.drop_last()));
        assert(views.last() == events.last()@);
        if notice_of(views.last()) is Some {
            assert(effect_views(told.drop_last()) =~= effect_views(told).drop_last());
            assert(notices(views).drop_last() =~= notices(views.drop_last()));
            lemma_announcements_of(events.drop_last(), told.drop_last());
            assert(effect_views(told)[told.len() - 1] == notices(views).last());
            assert(told =~= told.drop_last().push(told.last()));
        } else {
            lemma_announcements_of(events.drop_last(), told);
        }
    }
}

proof fn lemma_answers_of(
    events: Seq<TermEvent<String>>,
    answers: Seq<Vec<u8>>,
    row: nat,
    col: nat,
)
    requires
        reply_views(answers) == replies(event_views(events), row, col),
    ensures
        answers.len() == events.filter(
            |event: TermEvent<String>|
                event is PrimaryAttributes || event is SecondaryAttributes || event is StatusReport
                    || event is CursorPosition,
        ).len(),
        forall|i: int|
            #![trigger answers[i]]
            0 <= i < answers.len() ==> answers[i]@ == match events.filter(
                |event: TermEvent<String>|
                    event is PrimaryAttributes || event is SecondaryAttributes || event is StatusReport
                        || event is CursorPosition,
            )[i] {
                TermEvent::PrimaryAttributes => seq![
                    0x1bu8, 0x5b, 0x3f, 0x36, 0x32, 0x3b, 0x32, 0x32, 0x63,
                ],
                TermEvent::SecondaryAttributes => seq![
                    0x1bu8, 0x5b, 0x3e, 0x30, 0x3b, 0x30, 0x3b, 0x30, 0x63,
                ],
                TermEvent::StatusReport => seq![0x1bu8, 0x5b, 0x30, 0x6e],
                _ => seq![0x1bu8, 0x5b] + decimal(row + 1) + seq![0x3bu8] + decimal(
                    col + 1,
                ) + seq![0x52u8],
            },
    decreases events.len(),
{
    reveal(Seq::filter);
    let views = event_views(events);
    assert(reply_views(answers).len() == answers.len());
    assert(forall|i: int|
        0 <= i < answers.len() ==> reply_views(answers)[i] == (#[trigger] answers[i])@);
    if events.len() > 0 {
        assert(views.drop_last() =~= event_views(events.drop_last()));
        assert(views.last() == events.last()@);
        if reply_to(views.last(), row, col) is Some {
            assert(reply_views(answers.drop_last()) =~= reply_views(answers).drop_last());
            assert(replies(views, row, col).drop_last() =~= replies(views.drop_last(), row, col));
            lemma_answers_of(events.drop_last(), answers.drop_last(), row, col);
            assert(reply_views(answers)[answers.len() - 1] == replies(views, row, col).last());
            assert(forall|i: int|
                0 <= i < answers.len() - 1 ==> answers.drop_last()[i] == #[trigger] answers[i]);
        } else {
            lemma_answers_of(events.drop_last(), answers, row, col);
        }
    }
}

proof fn lemma_remembered(
    events: Seq<TermEvent<String>>,
    before: Reports<String>,
    after: Reports<String>,
)
    requires
        after@ == all_reported(before@, event_views(events)),
    ensures
        forall|i: int|
            0 <= i < events.len() && (#[trigger] events[i] is WindowTitle || events[i] is IconNameAndWindowTitle)
                && (forall|j: int|
                i < j < events.len() ==> !(#[trigger] events[j] is WindowTitle || events[j]
                    is IconNameAndWindowTitle)) ==> after.title is Some && after.title->0@ == (
            if events[i] is WindowTitle {
                events[i]->WindowTitle_0
            } else {
                events[i]->IconNameAndWindowTitle_0
            })@,
        (forall|i: int|
            0 <= i < events.len() ==> !(#[trigger] events[i] is WindowTitle || events[i]
                is IconNameAndWindowTitle)) ==> (after.title is Some <==> before.title is Some) && (after.title is Some
            ==> after.title->0@ == before.title->0@),
        forall|i: int|
            0 <= i < events.len() && #[trigger] events[i] is Selection && (forall|j: int|
                i < j < events.len() ==> !(#[trigger] events[j] is Selection)) ==> after.clipboard_content is Some
                && after.clipboard_content->0@ == events[i]->Selection_0@,
        (forall|i: int| 0 <= i < events.len() ==> !(#[trigger] events[i] is Selection)) ==> (after.clipboard_content is Some <==> before.clipboard_content is Some) && (after.clipboard_content is Some
            ==> after.clipboard_content->0@ == before.clipboard_content->0@),
        forall|i: int|
            0 <= i < events.len() && #[trigger] events[i] is WorkingDirectory && (forall|j: int|
                i < j < events.len() ==> !(#[trigger] events[j] is WorkingDirectory)) ==> after.cwd is Some
                && after.cwd->0@ == path_of(events[i]->WorkingDirectory_0@),
        (forall|i: int| 0 <= i < events.len() ==> !(#[trigger] events[i] is WorkingDirectory)) ==> (after.cwd is Some <==> before.cwd is Some) && (after.cwd is Some
            ==> after.cwd->0@ == before.cwd->0@),
{
    let views = event_views(events);
    assert(forall|i: int| 0 <= i < events.len() ==> #[trigger] views[i] == events[i]@);
    lemma_no_report(before@, views);
    assert forall|i: int|
        0 <= i < events.len() && (#[trigger] events[i] is WindowTitle || events[i]
            is IconNameAndWindowTitle) && (forall|j: int|
            i < j < events.len() ==> !(#[trigger] events[j] is WindowTitle || events[j]
                is IconNameAndWindowTitle)) implies after.title is Some && after.title->0@ == (
    if events[i] is WindowTitle {
        events[i]->WindowTitle_0
    } else {
        events[i]->IconNameAndWindowTitle_0
    })@ by {
        lemma_last_report(before@, views, i);
    }
    assert forall|i: int|
        0 <= i < events.len() && #[trigger] events[i] is Selection && (forall|j: int|
            i < j < events.len() ==> !(#[trigger] events[j] is Selection)) implies
        after.clipboard_content is Some && after.clipboard_content->0@
        == events[i]->Selection_0@ by {
        lemma_last_report(before@, views, i);
    }
    assert forall|i: int|
        0 <= i < events.len() && #[trigger] events[i] is WorkingDirectory && (forall|j: int|
            i < j < events.len() ==> !(#[trigger] events[j] is WorkingDirectory)) implies after.cwd
        is Some && after.cwd->0@ == path_of(events[i]->WorkingDirectory_0@) by {
        lemma_last_report(before@, views, i);
    }
}

impl Reports<String> {
    /// Nothing is known yet.
    pub fn new() -> (reports: Reports<String>)
        ensures
            reports@ == (Reports::<Seq<char>> { cwd: None, title: None, clipboard_content: None }),
            reports.cwd is None,
            reports.title is None,
            reports.clipboard_content is None,
    {
        Reports { cwd: None, title: None, clipboard_content: None }
    }

    /// Deals with one event: the answer that it asks for, and whom to tell of it.
    fn apply_event(&mut self, event: TermEvent<String>, row: u16, col: u16) -> (outcome: (
        Option<Vec<u8>>,
        Option<Effect<Vec<u8>>>,
    ))
        requires
            row < u16::MAX,
            col < u16::MAX,
        ensures
            final(self)@ == reported(old(self)@, event@),
            // An answer to each query, and to nothing else.
            event is PrimaryAttributes ==> outcome.0 is Some && outcome.0->0@ == seq![
                0x1bu8,
                0x5b,
                0x3f,
                0x36,
                0x32,
                0x3b,
                0x32,
                0x32,
                0x63,
            ],
            event is SecondaryAttributes ==> outcome.0 is Some && outcome.0->0@ == seq![
                0x1bu8,
                0x5b,
                0x3e,
                0x30,
                0x3b,
                0x30,
                0x3b,
                0x30,
                0x63,
            ],
            event is StatusReport ==> outcome.0 is Some && outcome.0->0@ == seq![
                0x1bu8,
                0x5b,
                0x30,
                0x6e,
            ],
            event is CursorPosition ==> outcome.0 is Some && outcome.0->0@ == seq![0x1bu8, 0x5b]
                + decimal(row as nat + 1) + seq![0x3bu8] + decimal(col as nat + 1) + seq![0x52u8],
            event is WorkingDirectory || event is WindowTitle || event is IconNameAndWindowTitle
                || event is Selection || event is Other ==> outcome.0 is None,
            // An announcement of each title and of each text for the clipboard.
            event is WindowTitle || event is IconNameAndWindowTitle ==> outcome.1 == Some(
                Effect::<Vec<u8>>::NotifyTitle,
            ),
            event is Selection ==> outcome.1 == Some(Effect::<Vec<u8>>::NotifyClipboard),
            !(event is WindowTitle || event is IconNameAndWindowTitle || event is Selection)
                ==> outcome.1 is None,
            // What was reported is remembered, and nothing else changes.
            event matches TermEvent::WindowTitle(title) ==> final(self).title == Some(title),
            event matches TermEvent::IconNameAndWindowTitle(title) ==> final(self).title == Some(
                title,
            ),
            event matches TermEvent::Selection(text) ==> final(self).clipboard_content == Some(
                text,
            ),
            event matches TermEvent::WorkingDirectory(url) ==> final(self).cwd is Some
                && final(self).cwd->0@ == path_of(url@),
            !(event is WindowTitle || event is IconNameAndWindowTitle) ==> final(self).title
                == old(self).title,
            !(event is Selection) ==> final(self).clipboard_content == old(self).clipboard_content,
            !(event is WorkingDirectory) ==> final(self).cwd == old(self).cwd,
            match outcome.0 {
                Some(reply) => reply_to(event@, row as nat, col as nat) == Some(reply@),
                None => reply_to(event@, row as nat, col as nat) is None,
            },
            match outcome.1 {
                Some(notice) => notice_of(event@) == Some(notice@),
                None => notice_of(event@) is None,
            },
    {
        match event {
            TermEvent::PrimaryAttributes => {
                let reply: Vec<u8> = vec![0x1b, 0x5b, 0x3f, 0x36, 0x32, 0x3b, 0x32, 0x32, 0x63];
                assert(reply@ =~= primary_attributes());
                (Some(reply), None)
            },
            TermEvent::SecondaryAttributes => {
                let reply: Vec<u8> = vec![0x1b, 0x5b, 0x3e, 0x30, 0x3b, 0x30, 0x3b, 0x30, 0x63];
                assert(reply@ =~= secondary_attributes());
                (Some(reply), None)
            },
            TermEvent::StatusReport => {
                let reply: Vec<u8> = vec![0x1b, 0x5b, 0x30, 0x6e];
                assert(reply@ =~= status_ok());
                (Some(reply), None)
            },
            TermEvent::CursorPosition => (Some(report_position(row, col)), None),
            TermEvent::WorkingDirectory(url) => {
                self.cwd = Some(working_directory_path(url.as_str()));
                (None, None)
            },
            TermEvent::WindowTitle(title) => {
                self.title = Some(title);
                (None, Some(Effect::NotifyTitle))
            },
            TermEvent::IconNameAndWindowTitle(title) => {
                self.title = Some(title);
                (None, Some(Effect::NotifyTitle))
            },
            TermEvent::Selection(text) => {
                self.clipboard_content = Some(text);
                (None, Some(Effect::NotifyClipboard))
            },
            TermEvent::Other => (None, None),
        }
    }

    /// Deals with the events of one chunk of output, all with the cursor where it
    /// stands after that chunk: returns whom to tell, and the answers.
    pub fn apply(&mut self, events: Vec<TermEvent<String>>, row: u16, col: u16) -> (outcome: (
        Vec<Effect<Vec<u8>>>,
        Vec<Vec<u8>>,
    ))
        requires
            row < u16::MAX,
            col < u16::MAX,
        ensures
            final(self)@ == all_reported(old(self)@, event_views(events@)),
            effect_views(outcome.0@) == notices(event_views(events@)),
            reply_views(outcome.1@) == replies(event_views(events@), row as nat, col as nat),
            // Each event that sets the title or the clipboard is announced, in order.
            outcome.0@ == events@.filter(
                |event: TermEvent<String>|
                    event is WindowTitle || event is IconNameAndWindowTitle || event is Selection,
            ).map_values(
                |event: TermEvent<String>|
                    if event is Selection {
                        Effect::<Vec<u8>>::NotifyClipboard
                    } else {
                        Effect::NotifyTitle
                    },
            ),
            // Each query is answered, in order.
            outcome.1@.len() == events@.filter(
                |event: TermEvent<String>|
                    event is PrimaryAttributes || event is SecondaryAttributes || event is StatusReport
                        || event is CursorPosition,
            ).len(),
            forall|i: int|
                #![trigger outcome.1@[i]]
                0 <= i < outcome.1@.len() ==> outcome.1@[i]@ == match events@.filter(
                    |event: TermEvent<String>|
                        event is PrimaryAttributes || event is SecondaryAttributes || event is StatusReport
                            || event is CursorPosition,
                )[i] {
                    TermEvent::PrimaryAttributes => seq![
                        0x1bu8, 0x5b, 0x3f, 0x36, 0x32, 0x3b, 0x32, 0x32, 0x63,
                    ],
                    TermEvent::SecondaryAttributes => seq![
                        0x1bu8, 0x5b, 0x3e, 0x30, 0x3b, 0x30, 0x3b, 0x30, 0x63,
                    ],
                    TermEvent::StatusReport => seq![0x1bu8, 0x5b, 0x30, 0x6e],
                    _ => seq![0x1bu8, 0x5b] + decimal(row as nat + 1) + seq![0x3bu8] + decimal(
                        col as nat + 1,
                    ) + seq![0x52u8],
                },
            // The last report of each kind is remembered.
            forall|i: int|
                0 <= i < events@.len() && (#[trigger] events@[i] is WindowTitle || events@[i] is IconNameAndWindowTitle)
                    && (forall|j: int|
                    i < j < events@.len() ==> !(#[trigger] events@[j] is WindowTitle || events@[j]
                        is IconNameAndWindowTitle)) ==> final(self).title is Some && final(self).title->0@ == (
                if events@[i] is WindowTitle {
                    events@[i]->WindowTitle_0
                } else {
                    events@[i]->IconNameAndWindowTitle_0
                })@,
            (forall|i: int|
                0 <= i < events@.len() ==> !(#[trigger] events@[i] is WindowTitle || events@[i]
                    is IconNameAndWindowTitle)) ==> (final(self).title is Some <==> old(self).title is Some) && (final(self).title is Some
                ==> final(self).title->0@ == old(self).title->0@),
            forall|i: int|
                0 <= i < events@.len() && #[trigger] events@[i] is Selection && (forall|j: int|
                    i < j < events@.len() ==> !(#[trigger] events@[j] is Selection)) ==> final(self).clipboard_content is Some
                    && final(self).clipboard_content->0@ == events@[i]->Selection_0@,
            (forall|i: int| 0 <= i < events@.len() ==> !(#[trigger] events@[i] is Selection)) ==> (final(self).clipboard_content is Some <==> old(self).clipboard_content is Some) && (final(self).clipboard_content is Some
                ==> final(self).clipboard_content->0@ == old(self).clipboard_content->0@),
            forall|i: int|
                0 <= i < events@.len() && #[trigger] events@[i] is WorkingDirectory && (forall|j: int|
                    i < j < events@.len() ==> !(#[trigger] events@[j] is WorkingDirectory)) ==> final(self).cwd is Some
                    && final(self).cwd->0@ == path_of(events@[i]->WorkingDirectory_0@),
            (forall|i: int| 0 <= i < events@.len() ==> !(#[trigger] events@[i] is WorkingDirectory)) ==> (final(self).cwd is Some <==> old(self).cwd is Some) && (final(self).cwd is Some
                ==> final(self).cwd->0@ == old(self).cwd->0@),
    {
        let ghost items = events@;
        let ghost start = *self;
        let ghost all = event_views(events@);
        let ghost before = self@;
        let mut notified: Vec<Effect<Vec<u8>>> = Vec::new();
        let mut responses: Vec<Vec<u8>> = Vec::new();
        assert(effect_views(notified@) =~= notices(all.take(0)));
        assert(reply_views(responses@) =~= replies(all.take(0), row as nat, col as nat));
        for event in it: events
            invariant
                row < u16::MAX,
                col < u16::MAX,
                it.seq() == items,
                event_views(items) == all,
                self@ == all_reported(before, all.take(it.index() as int)),
                effect_views(notified@) == notices(all.take(it.index() as int)),
                reply_views(responses@) == replies(
                    all.take(it.index() as int),
                    row as nat,
                    col as nat,
                ),
        {
            let ghost done = all.take(it.index() + 1);
            assert(done.drop_last() =~= all.take(it.index() as int));
            assert(done.last() == event@);
            let (reply, notice) = self.apply_event(event, row, col);
            match notice {
                Some(notice) => {
                    let ghost earlier = notified@;
                    notified.push(notice);
                    assert(effect_views(notified@) =~= effect_views(earlier).push(notice@));
                },
                None => {},
            }
            match reply {
                Some(reply) => {
                    let ghost earlier = responses@;
                    responses.push(reply);
                    assert(reply_views(responses@) =~= reply_views(earlier).push(reply@));
                },
                None => {},
            }
        }
        assert(all.take(all.len() as int) =~= all);
        proof {
            lemma_announcements_of(items, notified@);
            lemma_answers_of(items, responses@, row as nat, col as nat);
            lemma_remembered(items, start, *self);
        }
        (notified, responses)
    }
}

/// Lists everything that a chunk of output calls for, in order: the announcements,
/// the answers while the program can be written to, and the news of the output.
pub fn list_effects(
    notified: Vec<Effect<Vec<u8>>>,
    responses: Vec<Vec<u8>>,
    writer_open: bool,
) -> (effects: Vec<Effect<Vec<u8>>>)
    ensures
        effect_views(effects@) == effect_views(notified@) + written(
            reply_views(responses@),
            writer_open,
        ) + seq![Effect::SendUpdate, Effect::NotifyOutput],
        effects@ == notified@ + (if writer_open && responses@.len() > 0 {
            responses@.map_values(|reply: Vec<u8>| Effect::Write(reply)).push(Effect::Flush)
        } else {
            Seq::empty()
        }) + seq![Effect::<Vec<u8>>::SendUpdate, Effect::NotifyOutput],
{
    let ghost told = notified@;
    let ghost items = responses@;
    let ghost all = reply_views(responses@);
    let ghost announced = effect_views(notified@);
    let mut effects: Vec<Effect<Vec<u8>>> = notified;
    if writer_open && responses.len() > 0 {
        let ghost writes = all.map_values(|reply: Seq<u8>| Effect::Write(reply));
        for response in it: responses
            invariant
                it.seq() == items,
                reply_views(items) == all,
                effects@ == told + items.take(it.index() as int).map_values(
                    |reply: Vec<u8>| Effect::Write(reply),
                ),
                writes == all.map_values(|reply: Seq<u8>| Effect::Write(reply)),
                effect_views(effects@) == announced + writes.take(it.index() as int),
        {
            let ghost earlier = effects@;
            assert(all[it.index() as int] == response@);
            assert(items.take(it.index() + 1).map_values(|reply: Vec<u8>| Effect::Write(reply))
                =~= items.take(it.index() as int).map_values(
                |reply: Vec<u8>| Effect::Write(reply),
            ).push(Effect::Write(response)));
            effects.push(Effect::Write(response));
            assert(effect_views(effects@) =~= effect_views(earlier).push(
                writes[it.index() as int],
            ));
            assert(writes.take(it.index() + 1) =~= writes.take(it.index() as int).push(
                writes[it.index() as int],
            ));
        }
        assert(writes.take(writes.len() as int) =~= writes);
        assert(items.take(items.len() as int) =~= items);
        let ghost earlier = effects@;
        effects.push(Effect::Flush);
        assert(effect_views(effects@) =~= effect_views(earlier).push(Effect::Flush));
    }
    let ghost earlier = effects@;
    effects.push(Effect::SendUpdate);
    effects.push(Effect::NotifyOutput);
    assert(effect_views(effects@) =~= effect_views(earlier) + seq![
        Effect::<Seq<u8>>::SendUpdate,
        Effect::NotifyOutput,
    ]);
    effects
}

} // verus!
