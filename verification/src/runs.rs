//! What holds over a run of reads, however the output is cut into them.
use vstd::prelude::*;

use crate::decoder::{events_by_byte, events_in, TermEvent};
use crate::emulator::{
    drawn_by_char, last_cut, lemma_last_cut_in_range, screen_of, Emulator,
};
use crate::laws::{law_events_split, lemma_notices_only_notify};
use crate::reply::{all_reported, notices, read_effects, replies, written, Effect, Reports};
use crate::session::SessionView;
use crate::stream::{
    asks_control_mode, inside_char, joined, lemma_control_mode_stays_asked, lemma_joined_concat,
};

verus! {

/// The session after a run of reads.
pub open spec fn session_after(session: SessionView, chunks: Seq<Seq<u8>>) -> SessionView
    decreases chunks.len(),
{
    if chunks.len() == 0 {
        session
    } else {
        session_after(session, chunks.drop_last()).after_read(chunks.last())
    }
}

/// Everything that a run of reads calls for.
pub open spec fn effects_over(session: SessionView, chunks: Seq<Seq<u8>>) -> Seq<Effect<Seq<u8>>>
    decreases chunks.len(),
{
    if chunks.len() == 0 {
        Seq::empty()
    } else {
        effects_over(session, chunks.drop_last()) + session_after(
            session,
            chunks.drop_last(),
        ).read_calls_for(chunks.last())
    }
}

/// What a list of effects writes to the program, in order.
pub open spec fn writes(effects: Seq<Effect<Seq<u8>>>) -> Seq<Seq<u8>>
    decreases effects.len(),
{
    if effects.len() == 0 {
        Seq::empty()
    } else {
        match effects.last() {
            Effect::Write(bytes) => writes(effects.drop_last()).push(bytes),
            _ => writes(effects.drop_last()),
        }
    }
}

/// The announcements in a list of effects that a title or the clipboard was set.
pub open spec fn announced(effects: Seq<Effect<Seq<u8>>>) -> Seq<Effect<Seq<u8>>>
    decreases effects.len(),
{
    if effects.len() == 0 {
        Seq::empty()
    } else {
        match effects.last() {
            Effect::NotifyTitle | Effect::NotifyClipboard => announced(effects.drop_last()).push(
                effects.last(),
            ),
            _ => announced(effects.drop_last()),
        }
    }
}

/// The events of a run of reads: each chunk is decoded after those before it.
pub open spec fn events_over(before: Seq<Seq<u8>>, chunks: Seq<Seq<u8>>) -> Seq<
    TermEvent<Seq<char>>,
>
    decreases chunks.len(),
{
    if chunks.len() == 0 {
        Seq::empty()
    } else {
        events_over(before, chunks.drop_last()) + events_in(
            before + chunks.drop_last(),
            chunks.last(),
        )
    }
}

/// Whether no event asks where the cursor is.
pub open spec fn asks_no_position(events: Seq<TermEvent<Seq<char>>>) -> bool {
    forall|i: int| 0 <= i < events.len() ==> !(#[trigger] events[i] is CursorPosition)
}

/// The queries and the reports among a list of events.
pub open spec fn telling(events: Seq<TermEvent<Seq<char>>>) -> Seq<TermEvent<Seq<char>>> {
    events.filter(|event: TermEvent<Seq<char>>| !(event is Other))
}

proof fn lemma_effects_concat(first: Seq<Effect<Seq<u8>>>, second: Seq<Effect<Seq<u8>>>)
    ensures
        writes(first + second) == writes(first) + writes(second),
        announced(first + second) == announced(first) + announced(second),
    decreases second.len(),
{
    if second.len() == 0 {
        assert(first + second =~= first);
        assert(writes(first) + writes(second) =~= writes(first));
        assert(announced(first) + announced(second) =~= announced(first));
    } else {
        assert((first + second).drop_last() =~= first + second.drop_last());
        lemma_effects_concat(first, second.drop_last());
        assert(writes(first + second) =~= writes(first) + writes(second));
        assert(announced(first + second) =~= announced(first) + announced(second));
    }
}

proof fn lemma_announcements(effects: Seq<Effect<Seq<u8>>>)
    requires
        forall|i: int|
            0 <= i < effects.len() ==> (#[trigger] effects[i] is NotifyTitle || effects[i]
                is NotifyClipboard),
    ensures
        writes(effects) == Seq::<Seq<u8>>::empty(),
        announced(effects) == effects,
    decreases effects.len(),
{
    if effects.len() > 0 {
        let earlier = effects.drop_last();
        assert(forall|i: int| 0 <= i < earlier.len() ==> #[trigger] earlier[i] == effects[i]);
        assert(effects[effects.len() - 1] == effects.last());
        lemma_announcements(earlier);
        assert(announced(effects) =~= effects);
    } else {
        assert(announced(effects) =~= effects);
    }
}

proof fn lemma_answers(answers: Seq<Seq<u8>>)
    ensures
        writes(answers.map_values(|reply: Seq<u8>| Effect::Write(reply))) == answers,
        announced(answers.map_values(|reply: Seq<u8>| Effect::Write(reply))) == Seq::<
            Effect<Seq<u8>>,
        >::empty(),
    decreases answers.len(),
{
    let effects = answers.map_values(|reply: Seq<u8>| Effect::Write(reply));
    if answers.len() > 0 {
        lemma_answers(answers.drop_last());
        assert(effects.drop_last() =~= answers.drop_last().map_values(
            |reply: Seq<u8>| Effect::Write(reply),
        ));
        assert(writes(effects) =~= answers);
    } else {
        assert(writes(effects) =~= answers);
    }
}

proof fn lemma_one_read(events: Seq<TermEvent<Seq<char>>>, row: nat, col: nat, writer_open: bool)
    ensures
        writes(read_effects(events, row, col, writer_open)) == (if writer_open {
            replies(events, row, col)
        } else {
            Seq::empty()
        }),
        announced(read_effects(events, row, col, writer_open)) == notices(events),
{
    let answers = replies(events, row, col);
    let told = notices(events);
    let news = seq![Effect::<Seq<u8>>::SendUpdate, Effect::NotifyOutput];
    lemma_notices_only_notify(events);
    lemma_announcements(told);
    lemma_answers(answers);
    lemma_effects_concat(told, written(answers, writer_open));
    lemma_effects_concat(told + written(answers, writer_open), news);
    assert(news.drop_last().drop_last() =~= Seq::empty());
    reveal_with_fuel(writes, 3);
    reveal_with_fuel(announced, 3);
    if writer_open && answers.len() > 0 {
        let effects = answers.map_values(|reply: Seq<u8>| Effect::Write(reply));
        assert(effects.push(Effect::Flush).drop_last() =~= effects);
    }
    assert(writes(read_effects(events, row, col, writer_open)) =~= writes(
        written(answers, writer_open),
    ));
    assert(announced(read_effects(events, row, col, writer_open)) =~= told);
}

proof fn lemma_no_position_so_far(events: Seq<TermEvent<Seq<char>>>)
    requires
        events.len() > 0,
    ensures
        asks_no_position(events) == (asks_no_position(events.drop_last())
            && !(events.last() is CursorPosition)),
{
    let earlier = events.drop_last();
    assert(forall|i: int| 0 <= i < earlier.len() ==> #[trigger] earlier[i] == events[i]);
    assert forall|i: int|
        0 <= i < events.len() && asks_no_position(earlier) && !(events.last()
            is CursorPosition) implies !(#[trigger] events[i] is CursorPosition) by {
        if i < earlier.len() {
            assert(earlier[i] == events[i]);
        }
    }
    if asks_no_position(events) {
        assert(!(events[events.len() - 1] is CursorPosition));
    }
}

proof fn lemma_cursor_unasked(events: Seq<TermEvent<Seq<char>>>, row: nat, col: nat)
    requires
        asks_no_position(events),
    ensures
        replies(events, row, col) == replies(events, 0, 0),
    decreases events.len(),
{
    if events.len() > 0 {
        lemma_no_position_so_far(events);
        lemma_cursor_unasked(events.drop_last(), row, col);
    }
}

proof fn lemma_others_do_nothing(
    reports: Reports<Seq<char>>,
    events: Seq<TermEvent<Seq<char>>>,
    row: nat,
    col: nat,
)
    ensures
        replies(telling(events), row, col) == replies(events, row, col),
        notices(telling(events)) == notices(events),
        all_reported(reports, telling(events)) == all_reported(reports, events),
        asks_no_position(telling(events)) == asks_no_position(events),
    decreases events.len(),
{
    reveal(Seq::filter);
    if events.len() > 0 {
        lemma_others_do_nothing(reports, events.drop_last(), row, col);
        if !(events.last() is Other) {
            assert(telling(events).drop_last() =~= telling(events.drop_last()));
        }
        lemma_no_position_so_far(events);
        if telling(events).len() > 0 {
            lemma_no_position_so_far(telling(events));
        }
    }
}

proof fn lemma_run_of_reads(session: SessionView, chunks: Seq<Seq<u8>>)
    requires
        asks_no_position(events_over(session.fed, chunks)),
    ensures
        session_after(session, chunks).fed == session.fed + chunks,
        session_after(session, chunks).writer_open == session.writer_open,
        session_after(session, chunks).reports == all_reported(
            session.reports,
            events_over(session.fed, chunks),
        ),
        announced(effects_over(session, chunks)) == notices(events_over(session.fed, chunks)),
        writes(effects_over(session, chunks)) == (if session.writer_open {
            replies(events_over(session.fed, chunks), 0, 0)
        } else {
            Seq::empty()
        }),
    decreases chunks.len(),
{
    if chunks.len() == 0 {
        assert(session.fed + chunks =~= session.fed);
    } else {
        let so_far = session_after(session, chunks.drop_last());
        let earlier = events_over(session.fed, chunks.drop_last());
        let latest = events_in(session.fed + chunks.drop_last(), chunks.last());
        let all = events_over(session.fed, chunks);
        assert(all == earlier + latest);
        assert(forall|i: int| 0 <= i < earlier.len() ==> earlier[i] == all[i]);
        assert(forall|i: int| 0 <= i < latest.len() ==> latest[i] == all[earlier.len() + i]);
        lemma_run_of_reads(session, chunks.drop_last());
        assert((session.fed + chunks.drop_last()).push(chunks.last()) =~= session.fed + chunks);
        let screen = screen_of(so_far.after_read(chunks.last()).emulator);
        let (row, col) = (screen.cursor_row as nat, screen.cursor_col as nat);
        lemma_one_read(latest, row, col, session.writer_open);
        lemma_effects_concat(
            effects_over(session, chunks.drop_last()),
            so_far.read_calls_for(chunks.last()),
        );
        lemma_cursor_unasked(latest, row, col);
        law_events_split(session.reports, earlier, latest, 0, 0);
    }
}

/// The queries and reports that are found in the output decide what becomes of it:
/// where two runs of reads hold the same ones, none of them a query for the cursor,
/// the same is written and announced, and the same is known of the program afterwards.
pub proof fn law_events_decide(
    session: SessionView,
    chunks: Seq<Seq<u8>>,
    other_chunks: Seq<Seq<u8>>,
)
    requires
        telling(events_over(session.fed, chunks)) == telling(
            events_over(session.fed, other_chunks),
        ),
        asks_no_position(events_over(session.fed, chunks)),
    ensures
        writes(effects_over(session, chunks)) == writes(effects_over(session, other_chunks)),
        announced(effects_over(session, chunks)) == announced(effects_over(session, other_chunks)),
        session_after(session, chunks).reports == session_after(session, other_chunks).reports,
{
    lemma_others_do_nothing(session.reports, events_over(session.fed, chunks), 0, 0);
    lemma_others_do_nothing(session.reports, events_over(session.fed, other_chunks), 0, 0);
    lemma_run_of_reads(session, chunks);
    lemma_run_of_reads(session, other_chunks);
}

proof fn lemma_bytes_split(before: Seq<u8>, first: Seq<u8>, second: Seq<u8>)
    ensures
        events_by_byte(before, first + second) == events_by_byte(before, first) + events_by_byte(
            before + first,
            second,
        ),
    decreases second.len(),
{
    if second.len() == 0 {
        assert(first + second =~= first);
        assert(events_by_byte(before, first) + events_by_byte(before + first, second)
            =~= events_by_byte(before, first));
    } else {
        let all = first + second;
        assert(all.drop_last() =~= first + second.drop_last());
        assert(before + all.drop_last() =~= before + first + second.drop_last());
        lemma_bytes_split(before, first, second.drop_last());
        assert(events_by_byte(before, all) =~= events_by_byte(before, first) + events_by_byte(
            before + first,
            second,
        ));
    }
}

proof fn lemma_events_of_bytes(before: Seq<Seq<u8>>, chunks: Seq<Seq<u8>>)
    requires
        !asks_control_mode(joined(before) + joined(chunks)),
    ensures
        events_over(before, chunks) == events_by_byte(joined(before), joined(chunks)),
    decreases chunks.len(),
{
    if chunks.len() > 0 {
        let earlier = chunks.drop_last();
        let stream = joined(before) + joined(earlier);
        assert(joined(before) + joined(chunks) =~= stream + chunks.last());
        if asks_control_mode(stream) {
            lemma_control_mode_stays_asked(stream, chunks.last());
        }
        lemma_events_of_bytes(before, earlier);
        lemma_joined_concat(before, earlier);
        lemma_bytes_split(joined(before), joined(earlier), chunks.last());
    }
}

/// How the output is cut into reads makes no difference to what the program gets and
/// to what is known of it. Two runs that read the same bytes, cut at any places, also
/// inside an escape sequence or a character, write the same, announce the same, and
/// leave the same working directory, title and clipboard.
///
/// The cursor must not be asked for, since it is reported where the read that asks
/// leaves it. Left out are streams that may ask for the control mode of `tmux`, in
/// which `termwiz` deals with each chunk as a whole. Nothing is said here of the
/// screen.
pub proof fn law_reads_may_be_cut_anywhere(
    session: SessionView,
    chunks: Seq<Seq<u8>>,
    other_chunks: Seq<Seq<u8>>,
)
    requires
        joined(chunks) == joined(other_chunks),
        !asks_control_mode(joined(session.fed) + joined(chunks)),
        asks_no_position(events_by_byte(joined(session.fed), joined(chunks))),
    ensures
        writes(effects_over(session, chunks)) == writes(effects_over(session, other_chunks)),
        announced(effects_over(session, chunks)) == announced(effects_over(session, other_chunks)),
        session_after(session, chunks).reports == session_after(session, other_chunks).reports,
{
    lemma_events_of_bytes(session.fed, chunks);
    lemma_events_of_bytes(session.fed, other_chunks);
    law_events_decide(session, chunks, other_chunks);
}

proof fn lemma_cut_stays(before: Seq<u8>, first: Seq<u8>, second: Seq<u8>, at: int)
    requires
        !inside_char(before + first),
        0 <= at < second.len(),
    ensures
        last_cut(before, first + second, first.len() + at) == first.len() + last_cut(
            before + first,
            second,
            at,
        ),
    decreases at,
{
    let all = first + second;
    assert(before + all.take(first.len() + at) =~= before + first + second.take(at));
    if at == 0 {
        assert(before + first + second.take(0) =~= before + first);
    } else {
        lemma_cut_stays(before, first, second, at - 1);
    }
}

proof fn lemma_drawing_split(emulator: Emulator, before: Seq<u8>, first: Seq<u8>, second: Seq<u8>)
    requires
        !inside_char(before + first),
    ensures
        drawn_by_char(emulator, before, first + second) == drawn_by_char(
            drawn_by_char(emulator, before, first),
            before + first,
            second,
        ),
    decreases second.len(),
{
    let all = first + second;
    if second.len() == 0 {
        assert(all =~= first);
    } else {
        let at = second.len() - 1;
        let cut = last_cut(before + first, second, at);
        lemma_last_cut_in_range(before + first, second, at);
        lemma_cut_stays(before, first, second, at);
        assert(all.take(first.len() + cut) =~= first + second.take(cut));
        assert(all.skip(first.len() + cut) =~= second.skip(cut));
        lemma_drawing_split(emulator, before, first, second.take(cut));
    }
}

/// Whether no read starts inside a character, where the first starts after the bytes
/// in `before`.
pub open spec fn cuts_no_char(before: Seq<u8>, chunks: Seq<Seq<u8>>) -> bool {
    forall|i: int|
        0 <= i < chunks.len() ==> !inside_char(before + joined(#[trigger] chunks.take(i)))
}

proof fn lemma_drawing_of_bytes(session: SessionView, chunks: Seq<Seq<u8>>)
    requires
        cuts_no_char(session.seen, chunks),
    ensures
        session_after(session, chunks).seen == session.seen + joined(chunks),
        session_after(session, chunks).emulator == drawn_by_char(
            session.emulator,
            session.seen,
            joined(chunks),
        ),
    decreases chunks.len(),
{
    if chunks.len() == 0 {
        assert(session.seen + joined(chunks) =~= session.seen);
    } else {
        let earlier = chunks.drop_last();
        assert forall|i: int| 0 <= i < earlier.len() implies !inside_char(
            session.seen + joined(#[trigger] earlier.take(i)),
        ) by {
            assert(earlier.take(i) =~= chunks.take(i));
        }
        lemma_drawing_of_bytes(session, earlier);
        assert(chunks.take(chunks.len() - 1) =~= earlier);
        lemma_drawing_split(session.emulator, session.seen, joined(earlier), chunks.last());
        assert(session.seen + joined(earlier) + chunks.last() =~= session.seen + joined(chunks));
    }
}

/// How the output is cut into reads makes no difference to the screen either, as long
/// as no character is cut: two such runs that read the same bytes leave the emulator
/// the same.
///
/// After a character that was cut, `vte` may drop what follows it, so cuts inside one
/// are left out.
pub proof fn law_screen_outlives_cuts_between_characters(
    session: SessionView,
    chunks: Seq<Seq<u8>>,
    other_chunks: Seq<Seq<u8>>,
)
    requires
        joined(chunks) == joined(other_chunks),
        cuts_no_char(session.seen, chunks),
        cuts_no_char(session.seen, other_chunks),
    ensures
        session_after(session, chunks).emulator == session_after(session, other_chunks).emulator,
{
    lemma_drawing_of_bytes(session, chunks);
    lemma_drawing_of_bytes(session, other_chunks);
}

} // verus!
