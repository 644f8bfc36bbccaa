//! The turns that reading and updating take, and what holds over all of them. Every
//! read that gives something sends for an update. The end of the updates comes when
//! the reading has ended and every update that was sent for has been dealt with. It is
//! a channel that keeps to this order: it hands out what was sent, and its end only
//! when there is nothing left and nobody to send more.
use vstd::prelude::*;

use crate::decoder::events_in;
use crate::emulator::screen_of;
use crate::laws::lemma_notices_only_notify;
use crate::reply::{notices, replies, written, Effect};
use crate::session::{close_calls_for, update_calls_for, SessionView};

verus! {

/// One turn of a terminal.
pub enum Turn {
    /// A read from the program: the bytes that it gave, or `None` where it failed.
    Read(Option<Seq<u8>>),
    /// An update that was sent for is dealt with.
    Update,
    /// The end of the updates is dealt with.
    Close,
}

/// How far a terminal has got.
pub struct Course {
    pub session: SessionView,
    /// Whether there is more to read.
    pub reading: bool,
    /// Updates that were sent for and not dealt with yet.
    pub pending: nat,
    /// Whether the end of the updates has been dealt with.
    pub closed: bool,
    /// Everything that was called for so far, in order.
    pub done: Seq<Effect<Seq<u8>>>,
}

/// How often an effect was called for.
pub open spec fn tally(effects: Seq<Effect<Seq<u8>>>, effect: Effect<Seq<u8>>) -> nat
    decreases effects.len(),
{
    if effects.len() == 0 {
        0
    } else if effects.last() == effect {
        tally(effects.drop_last(), effect) + 1
    } else {
        tally(effects.drop_last(), effect)
    }
}

/// A terminal whose tasks have just been started.
pub open spec fn started(session: SessionView) -> Course {
    Course { session, reading: true, pending: 0, closed: false, done: Seq::empty() }
}

/// Whether a turn is a read that ends the reading: one that failed, or gave nothing.
pub open spec fn is_end(turn: Turn) -> bool {
    match turn {
        Turn::Read(Some(bytes)) => bytes.len() == 0,
        Turn::Read(None) => true,
        _ => false,
    }
}

/// Whether a turn is a read that gave something.
pub open spec fn is_output(turn: Turn) -> bool {
    turn is Read && !is_end(turn)
}

/// Whether a turn can come next.
pub open spec fn may_come(course: Course, turn: Turn) -> bool {
    match turn {
        Turn::Read(_) => course.reading,
        Turn::Update => course.pending > 0,
        Turn::Close => !course.reading && course.pending == 0 && !course.closed,
    }
}

/// How far the terminal has got after one more turn.
pub open spec fn taken(course: Course, turn: Turn) -> Course {
    match turn {
        Turn::Read(data) => if is_end(turn) {
            Course { reading: false, ..course }
        } else {
            let effects = course.session.read_calls_for(data->0);
            Course {
                session: course.session.after_read(data->0),
                pending: course.pending + tally(effects, Effect::SendUpdate),
                done: course.done + effects,
                ..course
            }
        },
        Turn::Update => Course {
            session: course.session.after_update(),
            pending: (course.pending - 1) as nat,
            done: course.done + update_calls_for(),
            ..course
        },
        Turn::Close => Course {
            session: course.session.after_close(),
            closed: true,
            done: course.done + close_calls_for(),
            ..course
        },
    }
}

/// How far the terminal has got after some turns.
pub open spec fn course_after(start: Course, turns: Seq<Turn>) -> Course
    decreases turns.len(),
{
    if turns.len() == 0 {
        start
    } else {
        taken(course_after(start, turns.drop_last()), turns.last())
    }
}

/// Whether each of the turns could come when it came.
pub open spec fn in_order(start: Course, turns: Seq<Turn>) -> bool
    decreases turns.len(),
{
    turns.len() > 0 ==> {
        &&& in_order(start, turns.drop_last())
        &&& may_come(course_after(start, turns.drop_last()), turns.last())
    }
}

/// How many of the turns are reads that gave something.
pub open spec fn outputs(turns: Seq<Turn>) -> nat
    decreases turns.len(),
{
    if turns.len() == 0 {
        0
    } else if is_output(turns.last()) {
        outputs(turns.drop_last()) + 1
    } else {
        outputs(turns.drop_last())
    }
}

/// How many of the turns are updates.
pub open spec fn updates(turns: Seq<Turn>) -> nat
    decreases turns.len(),
{
    if turns.len() == 0 {
        0
    } else if turns.last() is Update {
        updates(turns.drop_last()) + 1
    } else {
        updates(turns.drop_last())
    }
}

/// Whether the reading has ended in one of the turns.
pub open spec fn has_ended(turns: Seq<Turn>) -> bool {
    exists|i: int| 0 <= i < turns.len() && is_end(#[trigger] turns[i])
}

proof fn lemma_tally_concat(
    first: Seq<Effect<Seq<u8>>>,
    second: Seq<Effect<Seq<u8>>>,
    effect: Effect<Seq<u8>>,
)
    ensures
        tally(first + second, effect) == tally(first, effect) + tally(second, effect),
    decreases second.len(),
{
    if second.len() == 0 {
        assert(first + second =~= first);
    } else {
        assert((first + second).drop_last() =~= first + second.drop_last());
        lemma_tally_concat(first, second.drop_last(), effect);
    }
}

proof fn lemma_tally_none(effects: Seq<Effect<Seq<u8>>>, effect: Effect<Seq<u8>>)
    requires
        forall|i: int| 0 <= i < effects.len() ==> #[trigger] effects[i] != effect,
    ensures
        tally(effects, effect) == 0,
    decreases effects.len(),
{
    if effects.len() > 0 {
        let earlier = effects.drop_last();
        assert(forall|i: int| 0 <= i < earlier.len() ==> #[trigger] earlier[i] == effects[i]);
        assert(effects[effects.len() - 1] == effects.last());
        lemma_tally_none(earlier, effect);
    }
}

/// The effects that the laws below count.
spec fn is_counted(effect: Effect<Seq<u8>>) -> bool {
    effect is SendUpdate || effect is NotifyOutput || effect is NotifyClosed || effect is DropWriter
}

proof fn lemma_tally_read(session: SessionView, bytes: Seq<u8>, effect: Effect<Seq<u8>>)
    requires
        is_counted(effect),
    ensures
        tally(session.read_calls_for(bytes), effect) == (if effect is SendUpdate || effect
            is NotifyOutput {
            1nat
        } else {
            0nat
        }),
{
    let events = events_in(session.fed, bytes);
    let screen = screen_of(session.after_read(bytes).emulator);
    let told = notices(events);
    let answers = written(
        replies(events, screen.cursor_row as nat, screen.cursor_col as nat),
        session.writer_open,
    );
    let news = seq![Effect::<Seq<u8>>::SendUpdate, Effect::NotifyOutput];
    lemma_notices_only_notify(events);
    lemma_tally_none(told, effect);
    lemma_tally_none(answers, effect);
    lemma_tally_concat(told, answers, effect);
    lemma_tally_concat(told + answers, news, effect);
    reveal_with_fuel(tally, 3);
}

proof fn lemma_tally_turn(course: Course, turn: Turn, effect: Effect<Seq<u8>>)
    requires
        is_counted(effect),
    ensures
        tally(taken(course, turn).done, effect) == tally(course.done, effect) + (if effect
            is SendUpdate || effect is NotifyOutput {
            if is_output(turn) {
                1nat
            } else {
                0nat
            }
        } else if turn is Close {
            1nat
        } else {
            0nat
        }),
{
    match turn {
        Turn::Read(data) => {
            if !is_end(turn) {
                let effects = course.session.read_calls_for(data->0);
                lemma_tally_concat(course.done, effects, effect);
                lemma_tally_read(course.session, data->0, effect);
            }
        },
        Turn::Update => {
            lemma_tally_concat(course.done, update_calls_for(), effect);
            lemma_tally_none(update_calls_for(), effect);
        },
        Turn::Close => {
            lemma_tally_concat(course.done, close_calls_for(), effect);
            reveal_with_fuel(tally, 4);
        },
    }
}

proof fn lemma_has_ended_so_far(turns: Seq<Turn>)
    requires
        turns.len() > 0,
    ensures
        has_ended(turns) == (has_ended(turns.drop_last()) || is_end(turns.last())),
{
    let earlier = turns.drop_last();
    if has_ended(earlier) {
        let i = choose|i: int| 0 <= i < earlier.len() && is_end(#[trigger] earlier[i]);
        assert(is_end(turns[i]));
    }
    if is_end(turns.last()) {
        assert(is_end(turns[turns.len() - 1]));
    }
    if has_ended(turns) {
        let i = choose|i: int| 0 <= i < turns.len() && is_end(#[trigger] turns[i]);
        if i < earlier.len() {
            assert(is_end(earlier[i]));
        }
    }
}

proof fn lemma_course(session: SessionView, turns: Seq<Turn>)
    requires
        in_order(started(session), turns),
    ensures
        ({
            let course = course_after(started(session), turns);
            let closings: nat = if course.closed {
                1
            } else {
                0
            };
            &&& course.reading == !has_ended(turns)
            &&& outputs(turns) == updates(turns) + course.pending
            &&& tally(course.done, Effect::NotifyOutput) == outputs(turns)
            &&& tally(course.done, Effect::SendUpdate) == outputs(turns)
            &&& tally(course.done, Effect::NotifyClosed) == closings
            &&& tally(course.done, Effect::DropWriter) == closings
            &&& course.closed ==> !course.reading && course.pending == 0
            &&& course.closed == (turns.len() > 0 && turns.last() is Close)
            &&& course.session.writer_open == (session.writer_open && !course.closed)
        }),
    decreases turns.len(),
{
    if turns.len() > 0 {
        let earlier = turns.drop_last();
        let before = course_after(started(session), earlier);
        lemma_course(session, earlier);
        lemma_has_ended_so_far(turns);
        lemma_tally_turn(before, turns.last(), Effect::NotifyOutput);
        lemma_tally_turn(before, turns.last(), Effect::SendUpdate);
        lemma_tally_turn(before, turns.last(), Effect::NotifyClosed);
        lemma_tally_turn(before, turns.last(), Effect::DropWriter);
        if is_output(turns.last()) {
            lemma_tally_read(before.session, turns.last()->Read_0->0, Effect::SendUpdate);
        }
    }
}

proof fn lemma_order_so_far(start: Course, turns: Seq<Turn>, len: int)
    requires
        in_order(start, turns),
        0 <= len <= turns.len(),
    ensures
        in_order(start, turns.take(len)),
    decreases turns.len(),
{
    if len == turns.len() {
        assert(turns.take(len) =~= turns);
    } else {
        lemma_order_so_far(start, turns.drop_last(), len);
        assert(turns.drop_last().take(len) =~= turns.take(len));
    }
}

proof fn lemma_turn_came(start: Course, turns: Seq<Turn>, at: int)
    requires
        in_order(start, turns),
        0 <= at < turns.len(),
    ensures
        in_order(start, turns.take(at)),
        may_come(course_after(start, turns.take(at)), turns[at]),
{
    lemma_order_so_far(start, turns, at);
    lemma_order_so_far(start, turns, at + 1);
    assert(turns.take(at + 1).drop_last() =~= turns.take(at));
}

/// Those who watch the output are told once for every read that gives something, and
/// as often an update is sent for. The end of the reading is not announced to them.
pub proof fn law_one_notice_per_output(session: SessionView, turns: Seq<Turn>)
    requires
        in_order(started(session), turns),
    ensures
        tally(course_after(started(session), turns).done, Effect::NotifyOutput) == outputs(turns),
        tally(course_after(started(session), turns).done, Effect::SendUpdate) == outputs(turns),
{
    lemma_course(session, turns);
}

/// Nothing is read after the end.
pub proof fn law_nothing_read_after_the_end(
    session: SessionView,
    turns: Seq<Turn>,
    end: int,
    later: int,
)
    requires
        in_order(started(session), turns),
        0 <= end < later < turns.len(),
        is_end(turns[end]),
    ensures
        !(turns[later] is Read),
{
    let earlier = turns.take(later);
    lemma_turn_came(started(session), turns, later);
    lemma_course(session, earlier);
    assert(is_end(earlier[end]));
}

/// The end of the output and a failed read act alike: the reading is over, and nothing
/// else changes.
pub proof fn law_end_and_failure_act_alike(course: Course)
    ensures
        taken(course, Turn::Read(None)) == taken(course, Turn::Read(Some(Seq::empty()))),
        taken(course, Turn::Read(None)) == (Course { reading: false, ..course }),
{
}

/// The end of the updates is the last turn of all. It comes after the end of the
/// reading, when an update has been dealt with for every read that gave something. The
/// writer is dropped then, after that those who wait for the program are told, once,
/// and after that the window is drawn again. None of this was done before.
pub proof fn law_close_comes_last(session: SessionView, turns: Seq<Turn>, close: int)
    requires
        in_order(started(session), turns),
        0 <= close < turns.len(),
        turns[close] is Close,
    ensures
        close == turns.len() - 1,
        has_ended(turns.take(close)),
        updates(turns.take(close)) == outputs(turns.take(close)),
        ({
            let before = course_after(started(session), turns.take(close));
            let after = course_after(started(session), turns);
            &&& after.done == before.done + seq![
                Effect::DropWriter,
                Effect::NotifyClosed,
                Effect::RequestRedraw,
            ]
            &&& tally(before.done, Effect::DropWriter) == 0
            &&& tally(before.done, Effect::NotifyClosed) == 0
            &&& before.session.writer_open == session.writer_open
            &&& !after.session.writer_open
        }),
{
    let start = started(session);
    lemma_turn_came(start, turns, close);
    lemma_course(session, turns.take(close));
    if close < turns.len() - 1 {
        let closed = turns.take(close + 1);
        assert(closed.last() is Close);
        lemma_turn_came(start, turns, close + 1);
        lemma_course(session, closed);
    }
    assert(turns.take(close) =~= turns.drop_last());
    lemma_course(session, turns);
}

/// As long as the reading goes on, or an update is pending, the writer is kept and
/// nobody is told that the program has exited.
pub proof fn law_open_until_the_end(session: SessionView, turns: Seq<Turn>)
    requires
        in_order(started(session), turns),
        !has_ended(turns) || updates(turns) < outputs(turns),
    ensures
        tally(course_after(started(session), turns).done, Effect::NotifyClosed) == 0,
        tally(course_after(started(session), turns).done, Effect::DropWriter) == 0,
        course_after(started(session), turns).session.writer_open == session.writer_open,
{
    lemma_course(session, turns);
}

/// A terminal does not stop half way: when no turn is left to it, the reading has
/// ended, every update that was sent for has been dealt with, and those who wait for
/// the program have been told exactly once.
pub proof fn law_no_terminal_is_left_open(session: SessionView, turns: Seq<Turn>)
    requires
        in_order(started(session), turns),
        forall|turn: Turn| !#[trigger] may_come(course_after(started(session), turns), turn),
    ensures
        has_ended(turns),
        updates(turns) == outputs(turns),
        tally(course_after(started(session), turns).done, Effect::NotifyClosed) == 1,
        tally(course_after(started(session), turns).done, Effect::DropWriter) == 1,
        !course_after(started(session), turns).session.writer_open,
{
    let course = course_after(started(session), turns);
    lemma_course(session, turns);
    assert(!may_come(course, Turn::Read(None)));
    assert(!may_come(course, Turn::Update));
    assert(!may_come(course, Turn::Close));
}

} // verus!
