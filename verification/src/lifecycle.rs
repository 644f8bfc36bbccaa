//! Setting a terminal up, step by step, and taking back what was started when a
//! step fails. The event loop carries out one step at a time and reports how it
//! went.
use vstd::prelude::*;

use crate::decoder::fed;
use crate::emulator::{blank, screen_of, scrollback_limit};
use crate::session::Session;
use crate::size::PtySize;

verus! {

/// Why there is no terminal.
pub enum TerminalError<S> {
    /// A call on the pty failed, with this text.
    PtyError(S),
}

/// Where the setup stands. Each state but the last two waits for one step.
pub enum Setup<S> {
    /// The pty is being opened.
    Opening,
    /// The command is being started on it.
    Spawning,
    /// The writer is being taken from the master. `child` tells whether a command
    /// was started here.
    TakingWriter { child: bool },
    /// A reader is being cloned from the master.
    CloningReader { child: bool },
    /// The setup has failed with the command running: it is being killed.
    Killing { error: TerminalError<S> },
    /// The killed command is being waited for.
    Reaping { error: TerminalError<S> },
    /// The terminal can run.
    Ready,
    /// There is no terminal.
    Failed { error: TerminalError<S> },
}

/// A step of the setup.
pub enum Step {
    /// Open a pty of this size.
    OpenPty(PtySize),
    /// Start the command on the slave.
    SpawnCommand,
    /// Take the writer from the master.
    TakeWriter,
    /// Clone a reader from the master.
    CloneReader,
    /// Kill the command.
    KillChild,
    /// Wait for the command, so that it does not stay behind as a zombie.
    ReapChild,
}

impl View for TerminalError<String> {
    type V = TerminalError<Seq<char>>;

    open spec fn view(&self) -> TerminalError<Seq<char>> {
        match *self {
            TerminalError::PtyError(text) => TerminalError::PtyError(text@),
        }
    }
}

impl View for Setup<String> {
    type V = Setup<Seq<char>>;

    open spec fn view(&self) -> Setup<Seq<char>> {
        match *self {
            Setup::Opening => Setup::Opening,
            Setup::Spawning => Setup::Spawning,
            Setup::TakingWriter { child } => Setup::TakingWriter { child },
            Setup::CloningReader { child } => Setup::CloningReader { child },
            Setup::Killing { error } => Setup::Killing { error: error@ },
            Setup::Reaping { error } => Setup::Reaping { error: error@ },
            Setup::Ready => Setup::Ready,
            Setup::Failed { error } => Setup::Failed { error: error@ },
        }
    }
}

/// How a step went: done, or failed with this text.
pub open spec fn outcome_view(outcome: Result<(), String>) -> Result<(), Seq<char>> {
    match outcome {
        Ok(()) => Ok(()),
        Err(text) => Err(text@),
    }
}

/// The step that a state waits for, if it waits for one.
pub open spec fn awaited(state: Setup<Seq<char>>) -> Option<Step> {
    match state {
        Setup::Opening => Some(
            Step::OpenPty(PtySize { rows: 24, cols: 80, pixel_width: 0, pixel_height: 0 }),
        ),
        Setup::Spawning => Some(Step::SpawnCommand),
        Setup::TakingWriter { .. } => Some(Step::TakeWriter),
        Setup::CloningReader { .. } => Some(Step::CloneReader),
        Setup::Killing { .. } => Some(Step::KillChild),
        Setup::Reaping { .. } => Some(Step::ReapChild),
        Setup::Ready => None,
        Setup::Failed { .. } => None,
    }
}

/// The state after a failure on the master: a command that was started is killed
/// and waited for first.
pub open spec fn abandoned(child: bool, text: Seq<char>) -> Setup<Seq<char>> {
    if child {
        Setup::Killing { error: TerminalError::PtyError(text) }
    } else {
        Setup::Failed { error: TerminalError::PtyError(text) }
    }
}

/// The state after the awaited step went as `outcome` says. How killing and waiting
/// went makes no difference.
pub open spec fn advanced(
    state: Setup<Seq<char>>,
    outcome: Result<(), Seq<char>>,
) -> Setup<Seq<char>> {
    match (state, outcome) {
        (Setup::Opening, Ok(_)) => Setup::Spawning,
        (Setup::Opening, Err(text)) => Setup::Failed { error: TerminalError::PtyError(text) },
        (Setup::Spawning, Ok(_)) => Setup::TakingWriter { child: true },
        (Setup::Spawning, Err(text)) => Setup::Failed { error: TerminalError::PtyError(text) },
        (Setup::TakingWriter { child }, Ok(_)) => Setup::CloningReader { child },
        (Setup::TakingWriter { child }, Err(text)) => abandoned(child, text),
        (Setup::CloningReader { child }, Ok(_)) => Setup::Ready,
        (Setup::CloningReader { child }, Err(text)) => abandoned(child, text),
        (Setup::Killing { error }, _) => Setup::Reaping { error },
        (Setup::Reaping { error }, _) => Setup::Failed { error },
        (Setup::Ready, _) => Setup::Ready,
        (Setup::Failed { error }, _) => Setup::Failed { error },
    }
}

/// The state after a run of steps that went as `outcomes` says.
pub open spec fn run(
    state: Setup<Seq<char>>,
    outcomes: Seq<Result<(), Seq<char>>>,
) -> Setup<Seq<char>>
    decreases outcomes.len(),
{
    if outcomes.len() == 0 {
        state
    } else {
        run(advanced(state, outcomes[0]), outcomes.skip(1))
    }
}

/// The steps that such a run carries out.
pub open spec fn steps(
    state: Setup<Seq<char>>,
    outcomes: Seq<Result<(), Seq<char>>>,
) -> Seq<Step>
    decreases outcomes.len(),
{
    if outcomes.len() == 0 {
        Seq::empty()
    } else {
        let later = steps(advanced(state, outcomes[0]), outcomes.skip(1));
        match awaited(state) {
            Some(step) => seq![step] + later,
            None => later,
        }
    }
}

impl Setup<String> {
    /// Begins the setup of a terminal that opens its own pty and starts a command
    /// on it.
    pub fn spawn_pty() -> (state: Setup<String>)
        ensures
            state@ == Setup::<Seq<char>>::Opening,
            state is Opening,
    {
        Setup::Opening
    }

    /// Begins where a command has just been started on a pty: should the rest of
    /// the setup fail, it is killed and reaped.
    pub fn attach_spawned_child() -> (state: Setup<String>)
        ensures
            state@ == (Setup::<Seq<char>>::TakingWriter { child: true }),
            state == (Setup::<String>::TakingWriter { child: true }),
    {
        Setup::TakingWriter { child: true }
    }

    /// Begins with a master that was opened elsewhere: there is no command to clean
    /// up after.
    pub fn setup_terminal_from_master() -> (state: Setup<String>)
        ensures
            state@ == (Setup::<Seq<char>>::TakingWriter { child: false }),
            state == (Setup::<String>::TakingWriter { child: false }),
    {
        Setup::TakingWriter { child: false }
    }

    /// The step to carry out now, or `None` where the setup has ended.
    pub fn next_step(&self) -> (step: Option<Step>)
        ensures
            step == awaited(self@),
            self is Opening ==> step == Some(
                Step::OpenPty(PtySize { rows: 24, cols: 80, pixel_width: 0, pixel_height: 0 }),
            ),
            self is Spawning ==> step == Some(Step::SpawnCommand),
            self is TakingWriter ==> step == Some(Step::TakeWriter),
            self is CloningReader ==> step == Some(Step::CloneReader),
            self is Killing ==> step == Some(Step::KillChild),
            self is Reaping ==> step == Some(Step::ReapChild),
            self is Ready || self is Failed ==> step is None,
    {
        match self {
            Setup::Opening => Some(Step::OpenPty(PtySize::default())),
            Setup::Spawning => Some(Step::SpawnCommand),
            Setup::TakingWriter { .. } => Some(Step::TakeWriter),
            Setup::CloningReader { .. } => Some(Step::CloneReader),
            Setup::Killing { .. } => Some(Step::KillChild),
            Setup::Reaping { .. } => Some(Step::ReapChild),
            Setup::Ready => None,
            Setup::Failed { .. } => None,
        }
    }

    /// Moves on after the step was carried out.
    pub fn advance(self, outcome: Result<(), String>) -> (state: Setup<String>)
        ensures
            state@ == advanced(self@, outcome_view(outcome)),
            // As long as all goes well, the steps follow each other.
            self is Opening && outcome is Ok ==> state is Spawning,
            self is Spawning && outcome is Ok ==> state == (Setup::<String>::TakingWriter {
                child: true,
            }),
            self matches Setup::TakingWriter { child } ==> (outcome is Ok ==> state == (Setup::<
                String,
            >::CloningReader { child })),
            self is CloningReader && outcome is Ok ==> state is Ready,
            // A failure with no command running ends the setup.
            (self is Opening || self is Spawning) ==> (outcome matches Err(text) ==> state == (
            Setup::<String>::Failed { error: TerminalError::PtyError(text) })),
            self matches Setup::TakingWriter { child } ==> (outcome matches Err(text) ==> (!child
                ==> state == (Setup::<String>::Failed { error: TerminalError::PtyError(text) }))),
            self matches Setup::CloningReader { child } ==> (outcome matches Err(text) ==> (!child
                ==> state == (Setup::<String>::Failed { error: TerminalError::PtyError(text) }))),
            // A failure with a command running has it killed, then waited for, whatever
            // comes of that, and then ends the setup for the reason that it had first.
            self matches Setup::TakingWriter { child } ==> (outcome matches Err(text) ==> (child
                ==> state == (Setup::<String>::Killing { error: TerminalError::PtyError(text) }))),
            self matches Setup::CloningReader { child } ==> (outcome matches Err(text) ==> (child
                ==> state == (Setup::<String>::Killing { error: TerminalError::PtyError(text) }))),
            self matches Setup::Killing { error } ==> state == (Setup::<String>::Reaping { error }),
            self matches Setup::Reaping { error } ==> state == (Setup::<String>::Failed { error }),
            // What has ended stays as it is.
            self is Ready || self is Failed ==> state == self,
    {
        match (self, outcome) {
            (Setup::Opening, Ok(_)) => Setup::Spawning,
            (Setup::Opening, Err(text)) => Setup::Failed { error: TerminalError::PtyError(text) },
            (Setup::Spawning, Ok(_)) => Setup::attach_spawned_child(),
            (Setup::Spawning, Err(text)) => Setup::Failed { error: TerminalError::PtyError(text) },
            (Setup::TakingWriter { child }, Ok(_)) => Setup::CloningReader { child },
            (Setup::TakingWriter { child }, Err(text)) => Setup::abandon(child, text),
            (Setup::CloningReader { child: _ }, Ok(_)) => Setup::Ready,
            (Setup::CloningReader { child }, Err(text)) => Setup::abandon(child, text),
            (Setup::Killing { error }, _) => Setup::Reaping { error },
            (Setup::Reaping { error }, _) => Setup::Failed { error },
            (Setup::Ready, _) => Setup::Ready,
            (Setup::Failed { error }, _) => Setup::Failed { error },
        }
    }

    /// The terminal, or the reason why there is none, once the setup has ended.
    /// `scrollback_size` is the number of lines of history to keep.
    pub fn finish(self, scrollback_size: usize) -> (result: Option<
        Result<Session, TerminalError<String>>,
    >)
        ensures
            match self@ {
                Setup::Ready => result matches Some(Ok(session)) && session.is_new(
                    scrollback_size,
                ),
                Setup::Failed { error } => result matches Some(Err(reason)) && reason@ == error,
                _ => result is None,
            },
            self is Ready ==> (result matches Some(Ok(session)) && {
                &&& session.emulator == blank(24, 80, scrollback_size)
                &&& scrollback_limit(session.emulator) == scrollback_size
                &&& screen_of(session.emulator).rows == 24
                &&& screen_of(session.emulator).cols == 80
                &&& screen_of(session.emulator).history.len() == 0
                &&& fed(session.decoder) == Seq::<Seq<u8>>::empty()
                &&& screen_of(session.emulator).cursor_row == 0
                &&& screen_of(session.emulator).cursor_col == 0
                &&& !screen_of(session.emulator).cursor_hidden
                &&& session.buffer.rows@.len() == 0
                &&& session.buffer.selection is None
                &&& session.buffer.scroll_offset == 0
                &&& session.buffer.total_scrollback == 0
                &&& session.reports.cwd is None
                &&& session.reports.title is None
                &&& session.reports.clipboard_content is None
                &&& session.writer_open
            }),
            self matches Setup::Failed { error } ==> result == Some(
                Err::<Session, TerminalError<String>>(error),
            ),
            !(self is Ready || self is Failed) ==> result is None,
    {
        match self {
            Setup::Ready => Some(Ok(Session::new(scrollback_size))),
            Setup::Failed { error } => Some(Err(error)),
            _ => None,
        }
    }

    /// Gives the setup up after a failure on the master.
    fn abandon(child: bool, text: String) -> (state: Setup<String>)
        ensures
            state@ == abandoned(child, text@),
            child ==> state == (Setup::<String>::Killing { error: TerminalError::PtyError(text) }),
            !child ==> state == (Setup::<String>::Failed { error: TerminalError::PtyError(text) }),
    {
        let error = TerminalError::PtyError(text);
        if child {
            Setup::Killing { error }
        } else {
            Setup::Failed { error }
        }
    }
}

} // verus!
