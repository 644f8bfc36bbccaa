//! Recognising the queries and reports in terminal output: `termwiz` splits the
//! byte stream into actions, and this module keeps those that a terminal answers
//! or remembers.
use termwiz::escape::csi::{Cursor, Device};
use termwiz::escape::parser::Parser;
use termwiz::escape::{Action, OperatingSystemCommand, CSI};
use vstd::prelude::*;

use crate::stream::{asks_control_mode, joined};

verus! {

/// What a program asks of the terminal, or tells it, in its output. Text is a
/// `String` in a running terminal and a `Seq<char>` in contracts.
pub enum TermEvent<S> {
    /// DA1: which terminal is this?
    PrimaryAttributes,
    /// DA2: which version of it?
    SecondaryAttributes,
    /// DSR 5: is the terminal in order?
    StatusReport,
    /// DSR 6: where is the cursor?
    CursorPosition,
    /// OSC 7: the working directory, as a `file://` URL or a plain path.
    WorkingDirectory(S),
    /// OSC 2: a window title.
    WindowTitle(S),
    /// OSC 0: one text as both icon name and window title.
    IconNameAndWindowTitle(S),
    /// OSC 52: text for the clipboard.
    Selection(S),
    /// Everything else, which the emulator alone deals with.
    Other,
}

impl View for TermEvent<String> {
    type V = TermEvent<Seq<char>>;

    open spec fn view(&self) -> TermEvent<Seq<char>> {
        match *self {
            TermEvent::PrimaryAttributes => TermEvent::PrimaryAttributes,
            TermEvent::SecondaryAttributes => TermEvent::SecondaryAttributes,
            TermEvent::StatusReport => TermEvent::StatusReport,
            TermEvent::CursorPosition => TermEvent::CursorPosition,
            TermEvent::WorkingDirectory(url) => TermEvent::WorkingDirectory(url@),
            TermEvent::WindowTitle(title) => TermEvent::WindowTitle(title@),
            TermEvent::IconNameAndWindowTitle(title) => TermEvent::IconNameAndWindowTitle(title@),
            TermEvent::Selection(text) => TermEvent::Selection(text@),
            TermEvent::Other => TermEvent::Other,
        }
    }
}

/// The contents of a list of events.
pub open spec fn event_views(events: Seq<TermEvent<String>>) -> Seq<TermEvent<Seq<char>>> {
    events.map_values(|event: TermEvent<String>| event@)
}

/// The escape sequence parser of `termwiz`, as an opaque value.
#[verifier::external_type_specification]
#[verifier::external_body]
pub struct ExParser(Parser);

/// One action that the parser recognised, as an opaque value.
#[verifier::external_type_specification]
#[verifier::external_body]
pub struct ExAction(Action);

/// The chunks that a parser has been given so far, in order. They determine the
/// sequence that it stands in the middle of.
pub uninterp spec fn fed(parser: Parser) -> Seq<Seq<u8>>;

/// The events that `termwiz::escape::parser::Parser::parse_as_vec` recognises in
/// `data` after the chunks in `before`.
pub uninterp spec fn parsed_events(before: Seq<Seq<u8>>, data: Seq<u8>) -> Seq<
    TermEvent<Seq<char>>,
>;

/// The events in `data` after the bytes in `before`, where every byte is given to the
/// parser by itself.
pub open spec fn events_by_byte(before: Seq<u8>, data: Seq<u8>) -> Seq<TermEvent<Seq<char>>>
    decreases data.len(),
{
    if data.len() == 0 {
        Seq::empty()
    } else {
        let earlier = data.drop_last();
        events_by_byte(before, earlier) + parsed_events(
            seq![before + earlier],
            seq![data.last()],
        )
    }
}

/// The events in `data` after the chunks in `before`. They depend on the bytes alone,
/// whichever chunks these came in, unless the stream may have asked for the control
/// mode of `tmux`.
pub open spec fn events_in(before: Seq<Seq<u8>>, data: Seq<u8>) -> Seq<TermEvent<Seq<char>>> {
    if asks_control_mode(joined(before) + data) {
        parsed_events(before, data)
    } else {
        events_by_byte(joined(before), data)
    }
}

/// The event that an action of `termwiz` stands for.
pub uninterp spec fn event_of(action: Action) -> TermEvent<Seq<char>>;

/// `termwiz::escape::parser::Parser::new` makes a parser that has seen nothing.
pub assume_specification[ Parser::new ]() -> (parser: Parser)
    ensures
        fed(parser) == Seq::<Seq<u8>>::empty(),
;

/// `termwiz::escape::parser::Parser::parse_as_vec` recognises the actions that are
/// complete at the end of `bytes`, in order, and remembers what is not. Which they
/// are depends on this chunk and on those before it, and on nothing else. Outside the
/// control mode of `tmux` it takes one byte at a time, so that they are the same
/// whichever chunks the bytes come in. Only a device control string with the final
/// byte `p` turns that mode on. What is said of the actions is the event that each
/// one stands for.
pub assume_specification[ Parser::parse_as_vec ](parser: &mut Parser, bytes: &[u8]) -> (actions:
    Vec<Action>)
    ensures
        fed(*final(parser)) == fed(*old(parser)).push(bytes@),
        actions@.map_values(|action: Action| event_of(action)) == parsed_events(
            fed(*old(parser)),
            bytes@,
        ),
        !asks_control_mode(joined(fed(*old(parser))) + bytes@) ==> actions@.map_values(
            |action: Action| event_of(action),
        ) == events_by_byte(joined(fed(*old(parser))), bytes@),
;

/// Tells the variants of `termwiz::escape::Action` apart and moves out the text
/// that they carry.
#[verifier::external_body]
fn classify(action: Action) -> (event: TermEvent<String>)
    ensures
        event@ == event_of(action),
{
    match action {
        Action::CSI(CSI::Device(device)) => match *device {
            Device::RequestPrimaryDeviceAttributes => TermEvent::PrimaryAttributes,
            Device::RequestSecondaryDeviceAttributes => TermEvent::SecondaryAttributes,
            Device::StatusReport => TermEvent::StatusReport,
            _ => TermEvent::Other },
        Action::CSI(CSI::Cursor(Cursor::RequestActivePositionReport)) => TermEvent::CursorPosition,
        Action::OperatingSystemCommand(command) => match *command {
            OperatingSystemCommand::CurrentWorkingDirectory(url) => TermEvent::WorkingDirectory(url),
            OperatingSystemCommand::SetWindowTitle(t) => TermEvent::WindowTitle(t),
            OperatingSystemCommand::SetIconNameAndWindowTitle(t) => TermEvent::IconNameAndWindowTitle(t),
            OperatingSystemCommand::SetSelection(_, text) => TermEvent::Selection(text),
            _ => TermEvent::Other },
        _ => TermEvent::Other,
    }
}

/// Recognises the events in the next chunk of output.
pub fn decode(parser: &mut Parser, data: &[u8]) -> (events: Vec<TermEvent<String>>)
    ensures
        fed(*final(parser)) == fed(*old(parser)).push(data@),
        event_views(events@) == events_in(fed(*old(parser)), data@),
        events@.len() == parsed_events(fed(*old(parser)), data@).len(),
        forall|i: int|
            0 <= i < events@.len() ==> {
                let parsed = parsed_events(fed(*old(parser)), data@)[i];
                match #[trigger] events@[i] {
                    TermEvent::PrimaryAttributes => parsed is PrimaryAttributes,
                    TermEvent::SecondaryAttributes => parsed is SecondaryAttributes,
                    TermEvent::StatusReport => parsed is StatusReport,
                    TermEvent::CursorPosition => parsed is CursorPosition,
                    TermEvent::WorkingDirectory(url) => parsed is WorkingDirectory
                        && parsed->WorkingDirectory_0 == url@,
                    TermEvent::WindowTitle(title) => parsed is WindowTitle
                        && parsed->WindowTitle_0 == title@,
                    TermEvent::IconNameAndWindowTitle(title) => parsed is IconNameAndWindowTitle
                        && parsed->IconNameAndWindowTitle_0 == title@,
                    TermEvent::Selection(text) => parsed is Selection && parsed->Selection_0
                        == text@,
                    TermEvent::Other => parsed is Other,
                }
            },
{
    let actions: Vec<Action> = parser.parse_as_vec(data);
    let ghost all = actions@;
    let mut events: Vec<TermEvent<String>> = Vec::new();
    for action in it: actions
        invariant
            it.seq() == all,
            events.len() == it.index(),
            forall|i: int| 0 <= i < events.len() ==> (#[trigger] events[i])@ == event_of(all[i]),
    {
        events.push(classify(action));
    }
    assert(event_views(events@) =~= all.map_values(|action: Action| event_of(action)));
    events
}

} // verus!
