use vstd::prelude::*;

pub mod agent;
pub mod app;
pub mod channel;
pub mod event;
pub mod frame;
pub mod state;
pub mod text;
pub mod ui;

use crate::event::{MessageStreamEvent, StreamEventV};

verus! {

/// One user interaction, as the input-capture task hands it to the
/// control loop.
#[derive(Clone, Copy, Debug, PartialEq, Eq, Structural)]
pub enum KeyCode {
    Char(char),
    Backspace,
    Enter,
    Esc,
    Other,
}

#[derive(Clone, Copy, Debug, PartialEq, Eq, Structural)]
pub struct KeyMods {
    pub control: bool,
}

#[derive(Clone, Copy, Debug, PartialEq, Eq, Structural)]
pub enum InputEvent {
    Key(KeyCode, KeyMods),
    Other,
}

/// The stream vocabulary carried on the channel between the response
/// streaming task and the control loop.
#[derive(Debug, PartialEq)]
pub enum MessageStream {
    Start,
    NextWord { word: String },
    Completed,
    Error { error: String },
}

pub open spec fn message_view(m: MessageStream) -> StreamEventV {
    match m {
        MessageStream::Start => StreamEventV::Start,
        MessageStream::NextWord { word } => StreamEventV::Word(word@),
        MessageStream::Completed => StreamEventV::Done,
        MessageStream::Error { error } => StreamEventV::Fail(error@),
    }
}

impl MessageStream {
    /// The decoder speaks `MessageStreamEvent`; this carries the same
    /// event into the channel vocabulary.
    pub fn of_event(ev: MessageStreamEvent) -> (m: MessageStream)
        ensures
            message_view(m) == crate::event::event_view(ev),
    {
        match ev {
            MessageStreamEvent::Start => MessageStream::Start,
            MessageStreamEvent::NextWord { word } => MessageStream::NextWord { word },
            MessageStreamEvent::Completed => MessageStream::Completed,
            MessageStreamEvent::Error { error } => MessageStream::Error { error },
        }
    }
}

/// Everything the control loop consumes: user input, decoded response
/// events, and redraw requests.
#[derive(Debug)]
pub enum AppEvent {
    Input(InputEvent),
    IncomingMessage(MessageStreamEvent),
    Redraw,
}

} // verus!
