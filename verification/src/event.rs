use vstd::prelude::*;

verus! {

/// One decoded unit of the provider's response stream, as the decoder
/// produces it and the control loop consumes it.
#[derive(Debug, PartialEq)]
pub enum MessageStreamEvent {
    Start,
    NextWord { word: String },
    Completed,
    Error { error: String },
}

/// The mathematical value of a stream event.
pub enum StreamEventV {
    Start,
    Word(Seq<char>),
    Done,
    Fail(Seq<char>),
}

pub open spec fn event_view(e: MessageStreamEvent) -> StreamEventV {
    match e {
        MessageStreamEvent::Start => StreamEventV::Start,
        MessageStreamEvent::NextWord { word } => StreamEventV::Word(word@),
        MessageStreamEvent::Completed => StreamEventV::Done,
        MessageStreamEvent::Error { error } => StreamEventV::Fail(error@),
    }
}

pub open spec fn opt_event_view(e: Option<MessageStreamEvent>) -> Option<StreamEventV> {
    match e {
        Some(ev) => Some(event_view(ev)),
        None => None,
    }
}

/// A terminal event ends a response stream's event sequence.
pub open spec fn is_terminal_v(e: StreamEventV) -> bool {
    e is Done || e is Fail
}

pub fn is_terminal(e: &MessageStreamEvent) -> (b: bool)
    ensures
        b == is_terminal_v(event_view(*e)),
{
    match e {
        MessageStreamEvent::Completed => true,
        MessageStreamEvent::Error { .. } => true,
        _ => false,
    }
}

} // verus!
