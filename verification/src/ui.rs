use vstd::prelude::*;

use crate::state::{rec_view, ChatSession, MessageRecord, RecordV, Role};
use crate::text::string_from_chars;

verus! {

/// The line a history record is shown as: error records and ordinary
/// records carry a distinguishing prefix; system notices stand alone.
pub open spec fn display_line_spec(r: RecordV) -> Seq<char> {
    if r.error {
        "Error: "@ + r.text
    } else {
        match r.role {
            Role::User => "You: "@ + r.text,
            Role::Assistant => "AI: "@ + r.text,
            Role::System => r.text,
        }
    }
}

/// Renders one history record to its display line.
pub fn display_line(r: &MessageRecord) -> (line: String)
    ensures
        line@ == display_line_spec(rec_view(*r)),
{
    if r.error {
        String::from_str("Error: ").concat(r.text.as_str())
    } else {
        match r.role {
            Role::User => String::from_str("You: ").concat(r.text.as_str()),
            Role::Assistant => String::from_str("AI: ").concat(r.text.as_str()),
            Role::System => r.text.clone(),
        }
    }
}

/// A read-only snapshot of the history, one display line per record,
/// taken for one redraw.
pub struct ChatHistory {
    pub history: Vec<String>,
}

impl ChatHistory {
    pub fn of_session(session: &ChatSession) -> (h: ChatHistory)
        ensures
            h.history@.len() == session.history@.len(),
            forall|i: int|
                0 <= i < session.history@.len() ==> (#[trigger] h.history@[i])@
                    == display_line_spec(rec_view(session.history@[i])),
    {
        let mut lines: Vec<String> = Vec::new();
        let mut i: usize = 0;
        while i < session.history.len()
            invariant
                i <= session.history@.len(),
                lines@.len() == i,
                forall|j: int|
                    0 <= j < i ==> (#[trigger] lines@[j])@ == display_line_spec(
                        rec_view(session.history@[j]),
                    ),
            decreases session.history@.len() - i,
        {
            lines.push(display_line(&session.history[i]));
            i = i + 1;
        }
        ChatHistory { history: lines }
    }
}

/// A read-only snapshot of the input draft, taken for one redraw.
pub struct ChatInput {
    pub draft: String,
}

impl ChatInput {
    pub fn of_session(session: &ChatSession) -> (c: ChatInput)
        ensures
            c.draft@ == session.draft@,
    {
        ChatInput { draft: string_from_chars(&session.draft) }
    }
}

/// The static header of the view.
pub struct Header;

impl Header {
    pub fn title(&self) -> (t: String)
        ensures
            t@ == "CLI Chat"@,
    {
        String::from_str("CLI Chat")
    }
}

} // verus!
