use vstd::prelude::*;

verus! {

/// Who produced a history record.
#[derive(Clone, Copy, Debug, PartialEq, Eq, Structural)]
pub enum Role {
    User,
    Assistant,
    System,
}

/// One entry of the conversation history. `error` marks a record that
/// reports a failed exchange rather than ordinary assistant output.
#[derive(Debug, PartialEq)]
pub struct MessageRecord {
    pub role: Role,
    pub error: bool,
    pub text: String,
}

/// The mathematical value of a history record.
pub struct RecordV {
    pub role: Role,
    pub error: bool,
    pub text: Seq<char>,
}

pub open spec fn rec_view(r: MessageRecord) -> RecordV {
    RecordV { role: r.role, error: r.error, text: r.text@ }
}

/// The session store: the ordered message history and the input draft.
/// Only the control loop mutates it.
#[derive(Debug)]
pub struct ChatSession {
    pub history: Vec<MessageRecord>,
    pub draft: Vec<char>,
}

impl ChatSession {
    pub fn new() -> (s: Self)
        ensures
            s.history@.len() == 1,
            rec_view(s.history@[0]) == (RecordV {
                role: Role::System,
                error: false,
                text: "Welcome to AI Chat!"@,
            }),
            s.draft@ == Seq::<char>::empty(),
    {
        let mut history: Vec<MessageRecord> = Vec::new();
        history.push(MessageRecord {
            role: Role::System,
            error: false,
            text: String::from_str("Welcome to AI Chat!"),
        });
        ChatSession { history, draft: Vec::new() }
    }
}

impl Default for ChatSession {
    fn default() -> (s: Self)
        ensures
            s.history@.len() == 1,
            rec_view(s.history@[0]) == (RecordV {
                role: Role::System,
                error: false,
                text: "Welcome to AI Chat!"@,
            }),
            s.draft@ == Seq::<char>::empty(),
    {
        Self::new()
    }
}

} // verus!
