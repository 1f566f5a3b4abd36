use vstd::prelude::*;

use crate::agent::opt_str_view;
use crate::event::{event_view, MessageStreamEvent, StreamEventV};
use crate::state::{rec_view, ChatSession, MessageRecord, RecordV, Role};
use crate::text::{string_from_chars, trim_chars, trimmed_chars};
use crate::{AppEvent, InputEvent, KeyCode};

verus! {

/// The mathematical value of the control loop's state.
pub struct AppV {
    pub history: Seq<RecordV>,
    pub draft: Seq<char>,
    pub should_exit: bool,
    pub awaiting_response: bool,
    pub assistant_open: bool,
}

/// The event multiplexer: the single owner and single mutator of the
/// session state. It consumes user input events and decoded response
/// events, one at a time, and applies exactly one transition per event.
#[derive(Debug)]
pub struct App {
    pub should_exit: bool,
    /// Whether a response stream is in flight: set when a prompt is
    /// submitted, cleared by a terminal event.
    pub awaiting_response: bool,
    /// Whether the last history record is the in-progress assistant
    /// record, still growing by text deltas.
    pub assistant_open: bool,
    pub chat_session: ChatSession,
}

pub open spec fn history_views(h: Seq<MessageRecord>) -> Seq<RecordV> {
    h.map_values(|r: MessageRecord| rec_view(r))
}

impl View for App {
    type V = AppV;

    open spec fn view(&self) -> AppV {
        AppV {
            history: history_views(self.chat_session.history@),
            draft: self.chat_session.draft@,
            should_exit: self.should_exit,
            awaiting_response: self.awaiting_response,
            assistant_open: self.assistant_open,
        }
    }
}

/// What one input event does to the state: Ctrl-C and Esc request exit;
/// printable characters and Backspace edit the draft; Enter with a
/// non-blank draft submits it while no response is in flight, Enter with
/// a blank draft only clears the whitespace, and Enter while a response
/// is in flight is a no-op.
pub open spec fn input_step(s: AppV, ev: InputEvent) -> AppV {
    match ev {
        InputEvent::Key(code, mods) => match code {
            KeyCode::Char(c) => if mods.control && c == 'c' {
                AppV { should_exit: true, ..s }
            } else {
                AppV { draft: s.draft.push(c), ..s }
            },
            KeyCode::Backspace => AppV {
                draft: if s.draft.len() > 0 {
                    s.draft.drop_last()
                } else {
                    s.draft
                },
                ..s
            },
            KeyCode::Enter => if s.awaiting_response {
                s
            } else if trim_chars(s.draft).len() > 0 {
                AppV {
                    history: s.history.push(
                        RecordV { role: Role::User, error: false, text: s.draft },
                    ),
                    draft: Seq::empty(),
                    awaiting_response: true,
                    assistant_open: false,
                    ..s
                }
            } else {
                AppV { draft: Seq::empty(), ..s }
            },
            KeyCode::Esc => AppV { should_exit: true, ..s },
            KeyCode::Other => s,
        },
        InputEvent::Other => s,
    }
}

/// The prompt a new response stream is spawned for, if the event
/// submits one: the trimmed draft, exactly when Enter arrives with no
/// response in flight and a non-blank draft.
pub open spec fn input_spawn(s: AppV, ev: InputEvent) -> Option<Seq<char>> {
    if ev matches InputEvent::Key(KeyCode::Enter, _) && !s.awaiting_response && trim_chars(
        s.draft,
    ).len() > 0 {
        Some(trim_chars(s.draft))
    } else {
        None
    }
}

/// What one decoded stream event does to the state: `Start` opens an
/// empty in-progress assistant record; a text delta grows it — or, if
/// none is open, opens one holding the delta, so no text is ever lost;
/// `Done` seals it; `Fail` appends an error-annotated record. Either
/// terminal event returns the loop to idle.
pub open spec fn stream_step(s: AppV, e: StreamEventV) -> AppV {
    match e {
        StreamEventV::Start => AppV {
            history: s.history.push(
                RecordV { role: Role::Assistant, error: false, text: Seq::empty() },
            ),
            assistant_open: true,
            ..s
        },
        StreamEventV::Word(w) => if s.assistant_open && s.history.len() > 0 {
            let i = s.history.len() - 1;
            AppV {
                history: s.history.update(
                    i,
                    RecordV {
                        role: s.history[i].role,
                        error: s.history[i].error,
                        text: s.history[i].text + w,
                    },
                ),
                ..s
            }
        } else {
            AppV {
                history: s.history.push(RecordV { role: Role::Assistant, error: false, text: w }),
                assistant_open: true,
                ..s
            }
        },
        StreamEventV::Done => AppV { assistant_open: false, awaiting_response: false, ..s },
        StreamEventV::Fail(m) => AppV {
            history: s.history.push(RecordV { role: Role::Assistant, error: true, text: m }),
            assistant_open: false,
            awaiting_response: false,
            ..s
        },
    }
}

/// While a record is in progress it is the last one, an assistant
/// record, and not error-annotated.
pub open spec fn app_wf(s: AppV) -> bool {
    s.assistant_open ==> s.history.len() > 0 && s.history.last().role == Role::Assistant
        && !s.history.last().error
}

impl App {
    pub fn new() -> (a: Self)
        ensures
            a@.history == seq![
                RecordV { role: Role::System, error: false, text: "Welcome to AI Chat!"@ },
            ],
            a@.draft == Seq::<char>::empty(),
            !a@.should_exit,
            !a@.awaiting_response,
            !a@.assistant_open,
            app_wf(a@),
    {
        let a = App {
            should_exit: false,
            awaiting_response: false,
            assistant_open: false,
            chat_session: ChatSession::new(),
        };
        proof {
            assert(a@.history =~= seq![
                RecordV { role: Role::System, error: false, text: "Welcome to AI Chat!"@ },
            ]);
        }
        a
    }

    /// Applies one user input event. Returns the prompt to spawn a
    /// response stream for, if this event submitted one.
    pub fn handle_input_event(&mut self, ev: InputEvent) -> (spawn: Option<String>)
        ensures
            final(self)@ == input_step(old(self)@, ev),
            opt_str_view(spawn) == input_spawn(old(self)@, ev),
    {
        match ev {
            InputEvent::Key(code, mods) => match code {
                KeyCode::Char(c) => {
                    if mods.control && c == 'c' {
                        self.should_exit = true;
                    } else {
                        self.chat_session.draft.push(c);
                    }
                    None
                },
                KeyCode::Backspace => {
                    if self.chat_session.draft.len() > 0 {
                        let _popped = self.chat_session.draft.pop();
                        proof {
                            assert(self.chat_session.draft@
                                =~= old(self).chat_session.draft@.drop_last());
                        }
                    }
                    None
                },
                KeyCode::Enter => {
                    if self.awaiting_response {
                        None
                    } else {
                        let trimmed = trimmed_chars(&self.chat_session.draft);
                        if trimmed.len() > 0 {
                            let text = string_from_chars(&self.chat_session.draft);
                            self.chat_session.history.push(
                                MessageRecord { role: Role::User, error: false, text },
                            );
                            self.chat_session.draft = Vec::new();
                            self.awaiting_response = true;
                            self.assistant_open = false;
                            let prompt = string_from_chars(&trimmed);
                            proof {
                                assert(final(self)@.history =~= input_step(
                                    old(self)@,
                                    ev,
                                ).history);
                            }
                            Some(prompt)
                        } else {
                            self.chat_session.draft = Vec::new();
                            None
                        }
                    }
                },
                KeyCode::Esc => {
                    self.should_exit = true;
                    None
                },
                KeyCode::Other => None,
            },
            InputEvent::Other => None,
        }
    }

    /// Applies one decoded response event.
    pub fn handle_stream_event(&mut self, ev: MessageStreamEvent)
        ensures
            final(self)@ == stream_step(old(self)@, event_view(ev)),
    {
        match ev {
            MessageStreamEvent::Start => {
                self.chat_session.history.push(
                    MessageRecord { role: Role::Assistant, error: false, text: String::new() },
                );
                self.assistant_open = true;
                proof {
                    assert(final(self)@.history =~= stream_step(
                        old(self)@,
                        event_view(ev),
                    ).history);
                }
            },
            MessageStreamEvent::NextWord { word } => {
                if self.assistant_open && self.chat_session.history.len() > 0 {
                    let mut rec = self.chat_session.history.pop().unwrap();
                    rec.text.append(word.as_str());
                    self.chat_session.history.push(rec);
                    proof {
                        assert(final(self)@.history =~= stream_step(
                            old(self)@,
                            event_view(ev),
                        ).history);
                    }
                } else {
                    self.chat_session.history.push(
                        MessageRecord { role: Role::Assistant, error: false, text: word },
                    );
                    self.assistant_open = true;
                    proof {
                        assert(final(self)@.history =~= stream_step(
                            old(self)@,
                            event_view(ev),
                        ).history);
                    }
                }
            },
            MessageStreamEvent::Completed => {
                self.assistant_open = false;
                self.awaiting_response = false;
            },
            MessageStreamEvent::Error { error } => {
                self.chat_session.history.push(
                    MessageRecord { role: Role::Assistant, error: true, text: error },
                );
                self.assistant_open = false;
                self.awaiting_response = false;
                proof {
                    assert(final(self)@.history =~= stream_step(
                        old(self)@,
                        event_view(ev),
                    ).history);
                }
            },
        }
    }

    /// Applies one control event of either source. Exactly one
    /// transition per event; every event triggers one redraw, which the
    /// surrounding loop performs after this returns.
    pub fn handle_event(&mut self, ev: AppEvent) -> (spawn: Option<String>)
        ensures
            match ev {
                AppEvent::Input(ie) => final(self)@ == input_step(old(self)@, ie) && opt_str_view(
                    spawn,
                ) == input_spawn(old(self)@, ie),
                AppEvent::IncomingMessage(ms) => final(self)@ == stream_step(
                    old(self)@,
                    event_view(ms),
                ) && spawn is None,
                AppEvent::Redraw => *final(self) == *old(self) && spawn is None,
            },
    {
        match ev {
            AppEvent::Input(ie) => self.handle_input_event(ie),
            AppEvent::IncomingMessage(ms) => {
                self.handle_stream_event(ms);
                None
            },
            AppEvent::Redraw => None,
        }
    }
}

impl Default for App {
    fn default() -> (a: Self)
        ensures
            a@.history == seq![
                RecordV { role: Role::System, error: false, text: "Welcome to AI Chat!"@ },
            ],
            a@.draft == Seq::<char>::empty(),
            !a@.should_exit,
            !a@.awaiting_response,
            !a@.assistant_open,
    {
        Self::new()
    }
}

// ---------------------------------------------------------------------
// Laws of the control loop.
// ---------------------------------------------------------------------

/// Law: transitions preserve the in-progress-record invariant.
pub proof fn lemma_wf_input_step(s: AppV, ev: InputEvent)
    requires
        app_wf(s),
    ensures
        app_wf(input_step(s, ev)),
{
}

/// Law: transitions preserve the in-progress-record invariant.
pub proof fn lemma_wf_stream_step(s: AppV, e: StreamEventV)
    requires
        app_wf(s),
    ensures
        app_wf(stream_step(s, e)),
{
}

pub open spec fn is_enter(ev: InputEvent) -> bool {
    ev matches InputEvent::Key(KeyCode::Enter, _)
}

/// What one non-Enter key does to the draft alone.
pub open spec fn apply_edit(d: Seq<char>, ev: InputEvent) -> Seq<char> {
    match ev {
        InputEvent::Key(KeyCode::Char(c), mods) => if mods.control && c == 'c' {
            d
        } else {
            d.push(c)
        },
        InputEvent::Key(KeyCode::Backspace, _) => if d.len() > 0 {
            d.drop_last()
        } else {
            d
        },
        _ => d,
    }
}

pub open spec fn apply_edits(d: Seq<char>, evs: Seq<InputEvent>) -> Seq<char>
    decreases evs.len(),
{
    if evs.len() == 0 {
        d
    } else {
        apply_edits(apply_edit(d, evs[0]), evs.skip(1))
    }
}

pub open spec fn run_input(s: AppV, evs: Seq<InputEvent>) -> AppV
    decreases evs.len(),
{
    if evs.len() == 0 {
        s
    } else {
        run_input(input_step(s, evs[0]), evs.skip(1))
    }
}

/// Law (draft/history): after any sequence of key events not including
/// Enter, the draft reflects exactly the inserts and backspaces applied,
/// and the history is untouched.
pub proof fn lemma_draft_reflects_edits(s: AppV, evs: Seq<InputEvent>)
    requires
        forall|i: int| 0 <= i < evs.len() ==> !is_enter(#[trigger] evs[i]),
    ensures
        run_input(s, evs).draft == apply_edits(s.draft, evs),
        run_input(s, evs).history == s.history,
    decreases evs.len(),
{
    if evs.len() > 0 {
        let s1 = input_step(s, evs[0]);
        assert(s1.draft == apply_edit(s.draft, evs[0]));
        assert(s1.history == s.history);
        assert(forall|i: int|
            0 <= i < evs.skip(1).len() ==> !is_enter(#[trigger] evs.skip(1)[i])) by {
            assert(forall|i: int|
                0 <= i < evs.skip(1).len() ==> evs.skip(1)[i] == evs[i + 1]);
        }
        lemma_draft_reflects_edits(s1, evs.skip(1));
    }
}

/// Law (at most one in-flight response): two Enter submissions in a row
/// while the first response is still in flight spawn exactly one
/// response stream and append exactly one record — the second Enter is a
/// complete no-op.
pub proof fn lemma_at_most_one_inflight(s: AppV, e1: InputEvent, e2: InputEvent)
    requires
        !s.awaiting_response,
        trim_chars(s.draft).len() > 0,
        is_enter(e1),
        is_enter(e2),
    ensures
        input_spawn(s, e1) is Some,
        input_step(s, e1).awaiting_response,
        input_spawn(input_step(s, e1), e2) is None,
        input_step(input_step(s, e1), e2) == input_step(s, e1),
        input_step(s, e1).history == s.history.push(
            RecordV { role: Role::User, error: false, text: s.draft },
        ),
{
}

/// One history extends another when every already-present record keeps
/// its place and author, only ever growing its text.
pub open spec fn history_extends(h0: Seq<RecordV>, h1: Seq<RecordV>) -> bool {
    h1.len() >= h0.len() && forall|i: int|
        0 <= i < h0.len() ==> (#[trigger] h1[i]).role == h0[i].role && h1[i].error == h0[i].error
            && h0[i].text.is_prefix_of(h1[i].text)
}

/// Law (history append-only): no transition ever deletes, reorders or
/// rewrites a history record; a record's text only grows.
pub proof fn lemma_history_append_only_input(s: AppV, ev: InputEvent)
    ensures
        history_extends(s.history, input_step(s, ev).history),
{
    assert(forall|i: int|
        0 <= i < s.history.len() ==> (#[trigger] s.history[i].text).is_prefix_of(
            s.history[i].text,
        ));
}

/// Law (history append-only): no transition ever deletes, reorders or
/// rewrites a history record; a record's text only grows.
pub proof fn lemma_history_append_only_stream(s: AppV, e: StreamEventV)
    ensures
        history_extends(s.history, stream_step(s, e).history),
{
    assert(forall|i: int|
        0 <= i < s.history.len() ==> (#[trigger] s.history[i].text).is_prefix_of(
            s.history[i].text,
        ));
    match e {
        StreamEventV::Word(w) => {
            if s.assistant_open && s.history.len() > 0 {
                let i = s.history.len() - 1;
                assert(s.history[i].text.is_prefix_of(s.history[i].text + w)) by {
                    assert((s.history[i].text + w).subrange(0, s.history[i].text.len() as int)
                        =~= s.history[i].text);
                }
            }
        },
        _ => {},
    }
}

} // verus!
