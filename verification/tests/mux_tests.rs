use aider::agent::StreamSession;
use aider::app::App;
use aider::event::MessageStreamEvent;
use aider::state::{ChatSession, Role};
use aider::ui::{ChatHistory, ChatInput, Header};
use aider::{AppEvent, InputEvent, KeyCode, KeyMods, MessageStream};

fn key(code: KeyCode) -> InputEvent {
    InputEvent::Key(code, KeyMods { control: false })
}

fn type_text(app: &mut App, text: &str) {
    for c in text.chars() {
        assert_eq!(app.handle_input_event(key(KeyCode::Char(c))), None);
    }
}

#[test]
fn session_starts_with_welcome_notice() {
    let s = ChatSession::new();
    assert_eq!(s.history.len(), 1);
    assert_eq!(s.history[0].role, Role::System);
    assert!(!s.history[0].error);
    assert_eq!(s.history[0].text, "Welcome to AI Chat!");
    assert!(s.draft.is_empty());
}

#[test]
fn draft_reflects_inserts_and_backspaces() {
    let mut app = App::new();
    type_text(&mut app, "hi");
    assert_eq!(app.handle_input_event(key(KeyCode::Backspace)), None);
    assert_eq!(app.chat_session.draft, vec!['h']);
    assert_eq!(app.chat_session.history.len(), 1);
    // a backspace on an empty draft is a no-op
    assert_eq!(app.handle_input_event(key(KeyCode::Backspace)), None);
    assert_eq!(app.handle_input_event(key(KeyCode::Backspace)), None);
    assert!(app.chat_session.draft.is_empty());
}

#[test]
fn enter_with_blank_draft_only_clears_whitespace() {
    let mut app = App::new();
    type_text(&mut app, "  \t ");
    assert_eq!(app.handle_input_event(key(KeyCode::Enter)), None);
    assert!(app.chat_session.draft.is_empty());
    assert_eq!(app.chat_session.history.len(), 1);
    assert!(!app.awaiting_response);
}

#[test]
fn enter_submits_trimmed_prompt_and_keeps_draft_text_in_history() {
    let mut app = App::new();
    type_text(&mut app, " hi ");
    let spawn = app.handle_input_event(key(KeyCode::Enter));
    assert_eq!(spawn, Some("hi".to_string()));
    assert!(app.awaiting_response);
    assert!(app.chat_session.draft.is_empty());
    let last = app.chat_session.history.last().unwrap();
    assert_eq!(last.role, Role::User);
    assert_eq!(last.text, " hi ");
}

#[test]
fn second_enter_while_awaiting_is_a_no_op() {
    let mut app = App::new();
    type_text(&mut app, "hi");
    assert_eq!(app.handle_input_event(key(KeyCode::Enter)), Some("hi".to_string()));
    let len_after_first = app.chat_session.history.len();
    type_text(&mut app, "again");
    assert_eq!(app.handle_input_event(key(KeyCode::Enter)), None);
    assert_eq!(app.chat_session.history.len(), len_after_first);
    // the draft is not cleared by the refused submission
    assert_eq!(app.chat_session.draft, "again".chars().collect::<Vec<char>>());
}

#[test]
fn exit_keys_request_termination() {
    let mut app = App::new();
    app.handle_input_event(InputEvent::Key(KeyCode::Char('c'), KeyMods { control: true }));
    assert!(app.should_exit);
    let mut app = App::new();
    app.handle_input_event(key(KeyCode::Esc));
    assert!(app.should_exit);
}

#[test]
fn streamed_reply_builds_one_sealed_assistant_record() {
    let mut app = App::new();
    type_text(&mut app, "hi");
    let prompt = app.handle_input_event(key(KeyCode::Enter));
    assert_eq!(prompt, Some("hi".to_string()));

    app.handle_stream_event(MessageStreamEvent::Start);
    app.handle_stream_event(MessageStreamEvent::NextWord { word: "Hel".to_string() });
    app.handle_stream_event(MessageStreamEvent::NextWord { word: "lo".to_string() });
    app.handle_stream_event(MessageStreamEvent::Completed);

    let history = &app.chat_session.history;
    assert_eq!(history.len(), 3);
    assert_eq!(history[1].role, Role::User);
    assert_eq!(history[1].text, "hi");
    assert_eq!(history[2].role, Role::Assistant);
    assert_eq!(history[2].text, "Hello");
    assert!(!history[2].error);
    assert!(!app.awaiting_response);
    assert!(!app.assistant_open);
}

#[test]
fn end_to_end_submit_hi_through_the_decoder() {
    let mut app = App::new();
    type_text(&mut app, "hi");
    assert_eq!(app.handle_input_event(key(KeyCode::Enter)), Some("hi".to_string()));

    let mut session = StreamSession::new();
    let mut events = Vec::new();
    events.extend(session.ingest(b"data: {\"type\":\"response.created\"}\n"));
    events.extend(session.ingest(
        b"data: {\"type\":\"response.output_text.delta\",\"delta\":\"Hel\"}\ndata: {\"type\":\"response.output_text.delta\",\"delta\":\"lo\"}\n",
    ));
    events.extend(session.ingest(b"data: {\"type\":\"response.completed\"}\n"));
    if let Some(ev) = session.finish() {
        events.push(ev);
    }
    for ev in events {
        app.handle_stream_event(ev);
    }

    let tail = &app.chat_session.history[1..];
    assert_eq!(tail.len(), 2);
    assert_eq!((tail[0].role, tail[0].text.as_str()), (Role::User, "hi"));
    assert_eq!((tail[1].role, tail[1].text.as_str()), (Role::Assistant, "Hello"));
    assert!(!app.awaiting_response);
}

#[test]
fn abrupt_stream_end_returns_the_loop_to_idle() {
    let mut app = App::new();
    type_text(&mut app, "hi");
    assert_eq!(app.handle_input_event(key(KeyCode::Enter)), Some("hi".to_string()));

    let mut session = StreamSession::new();
    let mut events = Vec::new();
    events.extend(session.ingest(b"data: {\"type\":\"response.created\"}\ndata: {\"ty"));
    if let Some(ev) = session.finish() {
        events.push(ev);
    }
    for ev in events {
        app.handle_stream_event(ev);
    }

    assert!(!app.awaiting_response);
    let last = app.chat_session.history.last().unwrap();
    assert!(last.error);
    assert_eq!(last.text, "stream ended unexpectedly");
    // the loop accepts a new submission immediately
    type_text(&mut app, "again");
    assert_eq!(app.handle_input_event(key(KeyCode::Enter)), Some("again".to_string()));
}

#[test]
fn delta_with_no_open_record_is_preserved_not_dropped() {
    let mut app = App::new();
    type_text(&mut app, "hi");
    app.handle_input_event(key(KeyCode::Enter));
    // the provider sent a delta before any creation event
    app.handle_stream_event(MessageStreamEvent::NextWord { word: "lost?".to_string() });
    let last = app.chat_session.history.last().unwrap();
    assert_eq!(last.role, Role::Assistant);
    assert_eq!(last.text, "lost?");
}

#[test]
fn handle_event_dispatches_both_sources() {
    let mut app = App::new();
    assert_eq!(app.handle_event(AppEvent::Input(key(KeyCode::Char('h')))), None);
    assert_eq!(app.handle_event(AppEvent::IncomingMessage(MessageStreamEvent::Start)), None);
    assert_eq!(app.handle_event(AppEvent::Redraw), None);
    assert_eq!(app.chat_session.draft, vec!['h']);
    assert_eq!(app.chat_session.history.last().unwrap().role, Role::Assistant);
}

#[test]
fn snapshots_render_prefixed_lines() {
    let mut app = App::new();
    type_text(&mut app, "hi");
    app.handle_input_event(key(KeyCode::Enter));
    app.handle_stream_event(MessageStreamEvent::Start);
    app.handle_stream_event(MessageStreamEvent::NextWord { word: "Hello".to_string() });
    app.handle_stream_event(MessageStreamEvent::Error { error: "boom".to_string() });
    type_text(&mut app, "next");

    let history = ChatHistory::of_session(&app.chat_session);
    assert_eq!(
        history.history,
        vec![
            "Welcome to AI Chat!".to_string(),
            "You: hi".to_string(),
            "AI: Hello".to_string(),
            "Error: boom".to_string(),
        ]
    );
    let input = ChatInput::of_session(&app.chat_session);
    assert_eq!(input.draft, "next");
    assert_eq!(Header.title(), "CLI Chat");
}

#[test]
fn message_stream_mirrors_decoder_events() {
    let m = MessageStream::of_event(MessageStreamEvent::NextWord { word: "w".to_string() });
    assert_eq!(m, MessageStream::NextWord { word: "w".to_string() });
    assert_eq!(MessageStream::of_event(MessageStreamEvent::Completed), MessageStream::Completed);
}
