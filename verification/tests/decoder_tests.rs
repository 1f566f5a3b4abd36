use aider::agent::{complete_reply, extract_text, StreamSession};
use aider::event::MessageStreamEvent;

fn decode(frame: &[u8]) -> Option<MessageStreamEvent> {
    extract_text(&frame.to_vec())
}

#[test]
fn creation_discriminator_yields_start() {
    let r = decode(b"data: {\"type\":\"response.created\",\"sequence_number\":1}");
    assert_eq!(r, Some(MessageStreamEvent::Start));
}

#[test]
fn completion_discriminator_yields_completed() {
    let r = decode(b"data: {\"type\":\"response.completed\"}");
    assert_eq!(r, Some(MessageStreamEvent::Completed));
}

#[test]
fn text_delta_discriminator_yields_word() {
    let r = decode(b"data: {\"type\":\"response.output_text.delta\",\"delta\":\"Hel\"}");
    assert_eq!(r, Some(MessageStreamEvent::NextWord { word: "Hel".to_string() }));
}

#[test]
fn refusal_delta_discriminator_yields_word() {
    let r = decode(b"data: {\"type\":\"response.refusal.delta\",\"delta\":\"no\"}");
    assert_eq!(r, Some(MessageStreamEvent::NextWord { word: "no".to_string() }));
}

#[test]
fn error_discriminator_yields_error_with_stringified_payload() {
    let r = decode(b"data: {\"type\":\"response.error\",\"error\":{\"message\":\"boom\"}}");
    assert_eq!(
        r,
        Some(MessageStreamEvent::Error { error: "{\"message\":\"boom\"}".to_string() })
    );
}

#[test]
fn unknown_discriminator_is_ignored() {
    assert_eq!(decode(b"data: {\"type\":\"response.output_item.added\"}"), None);
}

#[test]
fn malformed_payloads_are_ignored() {
    assert_eq!(decode(b""), None);
    assert_eq!(decode(b"   "), None);
    assert_eq!(decode(b"data: "), None);
    assert_eq!(decode(b"data: {not json"), None);
    assert_eq!(decode(b"event: ping"), None);
    assert_eq!(decode(b"data: 42"), None);
    assert_eq!(decode(b"data: {\"no_type\":true}"), None);
}

#[test]
fn delta_kind_without_delta_field_is_ignored() {
    assert_eq!(decode(b"data: {\"type\":\"response.output_text.delta\"}"), None);
}

#[test]
fn error_kind_without_error_field_is_ignored() {
    assert_eq!(decode(b"data: {\"type\":\"response.error\"}"), None);
}

#[test]
fn repeated_marker_and_whitespace_are_stripped() {
    let r = decode(b"data: data: {\"type\":\"response.created\"} \r");
    assert_eq!(r, Some(MessageStreamEvent::Start));
}

#[test]
fn payload_without_marker_is_still_decoded() {
    let r = decode(b"{\"type\":\"response.completed\"}");
    assert_eq!(r, Some(MessageStreamEvent::Completed));
}

#[test]
fn session_decodes_a_streamed_reply_across_chunks() {
    let mut s = StreamSession::new();
    let mut events = Vec::new();
    events.extend(s.ingest(b"data: {\"type\":\"response.created\"}\ndata: {\"ty"));
    events.extend(s.ingest(b"pe\":\"response.output_text.delta\",\"delta\":\"Hel\"}\n"));
    events.extend(s.ingest(b"data: {\"type\":\"response.output_text.delta\",\"delta\":\"lo\"}\n"));
    events.extend(s.ingest(b"data: {\"type\":\"response.completed\"}\n"));
    assert_eq!(
        events,
        vec![
            MessageStreamEvent::Start,
            MessageStreamEvent::NextWord { word: "Hel".to_string() },
            MessageStreamEvent::NextWord { word: "lo".to_string() },
            MessageStreamEvent::Completed,
        ]
    );
    assert_eq!(s.finish(), None);
}

#[test]
fn nothing_is_published_after_a_terminal_event() {
    let mut s = StreamSession::new();
    let events = s.ingest(
        b"data: {\"type\":\"response.completed\"}\ndata: {\"type\":\"response.output_text.delta\",\"delta\":\"late\"}\n",
    );
    assert_eq!(events, vec![MessageStreamEvent::Completed]);
    assert_eq!(s.ingest(b"data: {\"type\":\"response.created\"}\n"), vec![]);
}

#[test]
fn abrupt_end_synthesizes_a_failure() {
    let mut s = StreamSession::new();
    let events = s.ingest(b"data: {\"type\":\"response.created\"}\ndata: {\"type");
    assert_eq!(events, vec![MessageStreamEvent::Start]);
    let synthesized = s.finish();
    assert_eq!(
        synthesized,
        Some(MessageStreamEvent::Error { error: "stream ended unexpectedly".to_string() })
    );
    assert_eq!(s.finish(), None);
}

#[test]
fn complete_reply_returns_first_text() {
    let body = b"{\"output\":[{\"content\":[{\"text\":\"hello\"},{\"text\":\"later\"}]}]}";
    assert_eq!(complete_reply(&body.to_vec()), Some("hello".to_string()));
}

#[test]
fn complete_reply_placeholder_when_payload_absent() {
    assert_eq!(
        complete_reply(&b"{\"output\":[]}".to_vec()),
        Some("<no response>".to_string())
    );
    assert_eq!(
        complete_reply(&b"{\"output\":[{\"content\":[]}]}".to_vec()),
        Some("<no response>".to_string())
    );
    assert_eq!(
        complete_reply(&b"{\"output\":[{\"content\":[{\"text\":null}]}]}".to_vec()),
        Some("<no response>".to_string())
    );
}

#[test]
fn complete_reply_rejects_malformed_bodies() {
    assert_eq!(complete_reply(&b"not json".to_vec()), None);
    assert_eq!(complete_reply(&b"{\"unexpected\":true}".to_vec()), None);
    assert_eq!(complete_reply(&b"{\"output\":[{\"no_content\":1}]}".to_vec()), None);
}
