use vstd::prelude::*;

use crate::event::{
    event_view, is_terminal, is_terminal_v, opt_event_view, MessageStreamEvent, StreamEventV,
};
use crate::frame::{frames_of, residue_of, FrameReassembler, frame_views};

verus! {

// ---------------------------------------------------------------------
// Canonical payload: the frame with its field marker and surrounding
// whitespace removed.
// ---------------------------------------------------------------------

/// The whitespace bytes the decoder strips around a payload.
pub open spec fn is_ws_byte(b: u8) -> bool {
    b == 32 || b == 9 || b == 13 || b == 10
}

/// Whether a byte sequence begins with the SSE field marker `data: `.
pub open spec fn starts_with_marker(s: Seq<u8>) -> bool {
    s.len() >= 6 && s[0] == 100 && s[1] == 97 && s[2] == 116 && s[3] == 97 && s[4] == 58 && s[5]
        == 32
}

/// The byte sequence with every leading repetition of the field marker
/// removed.
pub open spec fn strip_marker_spec(s: Seq<u8>) -> Seq<u8>
    decreases s.len(),
{
    if starts_with_marker(s) {
        strip_marker_spec(s.skip(6))
    } else {
        s
    }
}

pub open spec fn trim_front_bytes(s: Seq<u8>) -> Seq<u8>
    decreases s.len(),
{
    if s.len() > 0 && is_ws_byte(s[0]) {
        trim_front_bytes(s.skip(1))
    } else {
        s
    }
}

pub open spec fn trim_back_bytes(s: Seq<u8>) -> Seq<u8>
    decreases s.len(),
{
    if s.len() > 0 && is_ws_byte(s.last()) {
        trim_back_bytes(s.drop_last())
    } else {
        s
    }
}

/// The text the decoder hands to the JSON parser: the frame, minus the
/// field marker and surrounding whitespace.
pub open spec fn canonical_payload_spec(frame: Seq<u8>) -> Seq<u8> {
    trim_back_bytes(trim_front_bytes(strip_marker_spec(frame)))
}

fn is_ws_b(b: u8) -> (r: bool)
    ensures
        r == is_ws_byte(b),
{
    b == 32 || b == 9 || b == 13 || b == 10
}

fn has_marker_at(frame: &Vec<u8>, lo: usize) -> (r: bool)
    requires
        lo <= frame@.len(),
    ensures
        r == starts_with_marker(frame@.skip(lo as int)),
{
    let r = frame.len() - lo >= 6 && frame[lo] == 100 && frame[lo + 1] == 97 && frame[lo + 2]
        == 116 && frame[lo + 3] == 97 && frame[lo + 4] == 58 && frame[lo + 5] == 32;
    proof {
        let t = frame@.skip(lo as int);
        if t.len() >= 6 {
            assert(t[0] == frame@[lo as int]);
            assert(t[1] == frame@[lo as int + 1]);
            assert(t[2] == frame@[lo as int + 2]);
            assert(t[3] == frame@[lo as int + 3]);
            assert(t[4] == frame@[lo as int + 4]);
            assert(t[5] == frame@[lo as int + 5]);
        }
    }
    r
}

/// Removes the field marker and surrounding whitespace from one frame.
pub fn canonical_payload(frame: &Vec<u8>) -> (p: Vec<u8>)
    ensures
        p@ == canonical_payload_spec(frame@),
{
    let n = frame.len();
    let mut lo: usize = 0;
    proof {
        assert(frame@.skip(0) =~= frame@);
    }
    while has_marker_at(frame, lo)
        invariant
            n == frame@.len(),
            lo <= frame@.len(),
            strip_marker_spec(frame@) == strip_marker_spec(frame@.skip(lo as int)),
        decreases frame@.len() - lo,
    {
        proof {
            assert(frame@.skip(lo as int).len() == frame@.len() - lo);
            assert(frame@.skip(lo as int).skip(6) =~= frame@.skip(lo as int + 6));
        }
        lo = lo + 6;
    }
    let ghost stripped = frame@.skip(lo as int);
    while lo < frame.len() && is_ws_b(frame[lo])
        invariant
            lo <= frame@.len(),
            strip_marker_spec(frame@) == stripped,
            trim_front_bytes(stripped) == trim_front_bytes(frame@.skip(lo as int)),
        decreases frame@.len() - lo,
    {
        proof {
            assert(frame@.skip(lo as int)[0] == frame@[lo as int]);
            assert(frame@.skip(lo as int).skip(1) =~= frame@.skip(lo as int + 1));
        }
        lo = lo + 1;
    }
    proof {
        if lo < frame@.len() {
            assert(frame@.skip(lo as int)[0] == frame@[lo as int]);
        }
        assert(trim_front_bytes(stripped) == frame@.skip(lo as int));
    }
    let mut hi: usize = frame.len();
    while hi > lo && is_ws_b(frame[hi - 1])
        invariant
            lo <= hi <= frame@.len(),
            strip_marker_spec(frame@) == stripped,
            trim_front_bytes(stripped) == frame@.skip(lo as int),
            trim_back_bytes(frame@.skip(lo as int)) == trim_back_bytes(
                frame@.subrange(lo as int, hi as int),
            ),
        decreases hi,
    {
        proof {
            let sub = frame@.subrange(lo as int, hi as int);
            assert(sub.last() == frame@[hi - 1]);
            assert(sub.drop_last() =~= frame@.subrange(lo as int, hi as int - 1));
        }
        hi = hi - 1;
    }
    proof {
        let sub = frame@.subrange(lo as int, hi as int);
        if hi > lo {
            assert(sub.last() == frame@[hi - 1]);
        }
        assert(trim_back_bytes(frame@.skip(lo as int)) == sub);
    }
    let mut out: Vec<u8> = Vec::new();
    let mut i: usize = lo;
    while i < hi
        invariant
            lo <= i <= hi <= frame@.len(),
            out@ == frame@.subrange(lo as int, i as int),
        decreases hi - i,
    {
        out.push(frame[i]);
        proof {
            assert(out@ =~= frame@.subrange(lo as int, i as int + 1));
        }
        i = i + 1;
    }
    out
}

// ---------------------------------------------------------------------
// Wire payload parsing (trusted) and classification (verified).
// ---------------------------------------------------------------------

/// The fields of one wire payload that the decoder reads: the
/// discriminator, an optional text delta, and an optional error payload.
pub struct RawWire {
    pub kind: String,
    pub delta: Option<String>,
    pub error_text: Option<String>,
}

pub open spec fn opt_str_view(o: Option<String>) -> Option<Seq<char>> {
    match o {
        Some(s) => Some(s@),
        None => None,
    }
}

pub open spec fn raw_wire_view(w: RawWire) -> (Seq<char>, Option<Seq<char>>, Option<Seq<char>>) {
    (w.kind@, opt_str_view(w.delta), opt_str_view(w.error_text))
}

/// The fields that a payload text carries: `None` when the text is not a
/// JSON object with a string discriminator field, otherwise the
/// discriminator, the delta field if it is a string, and the error field
/// rendered back to JSON text if present.
pub uninterp spec fn wire_fields_of(payload: Seq<u8>) -> Option<
    (Seq<char>, Option<Seq<char>>, Option<Seq<char>>),
>;

/// Relies on `serde_json::from_slice::<Value>` and on
/// `serde_json::Value::{get, as_str, to_string}`: which fields a JSON
/// text carries is a function of that text alone, and `to_string`
/// renders a value back to JSON text.
#[verifier::external_body]
fn parse_wire_fields(payload: &Vec<u8>) -> (r: Option<RawWire>)
    ensures
        match r {
            None => wire_fields_of(payload@) is None,
            Some(w) => wire_fields_of(payload@) == Some(raw_wire_view(w)),
        },
{
    let v: serde_json::Value = match serde_json::from_slice(payload) {
        Ok(v) => v,
        Err(_) => return None,
    };
    let kind = match v.get("type").and_then(|t| t.as_str()) {
        Some(k) => k.to_string(),
        None => return None,
    };
    let delta = v.get("delta").and_then(|d| d.as_str()).map(|d| d.to_string());
    let error_text = v.get("error").map(|e| e.to_string());
    Some(RawWire { kind, delta, error_text })
}

/// The decoder's classification policy over the extracted fields.
pub open spec fn classify_spec(
    kind: Seq<char>,
    delta: Option<Seq<char>>,
    err: Option<Seq<char>>,
) -> Option<StreamEventV> {
    if kind == "response.created"@ {
        Some(StreamEventV::Start)
    } else if kind == "response.completed"@ {
        Some(StreamEventV::Done)
    } else if kind == "response.output_text.delta"@ || kind == "response.refusal.delta"@ {
        match delta {
            Some(d) => Some(StreamEventV::Word(d)),
            None => None,
        }
    } else if kind == "response.error"@ {
        match err {
            Some(e) => Some(StreamEventV::Fail(e)),
            None => None,
        }
    } else {
        None
    }
}

/// Maps the extracted fields of one payload to the stream event they
/// stand for, or to nothing for an unrecognized discriminator.
pub fn classify(w: RawWire) -> (r: Option<MessageStreamEvent>)
    ensures
        opt_event_view(r) == classify_spec(w.kind@, opt_str_view(w.delta), opt_str_view(
            w.error_text,
        )),
{
    proof {
        reveal_strlit("response.created");
        reveal_strlit("response.completed");
        reveal_strlit("response.output_text.delta");
        reveal_strlit("response.refusal.delta");
        reveal_strlit("response.error");
    }
    let RawWire { kind, delta, error_text } = w;
    if kind == String::from_str("response.created") {
        Some(MessageStreamEvent::Start)
    } else if kind == String::from_str("response.completed") {
        Some(MessageStreamEvent::Completed)
    } else if kind == String::from_str("response.output_text.delta") || kind == String::from_str(
        "response.refusal.delta",
    ) {
        match delta {
            Some(word) => Some(MessageStreamEvent::NextWord { word }),
            None => None,
        }
    } else if kind == String::from_str("response.error") {
        match error_text {
            Some(error) => Some(MessageStreamEvent::Error { error }),
            None => None,
        }
    } else {
        None
    }
}

/// What decoding one frame yields: the frame is canonicalized, its
/// fields extracted, and the fields classified.
pub open spec fn decode_spec(frame: Seq<u8>) -> Option<StreamEventV> {
    match wire_fields_of(canonical_payload_spec(frame)) {
        None => None,
        Some((kind, delta, err)) => classify_spec(kind, delta, err),
    }
}

/// Decodes one text frame into a stream event, or into nothing for a
/// frame that carries no recognized event (blank line, heartbeat,
/// unrecognized discriminator, malformed payload).
pub fn extract_text(frame: &Vec<u8>) -> (r: Option<MessageStreamEvent>)
    ensures
        opt_event_view(r) == decode_spec(frame@),
{
    let payload = canonical_payload(frame);
    match parse_wire_fields(&payload) {
        None => None,
        Some(w) => classify(w),
    }
}

// ---------------------------------------------------------------------
// Response streamer: reassembles, decodes, and stops at the first
// terminal event.
// ---------------------------------------------------------------------

pub open spec fn event_views(s: Seq<MessageStreamEvent>) -> Seq<StreamEventV> {
    s.map_values(|e: MessageStreamEvent| event_view(e))
}

/// The events a run of frames publishes, given whether a terminal event
/// was already seen: frames after a terminal event yield nothing.
pub open spec fn stream_events_spec(frames: Seq<Seq<u8>>, term: bool) -> Seq<StreamEventV>
    decreases frames.len(),
{
    if term || frames.len() == 0 {
        Seq::empty()
    } else {
        match decode_spec(frames[0]) {
            None => stream_events_spec(frames.skip(1), false),
            Some(e) => seq![e] + stream_events_spec(frames.skip(1), is_terminal_v(e)),
        }
    }
}

/// Whether a terminal event has been seen after a run of frames.
pub open spec fn stream_term_spec(frames: Seq<Seq<u8>>, term: bool) -> bool
    decreases frames.len(),
{
    if term {
        true
    } else if frames.len() == 0 {
        false
    } else {
        match decode_spec(frames[0]) {
            None => stream_term_spec(frames.skip(1), false),
            Some(e) => stream_term_spec(frames.skip(1), is_terminal_v(e)),
        }
    }
}

/// Law (at most one terminal event): a response stream's published
/// event sequence holds a terminal event only in last position — at
/// most one terminal event is published per request, and no event
/// follows it.
pub proof fn lemma_at_most_one_terminal(frames: Seq<Seq<u8>>, term: bool)
    ensures
        forall|i: int|
            0 <= i < stream_events_spec(frames, term).len() && is_terminal_v(
                #[trigger] stream_events_spec(frames, term)[i],
            ) ==> i == stream_events_spec(frames, term).len() - 1,
    decreases frames.len(),
{
    if !term && frames.len() > 0 {
        let evs = stream_events_spec(frames, term);
        match decode_spec(frames[0]) {
            None => {
                lemma_at_most_one_terminal(frames.skip(1), false);
                let rest = stream_events_spec(frames.skip(1), false);
                assert forall|i: int|
                    0 <= i < evs.len() && is_terminal_v(#[trigger] evs[i]) implies i == evs.len()
                    - 1 by {
                    assert(evs[i] == rest[i]);
                }
            },
            Some(e) => {
                let rest = stream_events_spec(frames.skip(1), is_terminal_v(e));
                lemma_at_most_one_terminal(frames.skip(1), is_terminal_v(e));
                assert(evs == seq![e] + rest);
                if is_terminal_v(e) {
                    assert(rest == Seq::<StreamEventV>::empty());
                }
                assert forall|i: int|
                    0 <= i < evs.len() && is_terminal_v(#[trigger] evs[i]) implies i == evs.len()
                    - 1 by {
                    if i == 0 {
                        assert(evs[0] == e);
                    } else {
                        assert(evs[i] == rest[i - 1]);
                    }
                }
            },
        }
    }
}

/// Drives one response stream: feeds byte chunks to the frame
/// reassembler, decodes every completed frame, and publishes the decoded
/// events in order until the first terminal event. If the byte stream
/// collapses with no terminal event observed, `finish` synthesizes one,
/// so a consumer is never left waiting.
#[derive(Debug)]
pub struct StreamSession {
    reassembler: FrameReassembler,
    terminal: bool,
}

impl StreamSession {
    /// Bytes of the trailing partial frame, still waiting for a delimiter.
    pub closed spec fn pending(&self) -> Seq<u8> {
        self.reassembler@
    }

    /// Whether a terminal event has already been published.
    pub closed spec fn terminal_seen(&self) -> bool {
        self.terminal
    }

    pub closed spec fn wf(&self) -> bool {
        self.reassembler.wf()
    }

    pub fn new() -> (s: Self)
        ensures
            s.wf(),
            s.pending() == Seq::<u8>::empty(),
            !s.terminal_seen(),
    {
        StreamSession { reassembler: FrameReassembler::new(), terminal: false }
    }

    /// Feeds one arriving chunk and returns every stream event it
    /// completes, in order; nothing is returned once a terminal event
    /// has been published.
    pub fn ingest(&mut self, chunk: &[u8]) -> (events: Vec<MessageStreamEvent>)
        requires
            old(self).wf(),
        ensures
            final(self).wf(),
            event_views(events@) == stream_events_spec(
                frames_of(old(self).pending() + chunk@),
                old(self).terminal_seen(),
            ),
            final(self).terminal_seen() == stream_term_spec(
                frames_of(old(self).pending() + chunk@),
                old(self).terminal_seen(),
            ),
            final(self).pending() == residue_of(old(self).pending() + chunk@),
    {
        let ghost term0 = old(self).terminal_seen();
        let frames = self.reassembler.push_chunk(chunk);
        let ghost reass = self.reassembler;
        let ghost all = frame_views(frames@);
        let mut events: Vec<MessageStreamEvent> = Vec::new();
        let mut i: usize = 0;
        proof {
            assert(all.skip(0) =~= all);
            assert(event_views(events@) =~= Seq::<StreamEventV>::empty());
        }
        while i < frames.len()
            invariant
                i <= frames@.len(),
                all == frame_views(frames@),
                self.reassembler == reass,
                stream_events_spec(all, term0) == event_views(events@) + stream_events_spec(
                    all.skip(i as int),
                    self.terminal,
                ),
                stream_term_spec(all, term0) == stream_term_spec(
                    all.skip(i as int),
                    self.terminal,
                ),
            decreases frames@.len() - i,
        {
            proof {
                assert(all.skip(i as int)[0] == all[i as int]);
                assert(all.skip(i as int).skip(1) =~= all.skip(i as int + 1));
                assert(all[i as int] == frames@[i as int]@);
            }
            if !self.terminal {
                match extract_text(&frames[i]) {
                    None => {},
                    Some(ev) => {
                        let t = is_terminal(&ev);
                        let ghost evs0 = events@;
                        events.push(ev);
                        proof {
                            assert(event_views(events@) =~= event_views(evs0).push(
                                event_view(ev),
                            ));
                            assert(event_views(evs0) + (seq![event_view(ev)]
                                + stream_events_spec(all.skip(i as int + 1), is_terminal_v(
                                event_view(ev),
                            ))) =~= event_views(events@) + stream_events_spec(
                                all.skip(i as int + 1),
                                is_terminal_v(event_view(ev)),
                            ));
                        }
                        if t {
                            self.terminal = true;
                        }
                    },
                }
            }
            i = i + 1;
        }
        proof {
            assert(all.skip(frames@.len() as int) =~= Seq::<Seq<u8>>::empty());
            assert(event_views(events@) + Seq::<StreamEventV>::empty() =~= event_views(events@));
        }
        events
    }

    /// Ends the byte stream. If no terminal event was published, one
    /// failure event is synthesized, exactly once.
    pub fn finish(&mut self) -> (r: Option<MessageStreamEvent>)
        requires
            old(self).wf(),
        ensures
            final(self).wf(),
            final(self).pending() == old(self).pending(),
            final(self).terminal_seen(),
            old(self).terminal_seen() ==> r is None,
            !old(self).terminal_seen() ==> (match r {
                Some(ev) => event_view(ev) == StreamEventV::Fail("stream ended unexpectedly"@),
                None => false,
            }),
    {
        if self.terminal {
            None
        } else {
            self.terminal = true;
            Some(
                MessageStreamEvent::Error {
                    error: String::from_str("stream ended unexpectedly"),
                },
            )
        }
    }
}

// ---------------------------------------------------------------------
// Non-streaming completion: the first text payload of a full reply body.
// ---------------------------------------------------------------------

pub open spec fn row_view(row: Vec<Option<String>>) -> Seq<Option<Seq<char>>> {
    row@.map_values(|c: Option<String>| opt_str_view(c))
}

pub open spec fn grid_view(g: Vec<Vec<Option<String>>>) -> Seq<Seq<Option<Seq<char>>>> {
    g@.map_values(|row: Vec<Option<String>>| row_view(row))
}

/// The text payloads a full (non-streaming) reply body carries: one row
/// per output record, one optional text per content entry; `None` when
/// the body does not parse as such a reply.
pub uninterp spec fn completion_grid_of(body: Seq<u8>) -> Option<Seq<Seq<Option<Seq<char>>>>>;

/// Relies on `serde_json::from_slice::<Value>` and on
/// `serde_json::Value::{get, as_array, as_str}`: which output texts a
/// reply body carries is a function of that body alone.
#[verifier::external_body]
fn parse_completion_grid(body: &Vec<u8>) -> (r: Option<Vec<Vec<Option<String>>>>)
    ensures
        match r {
            None => completion_grid_of(body@) is None,
            Some(g) => completion_grid_of(body@) == Some(grid_view(g)),
        },
{
    let v: serde_json::Value = match serde_json::from_slice(body) {
        Ok(v) => v,
        Err(_) => return None,
    };
    v.get("output")?.as_array()?.iter().map(
        |o| o.get("content").and_then(|c| c.as_array()).map(
            |row| row.iter().map(
                |c| c.get("text").and_then(|t| t.as_str()).map(|s| s.to_string()),
            ).collect(),
        ),
    ).collect()
}

/// The first available text payload, or the placeholder when it is
/// structurally absent.
pub open spec fn first_text_spec(g: Seq<Seq<Option<Seq<char>>>>) -> Seq<char> {
    if g.len() > 0 && g[0].len() > 0 {
        match g[0][0] {
            Some(t) => t,
            None => "<no response>"@,
        }
    } else {
        "<no response>"@
    }
}

pub fn first_text(grid: &Vec<Vec<Option<String>>>) -> (r: String)
    ensures
        r@ == first_text_spec(grid_view(*grid)),
{
    proof {
        if grid@.len() > 0 {
            assert(grid_view(*grid)[0] == row_view(grid@[0]));
            if grid@[0]@.len() > 0 {
                assert(row_view(grid@[0])[0] == opt_str_view(grid@[0]@[0]));
            }
        }
    }
    if grid.len() > 0 {
        let row = &grid[0];
        if row.len() > 0 {
            if let Some(t) = &row[0] {
                return t.clone();
            }
        }
    }
    String::from_str("<no response>")
}

/// Reads one full reply body and returns its first text payload, the
/// placeholder when the payload is structurally absent, or nothing when
/// the body is not a well-formed reply.
pub fn complete_reply(body: &Vec<u8>) -> (r: Option<String>)
    ensures
        match completion_grid_of(body@) {
            None => r is None,
            Some(g) => r matches Some(t) && t@ == first_text_spec(g),
        },
{
    match parse_completion_grid(body) {
        None => None,
        Some(grid) => Some(first_text(&grid)),
    }
}

} // verus!

