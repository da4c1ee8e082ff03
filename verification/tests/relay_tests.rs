use copilot_relay::interpret::{interpret_payload, InterpretedPayload, SentinelKind};
use copilot_relay::relay::{ChatState, RelaySession, StreamPayload};

fn messages(out: Vec<StreamPayload>) -> Vec<String> {
    out.into_iter().map(|p| p.message).collect()
}

fn run_session(chunks: &[&[u8]]) -> Vec<String> {
    let mut s = RelaySession::new();
    let mut got: Vec<String> = Vec::new();
    for c in chunks {
        got.extend(messages(s.on_chunk(true, c)));
    }
    got.extend(messages(s.on_end()));
    got
}

#[test]
fn stop_when_idle_leaves_flag_clear() {
    let mut state = ChatState::new();
    assert!(!state.is_answering());
    state.stop();
    assert!(!state.is_answering());
    state.stop();
    assert!(!state.is_answering());
}

#[test]
fn second_chat_rejected_while_answering() {
    let mut state = ChatState::new();
    assert!(state.try_begin());
    assert!(state.is_answering());
    assert!(!state.try_begin());
    assert!(state.is_answering());
    state.stop();
    assert!(state.try_begin());
}

#[test]
fn chunk_boundaries_do_not_change_events() {
    let whole: &[u8] = b"data: {\"content\":\"he\"}\n\ndata: {\"content\":\"llo\"}\n\n";
    let one_per_frame: &[&[u8]] = &[
        b"data: {\"content\":\"he\"}\n\n",
        b"data: {\"content\":\"llo\"}\n\n",
    ];
    // A separator straddling two chunks, and a frame cut mid-payload.
    let awkward: &[&[u8]] = &[
        b"data: {\"content\":\"he\"}\n",
        b"\ndata: {\"cont",
        b"ent\":\"llo\"}\n\n",
    ];
    let expected = vec!["he".to_string(), "llo".to_string()];
    assert_eq!(run_session(&[whole]), expected);
    assert_eq!(run_session(one_per_frame), expected);
    assert_eq!(run_session(awkward), expected);
}

#[test]
fn no_events_after_done_sentinel() {
    // The sentinel arrives mid-stream; a later frame in the same chunk and a
    // whole later chunk must both be ignored.
    let chunks: &[&[u8]] = &[
        b"data: {\"content\":\"a\"}\n\ndata: [DONE]\n\ndata: {\"content\":\"b\"}\n\n",
        b"data: {\"content\":\"c\"}\n\n",
    ];
    assert_eq!(run_session(chunks), vec!["a".to_string(), "[DONE]".to_string()]);
}

#[test]
fn error_sentinel_terminates_stream() {
    let chunks: &[&[u8]] = &[b"data: [ERROR]\n\ndata: {\"content\":\"x\"}\n\n"];
    assert_eq!(run_session(chunks), vec!["[ERROR]".to_string()]);
}

#[test]
fn sensitive_sentinel_terminates_stream() {
    let chunks: &[&[u8]] = &[b"data: [SENSITIVE]\n\n", b"data: {\"content\":\"x\"}\n\n"];
    assert_eq!(run_session(chunks), vec!["[SENSITIVE]".to_string()]);
}

#[test]
fn abort_mid_stream_emits_synthetic_done() {
    // Five chunks; the abort flag flips after two are processed: exactly the
    // two chunks' events come out, then the synthetic [DONE], and the three
    // remaining chunks are never processed.
    let chunks: [&[u8]; 5] = [
        b"data: {\"content\":\"1\"}\n\n",
        b"data: {\"content\":\"2\"}\n\n",
        b"data: {\"content\":\"3\"}\n\n",
        b"data: {\"content\":\"4\"}\n\n",
        b"data: {\"content\":\"5\"}\n\n",
    ];
    let mut s = RelaySession::new();
    let mut got: Vec<String> = Vec::new();
    for (i, c) in chunks.iter().enumerate() {
        let answering = i < 2;
        got.extend(messages(s.on_chunk(answering, c)));
    }
    got.extend(messages(s.on_end()));
    assert_eq!(
        got,
        vec!["1".to_string(), "2".to_string(), "[DONE]".to_string()]
    );
    assert!(!s.is_live());
}

#[test]
fn content_payload_yields_text() {
    let r = interpret_payload(b"{\"content\":\"hello\"}");
    assert!(matches!(r, InterpretedPayload::Text(ref s) if s == "hello"));
}

#[test]
fn search_suggestions_payload_forwards_whole_object() {
    let r = interpret_payload(b"{\"search_suggestions\":[\"a\",\"b\"]}");
    assert!(
        matches!(r, InterpretedPayload::SearchSuggestions(ref s) if s == "{\"search_suggestions\":[\"a\",\"b\"]}")
    );
}

#[test]
fn extract_payload_forwards_nested_data() {
    let r = interpret_payload(b"{\"extract\":{\"data\":{\"x\":1}}}");
    assert!(matches!(r, InterpretedPayload::Extracted(ref s) if s == "{\"x\":1}"));
}

#[test]
fn unknown_keys_yield_no_event() {
    let r = interpret_payload(b"{\"foo\":\"bar\"}");
    assert!(matches!(r, InterpretedPayload::Empty));
    assert_eq!(run_session(&[b"data: {\"foo\":\"bar\"}\n\n"]), Vec::<String>::new());
}

#[test]
fn done_sentinel_payload_is_terminal() {
    let r = interpret_payload(b"[DONE]");
    assert!(matches!(r, InterpretedPayload::Sentinel(SentinelKind::Done)));
    // Delivered as a frame, it is emitted and ends the session.
    let mut s = RelaySession::new();
    let out = messages(s.on_chunk(true, b"data: [DONE]\n\n"));
    assert_eq!(out, vec!["[DONE]".to_string()]);
    assert!(!s.is_live());
}

#[test]
fn malformed_json_payload_is_dropped_not_fatal() {
    let chunks: &[&[u8]] = &[
        b"data: {\"content\":\"ok\"}\n\ndata: {truncated\n\ndata: {\"content\":\"still\"}\n\n",
    ];
    assert_eq!(run_session(chunks), vec!["ok".to_string(), "still".to_string()]);
}

#[test]
fn non_data_frames_are_discarded() {
    let chunks: &[&[u8]] = &[b"event: ping\n\ndata: {\"content\":\"t\"}\n\n"];
    assert_eq!(run_session(chunks), vec!["t".to_string()]);
}

#[test]
fn trailing_segment_without_separator_is_flushed_at_end() {
    // The final frame never gets its separator; on_end treats the carry-over
    // as the last frame.
    let chunks: &[&[u8]] = &[b"data: {\"content\":\"tail\"}"];
    assert_eq!(run_session(chunks), vec!["tail".to_string()]);
}

#[test]
fn invalid_utf8_is_replaced_not_fatal() {
    // 0xFF cannot begin a UTF-8 sequence; the payload decodes lossily, fails
    // JSON parsing, and is dropped while the stream lives on.
    let chunks: &[&[u8]] = &[
        b"data: \xff\xfe\n\ndata: {\"content\":\"after\"}\n\n",
    ];
    assert_eq!(run_session(chunks), vec!["after".to_string()]);
}

#[test]
fn payload_whitespace_is_trimmed() {
    let chunks: &[&[u8]] = &[b"data:  {\"content\":\"padded\"} \r\n\n\n"];
    assert_eq!(run_session(chunks), vec!["padded".to_string()]);
}

#[test]
fn multibyte_content_is_decoded() {
    // "\u{4f60}\u{597d}" travels as six UTF-8 bytes inside the payload.
    let frame = "data: {\"content\":\"\u{4f60}\u{597d}\"}\n\n";
    assert_eq!(
        run_session(&[frame.as_bytes()]),
        vec!["\u{4f60}\u{597d}".to_string()]
    );
}

#[test]
fn chunk_split_inside_multibyte_character() {
    // The boundary falls between the bytes of one character; the carry-over
    // buffer reunites them before the payload is decoded.
    let frame = "data: {\"content\":\"\u{4f60}\u{597d}\"}\n\n".as_bytes();
    let cut = frame.len() - 8;
    let halves: &[&[u8]] = &[&frame[..cut], &frame[cut..]];
    assert_eq!(run_session(halves), vec!["\u{4f60}\u{597d}".to_string()]);
}
