use anthropic_provider::stream::{SseState, StreamInput, StreamStep};
use anthropic_provider::types::StreamChunk;

/// All chunks of a stream whose bytes arrive in the given pieces.
fn collect(pieces: &[&[u8]]) -> Vec<StreamChunk> {
    collect_net(pieces.iter().map(|p| StreamInput::Bytes(p)).collect())
}

/// All chunks of a stream for which the network brings what is given, before the
/// connection ends.
fn collect_net(net: Vec<StreamInput>) -> Vec<StreamChunk> {
    let mut state = SseState::new();
    let mut left = net.into_iter();
    let mut chunks = Vec::new();
    let mut step = state.step(StreamInput::Resume);
    loop {
        match step {
            StreamStep::Emit(chunk) => {
                chunks.push(chunk);
                step = state.step(StreamInput::Resume);
            }
            StreamStep::Read => {
                step = match left.next() {
                    Some(input) => state.step(input),
                    None => state.step(StreamInput::Closed),
                };
            }
            StreamStep::Finish => return chunks,
        }
    }
}

fn success_body() -> String {
    [
        "event: message_start\ndata: {\"type\":\"message_start\"}\n\n",
        "event: content_block_start\ndata: {\"type\":\"content_block_start\"}\n\n",
        "event: content_block_delta\ndata: {\"delta\":{\"text\":\"Hello\"}}\n\n",
        "event: content_block_delta\ndata: {\"delta\":{\"text\":\" world\"}}\n\n",
        "event: content_block_stop\ndata: {\"type\":\"content_block_stop\"}\n\n",
        "event: message_delta\ndata: {\"usage\":{\"output_tokens\":5}}\n\n",
        "event: message_stop\ndata: {}\n\n",
    ]
    .join("")
}

#[test]
fn stream_success() {
    let sse_body = success_body();
    let mut text = String::new();
    let mut got_done = false;
    for chunk in collect(&[sse_body.as_bytes()]) {
        match chunk {
            StreamChunk::Delta(t) => text.push_str(&t),
            StreamChunk::Thinking(_) => {}
            StreamChunk::Done { usage } => {
                got_done = true;
                let u = usage.unwrap();
                assert_eq!(u.output_tokens, 5);
            }
            StreamChunk::Error(e) => panic!("unexpected error: {e}"),
        }
    }
    assert_eq!(text, "Hello world");
    assert!(got_done);
}

#[test]
fn stream_ends_without_stop() {
    // Stream with content but no message_stop/message_delta
    let sse_body = "event: content_block_delta\ndata: {\"delta\":{\"text\":\"hi\"}}\n\n";
    let chunks = collect(&[sse_body.as_bytes()]);
    // Should get Delta("hi") then Done { usage: None } from stream end
    assert!(chunks.len() >= 2);
    match &chunks[0] {
        StreamChunk::Delta(t) => assert_eq!(t, "hi"),
        other => panic!("expected Delta, got {other:?}"),
    }
    // Last chunk should be Done
    match chunks.last().unwrap() {
        StreamChunk::Done { usage } => assert!(usage.is_none()),
        other => panic!("expected Done, got {other:?}"),
    }
}

#[test]
fn stream_does_not_depend_on_chunk_boundaries() {
    let body = [
        "event: content_block_delta\ndata: {\"delta\":{\"text\":\"añ🎉\"}}\n\n",
        "event: ping\n\n",
        "event: message_delta\ndata: {\"usage\":{\"output_tokens\":5}}\n\n",
        "event: ping\n\n",
    ]
    .concat();
    let bytes = body.as_bytes();
    let whole = format!("{:?}", collect(&[bytes]));
    for i in 0..=bytes.len() {
        let split = format!("{:?}", collect(&[&bytes[..i], &bytes[i..]]));
        assert_eq!(split, whole);
    }
    let single: Vec<&[u8]> = bytes.chunks(1).collect();
    assert_eq!(format!("{:?}", collect(&single)), whole);
}

#[test]
fn stream_waits_behind_a_malformed_frame() {
    let bad = "event: error\ndata: not-json\n\n";
    let good = "event: content_block_delta\ndata: {\"delta\":{\"text\":\"x\"}}\n\n";
    let both = format!("{bad}{good}");
    let at_once = collect(&[both.as_bytes()]);
    assert_eq!(at_once.len(), 1);
    assert!(matches!(at_once[0], StreamChunk::Done { usage: None }));
    let apart = collect(&[bad.as_bytes(), good.as_bytes()]);
    assert_eq!(apart.len(), 2);
    assert!(matches!(apart[0], StreamChunk::Delta(_)));
}

#[test]
fn stream_error_event_does_not_end_the_stream() {
    let body = "event: error\ndata: {}\n\nevent: content_block_delta\ndata: {\"delta\":{\"text\":\"x\"}}\n\n";
    let chunks = collect(&[body.as_bytes()]);
    assert_eq!(chunks.len(), 3);
    assert!(matches!(&chunks[0], StreamChunk::Error(m) if m == "unknown error"));
    assert!(matches!(&chunks[1], StreamChunk::Delta(_)));
    assert!(matches!(&chunks[2], StreamChunk::Done { usage: None }));
}

#[test]
fn stream_invalid_bytes_end_the_stream() {
    let chunks = collect(&[b"event: ping\n", b"ab\xE2x", b"more"]);
    assert_eq!(chunks.len(), 1);
    match &chunks[0] {
        StreamChunk::Error(m) => {
            assert_eq!(m, "invalid utf-8 sequence of 1 bytes from index 2");
        }
        other => panic!("expected Error, got {other:?}"),
    }
}

#[test]
fn stream_failure_ends_the_stream() {
    let mut state = SseState::new();
    match state.step(StreamInput::Failed("reset".to_string())) {
        StreamStep::Emit(StreamChunk::Error(m)) => assert_eq!(m, "reset"),
        other => panic!("expected Error, got {other:?}"),
    }
    assert!(state.done);
    for input in [StreamInput::Resume, StreamInput::Bytes(b"x"), StreamInput::Closed] {
        assert!(matches!(state.step(input), StreamStep::Finish));
    }
    assert!(state.buf.is_empty());
}

/// The end that every stream comes to: the last item is the end of the answer or an
/// error, no other is the end of the answer, and no text is empty.
fn assert_well_ended(chunks: &[StreamChunk]) {
    let (last, before) = chunks.split_last().unwrap();
    assert!(matches!(last, StreamChunk::Done { .. } | StreamChunk::Error(_)));
    for chunk in before {
        match chunk {
            StreamChunk::Done { .. } => panic!("the end of the answer is not the last item"),
            StreamChunk::Delta(t) => assert!(!t.is_empty()),
            StreamChunk::Thinking(t) => assert!(!t.is_empty()),
            StreamChunk::Error(_) => {}
        }
    }
}

#[test]
fn stream_always_comes_to_an_end() {
    let empty = "event: content_block_delta\ndata: {\"delta\":{\"text\":\"\"}}\n\n";
    let text = "event: content_block_delta\ndata: {\"delta\":{\"text\":\"x\"}}\n\n";
    let thought = "event: content_block_delta\ndata: {\"delta\":{\"thinking\":\"y\"}}\n\n";
    let error = "event: error\ndata: {\"error\":{\"message\":\"busy\"}}\n\n";
    let end = "event: message_delta\ndata: {}\n\n";

    let nothing = collect_net(vec![]);
    assert_eq!(nothing.len(), 1);
    assert!(matches!(nothing[0], StreamChunk::Done { usage: None }));

    let closed = collect_net(vec![
        StreamInput::Bytes(empty.as_bytes()),
        StreamInput::Bytes(text.as_bytes()),
        StreamInput::Bytes(thought.as_bytes()),
        StreamInput::Bytes(error.as_bytes()),
    ]);
    assert_well_ended(&closed);
    assert_eq!(closed.len(), 4);
    assert!(matches!(&closed[2], StreamChunk::Error(m) if m == "busy"));
    assert!(matches!(closed[3], StreamChunk::Done { usage: None }));

    let ended = collect_net(vec![
        StreamInput::Bytes(error.as_bytes()),
        StreamInput::Bytes(end.as_bytes()),
        StreamInput::Bytes(text.as_bytes()),
        StreamInput::Failed("late".to_string()),
    ]);
    assert_well_ended(&ended);
    assert_eq!(ended.len(), 2);
    assert!(matches!(ended[1], StreamChunk::Done { usage: Some(_) }));

    let failed = collect_net(vec![
        StreamInput::Bytes(text.as_bytes()),
        StreamInput::Failed("reset".to_string()),
        StreamInput::Bytes(text.as_bytes()),
    ]);
    assert_well_ended(&failed);
    assert_eq!(failed.len(), 2);
    assert!(matches!(&failed[1], StreamChunk::Error(m) if m == "reset"));

    let undecodable = collect_net(vec![
        StreamInput::Bytes(text.as_bytes()),
        StreamInput::Bytes(b"\xFF"),
        StreamInput::Bytes(text.as_bytes()),
    ]);
    assert_well_ended(&undecodable);
    assert_eq!(undecodable.len(), 2);
    assert!(matches!(&undecodable[1], StreamChunk::Error(_)));
}

#[test]
fn stream_items_are_the_same_for_every_cut() {
    // No frame ends this answer, so the end of the connection does; its last
    // character is incomplete.
    let mut body = [
        "event: error\ndata: {}\n\n",
        "event: content_block_delta\ndata: {\"delta\":{\"text\":\"añ🎉\"}}\n\n",
        "event: ping\n\nevent: con",
    ]
    .concat()
    .into_bytes();
    body.extend_from_slice(b"\xF0\x9F");
    let whole = collect(&[&body]);
    assert_eq!(whole.len(), 3);
    assert!(matches!(&whole[0], StreamChunk::Error(m) if m == "unknown error"));
    assert!(matches!(&whole[1], StreamChunk::Delta(t) if t == "añ🎉"));
    assert!(matches!(whole[2], StreamChunk::Done { usage: None }));
    let expected = format!("{whole:?}");
    for i in 0..=body.len() {
        for j in i..=body.len() {
            let cut = collect(&[&body[..i], &body[i..j], &body[j..]]);
            assert_eq!(format!("{cut:?}"), expected);
        }
    }
    let single: Vec<&[u8]> = body.chunks(1).collect();
    assert_eq!(format!("{:?}", collect(&single)), expected);
}

#[test]
fn stream_loses_text_that_arrives_with_invalid_bytes() {
    let text = b"event: content_block_delta\ndata: {\"delta\":{\"text\":\"x\"}}\n\n";
    let mut body = text.to_vec();
    body.push(0xFF);
    assert_eq!(collect(&[&body]).len(), 1);
    assert_eq!(collect(&[text, b"\xFF"]).len(), 2);
}
