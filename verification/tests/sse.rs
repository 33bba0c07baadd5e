use anthropic_provider::json::Json;
use anthropic_provider::sse::{
    interpret_frame, read_fields, try_parse_sse_frame, SseFrame, SseParseCtx,
};
use anthropic_provider::types::StreamChunk;

#[test]
fn sse_incomplete_frame() {
    let mut ctx = SseParseCtx::default();
    let mut buf = "event: ping\ndata: {}\n".to_string(); // no \n\n
    let original_len = buf.len();
    assert!(try_parse_sse_frame(&mut buf, &mut ctx).is_none());
    assert_eq!(buf.len(), original_len); // buffer not drained
}

#[test]
fn sse_content_block_delta() {
    let mut ctx = SseParseCtx::default();
    let mut buf =
        "event: content_block_delta\ndata: {\"delta\":{\"text\":\"hi\"}}\n\n".to_string();
    match try_parse_sse_frame(&mut buf, &mut ctx) {
        Some(SseFrame::Chunk(StreamChunk::Delta(t))) => assert_eq!(t, "hi"),
        other => panic!("expected Chunk(Delta), got {other:?}"),
    }
    assert!(buf.is_empty());
}

#[test]
fn sse_content_block_delta_thinking() {
    let mut ctx = SseParseCtx::default();
    let mut buf =
        "event: content_block_delta\ndata: {\"delta\":{\"type\":\"thinking_delta\",\"thinking\":\"let me consider\"}}\n\n"
            .to_string();
    match try_parse_sse_frame(&mut buf, &mut ctx) {
        Some(SseFrame::Chunk(StreamChunk::Thinking(t))) => assert_eq!(t, "let me consider"),
        other => panic!("expected Chunk(Thinking), got {other:?}"),
    }
    assert!(buf.is_empty());
}

#[test]
fn sse_content_block_delta_signature_is_skipped() {
    // The trailing signature_delta of a thinking block has neither `thinking`
    // nor `text`, so it must be skipped rather than emitted.
    let mut ctx = SseParseCtx::default();
    let mut buf =
        "event: content_block_delta\ndata: {\"delta\":{\"type\":\"signature_delta\",\"signature\":\"abc\"}}\n\n"
            .to_string();
    match try_parse_sse_frame(&mut buf, &mut ctx) {
        Some(SseFrame::Skip) => {}
        other => panic!("expected Skip, got {other:?}"),
    }
    assert!(buf.is_empty());
}

#[test]
fn sse_content_block_delta_empty_text() {
    let mut ctx = SseParseCtx::default();
    let mut buf =
        "event: content_block_delta\ndata: {\"delta\":{\"text\":\"\"}}\n\n".to_string();
    match try_parse_sse_frame(&mut buf, &mut ctx) {
        Some(SseFrame::Skip) => {}
        other => panic!("expected Skip, got {other:?}"),
    }
}

#[test]
fn sse_message_delta() {
    let mut ctx = SseParseCtx::default();
    let mut buf =
        "event: message_delta\ndata: {\"usage\":{\"output_tokens\":42}}\n\n".to_string();
    match try_parse_sse_frame(&mut buf, &mut ctx) {
        Some(SseFrame::Done(Some(usage))) => {
            // No message_start seen (degenerate stream): input honestly 0.
            assert_eq!(usage.input_tokens, 0);
            assert_eq!(usage.output_tokens, 42);
        }
        other => panic!("expected Done, got {other:?}"),
    }
}

#[test]
fn sse_input_tokens_carry_from_message_start_to_done() {
    // Input tokens are reported ONLY in message_start; the closing
    // message_delta carries just output usage.
    let mut ctx = SseParseCtx::default();
    let mut buf = [
        "event: message_start\n",
        "data: {\"message\":{\"usage\":{\"input_tokens\":4321,\"output_tokens\":1}}}\n\n",
        "event: message_delta\n",
        "data: {\"usage\":{\"output_tokens\":42}}\n\n",
    ]
    .concat();
    assert!(matches!(
        try_parse_sse_frame(&mut buf, &mut ctx),
        Some(SseFrame::Skip)
    ));
    match try_parse_sse_frame(&mut buf, &mut ctx) {
        Some(SseFrame::Done(Some(usage))) => {
            assert_eq!(
                usage.input_tokens, 4321,
                "message_start count must be carried"
            );
            assert_eq!(usage.output_tokens, 42);
        }
        other => panic!("expected Done, got {other:?}"),
    }
}

#[test]
fn sse_text_deltas_inside_a_thinking_block_are_thinking() {
    // Some display shapes stream reasoning as plain text_deltas inside a
    // `*thinking*`-typed content block. Those are reasoning, not answer.
    // The block type governs classification.
    let mut ctx = SseParseCtx::default();
    let mut buf = [
        "event: content_block_start\n",
        "data: {\"content_block\":{\"type\":\"summarized_thinking\"}}\n\n",
        "event: content_block_delta\n",
        "data: {\"delta\":{\"type\":\"text_delta\",\"text\":\"weighing options\"}}\n\n",
        "event: content_block_stop\n",
        "data: {}\n\n",
        "event: content_block_start\n",
        "data: {\"content_block\":{\"type\":\"text\"}}\n\n",
        "event: content_block_delta\n",
        "data: {\"delta\":{\"type\":\"text_delta\",\"text\":\"the answer\"}}\n\n",
    ]
    .concat();
    assert!(matches!(
        try_parse_sse_frame(&mut buf, &mut ctx),
        Some(SseFrame::Skip)
    ));
    match try_parse_sse_frame(&mut buf, &mut ctx) {
        Some(SseFrame::Chunk(StreamChunk::Thinking(t))) => assert_eq!(t, "weighing options"),
        other => panic!("expected Thinking inside the block, got {other:?}"),
    }
    assert!(matches!(
        try_parse_sse_frame(&mut buf, &mut ctx),
        Some(SseFrame::Skip)
    ));
    assert!(matches!(
        try_parse_sse_frame(&mut buf, &mut ctx),
        Some(SseFrame::Skip)
    ));
    match try_parse_sse_frame(&mut buf, &mut ctx) {
        Some(SseFrame::Chunk(StreamChunk::Delta(t))) => assert_eq!(t, "the answer"),
        other => panic!("expected Delta after the block closed, got {other:?}"),
    }
}

#[test]
fn sse_message_stop() {
    let mut ctx = SseParseCtx::default();
    let mut buf = "event: message_stop\ndata: {}\n\n".to_string();
    match try_parse_sse_frame(&mut buf, &mut ctx) {
        Some(SseFrame::Skip) => {}
        other => panic!("expected Skip, got {other:?}"),
    }
}

#[test]
fn sse_message_start() {
    let mut ctx = SseParseCtx::default();
    let mut buf = "event: message_start\ndata: {}\n\n".to_string();
    match try_parse_sse_frame(&mut buf, &mut ctx) {
        Some(SseFrame::Skip) => {}
        other => panic!("expected Skip, got {other:?}"),
    }
}

#[test]
fn sse_content_block_start() {
    let mut ctx = SseParseCtx::default();
    let mut buf = "event: content_block_start\ndata: {}\n\n".to_string();
    match try_parse_sse_frame(&mut buf, &mut ctx) {
        Some(SseFrame::Skip) => {}
        other => panic!("expected Skip, got {other:?}"),
    }
}

#[test]
fn sse_content_block_stop() {
    let mut ctx = SseParseCtx::default();
    let mut buf = "event: content_block_stop\ndata: {}\n\n".to_string();
    match try_parse_sse_frame(&mut buf, &mut ctx) {
        Some(SseFrame::Skip) => {}
        other => panic!("expected Skip, got {other:?}"),
    }
}

#[test]
fn sse_ping() {
    let mut ctx = SseParseCtx::default();
    let mut buf = "event: ping\ndata: {}\n\n".to_string();
    match try_parse_sse_frame(&mut buf, &mut ctx) {
        Some(SseFrame::Skip) => {}
        other => panic!("expected Skip, got {other:?}"),
    }
}

#[test]
fn sse_error_event() {
    let mut ctx = SseParseCtx::default();
    let mut buf =
        "event: error\ndata: {\"error\":{\"message\":\"overloaded\"}}\n\n".to_string();
    match try_parse_sse_frame(&mut buf, &mut ctx) {
        Some(SseFrame::Chunk(StreamChunk::Error(msg))) => assert_eq!(msg, "overloaded"),
        other => panic!("expected Error chunk, got {other:?}"),
    }
}

#[test]
fn sse_error_no_message() {
    let mut ctx = SseParseCtx::default();
    let mut buf = "event: error\ndata: {\"error\":{}}\n\n".to_string();
    match try_parse_sse_frame(&mut buf, &mut ctx) {
        Some(SseFrame::Chunk(StreamChunk::Error(msg))) => assert_eq!(msg, "unknown error"),
        other => panic!("expected Error chunk with unknown, got {other:?}"),
    }
}

#[test]
fn sse_unknown_event() {
    let mut ctx = SseParseCtx::default();
    let mut buf = "event: custom_thing\ndata: {}\n\n".to_string();
    match try_parse_sse_frame(&mut buf, &mut ctx) {
        Some(SseFrame::Skip) => {}
        other => panic!("expected Skip, got {other:?}"),
    }
}

#[test]
fn sse_no_space_after_colon() {
    let mut ctx = SseParseCtx::default();
    let mut buf =
        "event:content_block_delta\ndata:{\"delta\":{\"text\":\"x\"}}\n\n".to_string();
    match try_parse_sse_frame(&mut buf, &mut ctx) {
        Some(SseFrame::Chunk(StreamChunk::Delta(t))) => assert_eq!(t, "x"),
        other => panic!("expected Delta, got {other:?}"),
    }
}

#[test]
fn sse_invalid_json_returns_none() {
    let mut ctx = SseParseCtx::default();
    let mut buf = "event: content_block_delta\ndata: not-json\n\n".to_string();
    assert!(try_parse_sse_frame(&mut buf, &mut ctx).is_none());
    assert!(buf.is_empty());
}

#[test]
fn sse_drains_buffer() {
    let mut ctx = SseParseCtx::default();
    let mut buf = "event: ping\ndata: {}\n\nevent: message_stop\ndata: {}\n\n".to_string();
    try_parse_sse_frame(&mut buf, &mut ctx); // consume first frame
    assert!(buf.starts_with("event: message_stop"));
    try_parse_sse_frame(&mut buf, &mut ctx); // consume second frame
    assert!(buf.is_empty());
}

#[test]
fn sse_fields_of_a_frame() {
    let fields = read_fields("event: a\nid: 7\nevent:  b \r\ndata: {\ndata:  1}\r\n: note\n\n");
    assert_eq!(fields.event, "b");
    assert_eq!(fields.data, "{ 1}");
    let none = read_fields("\n\n");
    assert_eq!(none.event, "");
    assert_eq!(none.data, "");
}

#[test]
fn sse_unread_data_may_be_anything() {
    let mut ctx = SseParseCtx { input_tokens: Some(3), in_thinking_block: true };
    let mut buf = "event: content_block_stop\ndata: not-json\n\n".to_string();
    assert!(matches!(try_parse_sse_frame(&mut buf, &mut ctx), Some(SseFrame::Skip)));
    assert_eq!(ctx, SseParseCtx { input_tokens: Some(3), in_thinking_block: false });
}

#[test]
fn sse_interpret_frame_by_document() {
    let mut ctx = SseParseCtx { input_tokens: None, in_thinking_block: true };
    let doc = Json::parse("{\"delta\":{\"text\":\"hm\"}}");
    match interpret_frame("content_block_delta", doc, &mut ctx) {
        Some(SseFrame::Chunk(StreamChunk::Thinking(t))) => assert_eq!(t, "hm"),
        other => panic!("expected Thinking, got {other:?}"),
    }
    assert!(interpret_frame("error", None, &mut ctx).is_none());
    let start = Json::parse("{\"message\":{\"usage\":{\"input_tokens\":4294967297}}}");
    assert!(matches!(interpret_frame("message_start", start, &mut ctx), Some(SseFrame::Skip)));
    assert_eq!(ctx.input_tokens, Some(1));
}

#[test]
fn sse_frame_does_not_depend_on_what_follows() {
    let first = "event: error\ndata: {}\n\n";
    for more in ["", "\n", "\n\n", "event: ping\n\n", "é"] {
        let mut ctx = SseParseCtx::default();
        let mut buf = format!("{first}{more}");
        match try_parse_sse_frame(&mut buf, &mut ctx) {
            Some(SseFrame::Chunk(StreamChunk::Error(m))) => assert_eq!(m, "unknown error"),
            other => panic!("expected Error, got {other:?}"),
        }
        assert_eq!(buf, more);
    }
}
