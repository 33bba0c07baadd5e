use std::time::Duration;

use anthropic_provider::json::Json;
use anthropic_provider::request::blocks_to_anthropic;
use anthropic_provider::response::parse_messages_response;
use anthropic_provider::types::{ContentBlock, FinishReason, ModelId, Response};

fn read(text: &str, model: &str, latency: Duration) -> Response {
    parse_messages_response(Json::parse(text).unwrap(), &ModelId::new(model), latency).unwrap()
}

#[test]
fn parse_response_full() {
    let raw = "{
        \"content\": [
            { \"type\": \"text\", \"text\": \"Hello!\" }
        ],
        \"model\": \"sonnet-4-20250514\",
        \"stop_reason\": \"end_turn\",
        \"usage\": { \"input_tokens\": 15, \"output_tokens\": 8 }
    }";
    let resp = read(raw, "fallback", Duration::from_secs(2));
    assert_eq!(resp.content, "Hello!");
    assert_eq!(resp.model.as_str(), "sonnet-4-20250514");
    assert_eq!(resp.finish_reason, FinishReason::Stop);
    assert_eq!(resp.usage.input_tokens, 15);
    assert_eq!(resp.usage.output_tokens, 8);
    assert_eq!(resp.latency, Duration::from_secs(2));
    assert_eq!(resp.raw.str_at("stop_reason"), Some("end_turn"));
}

#[test]
fn parse_response_stop_sequence() {
    let raw = "{ \"stop_reason\": \"stop_sequence\", \"content\": [] }";
    let resp = read(raw, "f", Duration::ZERO);
    assert_eq!(resp.finish_reason, FinishReason::Stop);
}

#[test]
fn parse_response_max_tokens() {
    let raw = "{ \"stop_reason\": \"max_tokens\", \"content\": [] }";
    let resp = read(raw, "f", Duration::ZERO);
    assert_eq!(resp.finish_reason, FinishReason::MaxTokens);
}

#[test]
fn parse_response_other_stop() {
    let raw = "{ \"stop_reason\": \"custom\", \"content\": [] }";
    let resp = read(raw, "f", Duration::ZERO);
    assert_eq!(resp.finish_reason, FinishReason::Other("custom".into()));
}

#[test]
fn parse_response_missing_stop_reason() {
    let raw = "{ \"content\": [] }";
    let resp = read(raw, "f", Duration::ZERO);
    assert_eq!(resp.finish_reason, FinishReason::Stop); // defaults to end_turn
}

#[test]
fn parse_response_no_content() {
    let raw = "{}";
    let resp = read(raw, "f", Duration::ZERO);
    assert_eq!(resp.content, "");
}

#[test]
fn parse_response_mixed_blocks() {
    let raw = "{
        \"content\": [
            { \"type\": \"text\", \"text\": \"A\" },
            { \"type\": \"tool_use\", \"id\": \"x\" },
            { \"type\": \"text\", \"text\": \"B\" }
        ]
    }";
    let resp = read(raw, "f", Duration::ZERO);
    assert_eq!(resp.content, "AB");
    assert_eq!(resp.tool_calls.len(), 1);
    assert_eq!(resp.tool_calls[0].id, "x");
    assert_eq!(resp.tool_calls[0].name, "");
    assert!(matches!(resp.tool_calls[0].input, Json::Null));
}

#[test]
fn parse_response_missing_model() {
    let raw = "{ \"content\": [] }";
    let resp = read(raw, "fallback", Duration::ZERO);
    assert_eq!(resp.model.as_str(), "fallback");
}

#[test]
fn parse_response_missing_usage() {
    let raw = "{ \"content\": [] }";
    let resp = read(raw, "f", Duration::ZERO);
    assert_eq!(resp.usage.input_tokens, 0);
    assert_eq!(resp.usage.output_tokens, 0);
}

#[test]
fn parse_response_tool_use() {
    let raw = "{
        \"content\": [
            { \"type\": \"text\", \"text\": \"Let me check.\" },
            { \"type\": \"tool_use\", \"id\": \"tu_9\", \"name\": \"get_weather\", \"input\": {\"city\": \"SF\"} }
        ],
        \"stop_reason\": \"tool_use\",
        \"usage\": { \"input_tokens\": 5, \"output_tokens\": 3 }
    }";
    let resp = read(raw, "f", Duration::ZERO);
    assert_eq!(resp.content, "Let me check.");
    assert_eq!(resp.finish_reason, FinishReason::ToolUse);
    assert_eq!(resp.tool_calls.len(), 1);
    assert_eq!(resp.tool_calls[0].id, "tu_9");
    assert_eq!(resp.tool_calls[0].name, "get_weather");
    assert_eq!(resp.tool_calls[0].input.str_at("city"), Some("SF"));
}

#[test]
fn parse_response_no_tool_calls_when_text_only() {
    let raw = "{
        \"content\": [{ \"type\": \"text\", \"text\": \"hi\" }],
        \"stop_reason\": \"end_turn\"
    }";
    let resp = read(raw, "f", Duration::ZERO);
    assert!(resp.tool_calls.is_empty());
}

#[test]
fn parse_response_counts_keep_their_low_bits() {
    let raw = "{ \"usage\": { \"input_tokens\": 4294967301, \"output_tokens\": -1 } }";
    let resp = read(raw, "f", Duration::ZERO);
    assert_eq!(resp.usage.input_tokens, 5);
    assert_eq!(resp.usage.output_tokens, 0);
}

#[test]
fn parse_response_accepts_any_document() {
    let resp = read("[1, 2]", "f", Duration::ZERO);
    assert_eq!(resp.content, "");
    assert!(resp.tool_calls.is_empty());
    assert_eq!(resp.model.as_str(), "f");
    let odd = read("{ \"content\": \"text\", \"model\": 7 }", "f", Duration::ZERO);
    assert_eq!(odd.content, "");
    assert_eq!(odd.model.as_str(), "f");
}

#[test]
fn blocks_are_read_back() {
    let blocks = vec![
        ContentBlock::Text { text: "A".to_string() },
        ContentBlock::ToolUse {
            id: "tu_1".to_string(),
            name: "f".to_string(),
            input: Json::parse("{\"x\":1}").unwrap(),
        },
        ContentBlock::ToolResult {
            tool_use_id: "tu_0".to_string(),
            content: "ignored".to_string(),
            is_error: true,
        },
        ContentBlock::Text { text: "B".to_string() },
    ];
    let raw = Json::Object(vec![("content".to_string(), blocks_to_anthropic(&blocks))]);
    let resp = parse_messages_response(raw, &ModelId::new("m"), Duration::ZERO).unwrap();
    assert_eq!(resp.content, "AB");
    assert_eq!(resp.tool_calls.len(), 1);
    assert_eq!(resp.tool_calls[0].id, "tu_1");
    assert_eq!(resp.tool_calls[0].name, "f");
    assert_eq!(resp.tool_calls[0].input.u64_at("x"), Some(1));
}
