use std::time::Duration;

use anthropic_provider::json::Json;
use anthropic_provider::provider::{api_error, reply_kind, AnthropicProvider, ReplyKind};
use anthropic_provider::types::{Message, ProviderError, Request};

fn anthropic_response() -> Json {
    Json::parse(
        "{
            \"id\": \"msg_123\",
            \"type\": \"message\",
            \"role\": \"assistant\",
            \"content\": [{ \"type\": \"text\", \"text\": \"Hello!\" }],
            \"model\": \"sonnet-4-20250514\",
            \"stop_reason\": \"end_turn\",
            \"usage\": { \"input_tokens\": 12, \"output_tokens\": 6 }
        }",
    )
    .unwrap()
}

fn header<'a>(headers: &'a [(String, String)], name: &str) -> Option<&'a str> {
    headers.iter().find(|h| h.0 == name).map(|h| h.1.as_str())
}

#[test]
fn new_default_base_url() {
    let p = AnthropicProvider::new("key", "model");
    assert_eq!(p.base_url(), "https://api.anthropic.com");
}

#[test]
fn with_base_url_trims_slash() {
    let p = AnthropicProvider::with_base_url("k", "m", "http://host/");
    assert_eq!(p.base_url(), "http://host");
}

#[test]
fn model_id_returns_configured() {
    let p = AnthropicProvider::new("key", "model-3");
    assert_eq!(p.model_id().as_str(), "model-3");
}

#[test]
fn trailing_slashes_make_no_difference() {
    for base in ["http://host", "http://host/", "http://host///"] {
        let p = AnthropicProvider::with_base_url("k", "m", base);
        assert_eq!(p.messages_url(), "http://host/v1/messages");
    }
}

#[test]
fn complete_success() {
    let provider = AnthropicProvider::with_base_url(
        "test-key",
        "sonnet-4-20250514",
        "http://127.0.0.1:80",
    );
    let req = Request { messages: vec![Message::user("hi")], ..Default::default() };
    let out = provider.outgoing(&req, false);
    assert_eq!(out.url, "http://127.0.0.1:80/v1/messages");
    assert_eq!(header(&out.headers, "x-api-key"), Some("test-key"));
    assert_eq!(header(&out.headers, "anthropic-version"), Some("2023-06-01"));
    assert_eq!(header(&out.headers, "content-type"), Some("application/json"));
    assert_eq!(out.body.str_at("model"), Some("sonnet-4-20250514"));
    assert!(matches!(out.body.get("stream"), Some(Json::Bool(false))));

    assert_eq!(reply_kind(200), ReplyKind::Answer);
    let resp = provider.read_answer(anthropic_response(), Duration::from_millis(1)).unwrap();
    assert_eq!(resp.content, "Hello!");
    assert_eq!(resp.usage.input_tokens, 12);
    assert_eq!(resp.usage.output_tokens, 6);
    assert_eq!(resp.model.as_str(), "sonnet-4-20250514");
    assert!(resp.latency > Duration::ZERO);
}

#[test]
fn complete_sends_extra_headers() {
    let provider =
        AnthropicProvider::with_base_url("test-key", "sonnet-4-20250514", "http://host")
            .with_extra_header("anthropic-workspace-id", "wrkspc_123")
            .with_extra_header("anthropic-beta", "b");
    let headers = provider.request_headers();
    assert_eq!(header(&headers, "x-api-key"), Some("test-key"));
    assert_eq!(header(&headers, "anthropic-workspace-id"), Some("wrkspc_123"));
    assert_eq!(headers.len(), 5);
    assert_eq!(headers[3], ("anthropic-workspace-id".to_string(), "wrkspc_123".to_string()));
    assert_eq!(headers[4], ("anthropic-beta".to_string(), "b".to_string()));
    let resp = provider.read_answer(anthropic_response(), Duration::ZERO).unwrap();
    assert_eq!(resp.content, "Hello!");
}

#[test]
fn complete_api_error() {
    assert_eq!(reply_kind(429), ReplyKind::Failure);
    match api_error(429, Some("rate limited".to_string())) {
        ProviderError::Api { status, message } => {
            assert_eq!(status, 429);
            assert!(message.contains("rate limited"));
        }
    }
}

#[test]
fn stream_api_error() {
    assert_eq!(reply_kind(500), ReplyKind::Failure);
    match api_error(500, Some("server error".to_string())) {
        ProviderError::Api { status, .. } => assert_eq!(status, 500),
    }
}

#[test]
fn unreadable_error_text_is_empty() {
    match api_error(503, None) {
        ProviderError::Api { status, message } => {
            assert_eq!(status, 503);
            assert_eq!(message, "");
        }
    }
}

#[test]
fn statuses_of_success() {
    for status in 100..1000u16 {
        let success = (200..300).contains(&status);
        assert_eq!(reply_kind(status) == ReplyKind::Answer, success);
    }
}
