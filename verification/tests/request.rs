use anthropic_provider::json::{Json, Number};
use anthropic_provider::request::{display_str, effort_str, MessagesRequest};
use anthropic_provider::types::{
    ContentBlock, Effort, Message, ModelId, Request, Role, Temperature, ThinkingConfig,
    ThinkingDisplay, ToolDefinition,
};

fn temperature(t: f32) -> Option<Temperature> {
    Some(Temperature { bits: t.to_bits() })
}

fn text<'a>(v: &'a Json, outer: &str, inner: &str) -> Option<&'a str> {
    v.get(outer).unwrap().str_at(inner)
}

#[test]
fn msg_request_default_model() {
    let req = Request::default();
    let mr = MessagesRequest::from_request(&req, &ModelId::new("model-3"), false);
    assert_eq!(mr.model, "model-3");
}

#[test]
fn msg_request_explicit_model() {
    let req = Request {
        model: ModelId::new("opus-model"),
        ..Default::default()
    };
    let mr = MessagesRequest::from_request(&req, &ModelId::new("model-3"), false);
    assert_eq!(mr.model, "opus-model");
}

#[test]
fn msg_request_max_tokens_default() {
    let req = Request::default();
    let mr = MessagesRequest::from_request(&req, &ModelId::new("m"), false);
    assert_eq!(mr.max_tokens, 4096);
}

#[test]
fn msg_request_max_tokens_explicit() {
    let req = Request {
        max_tokens: Some(1000),
        ..Default::default()
    };
    let mr = MessagesRequest::from_request(&req, &ModelId::new("m"), false);
    assert_eq!(mr.max_tokens, 1000);
}

#[test]
fn msg_request_thinking_enabled_serializes_and_drops_temperature() {
    let req = Request {
        max_tokens: Some(8192),
        temperature: temperature(0.7), // must be dropped when thinking is enabled
        thinking: Some(ThinkingConfig::Enabled {
            budget_tokens: 4096,
        }),
        ..Default::default()
    };
    let mr = MessagesRequest::from_request(&req, &ModelId::new("m"), false);
    assert!(mr.temperature.is_none());
    let v = mr.to_json();
    assert_eq!(text(&v, "thinking", "type"), Some("enabled"));
    assert_eq!(v.get("thinking").unwrap().u64_at("budget_tokens"), Some(4096));
    assert!(v.get("temperature").is_none());
}

#[test]
fn msg_request_thinking_adaptive_serializes_thinking_and_effort() {
    let req = Request {
        max_tokens: Some(8192),
        temperature: temperature(0.7), // dropped when thinking is active
        thinking: Some(ThinkingConfig::Adaptive {
            display: ThinkingDisplay::Summarized,
            effort: Some(Effort::Medium),
        }),
        ..Default::default()
    };
    let mr = MessagesRequest::from_request(&req, &ModelId::new("m"), false);
    assert!(mr.temperature.is_none());
    let v = mr.to_json();
    assert_eq!(text(&v, "thinking", "type"), Some("adaptive"));
    assert_eq!(text(&v, "thinking", "display"), Some("summarized"));
    assert_eq!(text(&v, "output_config", "effort"), Some("medium"));
    assert!(v.get("temperature").is_none());
}

#[test]
fn msg_request_thinking_adaptive_without_effort_omits_output_config() {
    let req = Request {
        thinking: Some(ThinkingConfig::Adaptive {
            display: ThinkingDisplay::Omitted,
            effort: None,
        }),
        ..Default::default()
    };
    let mr = MessagesRequest::from_request(&req, &ModelId::new("m"), false);
    let v = mr.to_json();
    assert_eq!(text(&v, "thinking", "display"), Some("omitted"));
    assert!(v.get("output_config").is_none());
}

#[test]
fn msg_request_thinking_disabled_serializes() {
    let req = Request {
        thinking: Some(ThinkingConfig::Disabled),
        ..Default::default()
    };
    let mr = MessagesRequest::from_request(&req, &ModelId::new("m"), false);
    let v = mr.to_json();
    assert_eq!(text(&v, "thinking", "type"), Some("disabled"));
}

#[test]
fn msg_request_no_thinking_omits_field() {
    let req = Request::default();
    let mr = MessagesRequest::from_request(&req, &ModelId::new("m"), false);
    let v = mr.to_json();
    assert!(v.get("thinking").is_none());
}

#[test]
fn msg_request_system_combined() {
    let req = Request {
        system: Some("A".into()),
        messages: vec![Message::system("B"), Message::user("hi")],
        ..Default::default()
    };
    let mr = MessagesRequest::from_request(&req, &ModelId::new("m"), false);
    assert_eq!(mr.system, Some("A\nB".into()));
    // System message should NOT appear in messages array
    assert_eq!(mr.messages.len(), 1);
    assert_eq!(mr.messages[0].role, "user");
}

#[test]
fn msg_request_no_system() {
    let req = Request {
        messages: vec![Message::user("hi")],
        ..Default::default()
    };
    let mr = MessagesRequest::from_request(&req, &ModelId::new("m"), false);
    assert!(mr.system.is_none());
}

#[test]
fn msg_request_system_messages_filtered() {
    let req = Request {
        messages: vec![
            Message::system("sys"),
            Message::user("usr"),
            Message::assistant("ast"),
        ],
        ..Default::default()
    };
    let mr = MessagesRequest::from_request(&req, &ModelId::new("m"), false);
    assert_eq!(mr.messages.len(), 2);
    assert_eq!(mr.messages[0].role, "user");
    assert_eq!(mr.messages[1].role, "assistant");
    assert_eq!(mr.system, Some("sys".into()));
}

#[test]
fn msg_request_stream_flag() {
    let req = Request::default();
    assert!(MessagesRequest::from_request(&req, &ModelId::new("m"), true).stream);
    assert!(!MessagesRequest::from_request(&req, &ModelId::new("m"), false).stream);
}

#[test]
fn msg_request_serializes_tools() {
    let schema = "{\"type\": \"object\", \"properties\": {\"city\": {\"type\": \"string\"}}}";
    let req = Request {
        tools: vec![ToolDefinition::new(
            "get_weather",
            "Get weather",
            Json::parse(schema).unwrap(),
        )],
        messages: vec![Message::user("hi")],
        ..Default::default()
    };
    let mr = MessagesRequest::from_request(&req, &ModelId::new("m"), false);
    let body = mr.to_json();
    let tool = &body.get("tools").unwrap().as_array().unwrap()[0];
    assert_eq!(tool.str_at("name"), Some("get_weather"));
    assert_eq!(tool.str_at("description"), Some("Get weather"));
    assert_eq!(text(tool, "input_schema", "type"), Some("object"));
    // User message content is serialized as a block array.
    let message = &body.get("messages").unwrap().as_array().unwrap()[0];
    let block = &message.get("content").unwrap().as_array().unwrap()[0];
    assert_eq!(block.str_at("type"), Some("text"));
    assert_eq!(block.str_at("text"), Some("hi"));
}

#[test]
fn msg_request_no_tools_field_when_empty() {
    let req = Request::default();
    let mr = MessagesRequest::from_request(&req, &ModelId::new("m"), false);
    let body = mr.to_json();
    assert!(body.get("tools").is_none());
}

#[test]
fn msg_request_serializes_tool_result_block() {
    let req = Request {
        messages: vec![Message::tool_result("tu_1", "42", false)],
        ..Default::default()
    };
    let mr = MessagesRequest::from_request(&req, &ModelId::new("m"), false);
    let body = mr.to_json();
    let message = &body.get("messages").unwrap().as_array().unwrap()[0];
    let block = &message.get("content").unwrap().as_array().unwrap()[0];
    assert_eq!(block.str_at("type"), Some("tool_result"));
    assert_eq!(block.str_at("tool_use_id"), Some("tu_1"));
    assert_eq!(block.str_at("content"), Some("42"));
    assert!(block.get("is_error").is_none());
}

#[test]
fn msg_request_marks_a_tool_error() {
    let req = Request {
        messages: vec![Message::tool_result("tu_1", "boom", true)],
        ..Default::default()
    };
    let mr = MessagesRequest::from_request(&req, &ModelId::new("m"), false);
    let block = &mr.messages[0].content.as_array().unwrap()[0];
    assert!(matches!(block.get("is_error"), Some(Json::Bool(true))));
}

#[test]
fn msg_request_serializes_a_tool_use_block() {
    let call = ContentBlock::ToolUse {
        id: "tu_1".to_string(),
        name: "f".to_string(),
        input: Json::parse("{\"x\": [1]}").unwrap(),
    };
    let req = Request {
        messages: vec![Message { role: Role::Assistant, content: vec![call] }],
        ..Default::default()
    };
    let mr = MessagesRequest::from_request(&req, &ModelId::new("m"), false);
    let block = &mr.messages[0].content.as_array().unwrap()[0];
    assert_eq!(block.str_at("type"), Some("tool_use"));
    assert_eq!(block.str_at("id"), Some("tu_1"));
    assert_eq!(block.str_at("name"), Some("f"));
    let x = block.get("input").unwrap().get("x").unwrap();
    assert_eq!(x.as_array().unwrap()[0].as_u64(), Some(1));
}

#[test]
fn msg_request_document_order_and_values() {
    let req = Request {
        system: Some("s".into()),
        temperature: temperature(0.5),
        stop: vec!["END".to_string(), "STOP".to_string()],
        ..Default::default()
    };
    let mr = MessagesRequest::from_request(&req, &ModelId::new("m"), true);
    let members = match mr.to_json() {
        Json::Object(members) => members,
        other => panic!("expected an object, got {other:?}"),
    };
    let keys: Vec<&str> = members.iter().map(|m| m.0.as_str()).collect();
    assert_eq!(
        keys,
        ["model", "messages", "max_tokens", "system", "temperature", "stop_sequences", "stream"]
    );
    assert_eq!(members[0].1.as_str(), Some("m"));
    assert_eq!(members[2].1.as_u64(), Some(4096));
    assert_eq!(members[3].1.as_str(), Some("s"));
    match members[4].1 {
        Json::Number(Number::Single(bits)) => assert_eq!(f32::from_bits(bits), 0.5),
        ref other => panic!("expected a number, got {other:?}"),
    }
    assert_eq!(members[5].1.as_array().unwrap()[1].as_str(), Some("STOP"));
    assert!(matches!(members[6].1, Json::Bool(true)));
}

#[test]
fn msg_request_temperature_kept_without_thinking() {
    for thinking in [None, Some(ThinkingConfig::Disabled)] {
        let req = Request { temperature: temperature(0.7), thinking, ..Default::default() };
        let mr = MessagesRequest::from_request(&req, &ModelId::new("m"), false);
        assert_eq!(mr.temperature, temperature(0.7));
    }
}

#[test]
fn msg_request_system_text_of_several_blocks() {
    let req = Request {
        messages: vec![Message {
            role: Role::System,
            content: vec![
                ContentBlock::Text { text: "a".to_string() },
                ContentBlock::Text { text: "b".to_string() },
            ],
        }],
        ..Default::default()
    };
    let mr = MessagesRequest::from_request(&req, &ModelId::new("m"), false);
    assert_eq!(mr.system, Some("ab".into()));
    assert!(mr.messages.is_empty());
}

#[test]
fn names_of_displays_and_efforts() {
    assert_eq!(display_str(ThinkingDisplay::Summarized), "summarized");
    assert_eq!(display_str(ThinkingDisplay::Omitted), "omitted");
    assert_eq!(effort_str(Effort::Low), "low");
    assert_eq!(effort_str(Effort::Medium), "medium");
    assert_eq!(effort_str(Effort::High), "high");
    assert_eq!(effort_str(Effort::XHigh), "xhigh");
    assert_eq!(effort_str(Effort::Max), "max");
}
