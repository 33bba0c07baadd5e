//! The body of a request to the Messages API.

use vstd::prelude::*;
use vstd::string::*;

use crate::json::{Json, JsonView, Number};
use crate::text::{join, str_eq};
use crate::types::{
    ContentBlock, Effort, Message, ModelId, Request, Role, Temperature, ThinkingConfig,
    ThinkingDisplay, ToolDefinition, ToolDefinitionView,
};

verus! {

/// A member of an object whose value is a string.
pub open spec fn text_member(key: Seq<char>, text: Seq<char>) -> (Seq<char>, JsonView) {
    (key, JsonView::String(text))
}

/// A content block in the API's format. The mark of an error is there only where
/// there was one.
pub open spec fn block_json(b: ContentBlock) -> JsonView {
    match b {
        ContentBlock::Text { text } => JsonView::Object(
            seq![text_member("type"@, "text"@), text_member("text"@, text@)],
        ),
        ContentBlock::ToolUse { id, name, input } => JsonView::Object(
            seq![
                text_member("type"@, "tool_use"@),
                text_member("id"@, id@),
                text_member("name"@, name@),
                ("input"@, input@),
            ],
        ),
        ContentBlock::ToolResult { tool_use_id, content, is_error } => {
            let members = seq![
                text_member("type"@, "tool_result"@),
                text_member("tool_use_id"@, tool_use_id@),
                text_member("content"@, content@),
            ];
            JsonView::Object(
                if is_error {
                    members.push(("is_error"@, JsonView::Bool(true)))
                } else {
                    members
                },
            )
        },
    }
}

/// Content blocks in the API's format.
pub open spec fn blocks_json(blocks: Seq<ContentBlock>) -> JsonView {
    JsonView::Array(blocks.map_values(|b: ContentBlock| block_json(b)))
}

/// The API's name for a way to show reasoning.
pub open spec fn display_name(d: ThinkingDisplay) -> Seq<char> {
    match d {
        ThinkingDisplay::Summarized => "summarized"@,
        ThinkingDisplay::Omitted => "omitted"@,
    }
}

/// The API's name for a level of effort.
pub open spec fn effort_name(e: Effort) -> Seq<char> {
    match e {
        Effort::Low => "low"@,
        Effort::Medium => "medium"@,
        Effort::High => "high"@,
        Effort::XHigh => "xhigh"@,
        Effort::Max => "max"@,
    }
}

/// A reasoning configuration in the API's format. The effort is no part of it.
pub open spec fn thinking_json(t: ThinkingConfig) -> JsonView {
    match t {
        ThinkingConfig::Adaptive { display, .. } => JsonView::Object(
            seq![
                text_member("type"@, "adaptive"@),
                text_member("display"@, display_name(display)),
            ],
        ),
        ThinkingConfig::Disabled => JsonView::Object(seq![text_member("type"@, "disabled"@)]),
        ThinkingConfig::Enabled { budget_tokens } => JsonView::Object(
            seq![
                text_member("type"@, "enabled"@),
                ("budget_tokens"@, JsonView::Number(Number::PosInt(budget_tokens as u64))),
            ],
        ),
    }
}

/// The output configuration, which carries the effort of adaptive reasoning.
pub open spec fn output_config_json(t: Option<ThinkingConfig>) -> Option<JsonView> {
    match t {
        Some(ThinkingConfig::Adaptive { effort: Some(e), .. }) => Some(
            JsonView::Object(seq![text_member("effort"@, effort_name(e))]),
        ),
        _ => None,
    }
}

/// True when the model reasons before it answers.
pub open spec fn thinking_active(t: Option<ThinkingConfig>) -> bool {
    match t {
        Some(ThinkingConfig::Adaptive { .. }) => true,
        Some(ThinkingConfig::Enabled { .. }) => true,
        _ => false,
    }
}

/// A message of the conversation, as it is sent.
#[derive(Debug)]
pub struct ApiMessage {
    pub role: String,
    pub content: Json,
}

/// What a message that is sent says.
pub struct ApiMessageView {
    pub role: Seq<char>,
    pub content: JsonView,
}

impl View for ApiMessage {
    type V = ApiMessageView;

    open spec fn view(&self) -> ApiMessageView {
        ApiMessageView { role: self.role@, content: self.content@ }
    }
}

/// What each message of a list says.
pub open spec fn api_message_views(messages: Seq<ApiMessage>) -> Seq<ApiMessageView> {
    messages.map_values(|m: ApiMessage| m@)
}

/// The API's name for a speaker.
pub open spec fn role_name(role: Role) -> Seq<char> {
    match role {
        Role::System => "system"@,
        Role::User => "user"@,
        Role::Assistant => "assistant"@,
    }
}

/// A message as it is sent.
pub open spec fn api_message(m: Message) -> ApiMessageView {
    ApiMessageView { role: role_name(m.role), content: blocks_json(m.content@) }
}

/// The messages that are sent: all but the system messages, in order.
pub open spec fn api_messages(messages: Seq<Message>) -> Seq<ApiMessageView>
    decreases messages.len(),
{
    if messages.len() == 0 {
        Seq::empty()
    } else {
        let before = api_messages(messages.drop_last());
        if messages.last().role == Role::System {
            before
        } else {
            before.push(api_message(messages.last()))
        }
    }
}

/// The texts of the system messages, in order.
pub open spec fn system_texts(messages: Seq<Message>) -> Seq<Seq<char>>
    decreases messages.len(),
{
    if messages.len() == 0 {
        Seq::empty()
    } else {
        let before = system_texts(messages.drop_last());
        if messages.last().role == Role::System {
            before.push(crate::types::blocks_text(messages.last().content@))
        } else {
            before
        }
    }
}

/// All that goes into the system text: the request's own, then the system
/// messages.
pub open spec fn system_parts(req: Request) -> Seq<Seq<char>> {
    match req.system {
        Some(s) => seq![s@] + system_texts(req.messages@),
        None => system_texts(req.messages@),
    }
}

/// The system text: its parts, a line each, or nothing if there are none.
pub open spec fn system_text(req: Request) -> Option<Seq<char>> {
    if system_parts(req).len() == 0 {
        None
    } else {
        Some(crate::text::joined(system_parts(req), "\n"@))
    }
}

/// A request to the Messages API.
#[derive(Debug)]
pub struct MessagesRequest {
    pub model: String,
    pub messages: Vec<ApiMessage>,
    pub max_tokens: u32,
    pub system: Option<String>,
    pub temperature: Option<Temperature>,
    pub stop_sequences: Vec<String>,
    pub tools: Vec<ToolDefinition>,
    pub thinking: Option<Json>,
    pub output_config: Option<Json>,
    pub stream: bool,
}

/// What a request to the Messages API says.
pub struct MessagesRequestView {
    pub model: Seq<char>,
    pub messages: Seq<ApiMessageView>,
    pub max_tokens: u32,
    pub system: Option<Seq<char>>,
    pub temperature: Option<Temperature>,
    pub stop_sequences: Seq<Seq<char>>,
    pub tools: Seq<ToolDefinitionView>,
    pub thinking: Option<JsonView>,
    pub output_config: Option<JsonView>,
    pub stream: bool,
}

/// What a document that may be missing says.
pub open spec fn optional_json(j: Option<Json>) -> Option<JsonView> {
    match j {
        Some(v) => Some(v@),
        None => None,
    }
}

impl View for MessagesRequest {
    type V = MessagesRequestView;

    open spec fn view(&self) -> MessagesRequestView {
        MessagesRequestView {
            model: self.model@,
            messages: api_message_views(self.messages@),
            max_tokens: self.max_tokens,
            system: crate::text::optional_text(self.system),
            temperature: self.temperature,
            stop_sequences: crate::text::text_views(self.stop_sequences@),
            tools: crate::types::tool_views(self.tools@),
            thinking: optional_json(self.thinking),
            output_config: optional_json(self.output_config),
            stream: self.stream,
        }
    }
}

/// The request to the Messages API that a request becomes.
pub open spec fn built_request(req: Request, default_model: Seq<char>, stream: bool) -> MessagesRequestView {
    MessagesRequestView {
        model: if req.model@ == "default"@ {
            default_model
        } else {
            req.model@
        },
        messages: api_messages(req.messages@),
        max_tokens: match req.max_tokens {
            Some(n) => n,
            None => 4096,
        },
        system: system_text(req),
        temperature: if thinking_active(req.thinking) {
            None
        } else {
            req.temperature
        },
        stop_sequences: crate::text::text_views(req.stop@),
        tools: crate::types::tool_views(req.tools@),
        thinking: match req.thinking {
            Some(t) => Some(thinking_json(t)),
            None => None,
        },
        output_config: output_config_json(req.thinking),
        stream,
    }
}

/// A member of an object.
fn member(key: &str, value: Json) -> (r: (String, Json))
    ensures
        r.0@ == key@,
        r.1@ == value@,
{
    (key.to_owned(), value)
}

/// A member of an object whose value is a string.
fn string_member(key: &str, text: &str) -> (r: (String, Json))
    ensures
        (r.0@, r.1@) == text_member(key@, text@),
{
    (key.to_owned(), Json::String(text.to_owned()))
}

/// An object with the given members.
fn object(members: Vec<(String, Json)>) -> (r: Json)
    ensures
        r@ == JsonView::Object(crate::json::member_views(members@)),
{
    proof {
        crate::json::lemma_object_view(members);
    }
    Json::Object(members)
}

/// An array of the given items.
fn array(items: Vec<Json>) -> (r: Json)
    ensures
        r@ == JsonView::Array(crate::json::json_views(items@)),
{
    proof {
        crate::json::lemma_array_view(items);
    }
    Json::Array(items)
}

/// A content block in the API's format.
fn block_to_anthropic(b: &ContentBlock) -> (r: Json)
    ensures
        r@ == block_json(*b),
{
    match b {
        ContentBlock::Text { text } => {
            let members: Vec<(String, Json)> = vec![
                string_member("type", "text"),
                string_member("text", text.as_str()),
            ];
            assert(crate::json::member_views(members@) == block_json(*b)->Object_0);
            object(members)
        },
        ContentBlock::ToolUse { id, name, input } => {
            let members: Vec<(String, Json)> = vec![
                string_member("type", "tool_use"),
                string_member("id", id.as_str()),
                string_member("name", name.as_str()),
                member("input", input.clone()),
            ];
            assert(crate::json::member_views(members@) == block_json(*b)->Object_0);
            object(members)
        },
        ContentBlock::ToolResult { tool_use_id, content, is_error } => {
            let mut members: Vec<(String, Json)> = vec![
                string_member("type", "tool_result"),
                string_member("tool_use_id", tool_use_id.as_str()),
                string_member("content", content.as_str()),
            ];
            if *is_error {
                members.push(member("is_error", Json::Bool(true)));
            }
            assert(crate::json::member_views(members@) == block_json(*b)->Object_0);
            object(members)
        },
    }
}

/// A message's content blocks in the API's format.
pub fn blocks_to_anthropic(content: &[ContentBlock]) -> (r: Json)
    ensures
        r@ == blocks_json(content@),
{
    let mut items: Vec<Json> = Vec::new();
    let mut i: usize = 0;
    while i < content.len()
        invariant
            i <= content@.len(),
            items@.len() == i,
            forall|k: int| 0 <= k < i ==> (#[trigger] items@[k])@ == block_json(content@[k]),
        decreases content@.len() - i,
    {
        items.push(block_to_anthropic(&content[i]));
        i += 1;
    }
    assert(crate::json::json_views(items@) == blocks_json(content@)->Array_0);
    array(items)
}

/// The API's name for a way to show reasoning.
pub fn display_str(d: ThinkingDisplay) -> (r: &'static str)
    ensures
        r@ == display_name(d),
{
    match d {
        ThinkingDisplay::Summarized => "summarized",
        ThinkingDisplay::Omitted => "omitted",
    }
}

/// The API's name for a level of effort.
pub fn effort_str(e: Effort) -> (r: &'static str)
    ensures
        r@ == effort_name(e),
{
    match e {
        Effort::Low => "low",
        Effort::Medium => "medium",
        Effort::High => "high",
        Effort::XHigh => "xhigh",
        Effort::Max => "max",
    }
}

/// A reasoning configuration in the API's format.
fn thinking_to_anthropic(t: ThinkingConfig) -> (r: Json)
    ensures
        r@ == thinking_json(t),
{
    let members: Vec<(String, Json)> = match t {
        ThinkingConfig::Adaptive { display, .. } => vec![
            string_member("type", "adaptive"),
            string_member("display", display_str(display)),
        ],
        ThinkingConfig::Disabled => vec![string_member("type", "disabled")],
        ThinkingConfig::Enabled { budget_tokens } => vec![
            string_member("type", "enabled"),
            member("budget_tokens", Json::Number(Number::PosInt(budget_tokens as u64))),
        ],
    };
    assert(crate::json::member_views(members@) == thinking_json(t)->Object_0);
    object(members)
}

/// The output configuration in the API's format.
fn output_config_to_anthropic(t: Option<ThinkingConfig>) -> (r: Option<Json>)
    ensures
        optional_json(r) == output_config_json(t),
{
    match t {
        Some(ThinkingConfig::Adaptive { effort: Some(e), .. }) => {
            let members: Vec<(String, Json)> = vec![string_member("effort", effort_str(e))];
            assert(crate::json::member_views(members@) == seq![
                text_member("effort"@, effort_name(e)),
            ]);
            Some(object(members))
        },
        _ => None,
    }
}

/// A copy of a list of strings.
fn copy_texts(list: &Vec<String>) -> (r: Vec<String>)
    ensures
        crate::text::text_views(r@) == crate::text::text_views(list@),
{
    let mut r: Vec<String> = Vec::new();
    let mut i: usize = 0;
    while i < list.len()
        invariant
            i <= list@.len(),
            r@.len() == i,
            forall|k: int| 0 <= k < i ==> (#[trigger] r@[k])@ == list@[k]@,
        decreases list@.len() - i,
    {
        r.push(list[i].clone());
        i += 1;
    }
    assert(crate::text::text_views(r@) == crate::text::text_views(list@));
    r
}

/// A copy of a list of tool definitions.
fn copy_tools(list: &Vec<ToolDefinition>) -> (r: Vec<ToolDefinition>)
    ensures
        crate::types::tool_views(r@) == crate::types::tool_views(list@),
{
    let mut r: Vec<ToolDefinition> = Vec::new();
    let mut i: usize = 0;
    while i < list.len()
        invariant
            i <= list@.len(),
            r@.len() == i,
            forall|k: int| 0 <= k < i ==> (#[trigger] r@[k])@ == list@[k]@,
        decreases list@.len() - i,
    {
        r.push(list[i].clone());
        i += 1;
    }
    assert(crate::types::tool_views(r@) == crate::types::tool_views(list@));
    r
}

impl MessagesRequest {
    /// The request to the Messages API that a request becomes.
    ///
    /// The API wants a limit on the tokens, so there is a default. It allows no
    /// system messages among the messages, so their text goes to the top-level
    /// system field. It rejects a temperature while the model reasons, so it is
    /// dropped then.
    pub fn from_request(req: &Request, default_model: &ModelId, stream: bool) -> (r: MessagesRequest)
        ensures
            r@ == built_request(*req, default_model@, stream),
    {
        let model = if str_eq(req.model.as_str(), "default") {
            default_model.as_str().to_owned()
        } else {
            req.model.as_str().to_owned()
        };
        let max_tokens: u32 = match req.max_tokens {
            Some(n) => n,
            None => 4096,
        };

        let mut parts: Vec<String> = Vec::new();
        if let Some(s) = &req.system {
            parts.push(s.clone());
        }
        let ghost own = crate::text::text_views(parts@);
        let mut messages: Vec<ApiMessage> = Vec::new();
        let mut i: usize = 0;
        proof {
            assert(req.messages@.take(0) == Seq::<Message>::empty());
            assert(own + Seq::<Seq<char>>::empty() == own);
            assert(api_message_views(messages@) == Seq::<ApiMessageView>::empty());
        }
        while i < req.messages.len()
            invariant
                i <= req.messages@.len(),
                crate::text::text_views(parts@) == own + system_texts(req.messages@.take(i as int)),
                api_message_views(messages@) == api_messages(req.messages@.take(i as int)),
            decreases req.messages@.len() - i,
        {
            let m = &req.messages[i];
            let ghost parts_before = crate::text::text_views(parts@);
            let ghost messages_before = api_message_views(messages@);
            proof {
                assert(req.messages@.take(i + 1).drop_last() == req.messages@.take(i as int));
                assert(req.messages@.take(i + 1).last() == *m);
            }
            match m.role {
                Role::System => {
                    parts.push(m.text());
                    proof {
                        let text = crate::types::blocks_text(m.content@);
                        assert(crate::text::text_views(parts@) == parts_before.push(text));
                        assert(parts_before.push(text) == own + system_texts(
                            req.messages@.take(i as int),
                        ).push(text));
                    }
                },
                Role::User => {
                    messages.push(
                        ApiMessage {
                            role: "user".to_owned(),
                            content: blocks_to_anthropic(m.content.as_slice()),
                        },
                    );
                    assert(api_message_views(messages@) == messages_before.push(api_message(*m)));
                },
                Role::Assistant => {
                    messages.push(
                        ApiMessage {
                            role: "assistant".to_owned(),
                            content: blocks_to_anthropic(m.content.as_slice()),
                        },
                    );
                    assert(api_message_views(messages@) == messages_before.push(api_message(*m)));
                },
            }
            i += 1;
        }
        proof {
            assert(req.messages@.take(i as int) == req.messages@);
            assert(crate::text::text_views(parts@) == system_parts(*req)) by {
                match req.system {
                    Some(s) => {
                        assert(own == seq![s@]);
                    },
                    None => {
                        assert(own + system_texts(req.messages@) == system_texts(req.messages@));
                    },
                }
            }
        }

        let system = if parts.len() == 0 {
            None
        } else {
            Some(join(&parts, "\n"))
        };
        let thinking = match req.thinking {
            Some(t) => Some(thinking_to_anthropic(t)),
            None => None,
        };
        let temperature = match req.thinking {
            Some(ThinkingConfig::Adaptive { .. }) => None,
            Some(ThinkingConfig::Enabled { .. }) => None,
            _ => req.temperature,
        };
        MessagesRequest {
            model,
            messages,
            max_tokens,
            system,
            temperature,
            stop_sequences: copy_texts(&req.stop),
            tools: copy_tools(&req.tools),
            thinking,
            output_config: output_config_to_anthropic(req.thinking),
            stream,
        }
    }
}

/// A member with the given value, or no member where there is no value.
pub open spec fn optional_member(key: Seq<char>, value: Option<JsonView>) -> Seq<
    (Seq<char>, JsonView),
> {
    match value {
        Some(v) => seq![(key, v)],
        None => Seq::empty(),
    }
}

/// A message as a document.
pub open spec fn api_message_json(m: ApiMessageView) -> JsonView {
    JsonView::Object(seq![text_member("role"@, m.role), ("content"@, m.content)])
}

/// A tool definition as a document.
pub open spec fn tool_json(t: ToolDefinitionView) -> JsonView {
    JsonView::Object(
        seq![
            text_member("name"@, t.name),
            text_member("description"@, t.description),
            ("input_schema"@, t.input_schema),
        ],
    )
}

impl MessagesRequestView {
    pub open spec fn messages_field(self) -> JsonView {
        JsonView::Array(self.messages.map_values(|m: ApiMessageView| api_message_json(m)))
    }

    pub open spec fn max_tokens_field(self) -> JsonView {
        JsonView::Number(Number::PosInt(self.max_tokens as u64))
    }

    pub open spec fn system_field(self) -> Option<JsonView> {
        match self.system {
            Some(s) => Some(JsonView::String(s)),
            None => None,
        }
    }

    pub open spec fn temperature_field(self) -> Option<JsonView> {
        match self.temperature {
            Some(t) => Some(JsonView::Number(Number::Single(t.bits))),
            None => None,
        }
    }

    pub open spec fn stop_sequences_field(self) -> Option<JsonView> {
        if self.stop_sequences.len() == 0 {
            None
        } else {
            Some(
                JsonView::Array(self.stop_sequences.map_values(|s: Seq<char>| JsonView::String(s))),
            )
        }
    }

    pub open spec fn tools_field(self) -> Option<JsonView> {
        if self.tools.len() == 0 {
            None
        } else {
            Some(JsonView::Array(self.tools.map_values(|t: ToolDefinitionView| tool_json(t))))
        }
    }

    /// The members that are always there.
    pub open spec fn leading_members(self) -> Seq<(Seq<char>, JsonView)> {
        seq![
            text_member("model"@, self.model),
            ("messages"@, self.messages_field()),
            ("max_tokens"@, self.max_tokens_field()),
        ]
    }

    /// The request as a document. A field without a value, or an empty list of stop
    /// sequences or tools, is left out.
    pub open spec fn document(self) -> JsonView {
        JsonView::Object(
            self.leading_members() + optional_member("system"@, self.system_field())
                + optional_member("temperature"@, self.temperature_field()) + optional_member(
                "stop_sequences"@,
                self.stop_sequences_field(),
            ) + optional_member("tools"@, self.tools_field()) + optional_member(
                "thinking"@,
                self.thinking,
            ) + optional_member("output_config"@, self.output_config) + seq![
                ("stream"@, JsonView::Bool(self.stream)),
            ],
        )
    }
}

/// Add a member to a list, if there is a value for it.
fn push_optional(members: &mut Vec<(String, Json)>, key: &str, value: Option<Json>)
    ensures
        crate::json::member_views(final(members)@) == crate::json::member_views(old(members)@)
            + optional_member(key@, optional_json(value)),
{
    let ghost before = crate::json::member_views(members@);
    match value {
        Some(v) => {
            let m = member(key, v);
            members.push(m);
            assert(crate::json::member_views(members@) == before + seq![(m.0@, m.1@)]);
        },
        None => {
            assert(before + Seq::<(Seq<char>, JsonView)>::empty() == before);
        },
    }
}

/// The messages as a document.
fn messages_document(messages: &Vec<ApiMessage>) -> (r: Json)
    ensures
        r@ == JsonView::Array(
            api_message_views(messages@).map_values(|m: ApiMessageView| api_message_json(m)),
        ),
{
    let mut items: Vec<Json> = Vec::new();
    let mut i: usize = 0;
    while i < messages.len()
        invariant
            i <= messages@.len(),
            items@.len() == i,
            forall|k: int| 0 <= k < i ==> (#[trigger] items@[k])@ == api_message_json(messages@[k]@),
        decreases messages@.len() - i,
    {
        let members: Vec<(String, Json)> = vec![
            string_member("role", messages[i].role.as_str()),
            member("content", messages[i].content.clone()),
        ];
        assert(crate::json::member_views(members@) == api_message_json(
            messages@[i as int]@,
        )->Object_0);
        items.push(object(members));
        i += 1;
    }
    assert(crate::json::json_views(items@) == api_message_views(messages@).map_values(
        |m: ApiMessageView| api_message_json(m),
    ));
    array(items)
}

/// The stop sequences as a document, if there are any.
fn stop_document(list: &Vec<String>) -> (r: Option<Json>)
    ensures
        optional_json(r) == if list@.len() == 0 {
            None
        } else {
            Some(
                JsonView::Array(
                    crate::text::text_views(list@).map_values(|s: Seq<char>| JsonView::String(s)),
                ),
            )
        },
{
    if list.len() == 0 {
        return None;
    }
    let mut items: Vec<Json> = Vec::new();
    let mut i: usize = 0;
    while i < list.len()
        invariant
            i <= list@.len(),
            items@.len() == i,
            forall|k: int| 0 <= k < i ==> (#[trigger] items@[k])@ == JsonView::String(list@[k]@),
        decreases list@.len() - i,
    {
        items.push(Json::String(list[i].clone()));
        i += 1;
    }
    assert(crate::json::json_views(items@) == crate::text::text_views(list@).map_values(
        |s: Seq<char>| JsonView::String(s),
    ));
    Some(array(items))
}

/// The tools as a document, if there are any.
fn tools_document(tools: &Vec<ToolDefinition>) -> (r: Option<Json>)
    ensures
        optional_json(r) == if tools@.len() == 0 {
            None
        } else {
            Some(
                JsonView::Array(
                    crate::types::tool_views(tools@).map_values(
                        |t: ToolDefinitionView| tool_json(t),
                    ),
                ),
            )
        },
{
    if tools.len() == 0 {
        return None;
    }
    let mut items: Vec<Json> = Vec::new();
    let mut i: usize = 0;
    while i < tools.len()
        invariant
            i <= tools@.len(),
            items@.len() == i,
            forall|k: int| 0 <= k < i ==> (#[trigger] items@[k])@ == tool_json(tools@[k]@),
        decreases tools@.len() - i,
    {
        let members: Vec<(String, Json)> = vec![
            string_member("name", tools[i].name.as_str()),
            string_member("description", tools[i].description.as_str()),
            member("input_schema", tools[i].input_schema.clone()),
        ];
        assert(crate::json::member_views(members@) == tool_json(tools@[i as int]@)->Object_0);
        items.push(object(members));
        i += 1;
    }
    assert(crate::json::json_views(items@) == crate::types::tool_views(tools@).map_values(
        |t: ToolDefinitionView| tool_json(t),
    ));
    Some(array(items))
}

/// A copy of a document that may be missing.
fn copy_optional(j: &Option<Json>) -> (r: Option<Json>)
    ensures
        optional_json(r) == optional_json(*j),
{
    match j {
        Some(v) => Some(v.clone()),
        None => None,
    }
}

impl MessagesRequest {
    /// The request as a document.
    pub fn to_json(&self) -> (r: Json)
        ensures
            r@ == self@.document(),
    {
        let system = match &self.system {
            Some(s) => Some(Json::String(s.clone())),
            None => None,
        };
        let temperature = match self.temperature {
            Some(t) => Some(Json::Number(Number::Single(t.bits))),
            None => None,
        };
        let mut members: Vec<(String, Json)> = vec![
            string_member("model", self.model.as_str()),
            member("messages", messages_document(&self.messages)),
            member("max_tokens", Json::Number(Number::PosInt(self.max_tokens as u64))),
        ];
        assert(crate::json::member_views(members@) == self@.leading_members());
        push_optional(&mut members, "system", system);
        push_optional(&mut members, "temperature", temperature);
        push_optional(&mut members, "stop_sequences", stop_document(&self.stop_sequences));
        push_optional(&mut members, "tools", tools_document(&self.tools));
        push_optional(&mut members, "thinking", copy_optional(&self.thinking));
        push_optional(&mut members, "output_config", copy_optional(&self.output_config));
        push_optional(&mut members, "stream", Some(Json::Bool(self.stream)));
        object(members)
    }
}

/// Of two lists of members one behind the other, the later one counts where it has
/// the key.
proof fn lemma_lookup_concat(
    a: Seq<(Seq<char>, JsonView)>,
    b: Seq<(Seq<char>, JsonView)>,
    key: Seq<char>,
)
    ensures
        crate::json::lookup(a + b, key) == match crate::json::lookup(b, key) {
            Some(v) => Some(v),
            None => crate::json::lookup(a, key),
        },
    decreases b.len(),
{
    if b.len() == 0 {
        assert(a + b == a);
    } else {
        assert((a + b).drop_last() == a + b.drop_last());
        lemma_lookup_concat(a, b.drop_last(), key);
    }
}

/// What is found under a key in a list with one more member that may be missing.
pub(crate) proof fn lemma_lookup_optional(
    a: Seq<(Seq<char>, JsonView)>,
    name: Seq<char>,
    value: Option<JsonView>,
    key: Seq<char>,
)
    ensures
        crate::json::lookup(a + optional_member(name, value), key) == if name == key
            && value is Some {
            value
        } else {
            crate::json::lookup(a, key)
        },
{
    reveal_with_fuel(crate::json::lookup, 2);
    lemma_lookup_concat(a, optional_member(name, value), key);
}

/// The names of the request's fields.
pub(crate) proof fn lemma_field_names()
    ensures
        "model"@.len() == 5 && "model"@[0] == 'm',
        "messages"@.len() == 8 && "messages"@[0] == 'm',
        "max_tokens"@.len() == 10,
        "system"@.len() == 6 && "system"@[1] == 'y',
        "temperature"@.len() == 11,
        "stop_sequences"@.len() == 14,
        "tools"@.len() == 5 && "tools"@[0] == 't',
        "thinking"@.len() == 8 && "thinking"@[0] == 't',
        "output_config"@.len() == 13,
        "stream"@.len() == 6 && "stream"@[1] == 't',
{
    reveal_strlit("model");
    reveal_strlit("messages");
    reveal_strlit("max_tokens");
    reveal_strlit("system");
    reveal_strlit("temperature");
    reveal_strlit("stop_sequences");
    reveal_strlit("tools");
    reveal_strlit("thinking");
    reveal_strlit("output_config");
    reveal_strlit("stream");
}

/// What is found under a key in the request's document, field by field.
pub(crate) proof fn lemma_document_member(r: MessagesRequestView, key: Seq<char>)
    ensures
        r.document().member(key) == if key == "stream"@ {
            Some(JsonView::Bool(r.stream))
        } else if key == "output_config"@ && r.output_config is Some {
            r.output_config
        } else if key == "thinking"@ && r.thinking is Some {
            r.thinking
        } else if key == "tools"@ && r.tools_field() is Some {
            r.tools_field()
        } else if key == "stop_sequences"@ && r.stop_sequences_field() is Some {
            r.stop_sequences_field()
        } else if key == "temperature"@ && r.temperature_field() is Some {
            r.temperature_field()
        } else if key == "system"@ && r.system_field() is Some {
            r.system_field()
        } else {
            crate::json::lookup(r.leading_members(), key)
        },
{
    let m0 = r.leading_members();
    let m1 = m0 + optional_member("system"@, r.system_field());
    let m2 = m1 + optional_member("temperature"@, r.temperature_field());
    let m3 = m2 + optional_member("stop_sequences"@, r.stop_sequences_field());
    let m4 = m3 + optional_member("tools"@, r.tools_field());
    let m5 = m4 + optional_member("thinking"@, r.thinking);
    let m6 = m5 + optional_member("output_config"@, r.output_config);
    lemma_lookup_optional(m0, "system"@, r.system_field(), key);
    lemma_lookup_optional(m1, "temperature"@, r.temperature_field(), key);
    lemma_lookup_optional(m2, "stop_sequences"@, r.stop_sequences_field(), key);
    lemma_lookup_optional(m3, "tools"@, r.tools_field(), key);
    lemma_lookup_optional(m4, "thinking"@, r.thinking, key);
    lemma_lookup_optional(m5, "output_config"@, r.output_config, key);
    lemma_lookup_optional(m6, "stream"@, Some(JsonView::Bool(r.stream)), key);
    assert(optional_member("stream"@, Some(JsonView::Bool(r.stream))) == seq![
        ("stream"@, JsonView::Bool(r.stream)),
    ]);
}

/// What is found under a key among the members that are always there.
pub(crate) proof fn lemma_leading_members(r: MessagesRequestView, key: Seq<char>)
    ensures
        crate::json::lookup(r.leading_members(), key) == if key == "max_tokens"@ {
            Some(r.max_tokens_field())
        } else if key == "messages"@ {
            Some(r.messages_field())
        } else if key == "model"@ {
            Some(JsonView::String(r.model))
        } else {
            None
        },
{
    reveal_with_fuel(crate::json::lookup, 4);
    let m = r.leading_members();
    assert(m.drop_last() == seq![m[0], m[1]]);
    assert(m.drop_last().drop_last() == seq![m[0]]);
    assert(m.drop_last().drop_last().drop_last() == Seq::<(Seq<char>, JsonView)>::empty());
}

/// Each field of a request is found in its document under its name, and a field
/// without a value, or an empty list of stop sequences or tools, is not there at
/// all.
pub proof fn law_document_fields(r: MessagesRequestView)
    ensures
        r.document().member("model"@) == Some(JsonView::String(r.model)),
        r.document().member("messages"@) == Some(r.messages_field()),
        r.document().member("max_tokens"@) == Some(r.max_tokens_field()),
        r.document().member("system"@) == r.system_field(),
        r.document().member("temperature"@) == r.temperature_field(),
        r.document().member("stop_sequences"@) == r.stop_sequences_field(),
        r.document().member("tools"@) == r.tools_field(),
        r.document().member("thinking"@) == r.thinking,
        r.document().member("output_config"@) == r.output_config,
        r.document().member("stream"@) == Some(JsonView::Bool(r.stream)),
{
    lemma_field_names();
    lemma_document_member(r, "model"@);
    lemma_document_member(r, "messages"@);
    lemma_document_member(r, "max_tokens"@);
    lemma_document_member(r, "system"@);
    lemma_document_member(r, "temperature"@);
    lemma_document_member(r, "stop_sequences"@);
    lemma_document_member(r, "tools"@);
    lemma_document_member(r, "thinking"@);
    lemma_document_member(r, "output_config"@);
    lemma_document_member(r, "stream"@);
    lemma_leading_members(r, "model"@);
    lemma_leading_members(r, "messages"@);
    lemma_leading_members(r, "max_tokens"@);
    lemma_leading_members(r, "system"@);
    lemma_leading_members(r, "temperature"@);
    lemma_leading_members(r, "stop_sequences"@);
    lemma_leading_members(r, "tools"@);
    lemma_leading_members(r, "thinking"@);
    lemma_leading_members(r, "output_config"@);
}

/// No message that is sent has the role of the system: each is the user's or the
/// assistant's.
pub proof fn law_no_system_role(messages: Seq<Message>, i: int)
    requires
        0 <= i < api_messages(messages).len(),
    ensures
        api_messages(messages)[i].role == "user"@ || api_messages(messages)[i].role
            == "assistant"@,
        api_messages(messages)[i].role != "system"@,
    decreases messages.len(),
{
    reveal_strlit("user");
    reveal_strlit("assistant");
    reveal_strlit("system");
    assert("user"@.len() == 4 && "assistant"@.len() == 9 && "system"@.len() == 6);
    let before = api_messages(messages.drop_last());
    if i < before.len() {
        law_no_system_role(messages.drop_last(), i);
    }
}

/// No message is lost: each is sent or is part of the system text.
pub proof fn law_every_message_counts(messages: Seq<Message>)
    ensures
        api_messages(messages).len() + system_texts(messages).len() == messages.len(),
    decreases messages.len(),
{
    if messages.len() > 0 {
        law_every_message_counts(messages.drop_last());
    }
}

/// While the model reasons the document has no temperature; otherwise it has the
/// request's.
pub proof fn law_temperature_and_thinking(req: Request, default_model: Seq<char>, stream: bool)
    ensures
        ({
            let sent = built_request(req, default_model, stream).document().member("temperature"@);
            &&& thinking_active(req.thinking) ==> sent is None
            &&& !thinking_active(req.thinking) ==> match req.temperature {
                Some(t) => sent == Some(JsonView::Number(Number::Single(t.bits))),
                None => sent is None,
            }
        }),
{
    law_document_fields(built_request(req, default_model, stream));
}

/// The effort of adaptive reasoning is sent in the output configuration, which is
/// there for nothing else, and never among the settings of the reasoning.
pub proof fn law_effort_placement(req: Request, default_model: Seq<char>, stream: bool)
    ensures
        ({
            let doc = built_request(req, default_model, stream).document();
            &&& match req.thinking {
                Some(ThinkingConfig::Adaptive { effort: Some(e), .. }) => doc.at(
                    "output_config"@,
                ).member("effort"@) == Some(JsonView::String(effort_name(e))),
                _ => doc.member("output_config"@) is None,
            }
            &&& doc.at("thinking"@).member("effort"@) is None
        }),
{
    law_document_fields(built_request(req, default_model, stream));
    reveal_with_fuel(crate::json::lookup, 4);
    reveal_strlit("type");
    reveal_strlit("display");
    reveal_strlit("effort");
    reveal_strlit("budget_tokens");
    assert("type"@.len() == 4 && "display"@.len() == 7);
    assert("effort"@.len() == 6 && "budget_tokens"@.len() == 13);
    if let Some(t) = req.thinking {
        let members = thinking_json(t)->Object_0;
        if members.len() == 2 {
            assert(members.drop_last() == seq![members[0]]);
        }
        assert(crate::json::lookup(members, "effort"@) is None);
    }
}

/// A content block is marked as an error exactly if it is the result of a tool that
/// failed.
pub proof fn law_error_mark(b: ContentBlock)
    ensures
        block_json(b).member("is_error"@) == match b {
            ContentBlock::ToolResult { is_error: true, .. } => Some(JsonView::Bool(true)),
            _ => None,
        },
{
    reveal_with_fuel(crate::json::lookup, 6);
    reveal_strlit("type");
    reveal_strlit("text");
    reveal_strlit("id");
    reveal_strlit("name");
    reveal_strlit("input");
    reveal_strlit("tool_use_id");
    reveal_strlit("content");
    reveal_strlit("is_error");
    assert("is_error"@.len() == 8);
    assert("type"@.len() == 4 && "text"@.len() == 4 && "id"@.len() == 2 && "name"@.len() == 4);
    assert("input"@.len() == 5 && "tool_use_id"@.len() == 11 && "content"@.len() == 7);
    let members = block_json(b)->Object_0;
    let m1 = members.drop_last();
    let m2 = m1.drop_last();
    match b {
        ContentBlock::Text { text } => {
            assert(m1 == seq![members[0]]);
        },
        ContentBlock::ToolUse { id, name, input } => {
            assert(m1 == seq![members[0], members[1], members[2]]);
            assert(m2 == seq![members[0], members[1]]);
            assert(m2.drop_last() == seq![members[0]]);
        },
        ContentBlock::ToolResult { tool_use_id, content, is_error } => {
            if !is_error {
                assert(m1 == seq![members[0], members[1]]);
                assert(m2 == seq![members[0]]);
            }
        },
    }
}

/// Different ways to show reasoning have different names, and so have different
/// levels of effort.
pub proof fn law_names_are_distinct(d1: ThinkingDisplay, d2: ThinkingDisplay, e1: Effort, e2: Effort)
    ensures
        display_name(d1) == display_name(d2) ==> d1 == d2,
        effort_name(e1) == effort_name(e2) ==> e1 == e2,
{
    reveal_strlit("summarized");
    reveal_strlit("omitted");
    reveal_strlit("low");
    reveal_strlit("medium");
    reveal_strlit("high");
    reveal_strlit("xhigh");
    reveal_strlit("max");
    assert("summarized"@.len() == 10 && "omitted"@.len() == 7);
    assert("low"@.len() == 3 && "medium"@.len() == 6 && "high"@.len() == 4);
    assert("xhigh"@.len() == 5 && "max"@.len() == 3);
    assert("low"@[0] == 'l' && "max"@[0] == 'm');
}

} // verus!
