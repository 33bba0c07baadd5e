//! Requests, responses and stream chunks.

use vstd::prelude::*;
use vstd::string::*;

use crate::json::{Json, JsonView};

verus! {

/// The name of a model.
#[derive(Debug)]
pub struct ModelId {
    pub name: String,
}

impl View for ModelId {
    type V = Seq<char>;

    open spec fn view(&self) -> Seq<char> {
        self.name@
    }
}

impl ModelId {
    /// The model of the given name.
    pub fn new(name: &str) -> (r: ModelId)
        ensures
            r@ == name@,
    {
        ModelId { name: name.to_owned() }
    }

    /// The name of the model.
    pub fn as_str(&self) -> (r: &str)
        ensures
            r@ == self@,
    {
        self.name.as_str()
    }
}

/// Who speaks in a message.
#[derive(Clone, Copy, Debug, PartialEq, Eq, Structural)]
pub enum Role {
    System,
    User,
    Assistant,
}

/// A part of a message.
#[derive(Debug)]
pub enum ContentBlock {
    /// Plain text.
    Text { text: String },
    /// A call of a tool that the model asks for.
    ToolUse { id: String, name: String, input: Json },
    /// What such a call returned.
    ToolResult { tool_use_id: String, content: String, is_error: bool },
}

/// A message of a conversation.
#[derive(Debug)]
pub struct Message {
    pub role: Role,
    pub content: Vec<ContentBlock>,
}

/// The text of a block, which is empty but for a text block.
pub open spec fn block_text(b: ContentBlock) -> Seq<char> {
    match b {
        ContentBlock::Text { text } => text@,
        _ => Seq::empty(),
    }
}

/// The texts of the blocks, one after the other.
pub open spec fn blocks_text(blocks: Seq<ContentBlock>) -> Seq<char>
    decreases blocks.len(),
{
    if blocks.len() == 0 {
        Seq::empty()
    } else {
        blocks_text(blocks.drop_last()) + block_text(blocks.last())
    }
}

/// True when the message consists of one text block with the given text.
pub open spec fn is_text_message(m: Message, role: Role, text: Seq<char>) -> bool {
    &&& m.role == role
    &&& m.content@.len() == 1
    &&& m.content@[0] matches ContentBlock::Text { text: t } && t@ == text
}

fn text_message(role: Role, text: &str) -> (r: Message)
    ensures
        is_text_message(r, role, text@),
{
    let content: Vec<ContentBlock> = vec![ContentBlock::Text { text: text.to_owned() }];
    Message { role, content }
}

impl Message {
    /// A system message.
    pub fn system(text: &str) -> (r: Message)
        ensures
            is_text_message(r, Role::System, text@),
    {
        text_message(Role::System, text)
    }

    /// A message of the user.
    pub fn user(text: &str) -> (r: Message)
        ensures
            is_text_message(r, Role::User, text@),
    {
        text_message(Role::User, text)
    }

    /// A message of the assistant.
    pub fn assistant(text: &str) -> (r: Message)
        ensures
            is_text_message(r, Role::Assistant, text@),
    {
        text_message(Role::Assistant, text)
    }

    /// A message of the user that reports what a tool returned.
    pub fn tool_result(tool_use_id: &str, content: &str, is_error: bool) -> (r: Message)
        ensures
            r.role == Role::User,
            r.content@.len() == 1,
            r.content@[0] matches ContentBlock::ToolResult { tool_use_id: i, content: c, is_error: e }
                && i@ == tool_use_id@ && c@ == content@ && e == is_error,
    {
        let block = ContentBlock::ToolResult {
            tool_use_id: tool_use_id.to_owned(),
            content: content.to_owned(),
            is_error,
        };
        let blocks: Vec<ContentBlock> = vec![block];
        Message { role: Role::User, content: blocks }
    }

    /// The texts of the message's text blocks, one after the other.
    pub fn text(&self) -> (r: String)
        ensures
            r@ == blocks_text(self.content@),
    {
        let mut r = String::new();
        let mut i: usize = 0;
        while i < self.content.len()
            invariant
                i <= self.content@.len(),
                r@ == blocks_text(self.content@.take(i as int)),
            decreases self.content@.len() - i,
        {
            assert(self.content@.take(i + 1).drop_last() == self.content@.take(i as int));
            match &self.content[i] {
                ContentBlock::Text { text } => r.append(text.as_str()),
                _ => {
                    assert(r@ + Seq::<char>::empty() == r@);
                },
            }
            i += 1;
        }
        assert(self.content@.take(i as int) == self.content@);
        r
    }
}

/// How the model's reasoning is shown.
#[derive(Clone, Copy, Debug, PartialEq, Eq, Structural)]
pub enum ThinkingDisplay {
    Summarized,
    Omitted,
}

/// How much effort the model is to spend.
#[derive(Clone, Copy, Debug, PartialEq, Eq, Structural)]
pub enum Effort {
    Low,
    Medium,
    High,
    XHigh,
    Max,
}

/// Whether and how the model reasons before it answers.
#[derive(Clone, Copy, Debug, PartialEq, Eq, Structural)]
pub enum ThinkingConfig {
    /// The model decides how much to reason.
    Adaptive { display: ThinkingDisplay, effort: Option<Effort> },
    /// No reasoning.
    Disabled,
    /// Reasoning within a fixed budget.
    Enabled { budget_tokens: u32 },
}

/// A sampling temperature, held by the bits of its value in single precision.
#[derive(Clone, Copy, Debug, PartialEq, Eq, Structural)]
pub struct Temperature {
    pub bits: u32,
}

/// A tool that the model may ask to call.
#[derive(Debug)]
pub struct ToolDefinition {
    pub name: String,
    pub description: String,
    pub input_schema: Json,
}

/// What a tool definition says.
pub struct ToolDefinitionView {
    pub name: Seq<char>,
    pub description: Seq<char>,
    pub input_schema: JsonView,
}

impl View for ToolDefinition {
    type V = ToolDefinitionView;

    open spec fn view(&self) -> ToolDefinitionView {
        ToolDefinitionView {
            name: self.name@,
            description: self.description@,
            input_schema: self.input_schema@,
        }
    }
}

/// What each definition of a list says.
pub open spec fn tool_views(tools: Seq<ToolDefinition>) -> Seq<ToolDefinitionView> {
    tools.map_values(|t: ToolDefinition| t@)
}

impl ToolDefinition {
    /// A tool of the given name, with a description and the schema of its input.
    pub fn new(name: &str, description: &str, input_schema: Json) -> (r: ToolDefinition)
        ensures
            r@ == (ToolDefinitionView {
                name: name@,
                description: description@,
                input_schema: input_schema@,
            }),
    {
        ToolDefinition { name: name.to_owned(), description: description.to_owned(), input_schema }
    }
}

impl Clone for ToolDefinition {
    fn clone(&self) -> (r: ToolDefinition)
        ensures
            r@ == self@,
    {
        ToolDefinition {
            name: self.name.clone(),
            description: self.description.clone(),
            input_schema: self.input_schema.clone(),
        }
    }
}

/// A request to a model.
#[derive(Debug)]
pub struct Request {
    /// The model, or `default` for the one that the provider was made with.
    pub model: ModelId,
    pub system: Option<String>,
    pub messages: Vec<Message>,
    pub max_tokens: Option<u32>,
    pub temperature: Option<Temperature>,
    pub stop: Vec<String>,
    pub tools: Vec<ToolDefinition>,
    pub thinking: Option<ThinkingConfig>,
}

impl Default for Request {
    fn default() -> (r: Request)
        ensures
            r.model@ == "default"@,
            r.system is None,
            r.messages@.len() == 0,
            r.max_tokens is None,
            r.temperature is None,
            r.stop@.len() == 0,
            r.tools@.len() == 0,
            r.thinking is None,
    {
        Request {
            model: ModelId::new("default"),
            system: None,
            messages: Vec::new(),
            max_tokens: None,
            temperature: None,
            stop: Vec::new(),
            tools: Vec::new(),
            thinking: None,
        }
    }
}

/// How many tokens went in and came out.
#[derive(Clone, Copy, Debug, PartialEq, Eq, Structural)]
pub struct Usage {
    pub input_tokens: u32,
    pub output_tokens: u32,
}

/// Why the model stopped.
#[derive(Debug, PartialEq, Eq)]
pub enum FinishReason {
    Stop,
    MaxTokens,
    ToolUse,
    Other(String),
}

/// What a finish reason says.
pub enum FinishReasonView {
    Stop,
    MaxTokens,
    ToolUse,
    Other(Seq<char>),
}

impl View for FinishReason {
    type V = FinishReasonView;

    open spec fn view(&self) -> FinishReasonView {
        match self {
            FinishReason::Stop => FinishReasonView::Stop,
            FinishReason::MaxTokens => FinishReasonView::MaxTokens,
            FinishReason::ToolUse => FinishReasonView::ToolUse,
            FinishReason::Other(s) => FinishReasonView::Other(s@),
        }
    }
}

/// A call of a tool that the model asks for.
#[derive(Debug)]
pub struct ToolUse {
    pub id: String,
    pub name: String,
    pub input: Json,
}

/// What such a call says.
pub struct ToolUseView {
    pub id: Seq<char>,
    pub name: Seq<char>,
    pub input: JsonView,
}

impl View for ToolUse {
    type V = ToolUseView;

    open spec fn view(&self) -> ToolUseView {
        ToolUseView { id: self.id@, name: self.name@, input: self.input@ }
    }
}

/// What each call of a list says.
pub open spec fn tool_use_views(calls: Seq<ToolUse>) -> Seq<ToolUseView> {
    calls.map_values(|c: ToolUse| c@)
}

/// The answer to a request.
#[derive(Debug)]
pub struct Response {
    pub content: String,
    pub tool_calls: Vec<ToolUse>,
    pub usage: Usage,
    pub model: ModelId,
    pub finish_reason: FinishReason,
    pub latency: core::time::Duration,
    /// The document as it arrived.
    pub raw: Json,
}

/// A piece of a streamed answer.
#[derive(Debug)]
pub enum StreamChunk {
    /// Text of the answer.
    Delta(String),
    /// Reasoning, which is no part of the answer.
    Thinking(String),
    /// The end of the answer.
    Done { usage: Option<Usage> },
    /// A failure.
    Error(String),
}

/// What a piece of a streamed answer says.
pub enum StreamChunkView {
    Delta(Seq<char>),
    Thinking(Seq<char>),
    Done { usage: Option<Usage> },
    Error(Seq<char>),
}

impl View for StreamChunk {
    type V = StreamChunkView;

    open spec fn view(&self) -> StreamChunkView {
        match self {
            StreamChunk::Delta(s) => StreamChunkView::Delta(s@),
            StreamChunk::Thinking(s) => StreamChunkView::Thinking(s@),
            StreamChunk::Done { usage } => StreamChunkView::Done { usage: *usage },
            StreamChunk::Error(s) => StreamChunkView::Error(s@),
        }
    }
}

/// Why a request failed.
#[derive(Debug)]
pub enum ProviderError {
    /// The API refused the request.
    Api { status: u16, message: String },
}

} // verus!
