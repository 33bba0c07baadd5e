//! What the body of a request says of the request.

use vstd::prelude::*;

use crate::json::{JsonView, Number};
use crate::request::{ApiMessage, MessagesRequest, MessagesRequestView};
use crate::types::{
    ContentBlock, Effort, Message, Request, Role, ThinkingConfig, ThinkingDisplay, ToolDefinition,
};

verus! {

/// True when a string with the given text stands under a key.
pub open spec fn has_text(doc: JsonView, key: Seq<char>, text: Seq<char>) -> bool {
    doc.member(key) == Some(JsonView::String(text))
}

/// True of an object with so many members.
pub open spec fn has_members(doc: JsonView, n: nat) -> bool {
    doc matches JsonView::Object(members) && members.len() == n
}

/// True when a document says what a content block does, and nothing else.
pub open spec fn says_block(doc: JsonView, b: ContentBlock) -> bool {
    match b {
        ContentBlock::Text { text } => {
            &&& has_text(doc, "type"@, "text"@)
            &&& has_text(doc, "text"@, text@)
            &&& has_members(doc, 2)
        },
        ContentBlock::ToolUse { id, name, input } => {
            &&& has_text(doc, "type"@, "tool_use"@)
            &&& has_text(doc, "id"@, id@)
            &&& has_text(doc, "name"@, name@)
            &&& doc.member("input"@) == Some(input@)
            &&& has_members(doc, 4)
        },
        ContentBlock::ToolResult { tool_use_id, content, is_error } => {
            &&& has_text(doc, "type"@, "tool_result"@)
            &&& has_text(doc, "tool_use_id"@, tool_use_id@)
            &&& has_text(doc, "content"@, content@)
            &&& is_error ==> doc.member("is_error"@) == Some(JsonView::Bool(true)) && has_members(
                doc,
                4,
            )
            &&& !is_error ==> doc.member("is_error"@) is None && has_members(doc, 3)
        },
    }
}

/// True when a document is a list that says what each of a list of content blocks
/// does, in order.
pub open spec fn says_blocks(doc: JsonView, blocks: Seq<ContentBlock>) -> bool {
    &&& doc matches JsonView::Array(items)
    &&& items.len() == blocks.len()
    &&& forall|i: int| 0 <= i < blocks.len() ==> says_block(#[trigger] items[i], blocks[i])
}

/// True when a document says what a tool definition does, and nothing else.
pub open spec fn says_tool(
    doc: JsonView,
    name: Seq<char>,
    description: Seq<char>,
    input_schema: JsonView,
) -> bool {
    &&& has_text(doc, "name"@, name)
    &&& has_text(doc, "description"@, description)
    &&& doc.member("input_schema"@) == Some(input_schema)
    &&& has_members(doc, 3)
}

/// The messages of a conversation that are no system messages, in order.
pub open spec fn turns(messages: Seq<Message>) -> Seq<Message> {
    messages.filter(|m: Message| m.role != Role::System)
}

/// The system messages of a conversation, in order.
pub open spec fn instructions(messages: Seq<Message>) -> Seq<Message> {
    messages.filter(|m: Message| m.role == Role::System)
}

/// What is found among one, two, three or four members.
proof fn lemma_few_members(members: Seq<(Seq<char>, JsonView)>, key: Seq<char>)
    requires
        1 <= members.len() <= 4,
    ensures
        JsonView::Object(members).member(key) == if members.last().0 == key {
            Some(members.last().1)
        } else if members.len() > 1 && members[members.len() - 2].0 == key {
            Some(members[members.len() - 2].1)
        } else if members.len() > 2 && members[members.len() - 3].0 == key {
            Some(members[members.len() - 3].1)
        } else if members.len() > 3 && members[members.len() - 4].0 == key {
            Some(members[members.len() - 4].1)
        } else {
            None
        },
{
    reveal_with_fuel(crate::json::lookup, 6);
}

/// The keys of blocks, messages, tools and settings differ where they stand in one
/// object.
proof fn lemma_keys()
    ensures
        "type"@.len() == 4 && "type"@[1] == 'y',
        "text"@.len() == 4 && "text"@[1] == 'e',
        "name"@.len() == 4 && "name"@[1] == 'a',
        "role"@.len() == 4 && "role"@[1] == 'o',
        "id"@.len() == 2,
        "input"@.len() == 5,
        "content"@.len() == 7,
        "tool_use_id"@.len() == 11 && "tool_use_id"@[0] == 't',
        "description"@.len() == 11 && "description"@[0] == 'd',
        "is_error"@.len() == 8,
        "input_schema"@.len() == 12,
        "display"@.len() == 7,
        "effort"@.len() == 6,
        "budget_tokens"@.len() == 13,
{
    reveal_strlit("type");
    reveal_strlit("text");
    reveal_strlit("name");
    reveal_strlit("role");
    reveal_strlit("id");
    reveal_strlit("input");
    reveal_strlit("content");
    reveal_strlit("tool_use_id");
    reveal_strlit("description");
    reveal_strlit("is_error");
    reveal_strlit("input_schema");
    reveal_strlit("display");
    reveal_strlit("effort");
    reveal_strlit("budget_tokens");
}

/// A content block is written with its kind under `type` and what it holds under
/// the API's names; only the failure of a tool is marked.
pub proof fn law_block_is_written(b: ContentBlock)
    ensures
        says_block(crate::request::block_json(b), b),
{
    lemma_keys();
    let members = crate::request::block_json(b)->Object_0;
    lemma_few_members(members, "type"@);
    lemma_few_members(members, "text"@);
    lemma_few_members(members, "id"@);
    lemma_few_members(members, "name"@);
    lemma_few_members(members, "input"@);
    lemma_few_members(members, "tool_use_id"@);
    lemma_few_members(members, "content"@);
    lemma_few_members(members, "is_error"@);
}

/// Content blocks are written as a list, each in its place.
pub proof fn law_blocks_are_written(blocks: Seq<ContentBlock>)
    ensures
        says_blocks(crate::request::blocks_json(blocks), blocks),
{
    let items = crate::request::blocks_json(blocks)->Array_0;
    assert forall|i: int| 0 <= i < blocks.len() implies says_block(
        #[trigger] items[i],
        blocks[i],
    ) by {
        law_block_is_written(blocks[i]);
    }
}

/// Each field of a request stands in its document: the model, the limit and the
/// stream flag as they are; each message with its role and content, each tool with
/// its name, description and schema, and each stop sequence, all in order; and what
/// is missing, or an empty list of tools or stop sequences, is not there.
pub proof fn law_document_says_the_request(r: MessagesRequestView)
    ensures
        has_text(r.document(), "model"@, r.model),
        r.document().member("max_tokens"@) == Some(
            JsonView::Number(Number::PosInt(r.max_tokens as u64)),
        ),
        r.document().member("stream"@) == Some(JsonView::Bool(r.stream)),
        r.document().member("thinking"@) == r.thinking,
        r.document().member("output_config"@) == r.output_config,
        match r.system {
            Some(text) => has_text(r.document(), "system"@, text),
            None => r.document().member("system"@) is None,
        },
        match r.temperature {
            Some(t) => r.document().member("temperature"@) == Some(
                JsonView::Number(Number::Single(t.bits)),
            ),
            None => r.document().member("temperature"@) is None,
        },
        ({
            &&& r.document().member("messages"@) matches Some(JsonView::Array(items))
            &&& items.len() == r.messages.len()
            &&& forall|i: int|
                0 <= i < items.len() ==> {
                    &&& has_text(#[trigger] items[i], "role"@, r.messages[i].role)
                    &&& items[i].member("content"@) == Some(r.messages[i].content)
                    &&& has_members(items[i], 2)
                }
        }),
        r.tools.len() == 0 ==> r.document().member("tools"@) is None,
        r.tools.len() > 0 ==> {
            &&& r.document().member("tools"@) matches Some(JsonView::Array(items))
            &&& items.len() == r.tools.len()
            &&& forall|i: int|
                0 <= i < items.len() ==> says_tool(
                    #[trigger] items[i],
                    r.tools[i].name,
                    r.tools[i].description,
                    r.tools[i].input_schema,
                )
        },
        r.stop_sequences.len() == 0 ==> r.document().member("stop_sequences"@) is None,
        r.stop_sequences.len() > 0 ==> {
            &&& r.document().member("stop_sequences"@) matches Some(JsonView::Array(items))
            &&& items.len() == r.stop_sequences.len()
            &&& forall|i: int|
                0 <= i < items.len() ==> #[trigger] items[i] == JsonView::String(
                    r.stop_sequences[i],
                )
        },
{
    crate::request::law_document_fields(r);
    lemma_keys();
    let messages = r.messages_field()->Array_0;
    assert forall|i: int| 0 <= i < messages.len() implies {
        &&& has_text(#[trigger] messages[i], "role"@, r.messages[i].role)
        &&& messages[i].member("content"@) == Some(r.messages[i].content)
        &&& has_members(messages[i], 2)
    } by {
        let members = messages[i]->Object_0;
        lemma_few_members(members, "role"@);
        lemma_few_members(members, "content"@);
    }
    if r.tools.len() > 0 {
        let tools = r.tools_field()->0->Array_0;
        assert forall|i: int| 0 <= i < tools.len() implies says_tool(
            #[trigger] tools[i],
            r.tools[i].name,
            r.tools[i].description,
            r.tools[i].input_schema,
        ) by {
            let members = tools[i]->Object_0;
            lemma_few_members(members, "name"@);
            lemma_few_members(members, "description"@);
            lemma_few_members(members, "input_schema"@);
        }
    }
}

/// True when no two members have the same key.
pub open spec fn distinct_keys(members: Seq<(Seq<char>, JsonView)>) -> bool {
    forall|i: int, j: int|
        0 <= i < j < members.len() ==> (#[trigger] members[i]).0 != (#[trigger] members[j]).0
}

/// True of the names of a request's fields.
pub open spec fn field_name(key: Seq<char>) -> bool {
    ||| key == "model"@
    ||| key == "messages"@
    ||| key == "max_tokens"@
    ||| key == "system"@
    ||| key == "temperature"@
    ||| key == "stop_sequences"@
    ||| key == "tools"@
    ||| key == "thinking"@
    ||| key == "output_config"@
    ||| key == "stream"@
}

/// One more member, with a key that was not there, keeps the keys distinct.
proof fn lemma_one_more_member(
    a: Seq<(Seq<char>, JsonView)>,
    key: Seq<char>,
    value: Option<JsonView>,
)
    requires
        distinct_keys(a),
        crate::json::lookup(a, key) is None,
    ensures
        distinct_keys(a + crate::request::optional_member(key, value)),
{
    crate::laws::documents::law_member_is_the_last(a, key);
    let b = a + crate::request::optional_member(key, value);
    assert forall|i: int, j: int| 0 <= i < j < b.len() implies (#[trigger] b[i]).0 != (
    #[trigger] b[j]).0 by {
        assert(b[i] == a[i]);
        if j < a.len() {
            assert(b[j] == a[j]);
        }
    }
}

/// A document has no fields but those of the API, and none twice.
pub proof fn law_document_has_no_other_fields(r: MessagesRequestView, key: Seq<char>)
    ensures
        r.document() matches JsonView::Object(members) && distinct_keys(members),
        r.document().member(key) is Some ==> field_name(key),
{
    crate::request::lemma_field_names();
    crate::request::lemma_document_member(r, key);
    crate::request::lemma_leading_members(r, key);
    let m0 = r.leading_members();
    let m1 = m0 + crate::request::optional_member("system"@, r.system_field());
    let m2 = m1 + crate::request::optional_member("temperature"@, r.temperature_field());
    let m3 = m2 + crate::request::optional_member("stop_sequences"@, r.stop_sequences_field());
    let m4 = m3 + crate::request::optional_member("tools"@, r.tools_field());
    let m5 = m4 + crate::request::optional_member("thinking"@, r.thinking);
    let m6 = m5 + crate::request::optional_member("output_config"@, r.output_config);
    lemma_free_name(r, "system"@);
    lemma_free_name(r, "temperature"@);
    lemma_free_name(r, "stop_sequences"@);
    lemma_free_name(r, "tools"@);
    lemma_free_name(r, "thinking"@);
    lemma_free_name(r, "output_config"@);
    lemma_free_name(r, "stream"@);
    assert(distinct_keys(m0));
    lemma_one_more_member(m0, "system"@, r.system_field());
    lemma_one_more_member(m1, "temperature"@, r.temperature_field());
    lemma_one_more_member(m2, "stop_sequences"@, r.stop_sequences_field());
    lemma_one_more_member(m3, "tools"@, r.tools_field());
    lemma_one_more_member(m4, "thinking"@, r.thinking);
    lemma_one_more_member(m5, "output_config"@, r.output_config);
    lemma_one_more_member(m6, "stream"@, Some(JsonView::Bool(r.stream)));
    assert(crate::request::optional_member("stream"@, Some(JsonView::Bool(r.stream))) == seq![
        ("stream"@, JsonView::Bool(r.stream)),
    ]);
}

/// What is found under a name among the fields before the one of that name.
proof fn lemma_free_name(r: MessagesRequestView, key: Seq<char>)
    ensures
        ({
            let m0 = r.leading_members();
            let m1 = m0 + crate::request::optional_member("system"@, r.system_field());
            let m2 = m1 + crate::request::optional_member("temperature"@, r.temperature_field());
            let m3 = m2 + crate::request::optional_member(
                "stop_sequences"@,
                r.stop_sequences_field(),
            );
            let m4 = m3 + crate::request::optional_member("tools"@, r.tools_field());
            let m5 = m4 + crate::request::optional_member("thinking"@, r.thinking);
            let m6 = m5 + crate::request::optional_member("output_config"@, r.output_config);
            &&& key == "system"@ ==> crate::json::lookup(m0, key) is None
            &&& key == "temperature"@ ==> crate::json::lookup(m1, key) is None
            &&& key == "stop_sequences"@ ==> crate::json::lookup(m2, key) is None
            &&& key == "tools"@ ==> crate::json::lookup(m3, key) is None
            &&& key == "thinking"@ ==> crate::json::lookup(m4, key) is None
            &&& key == "output_config"@ ==> crate::json::lookup(m5, key) is None
            &&& key == "stream"@ ==> crate::json::lookup(m6, key) is None
        }),
{
    crate::request::lemma_field_names();
    crate::request::lemma_leading_members(r, key);
    let m0 = r.leading_members();
    let m1 = m0 + crate::request::optional_member("system"@, r.system_field());
    let m2 = m1 + crate::request::optional_member("temperature"@, r.temperature_field());
    let m3 = m2 + crate::request::optional_member("stop_sequences"@, r.stop_sequences_field());
    let m4 = m3 + crate::request::optional_member("tools"@, r.tools_field());
    let m5 = m4 + crate::request::optional_member("thinking"@, r.thinking);
    crate::request::lemma_lookup_optional(m0, "system"@, r.system_field(), key);
    crate::request::lemma_lookup_optional(m1, "temperature"@, r.temperature_field(), key);
    crate::request::lemma_lookup_optional(m2, "stop_sequences"@, r.stop_sequences_field(), key);
    crate::request::lemma_lookup_optional(m3, "tools"@, r.tools_field(), key);
    crate::request::lemma_lookup_optional(m4, "thinking"@, r.thinking, key);
    crate::request::lemma_lookup_optional(m5, "output_config"@, r.output_config, key);
}

/// The messages that are sent are the turns of the conversation.
proof fn lemma_turns(messages: Seq<Message>)
    ensures
        crate::request::api_messages(messages) == turns(messages).map_values(
            |m: Message| crate::request::api_message(m),
        ),
        forall|i: int|
            0 <= i < turns(messages).len() ==> (#[trigger] turns(messages)[i]).role != Role::System,
    decreases messages.len(),
{
    reveal(Seq::filter);
    if messages.len() > 0 {
        let before = messages.drop_last();
        lemma_turns(before);
        let all = turns(messages);
        assert forall|i: int| 0 <= i < all.len() implies (#[trigger] all[i]).role
            != Role::System by {
            if i < turns(before).len() {
                assert(all[i] == turns(before)[i]);
            }
        }
    }
    assert(crate::request::api_messages(messages) =~= turns(messages).map_values(
        |m: Message| crate::request::api_message(m),
    ));
}

/// The turns of a conversation are sent, all of them and in order, each under the
/// name of its speaker and with its content blocks. System messages are not among
/// them.
pub proof fn law_turns_are_built(req: Request, default_model: Seq<char>, stream: bool)
    ensures
        ({
            let sent = crate::request::built_request(req, default_model, stream).messages;
            let said = turns(req.messages@);
            &&& sent.len() == said.len()
            &&& forall|i: int|
                0 <= i < said.len() ==> {
                    &&& (#[trigger] said[i]).role == Role::User ==> sent[i].role == "user"@
                    &&& said[i].role == Role::Assistant ==> sent[i].role == "assistant"@
                    &&& said[i].role != Role::System
                    &&& says_blocks(sent[i].content, said[i].content@)
                }
        }),
{
    let sent = crate::request::built_request(req, default_model, stream).messages;
    let said = turns(req.messages@);
    lemma_turns(req.messages@);
    assert forall|i: int| 0 <= i < said.len() implies {
        &&& (#[trigger] said[i]).role == Role::User ==> sent[i].role == "user"@
        &&& said[i].role == Role::Assistant ==> sent[i].role == "assistant"@
        &&& said[i].role != Role::System
        &&& says_blocks(sent[i].content, said[i].content@)
    } by {
        assert(sent[i] == crate::request::api_message(said[i]));
        law_blocks_are_written(said[i].content@);
    }
}

/// In the document that is sent, the items under `messages` are the turns of the
/// conversation: the user's under the role `user`, the assistant's under the role
/// `assistant`, each with its content blocks and nothing else.
pub proof fn law_turns_are_sent(req: Request, default_model: Seq<char>, stream: bool)
    ensures
        ({
            let doc = crate::request::built_request(req, default_model, stream).document();
            let said = turns(req.messages@);
            &&& doc.member("messages"@) matches Some(JsonView::Array(items))
            &&& items.len() == said.len()
            &&& forall|i: int|
                0 <= i < said.len() ==> {
                    &&& (#[trigger] said[i]).role == Role::User ==> has_text(
                        items[i],
                        "role"@,
                        "user"@,
                    )
                    &&& said[i].role == Role::Assistant ==> has_text(
                        items[i],
                        "role"@,
                        "assistant"@,
                    )
                    &&& said[i].role != Role::System
                    &&& items[i].member("content"@) matches Some(content) && says_blocks(
                        content,
                        said[i].content@,
                    )
                    &&& has_members(items[i], 2)
                }
        }),
{
    law_turns_are_built(req, default_model, stream);
    law_document_says_the_request(crate::request::built_request(req, default_model, stream));
}

/// The tools of a request are offered whatever its other fields are: all of them
/// and in order, each with its name, its description and the schema of its input.
/// Where there is none the document has no `tools`.
pub proof fn law_tools_are_offered(req: Request, default_model: Seq<char>, stream: bool)
    ensures
        ({
            let built = crate::request::built_request(req, default_model, stream);
            let tools = req.tools@;
            &&& built.tools.len() == tools.len()
            &&& forall|i: int|
                0 <= i < tools.len() ==> {
                    &&& built.tools[i].name == (#[trigger] tools[i]).name@
                    &&& built.tools[i].description == tools[i].description@
                    &&& built.tools[i].input_schema == tools[i].input_schema@
                }
            &&& tools.len() == 0 ==> built.document().member("tools"@) is None
            &&& tools.len() > 0 ==> {
                &&& built.document().member("tools"@) matches Some(JsonView::Array(items))
                &&& items.len() == tools.len()
                &&& forall|i: int|
                    0 <= i < tools.len() ==> says_tool(
                        items[i],
                        (#[trigger] tools[i]).name@,
                        tools[i].description@,
                        tools[i].input_schema@,
                    )
            }
        }),
{
    law_document_says_the_request(crate::request::built_request(req, default_model, stream));
}

/// The stop sequences of a request are sent, all of them and in order; where there
/// is none the document has no `stop_sequences`.
pub proof fn law_stop_sequences_are_sent(req: Request, default_model: Seq<char>, stream: bool)
    ensures
        ({
            let doc = crate::request::built_request(req, default_model, stream).document();
            &&& req.stop@.len() == 0 ==> doc.member("stop_sequences"@) is None
            &&& req.stop@.len() > 0 ==> {
                &&& doc.member("stop_sequences"@) matches Some(JsonView::Array(items))
                &&& items.len() == req.stop@.len()
                &&& forall|i: int|
                    0 <= i < items.len() ==> #[trigger] items[i] == JsonView::String(
                        req.stop@[i]@,
                    )
            }
        }),
{
    law_document_says_the_request(crate::request::built_request(req, default_model, stream));
}

/// The model is the request's own, or the given one where the request names
/// `default`. The limit on tokens is the request's own, or 4096. Whether the answer
/// is to be streamed is as asked.
pub proof fn law_model_limit_and_stream(req: Request, default_model: Seq<char>, stream: bool)
    ensures
        ({
            let doc = crate::request::built_request(req, default_model, stream).document();
            &&& req.model@ == "default"@ ==> has_text(doc, "model"@, default_model)
            &&& req.model@ != "default"@ ==> has_text(doc, "model"@, req.model@)
            &&& doc.member("max_tokens"@) == Some(
                JsonView::Number(
                    Number::PosInt(
                        match req.max_tokens {
                            Some(n) => n as u64,
                            None => 4096,
                        },
                    ),
                ),
            )
            &&& doc.member("stream"@) == Some(JsonView::Bool(stream))
        }),
{
    law_document_says_the_request(crate::request::built_request(req, default_model, stream));
}

/// A temperature is sent exactly if the request has one and reasoning is neither
/// adaptive nor within a budget, and it is the request's.
pub proof fn law_temperature_is_sent(req: Request, default_model: Seq<char>, stream: bool)
    ensures
        ({
            let doc = crate::request::built_request(req, default_model, stream).document();
            doc.member("temperature"@) == match (req.temperature, req.thinking) {
                (Some(_), Some(ThinkingConfig::Adaptive { .. })) => None,
                (Some(_), Some(ThinkingConfig::Enabled { .. })) => None,
                (Some(t), _) => Some(JsonView::Number(Number::Single(t.bits))),
                (None, _) => None,
            }
        }),
{
    law_document_says_the_request(crate::request::built_request(req, default_model, stream));
}

/// True when a document says how the model is to reason, and nothing else.
pub open spec fn says_thinking(doc: JsonView, t: ThinkingConfig) -> bool {
    match t {
        ThinkingConfig::Adaptive { display, .. } => {
            &&& has_text(doc, "type"@, "adaptive"@)
            &&& display == ThinkingDisplay::Summarized ==> has_text(
                doc,
                "display"@,
                "summarized"@,
            )
            &&& display == ThinkingDisplay::Omitted ==> has_text(doc, "display"@, "omitted"@)
            &&& has_members(doc, 2)
        },
        ThinkingConfig::Disabled => has_text(doc, "type"@, "disabled"@) && has_members(doc, 1),
        ThinkingConfig::Enabled { budget_tokens } => {
            &&& has_text(doc, "type"@, "enabled"@)
            &&& doc.member("budget_tokens"@) == Some(
                JsonView::Number(Number::PosInt(budget_tokens as u64)),
            )
            &&& has_members(doc, 2)
        },
    }
}

/// True when a document says how much effort the model is to spend, and nothing
/// else.
pub open spec fn says_effort(doc: JsonView, e: Effort) -> bool {
    &&& e == Effort::Low ==> has_text(doc, "effort"@, "low"@)
    &&& e == Effort::Medium ==> has_text(doc, "effort"@, "medium"@)
    &&& e == Effort::High ==> has_text(doc, "effort"@, "high"@)
    &&& e == Effort::XHigh ==> has_text(doc, "effort"@, "xhigh"@)
    &&& e == Effort::Max ==> has_text(doc, "effort"@, "max"@)
    &&& has_members(doc, 1)
}

/// How the model is to reason is sent under `thinking` if the request says it, and
/// the effort of adaptive reasoning under `output_config`, which is there for
/// nothing else.
pub proof fn law_reasoning_is_sent(req: Request, default_model: Seq<char>, stream: bool)
    ensures
        ({
            let doc = crate::request::built_request(req, default_model, stream).document();
            &&& match req.thinking {
                Some(t) => doc.member("thinking"@) matches Some(v) && says_thinking(v, t),
                None => doc.member("thinking"@) is None,
            }
            &&& match req.thinking {
                Some(ThinkingConfig::Adaptive { effort: Some(e), .. }) => doc.member(
                    "output_config"@,
                ) matches Some(v) && says_effort(v, e),
                _ => doc.member("output_config"@) is None,
            }
        }),
{
    law_document_says_the_request(crate::request::built_request(req, default_model, stream));
    lemma_keys();
    if let Some(t) = req.thinking {
        let members = crate::request::thinking_json(t)->Object_0;
        lemma_few_members(members, "type"@);
        lemma_few_members(members, "display"@);
        lemma_few_members(members, "budget_tokens"@);
        if let ThinkingConfig::Adaptive { effort: Some(e), .. } = t {
            let effort = crate::request::output_config_json(req.thinking)->0->Object_0;
            lemma_few_members(effort, "effort"@);
        }
    }
}

/// The API's names for ways to show reasoning and for levels of effort.
pub proof fn law_names_of_settings(d: ThinkingDisplay, e: Effort)
    ensures
        d == ThinkingDisplay::Summarized ==> crate::request::display_name(d) == "summarized"@,
        d == ThinkingDisplay::Omitted ==> crate::request::display_name(d) == "omitted"@,
        e == Effort::Low ==> crate::request::effort_name(e) == "low"@,
        e == Effort::Medium ==> crate::request::effort_name(e) == "medium"@,
        e == Effort::High ==> crate::request::effort_name(e) == "high"@,
        e == Effort::XHigh ==> crate::request::effort_name(e) == "xhigh"@,
        e == Effort::Max ==> crate::request::effort_name(e) == "max"@,
{
}

/// The texts of system messages are those of the instructions.
proof fn lemma_instructions(messages: Seq<Message>)
    ensures
        crate::request::system_texts(messages) == instructions(messages).map_values(
            |m: Message| crate::types::blocks_text(m.content@),
        ),
    decreases messages.len(),
{
    reveal(Seq::filter);
    if messages.len() > 0 {
        lemma_instructions(messages.drop_last());
    }
    assert(crate::request::system_texts(messages) =~= instructions(messages).map_values(
        |m: Message| crate::types::blocks_text(m.content@),
    ));
}

/// The system text is the request's own, then the texts of the system messages in
/// order, a line each; where there is neither the document has no `system`.
pub proof fn law_system_text_is_sent(req: Request, default_model: Seq<char>, stream: bool)
    ensures
        ({
            let doc = crate::request::built_request(req, default_model, stream).document();
            let told = instructions(req.messages@).map_values(
                |m: Message| crate::types::blocks_text(m.content@),
            );
            let parts = match req.system {
                Some(own) => seq![own@] + told,
                None => told,
            };
            &&& parts.len() == 0 ==> doc.member("system"@) is None
            &&& parts.len() > 0 ==> has_text(doc, "system"@, crate::text::joined(parts, "\n"@))
        }),
{
    law_document_says_the_request(crate::request::built_request(req, default_model, stream));
    lemma_instructions(req.messages@);
}

/// What a request in memory says is what its fields hold.
pub proof fn law_request_in_memory(r: MessagesRequest, m: ApiMessage, i: int)
    ensures
        m@.role == m.role@ && m@.content == m.content@,
        r@.model == r.model@,
        r@.max_tokens == r.max_tokens,
        r@.temperature == r.temperature,
        r@.stream == r.stream,
        r.system matches Some(s) ==> r@.system == Some(s@),
        r.system is None ==> r@.system is None,
        r.thinking matches Some(j) ==> r@.thinking == Some(j@),
        r.thinking is None ==> r@.thinking is None,
        r.output_config matches Some(j) ==> r@.output_config == Some(j@),
        r.output_config is None ==> r@.output_config is None,
        r@.messages.len() == r.messages@.len(),
        0 <= i < r.messages@.len() ==> r@.messages[i] == r.messages@[i]@,
        r@.tools.len() == r.tools@.len(),
        0 <= i < r.tools@.len() ==> r@.tools[i] == r.tools@[i]@,
        r@.stop_sequences.len() == r.stop_sequences@.len(),
        0 <= i < r.stop_sequences@.len() ==> r@.stop_sequences[i] == r.stop_sequences@[i]@,
{
}

/// What a tool definition says is what its fields hold, and each of a list stands
/// in its place.
pub proof fn law_tools_in_memory(t: ToolDefinition, list: Seq<ToolDefinition>, i: int)
    ensures
        t@.name == t.name@,
        t@.description == t.description@,
        t@.input_schema == t.input_schema@,
        crate::types::tool_views(list).len() == list.len(),
        0 <= i < list.len() ==> crate::types::tool_views(list)[i] == list[i]@,
{
}

/// A text message has its role and one block, which holds its text.
pub proof fn law_text_message(m: Message, role: Role, text: Seq<char>)
    requires
        crate::types::is_text_message(m, role, text),
    ensures
        m.role == role,
        m.content@.len() == 1,
        m.content@[0] is Text,
        crate::types::blocks_text(m.content@) == text,
{
    crate::laws::texts::law_text_of_blocks(Seq::empty(), Seq::empty(), m.content@[0]);
    assert(m.content@ =~= seq![m.content@[0]]);
}

} // verus!
