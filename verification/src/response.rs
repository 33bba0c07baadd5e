//! The answer of the Messages API to a request that is not streamed.

use vstd::prelude::*;
use vstd::string::*;

use crate::json::{Json, JsonView};
use crate::sse::narrow_count;
use crate::text::str_eq;
use crate::types::{
    ContentBlock, FinishReason, FinishReasonView, ModelId, ProviderError, Response, ToolUse,
    ToolUseView, Usage,
};

verus! {

/// The text that a block of an answer adds.
pub open spec fn answer_block_text(b: JsonView) -> Seq<char> {
    if b.at("type"@).text() == Some("text"@) {
        b.at("text"@).text_or(Seq::empty())
    } else {
        Seq::empty()
    }
}

/// The texts of the blocks of an answer, one after the other.
pub open spec fn answer_text(blocks: Seq<JsonView>) -> Seq<char>
    decreases blocks.len(),
{
    if blocks.len() == 0 {
        Seq::empty()
    } else {
        answer_text(blocks.drop_last()) + answer_block_text(blocks.last())
    }
}

/// The call of a tool that a block asks for. What is missing is empty.
pub open spec fn answer_call(b: JsonView) -> ToolUseView {
    ToolUseView {
        id: b.at("id"@).text_or(Seq::empty()),
        name: b.at("name"@).text_or(Seq::empty()),
        input: b.at("input"@),
    }
}

/// The calls of tools that the blocks of an answer ask for, in order.
pub open spec fn answer_calls(blocks: Seq<JsonView>) -> Seq<ToolUseView>
    decreases blocks.len(),
{
    if blocks.len() == 0 {
        Seq::empty()
    } else {
        let before = answer_calls(blocks.drop_last());
        if blocks.last().at("type"@).text() == Some("tool_use"@) {
            before.push(answer_call(blocks.last()))
        } else {
            before
        }
    }
}

/// The blocks of an answer.
pub open spec fn answer_blocks(raw: JsonView) -> Seq<JsonView> {
    match raw.at("content"@).items() {
        Some(items) => items,
        None => Seq::empty(),
    }
}

/// What the API's reason to stop means.
pub open spec fn finish_reason_for(stop_reason: Seq<char>) -> FinishReasonView {
    if stop_reason == "end_turn"@ || stop_reason == "stop_sequence"@ {
        FinishReasonView::Stop
    } else if stop_reason == "max_tokens"@ {
        FinishReasonView::MaxTokens
    } else if stop_reason == "tool_use"@ {
        FinishReasonView::ToolUse
    } else {
        FinishReasonView::Other(stop_reason)
    }
}

/// The usage that an answer reports. A count that is missing is zero.
pub open spec fn answer_usage(raw: JsonView) -> Usage {
    Usage {
        input_tokens: crate::sse::tokens_or_zero(raw.at("usage"@).at("input_tokens"@)),
        output_tokens: crate::sse::tokens_or_zero(raw.at("usage"@).at("output_tokens"@)),
    }
}

/// True when a response is what a document says, the model being the given one
/// where the document names none.
pub open spec fn is_response_to(
    r: Response,
    raw: JsonView,
    default_model: Seq<char>,
    latency: core::time::Duration,
) -> bool {
    &&& r.content@ == answer_text(answer_blocks(raw))
    &&& crate::types::tool_use_views(r.tool_calls@) == answer_calls(answer_blocks(raw))
    &&& r.usage == answer_usage(raw)
    &&& r.model@ == raw.at("model"@).text_or(default_model)
    &&& r.finish_reason@ == finish_reason_for(raw.at("stop_reason"@).text_or("end_turn"@))
    &&& r.latency == latency
    &&& r.raw@ == raw
}

/// The text under a key, or the given one where no string stands there.
fn str_or<'a>(v: &'a Json, key: &str, other: &'a str) -> (r: &'a str)
    ensures
        r@ == v@.at(key@).text_or(other@),
{
    match v.str_at(key) {
        Some(s) => s,
        None => other,
    }
}

/// The text under a key, or an empty one where no string stands there.
fn text_or_empty(v: &Json, key: &str) -> (r: String)
    ensures
        r@ == v@.at(key@).text_or(Seq::empty()),
{
    match v.str_at(key) {
        Some(s) => s.to_owned(),
        None => String::new(),
    }
}

/// What the API's reason to stop means.
pub fn finish_reason(stop_reason: &str) -> (r: FinishReason)
    ensures
        r@ == finish_reason_for(stop_reason@),
{
    if str_eq(stop_reason, "end_turn") || str_eq(stop_reason, "stop_sequence") {
        FinishReason::Stop
    } else if str_eq(stop_reason, "max_tokens") {
        FinishReason::MaxTokens
    } else if str_eq(stop_reason, "tool_use") {
        FinishReason::ToolUse
    } else {
        FinishReason::Other(stop_reason.to_owned())
    }
}

/// The call of a tool that a block asks for.
fn read_call(b: &Json) -> (r: ToolUse)
    ensures
        r@ == answer_call(b@),
{
    let input = match b.get("input") {
        Some(j) => j.clone(),
        None => Json::Null,
    };
    ToolUse { id: text_or_empty(b, "id"), name: text_or_empty(b, "name"), input }
}

/// The text and the calls of tools in the blocks of an answer.
fn read_blocks(blocks: &Vec<Json>) -> (r: (String, Vec<ToolUse>))
    ensures
        r.0@ == answer_text(crate::json::json_views(blocks@)),
        crate::types::tool_use_views(r.1@) == answer_calls(crate::json::json_views(blocks@)),
{
    proof {
        reveal_strlit("text");
        reveal_strlit("tool_use");
        assert("text"@.len() == 4 && "tool_use"@.len() == 8);
    }
    let ghost all = crate::json::json_views(blocks@);
    let mut content = String::new();
    let mut calls: Vec<ToolUse> = Vec::new();
    let mut i: usize = 0;
    assert(all.take(0) == Seq::<JsonView>::empty());
    assert(crate::types::tool_use_views(calls@) == Seq::<ToolUseView>::empty());
    while i < blocks.len()
        invariant
            i <= blocks@.len(),
            all == crate::json::json_views(blocks@),
            "text"@ != "tool_use"@,
            content@ == answer_text(all.take(i as int)),
            crate::types::tool_use_views(calls@) == answer_calls(all.take(i as int)),
        decreases blocks@.len() - i,
    {
        let b = &blocks[i];
        let ghost content_before = content@;
        let ghost calls_before = crate::types::tool_use_views(calls@);
        proof {
            assert(all.take(i + 1).drop_last() == all.take(i as int));
            assert(all.take(i + 1).last() == b@);
            assert(content_before + Seq::<char>::empty() == content_before);
        }
        if let Some(kind) = b.str_at("type") {
            if str_eq(kind, "text") {
                content.append(text_or_empty(b, "text").as_str());
            } else if str_eq(kind, "tool_use") {
                calls.push(read_call(b));
                assert(crate::types::tool_use_views(calls@) == calls_before.push(answer_call(b@)));
            }
        }
        i += 1;
    }
    assert(all.take(i as int) == all);
    (content, calls)
}

/// The low 32 bits of a count under two keys, or zero.
fn count_under(v: &Json, outer: &str, inner: &str) -> (r: u32)
    ensures
        r == crate::sse::tokens_or_zero(v@.at(outer@).at(inner@)),
{
    match v.u64_under(outer, inner) {
        Some(n) => narrow_count(n),
        None => 0,
    }
}

/// Read the answer to a request: the texts of its blocks, the calls of tools it
/// asks for, why the model stopped, and what it used. There is no document that is
/// refused; what is missing has a default.
pub fn parse_messages_response(
    raw: Json,
    default_model: &ModelId,
    latency: core::time::Duration,
) -> (r: Result<Response, ProviderError>)
    ensures
        r matches Ok(resp) && is_response_to(resp, raw@, default_model@, latency),
{
    let (content, tool_calls) = match raw.get("content") {
        Some(field) => match field.as_array() {
            Some(blocks) => read_blocks(blocks),
            None => (String::new(), Vec::new()),
        },
        None => (String::new(), Vec::new()),
    };
    proof {
        assert(raw@.at("content"@).items() is None ==> crate::types::tool_use_views(tool_calls@)
            == Seq::<ToolUseView>::empty());
    }
    let finish = finish_reason(str_or(&raw, "stop_reason", "end_turn"));
    let model = ModelId::new(str_or(&raw, "model", default_model.as_str()));
    let usage = Usage {
        input_tokens: count_under(&raw, "usage", "input_tokens"),
        output_tokens: count_under(&raw, "usage", "output_tokens"),
    };
    Ok(Response { content, tool_calls, usage, model, finish_reason: finish, latency, raw })
}

/// The calls of tools among content blocks, in order.
pub open spec fn block_calls(blocks: Seq<ContentBlock>) -> Seq<ToolUseView>
    decreases blocks.len(),
{
    if blocks.len() == 0 {
        Seq::empty()
    } else {
        let before = block_calls(blocks.drop_last());
        match blocks.last() {
            ContentBlock::ToolUse { id, name, input } => before.push(
                ToolUseView { id: id@, name: name@, input: input@ },
            ),
            _ => before,
        }
    }
}

/// What is found in a content block that was written in the API's format.
proof fn lemma_block_read_back(b: ContentBlock)
    ensures
        ({
            let j = crate::request::block_json(b);
            &&& answer_block_text(j) == crate::types::block_text(b)
            &&& match b {
                ContentBlock::ToolUse { id, name, input } => {
                    &&& j.at("type"@).text() == Some("tool_use"@)
                    &&& answer_call(j) == (ToolUseView { id: id@, name: name@, input: input@ })
                },
                _ => j.at("type"@).text() != Some("tool_use"@),
            }
        }),
{
    reveal_strlit("type");
    reveal_strlit("text");
    reveal_strlit("tool_use");
    reveal_strlit("tool_result");
    reveal_strlit("id");
    reveal_strlit("name");
    reveal_strlit("input");
    reveal_strlit("tool_use_id");
    reveal_strlit("content");
    reveal_strlit("is_error");
    assert("type"@.len() == 4 && "type"@[1] == 'y');
    assert("text"@.len() == 4 && "text"@[1] == 'e');
    assert("name"@.len() == 4 && "name"@[1] == 'a');
    assert("tool_use"@.len() == 8 && "is_error"@.len() == 8);
    assert("tool_result"@.len() == 11 && "tool_use_id"@.len() == 11);
    assert("id"@.len() == 2 && "input"@.len() == 5 && "content"@.len() == 7);
    reveal_with_fuel(crate::json::lookup, 6);
    let members = crate::request::block_json(b)->Object_0;
    let m1 = members.drop_last();
    let m2 = m1.drop_last();
    let m3 = m2.drop_last();
    match b {
        ContentBlock::Text { text } => {
            assert(m1 == seq![members[0]]);
        },
        ContentBlock::ToolUse { id, name, input } => {
            assert(m1 == seq![members[0], members[1], members[2]]);
            assert(m2 == seq![members[0], members[1]]);
            assert(m3 == seq![members[0]]);
        },
        ContentBlock::ToolResult { tool_use_id, content, is_error } => {
            if is_error {
                assert(m1 == seq![members[0], members[1], members[2]]);
                assert(m2 == seq![members[0], members[1]]);
                assert(m3 == seq![members[0]]);
            } else {
                assert(m1 == seq![members[0], members[1]]);
                assert(m2 == seq![members[0]]);
            }
        },
    }
}

/// Reading undoes writing: an answer whose content is a list of blocks in the API's
/// format is read back as their text and their calls of tools.
pub proof fn law_blocks_read_back(blocks: Seq<ContentBlock>, raw: JsonView)
    requires
        raw.at("content"@) == crate::request::blocks_json(blocks),
    ensures
        answer_text(answer_blocks(raw)) == crate::types::blocks_text(blocks),
        answer_calls(answer_blocks(raw)) == block_calls(blocks),
{
    lemma_blocks_read_back(blocks);
}

proof fn lemma_blocks_read_back(blocks: Seq<ContentBlock>)
    ensures
        answer_text(blocks.map_values(|b: ContentBlock| crate::request::block_json(b)))
            == crate::types::blocks_text(blocks),
        answer_calls(blocks.map_values(|b: ContentBlock| crate::request::block_json(b)))
            == block_calls(blocks),
    decreases blocks.len(),
{
    let written = blocks.map_values(|b: ContentBlock| crate::request::block_json(b));
    if blocks.len() > 0 {
        let before = blocks.drop_last();
        lemma_blocks_read_back(before);
        lemma_block_read_back(blocks.last());
        assert(written.drop_last() == before.map_values(
            |b: ContentBlock| crate::request::block_json(b),
        ));
        assert(written.last() == crate::request::block_json(blocks.last()));
    }
}

} // verus!
