//! What an answer that is not streamed is read as.

use vstd::prelude::*;

use crate::json::{JsonView, Number};
use crate::types::{
    FinishReason, FinishReasonView, ModelId, Response, StreamChunk, StreamChunkView, ToolUse,
};

verus! {

/// True of a block whose type is the given one.
pub open spec fn has_type(block: JsonView, name: Seq<char>) -> bool {
    block.member("type"@) == Some(JsonView::String(name))
}

/// The text that stands under a key, or an empty one where no string does.
pub open spec fn text_under(v: JsonView, key: Seq<char>) -> Seq<char> {
    match v.member(key) {
        Some(JsonView::String(text)) => text,
        _ => Seq::empty(),
    }
}

/// The blocks of an answer, of which there are none unless a list stands under
/// `content`.
pub open spec fn blocks_of(raw: JsonView) -> Seq<JsonView> {
    match raw.member("content"@) {
        Some(JsonView::Array(blocks)) => blocks,
        _ => Seq::empty(),
    }
}

/// The low 32 bits of the count that stands under two keys, or zero where none does.
pub open spec fn count_of(raw: JsonView, outer: Seq<char>, inner: Seq<char>) -> int {
    match raw.at(outer).member(inner) {
        Some(JsonView::Number(Number::PosInt(n))) => n as int % 0x1_0000_0000,
        _ => 0,
    }
}

/// The text of an answer, block by block.
proof fn lemma_text_of_answer(blocks: Seq<JsonView>)
    ensures
        crate::response::answer_text(blocks) == blocks.filter(
            |b: JsonView| has_type(b, "text"@),
        ).map_values(|b: JsonView| text_under(b, "text"@)).flatten(),
    decreases blocks.len(),
{
    reveal(Seq::filter);
    let kept = blocks.filter(|b: JsonView| has_type(b, "text"@));
    let texts = kept.map_values(|b: JsonView| text_under(b, "text"@));
    if blocks.len() > 0 {
        let before = blocks.drop_last();
        let kept_before = before.filter(|b: JsonView| has_type(b, "text"@));
        let texts_before = kept_before.map_values(|b: JsonView| text_under(b, "text"@));
        lemma_text_of_answer(before);
        let last = blocks.last();
        if has_type(last, "text"@) {
            assert(texts =~= texts_before.push(text_under(last, "text"@)));
            texts_before.lemma_flatten_push(text_under(last, "text"@));
        } else {
            assert(texts == texts_before);
            assert(crate::response::answer_block_text(last) =~= Seq::<char>::empty());
            assert(crate::response::answer_text(before) + Seq::<char>::empty()
                =~= crate::response::answer_text(before));
        }
    } else {
        assert(texts =~= Seq::<Seq<char>>::empty());
    }
}

/// The calls of an answer, block by block.
proof fn lemma_calls_of_answer(blocks: Seq<JsonView>)
    ensures
        crate::response::answer_calls(blocks) == blocks.filter(
            |b: JsonView| has_type(b, "tool_use"@),
        ).map_values(|b: JsonView| crate::response::answer_call(b)),
    decreases blocks.len(),
{
    reveal(Seq::filter);
    if blocks.len() > 0 {
        lemma_calls_of_answer(blocks.drop_last());
    }
    assert(crate::response::answer_calls(blocks) =~= blocks.filter(
        |b: JsonView| has_type(b, "tool_use"@),
    ).map_values(|b: JsonView| crate::response::answer_call(b)));
}

/// The content of a response is the texts, one after the other, of exactly those
/// blocks of the document whose type is `text`. A block of any other type,
/// reasoning included, adds no character.
pub proof fn law_content_is_the_text_blocks(
    r: Response,
    raw: JsonView,
    default_model: Seq<char>,
    latency: core::time::Duration,
)
    requires
        crate::response::is_response_to(r, raw, default_model, latency),
    ensures
        r.content@ == blocks_of(raw).filter(|b: JsonView| has_type(b, "text"@)).map_values(
            |b: JsonView| text_under(b, "text"@),
        ).flatten(),
{
    lemma_text_of_answer(blocks_of(raw));
}

/// The calls of a response are exactly the blocks of the document whose type is
/// `tool_use`, in order, each with what stands under `id`, `name` and `input`; a text
/// that is missing is empty, an input that is missing is null.
pub proof fn law_calls_are_the_tool_blocks(
    r: Response,
    raw: JsonView,
    default_model: Seq<char>,
    latency: core::time::Duration,
)
    requires
        crate::response::is_response_to(r, raw, default_model, latency),
    ensures
        ({
            let asked = blocks_of(raw).filter(|b: JsonView| has_type(b, "tool_use"@));
            &&& r.tool_calls@.len() == asked.len()
            &&& forall|i: int|
                0 <= i < asked.len() ==> {
                    &&& r.tool_calls@[i].id@ == text_under(#[trigger] asked[i], "id"@)
                    &&& r.tool_calls@[i].name@ == text_under(asked[i], "name"@)
                    &&& r.tool_calls@[i].input@ == match asked[i].member("input"@) {
                        Some(input) => input,
                        None => JsonView::Null,
                    }
                }
        }),
{
    lemma_calls_of_answer(blocks_of(raw));
    let asked = blocks_of(raw).filter(|b: JsonView| has_type(b, "tool_use"@));
    let calls = crate::types::tool_use_views(r.tool_calls@);
    assert(calls.len() == r.tool_calls@.len());
    assert forall|i: int| 0 <= i < asked.len() implies {
        &&& r.tool_calls@[i].id@ == text_under(#[trigger] asked[i], "id"@)
        &&& r.tool_calls@[i].name@ == text_under(asked[i], "name"@)
        &&& r.tool_calls@[i].input@ == match asked[i].member("input"@) {
            Some(input) => input,
            None => JsonView::Null,
        }
    } by {
        assert(calls[i] == r.tool_calls@[i]@);
        assert(calls[i] == crate::response::answer_call(asked[i]));
    }
}

/// The usage of a response is what stands in the document under `usage`, the model
/// is the one that it names, or the given one, and the document and the latency are
/// handed on as they are.
pub proof fn law_usage_and_model(
    r: Response,
    raw: JsonView,
    default_model: Seq<char>,
    latency: core::time::Duration,
)
    requires
        crate::response::is_response_to(r, raw, default_model, latency),
    ensures
        r.usage.input_tokens == count_of(raw, "usage"@, "input_tokens"@),
        r.usage.output_tokens == count_of(raw, "usage"@, "output_tokens"@),
        r.model.name@ == match raw.member("model"@) {
            Some(JsonView::String(name)) => name,
            _ => default_model,
        },
        r.latency == latency,
        r.raw@ == raw,
{
}

/// Why the model stopped: `end_turn` and `stop_sequence` are a stop, and so is an
/// answer that does not say; `max_tokens` and `tool_use` are what they say; any
/// other reason is handed on.
pub proof fn law_reason_to_stop(
    r: Response,
    raw: JsonView,
    default_model: Seq<char>,
    latency: core::time::Duration,
)
    requires
        crate::response::is_response_to(r, raw, default_model, latency),
    ensures
        match raw.member("stop_reason"@) {
            Some(JsonView::String(reason)) => {
                &&& (reason == "end_turn"@ || reason == "stop_sequence"@) ==> r.finish_reason is Stop
                &&& reason == "max_tokens"@ ==> r.finish_reason is MaxTokens
                &&& reason == "tool_use"@ ==> r.finish_reason is ToolUse
                &&& reason != "end_turn"@ && reason != "stop_sequence"@ && reason != "max_tokens"@
                    && reason != "tool_use"@ ==> (r.finish_reason matches FinishReason::Other(s)
                    && s@ == reason)
            },
            _ => r.finish_reason is Stop,
        },
{
    reveal_strlit("end_turn");
    reveal_strlit("stop_sequence");
    reveal_strlit("max_tokens");
    reveal_strlit("tool_use");
    assert("end_turn"@.len() == 8 && "end_turn"@[0] == 'e');
    assert("tool_use"@.len() == 8 && "tool_use"@[0] == 't');
    assert("stop_sequence"@.len() == 13 && "max_tokens"@.len() == 10);
}

/// What a reason to stop means, as text.
pub proof fn law_meaning_of_stop_reasons(reason: Seq<char>)
    ensures
        crate::response::finish_reason_for("end_turn"@) == FinishReasonView::Stop,
        crate::response::finish_reason_for("stop_sequence"@) == FinishReasonView::Stop,
        crate::response::finish_reason_for("max_tokens"@) == FinishReasonView::MaxTokens,
        crate::response::finish_reason_for("tool_use"@) == FinishReasonView::ToolUse,
        reason != "end_turn"@ && reason != "stop_sequence"@ && reason != "max_tokens"@ && reason
            != "tool_use"@ ==> crate::response::finish_reason_for(reason)
            == FinishReasonView::Other(reason),
{
    reveal_strlit("end_turn");
    reveal_strlit("stop_sequence");
    reveal_strlit("max_tokens");
    reveal_strlit("tool_use");
    assert("end_turn"@.len() == 8 && "end_turn"@[0] == 'e');
    assert("tool_use"@.len() == 8 && "tool_use"@[0] == 't');
    assert("stop_sequence"@.len() == 13 && "max_tokens"@.len() == 10);
}

/// What calls, reasons, chunks and models in memory say is what they hold.
pub proof fn law_answers_in_memory(
    call: ToolUse,
    calls: Seq<ToolUse>,
    i: int,
    reason: FinishReason,
    chunk: StreamChunk,
    model: ModelId,
)
    ensures
        call@.id == call.id@ && call@.name == call.name@ && call@.input == call.input@,
        crate::types::tool_use_views(calls).len() == calls.len(),
        0 <= i < calls.len() ==> crate::types::tool_use_views(calls)[i] == calls[i]@,
        match reason {
            FinishReason::Stop => reason@ is Stop,
            FinishReason::MaxTokens => reason@ is MaxTokens,
            FinishReason::ToolUse => reason@ is ToolUse,
            FinishReason::Other(s) => reason@ == FinishReasonView::Other(s@),
        },
        match chunk {
            StreamChunk::Delta(s) => chunk@ == StreamChunkView::Delta(s@),
            StreamChunk::Thinking(s) => chunk@ == StreamChunkView::Thinking(s@),
            StreamChunk::Done { usage } => chunk@ == (StreamChunkView::Done { usage }),
            StreamChunk::Error(s) => chunk@ == StreamChunkView::Error(s@),
        },
        model@ == model.name@,
{
}

/// A token count is kept as it is where 32 bits hold it, and else its low 32 bits.
pub proof fn law_token_counts(n: u64, v: JsonView)
    ensures
        crate::sse::token_count(n) as int == n as int % 0x1_0000_0000,
        n < 0x1_0000_0000 ==> crate::sse::token_count(n) == n,
        v == JsonView::Number(Number::PosInt(n)) ==> crate::sse::tokens_or_zero(v) as int == n as int
            % 0x1_0000_0000,
        !(v matches JsonView::Number(Number::PosInt(_))) ==> crate::sse::tokens_or_zero(v) == 0,
{
}

} // verus!
