//! What a step of a stream hands to its consumer.

use vstd::prelude::*;

use crate::json::JsonView;
use crate::sse::{SseFrameView, SseParseCtx};
use crate::stream::{SseState, SseStateView, StreamInput, StreamInputView, StreamStep, StreamStepView};
use crate::types::StreamChunkView;

verus! {

/// How a stream stands when what it is told has been taken in: as before when it is
/// to resume, and with the text of bytes that can be decoded behind its own. Nothing
/// else is taken in.
pub open spec fn told(s: SseStateView, input: StreamInputView) -> Option<SseStateView> {
    match input {
        StreamInputView::Resume => Some(s),
        StreamInputView::Bytes(bytes) => match crate::utf8_stream::fed(s.pending, bytes) {
            Some((text, pending)) => Some(SseStateView { buf: s.buf + text, pending, ..s }),
            None => None,
        },
        _ => None,
    }
}

/// A step is about the first complete frame of the text: what the frame means is
/// handed out as it is; behind a frame with nothing to report the stream goes on
/// with the next; and where there is no complete frame, or one that means nothing,
/// the stream asks for more. The frame is consumed in any case, and what it leaves
/// of the context is kept.
pub proof fn law_step_is_the_first_frame(s: SseStateView, input: StreamInputView)
    requires
        !s.done,
        told(s, input) is Some,
    ensures
        ({
            let t = told(s, input)->0;
            match crate::sse::next_frame(t.buf) {
                None => crate::stream::stepped(s, input) == (StreamStepView::Read, t),
                Some((frame, rest)) => {
                    let (meaning, ctx) = crate::sse::parsed_frame(frame, t.ctx);
                    let after = SseStateView { buf: rest, ctx, ..t };
                    match meaning {
                        Some(SseFrameView::Chunk(c)) => crate::stream::stepped(s, input) == (
                            StreamStepView::Emit(c),
                            after,
                        ),
                        Some(SseFrameView::Done(usage)) => crate::stream::stepped(s, input) == (
                            StreamStepView::Emit(StreamChunkView::Done { usage }),
                            SseStateView { done: true, ..after },
                        ),
                        Some(SseFrameView::Skip) => crate::stream::stepped(s, input)
                            == crate::stream::stepped(after, StreamInputView::Resume),
                        None => crate::stream::stepped(s, input) == (StreamStepView::Read, after),
                    }
                },
            }
        }),
{
    crate::sse::law_frame_is_a_prefix((told(s, input)->0).buf);
}

/// Bytes that can never be decoded end the stream with an error that says where they
/// are; a failure of the connection ends it with the failure; the end of the
/// connection ends it as the end of the answer, without a usage. A stream that is
/// done says so, whatever it is told, and stays as it is.
pub proof fn law_ends_of_a_stream(
    s: SseStateView,
    input: StreamInputView,
    bytes: Seq<u8>,
    message: Seq<char>,
)
    ensures
        s.done ==> crate::stream::stepped(s, input) == (StreamStepView::Finish, s),
        !s.done && crate::utf8_stream::fed(s.pending, bytes) is None ==> {
            let all = s.pending + bytes;
            crate::stream::stepped(s, StreamInputView::Bytes(bytes)) == (
                StreamStepView::Emit(
                    StreamChunkView::Error(
                        "invalid utf-8 sequence of "@ + crate::text::decimal(
                            crate::utf8_stream::invalid_len(
                                crate::utf8_stream::undecoded(all),
                            ) as nat,
                        ) + " bytes from index "@ + crate::text::decimal(
                            crate::utf8_stream::valid_up_to(all) as nat,
                        ),
                    ),
                ),
                SseStateView { pending: all, done: true, ..s },
            )
        },
        !s.done ==> crate::stream::stepped(s, StreamInputView::Failed(message)) == (
            StreamStepView::Emit(StreamChunkView::Error(message)),
            SseStateView { done: true, ..s },
        ),
        !s.done ==> crate::stream::stepped(s, StreamInputView::Closed) == (
            StreamStepView::Emit(StreamChunkView::Done { usage: None }),
            SseStateView { done: true, ..s },
        ),
{
}

/// A stream of which nothing has arrived holds nothing, knows nothing of a message,
/// and is not done.
pub proof fn law_new_stream()
    ensures
        crate::stream::fresh_stream().buf.len() == 0,
        crate::stream::fresh_stream().pending.len() == 0,
        !crate::stream::fresh_stream().done,
        crate::stream::fresh_stream().ctx.input_tokens is None,
        !crate::stream::fresh_stream().ctx.in_thinking_block,
{
}

/// True of a text that is one complete frame.
pub open spec fn one_frame(text: Seq<char>) -> bool {
    crate::sse::next_frame(text) == Some((text, Seq::<char>::empty()))
}

/// True when each of a list of texts is a frame with nothing to report, in the
/// context that the ones before it leave.
pub open spec fn silent(frames: Seq<Seq<char>>, ctx: SseParseCtx) -> bool
    decreases frames.len(),
{
    frames.len() > 0 ==> {
        let (meaning, next) = crate::sse::parsed_frame(frames.first(), ctx);
        &&& one_frame(frames.first())
        &&& meaning == Some(SseFrameView::Skip)
        &&& silent(frames.drop_first(), next)
    }
}

/// The context that a list of frames leaves.
pub open spec fn ctx_behind(frames: Seq<Seq<char>>, ctx: SseParseCtx) -> SseParseCtx
    decreases frames.len(),
{
    if frames.len() == 0 {
        ctx
    } else {
        ctx_behind(frames.drop_first(), crate::sse::parsed_frame(frames.first(), ctx).1)
    }
}

/// A frame is a frame with text behind it too.
proof fn lemma_frame_then(frame: Seq<char>, rest: Seq<char>)
    requires
        one_frame(frame),
    ensures
        crate::sse::next_frame(frame + rest) == Some((frame, rest)),
{
    crate::sse::law_frame_is_stable(frame, rest);
    assert(Seq::<char>::empty() + rest =~= rest);
}

/// What is taken off a text is a frame.
proof fn lemma_taken_is_a_frame(buf: Seq<char>)
    ensures
        crate::sse::next_frame(buf) matches Some((frame, rest)) ==> one_frame(frame) && buf == frame
            + rest,
{
    if let Some((frame, rest)) = crate::sse::next_frame(buf) {
        crate::sse::law_frame_is_a_prefix(buf);
        assert(frame.take(frame.len() as int) =~= frame);
        assert(frame.skip(frame.len() as int) =~= Seq::<char>::empty());
    }
}

/// The first frame that has something to report is handed out as it is: if the text
/// begins with frames that have nothing to report, and then has a frame that means a
/// chunk, the step hands out that very chunk, and what is left is what stands behind
/// that frame. The end of the answer is handed out likewise, and the stream is done.
pub proof fn law_first_report_is_handed_out(
    s: SseStateView,
    input: StreamInputView,
    skipped: Seq<Seq<char>>,
    frame: Seq<char>,
    rest: Seq<char>,
)
    requires
        !s.done,
        told(s, input) is Some,
        silent(skipped, s.ctx),
        one_frame(frame),
        (told(s, input)->0).buf == skipped.flatten() + frame + rest,
    ensures
        ({
            let (meaning, ctx) = crate::sse::parsed_frame(frame, ctx_behind(skipped, s.ctx));
            let after = SseStateView { buf: rest, ctx, ..told(s, input)->0 };
            &&& meaning matches Some(SseFrameView::Chunk(c)) ==> crate::stream::stepped(s, input)
                == (StreamStepView::Emit(c), after)
            &&& meaning matches Some(SseFrameView::Done(usage)) ==> crate::stream::stepped(s, input)
                == (
                StreamStepView::Emit(StreamChunkView::Done { usage }),
                SseStateView { done: true, ..after },
            )
        }),
    decreases skipped.len(),
{
    let t = told(s, input)->0;
    law_step_is_the_first_frame(s, input);
    if skipped.len() == 0 {
        assert(skipped.flatten() + frame + rest =~= frame + rest);
        lemma_frame_then(frame, rest);
    } else {
        let first = skipped.first();
        let others = skipped.drop_first();
        let behind = others.flatten() + frame + rest;
        assert(t.buf =~= first + behind);
        lemma_frame_then(first, behind);
        let ctx = crate::sse::parsed_frame(first, s.ctx).1;
        let next = SseStateView { buf: behind, ctx, ..t };
        law_first_report_is_handed_out(next, StreamInputView::Resume, others, frame, rest);
    }
}

/// True when a chunk is what a frame of a text means, behind frames that have
/// nothing to report.
pub open spec fn reported_by(
    c: StreamChunkView,
    text: Seq<char>,
    ctx: SseParseCtx,
    skipped: Seq<Seq<char>>,
    frame: Seq<char>,
    rest: Seq<char>,
) -> bool {
    &&& text == skipped.flatten() + frame + rest
    &&& silent(skipped, ctx)
    &&& one_frame(frame)
    &&& match crate::sse::parsed_frame(frame, ctx_behind(skipped, ctx)).0 {
        Some(SseFrameView::Chunk(x)) => x == c,
        Some(SseFrameView::Done(usage)) => c == (StreamChunkView::Done { usage }),
        _ => false,
    }
}

/// Nothing is made up: a chunk that is handed out is what a frame of the text means,
/// the first one that has something to report, and what is left is what stands
/// behind it.
pub proof fn law_chunks_come_from_frames(s: SseStateView, input: StreamInputView, c: StreamChunkView)
    requires
        !s.done,
        told(s, input) is Some,
        crate::stream::stepped(s, input).0 == StreamStepView::Emit(c),
    ensures
        exists|skipped: Seq<Seq<char>>, frame: Seq<char>|
            #[trigger] reported_by(
                c,
                (told(s, input)->0).buf,
                s.ctx,
                skipped,
                frame,
                crate::stream::stepped(s, input).1.buf,
            ),
    decreases (told(s, input)->0).buf.len(),
{
    let t = told(s, input)->0;
    let left = crate::stream::stepped(s, input).1.buf;
    let none = Seq::<Seq<char>>::empty();
    law_step_is_the_first_frame(s, input);
    lemma_taken_is_a_frame(t.buf);
    crate::sse::law_frame_is_a_prefix(t.buf);
    let (frame, rest) = crate::sse::next_frame(t.buf)->0;
    let (meaning, ctx) = crate::sse::parsed_frame(frame, t.ctx);
    if meaning == Some(SseFrameView::Skip) {
        let after = SseStateView { buf: rest, ctx, ..t };
        law_chunks_come_from_frames(after, StreamInputView::Resume, c);
        let (others, last) = choose|skipped: Seq<Seq<char>>, frame: Seq<char>|
            #[trigger] reported_by(c, rest, ctx, skipped, frame, left);
        let skipped = seq![frame] + others;
        assert(skipped.first() == frame);
        assert(skipped.drop_first() =~= others);
        assert(skipped.flatten() == frame + others.flatten());
        assert(t.buf =~= skipped.flatten() + last + left);
        assert(reported_by(c, t.buf, s.ctx, skipped, last, left));
    } else {
        assert(none.flatten() + frame + rest =~= frame + rest);
        assert(reported_by(c, t.buf, s.ctx, none, frame, left));
    }
}

/// The document that the data of a frame holds, if its event type is the given one.
pub open spec fn document_of(frame: Seq<char>, event: Seq<char>) -> Option<JsonView> {
    if crate::sse::frame_event(frame) == event {
        crate::json_text::parsed_json(crate::sse::frame_data(frame))
    } else {
        None
    }
}

/// True when a frame is a delta outside a thinking block that holds the text under
/// `text`, and no string under `thinking`.
pub open spec fn answers(frame: Seq<char>, ctx: SseParseCtx, text: Seq<char>) -> bool {
    &&& !ctx.in_thinking_block
    &&& document_of(frame, "content_block_delta"@) matches Some(v)
    &&& crate::laws::frames::delta_text(v, "thinking"@) is None
    &&& crate::laws::frames::delta_text(v, "text"@) == Some(text)
}

/// True when a frame is a delta that holds the text under `thinking`, or inside a
/// thinking block, without a string there, under `text`.
pub open spec fn reasons(frame: Seq<char>, ctx: SseParseCtx, text: Seq<char>) -> bool {
    &&& document_of(frame, "content_block_delta"@) matches Some(v)
    &&& {
        ||| crate::laws::frames::delta_text(v, "thinking"@) == Some(text)
        ||| crate::laws::frames::delta_text(v, "thinking"@) is None
            && crate::laws::frames::delta_text(v, "text"@) == Some(text) && ctx.in_thinking_block
    }
}

/// True when a text begins with frames that have nothing to report, and then has the
/// given one.
pub open spec fn leads_to(
    text: Seq<char>,
    ctx: SseParseCtx,
    skipped: Seq<Seq<char>>,
    frame: Seq<char>,
) -> bool {
    &&& silent(skipped, ctx)
    &&& one_frame(frame)
    &&& (skipped.flatten() + frame).is_prefix_of(text)
}

/// What is handed to a consumer as text of the answer is the text of a delta outside
/// a thinking block, and what is handed out as reasoning is that of a delta with
/// reasoning or inside such a block. Reasoning is never part of the answer.
pub proof fn law_answer_and_reasoning_are_told_apart(
    s: SseStateView,
    input: StreamInputView,
    text: Seq<char>,
)
    requires
        !s.done,
        told(s, input) is Some,
    ensures
        crate::stream::stepped(s, input).0 == StreamStepView::Emit(StreamChunkView::Delta(text))
            ==> text.len() > 0 && exists|skipped: Seq<Seq<char>>, frame: Seq<char>|
            #[trigger] leads_to((told(s, input)->0).buf, s.ctx, skipped, frame) && answers(
                frame,
                ctx_behind(skipped, s.ctx),
                text,
            ),
        crate::stream::stepped(s, input).0 == StreamStepView::Emit(StreamChunkView::Thinking(text))
            ==> text.len() > 0 && exists|skipped: Seq<Seq<char>>, frame: Seq<char>|
            #[trigger] leads_to((told(s, input)->0).buf, s.ctx, skipped, frame) && reasons(
                frame,
                ctx_behind(skipped, s.ctx),
                text,
            ),
{
    let t = told(s, input)->0;
    let (step, next) = crate::stream::stepped(s, input);
    if step is Emit && (step->Emit_0 is Delta || step->Emit_0 is Thinking) {
        let c = step->Emit_0;
        law_chunks_come_from_frames(s, input, c);
        let (skipped, frame) = choose|skipped: Seq<Seq<char>>, frame: Seq<char>|
            #[trigger] reported_by(c, t.buf, s.ctx, skipped, frame, next.buf);
        let ctx = ctx_behind(skipped, s.ctx);
        let event = crate::sse::frame_event(frame);
        let doc = crate::json_text::parsed_json(crate::sse::frame_data(frame));
        crate::laws::frames::law_frame_is_type_and_data(frame, ctx);
        match c {
            StreamChunkView::Delta(x) => crate::laws::frames::law_origin_of_answers(
                event,
                doc,
                ctx,
                x,
            ),
            StreamChunkView::Thinking(x) => crate::laws::frames::law_origin_of_reasoning(
                event,
                doc,
                ctx,
                x,
            ),
            _ => {},
        }
        let lead = skipped.flatten() + frame;
        assert(t.buf =~= lead + next.buf);
        assert(lead =~= t.buf.subrange(0, lead.len() as int));
        assert(leads_to(t.buf, s.ctx, skipped, frame));
    }
}

/// Reasoning reaches the consumer as reasoning, and the answer as answer: the first
/// frame that has something to report, if it is a delta with such a text, is handed
/// out as that.
pub proof fn law_answer_and_reasoning_are_handed_out(
    s: SseStateView,
    input: StreamInputView,
    skipped: Seq<Seq<char>>,
    frame: Seq<char>,
    rest: Seq<char>,
    text: Seq<char>,
)
    requires
        !s.done,
        told(s, input) is Some,
        silent(skipped, s.ctx),
        one_frame(frame),
        (told(s, input)->0).buf == skipped.flatten() + frame + rest,
        text.len() > 0,
    ensures
        reasons(frame, ctx_behind(skipped, s.ctx), text) ==> crate::stream::stepped(s, input).0
            == StreamStepView::Emit(StreamChunkView::Thinking(text)),
        answers(frame, ctx_behind(skipped, s.ctx), text) ==> crate::stream::stepped(s, input).0
            == StreamStepView::Emit(StreamChunkView::Delta(text)),
{
    let ctx = ctx_behind(skipped, s.ctx);
    law_first_report_is_handed_out(s, input, skipped, frame, rest);
    crate::laws::frames::law_frame_is_type_and_data(frame, ctx);
    if let Some(v) = document_of(frame, "content_block_delta"@) {
        if let Some(thought) = crate::laws::frames::delta_text(v, "thinking"@) {
            crate::laws::frames::law_thinking_delta(v, ctx, thought);
        } else {
            crate::laws::frames::law_text_delta(v, ctx);
        }
    }
}

/// What a stream, what it is told and what it says hold in memory.
pub proof fn law_streams_in_memory(s: SseState, input: StreamInput, step: StreamStep)
    ensures
        s@.buf == s.buf@ && s@.pending == s.pending@ && s@.done == s.done && s@.ctx == s.ctx,
        match input {
            StreamInput::Resume => input@ is Resume,
            StreamInput::Bytes(bytes) => input@ == StreamInputView::Bytes(bytes@),
            StreamInput::Failed(message) => input@ == StreamInputView::Failed(message@),
            StreamInput::Closed => input@ is Closed,
        },
        match step {
            StreamStep::Emit(chunk) => step@ == StreamStepView::Emit(chunk@),
            StreamStep::Read => step@ is Read,
            StreamStep::Finish => step@ is Finish,
        },
{
}

} // verus!
