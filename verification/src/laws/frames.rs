//! What a server-sent event means.

use vstd::prelude::*;

use crate::json::{JsonView, Number};
use crate::sse::{SseFrame, SseFrameView, SseParseCtx};
use crate::types::StreamChunkView;

verus! {

/// True where a line feed stands behind a line feed.
pub open spec fn blank_line_at(s: Seq<char>, i: int) -> bool {
    0 <= i && i + 1 < s.len() && s[i] == '\n' && s[i + 1] == '\n'
}

/// A frame goes up to and with the first blank line, and what is left is what stands
/// behind it; there is no frame exactly if there is no blank line.
pub proof fn law_frame_ends_at_the_first_blank_line(buf: Seq<char>)
    ensures
        match crate::sse::next_frame(buf) {
            Some((frame, rest)) => {
                &&& buf == frame + rest
                &&& frame.len() >= 2
                &&& blank_line_at(buf, frame.len() - 2)
                &&& forall|i: int| 0 <= i < frame.len() - 2 ==> !#[trigger] blank_line_at(buf, i)
            },
            None => forall|i: int| !#[trigger] blank_line_at(buf, i),
        },
{
    reveal_strlit("\n\n");
    let pat = "\n\n"@;
    assert(pat.len() == 2 && pat[0] == '\n' && pat[1] == '\n');
    crate::text::lemma_find_from(buf, pat, 0);
    assert forall|i: int| #[trigger] blank_line_at(buf, i) == crate::text::occurs_at(
        buf,
        pat,
        i,
    ) by {
        if blank_line_at(buf, i) {
            assert(buf.subrange(i, i + 2) =~= pat);
        }
        if crate::text::occurs_at(buf, pat, i) {
            assert(buf.subrange(i, i + 2)[0] == buf[i]);
            assert(buf.subrange(i, i + 2)[1] == buf[i + 1]);
        }
    }
    if let Some((frame, rest)) = crate::sse::next_frame(buf) {
        assert(buf =~= frame + rest);
    }
}

/// The event type of a frame is what the last line that begins with `event:` has
/// behind that, trimmed; a frame without such a line has an empty one.
pub proof fn law_event_of_a_frame(frame: Seq<char>, i: int, value: Seq<char>)
    ensures
        ({
            let lines = crate::text::text_lines(frame);
            &&& (0 <= i < lines.len() && lines[i] == "event:"@ + value && (forall|j: int|
                i < j < lines.len() ==> !"event:"@.is_prefix_of(#[trigger] lines[j])))
                ==> crate::sse::frame_event(frame) == crate::text::trimmed(value)
            &&& (forall|j: int|
                0 <= j < lines.len() ==> !"event:"@.is_prefix_of(#[trigger] lines[j]))
                ==> crate::sse::frame_event(frame).len() == 0
        }),
{
    lemma_event_of_lines(crate::text::text_lines(frame), i, value);
}

proof fn lemma_event_of_lines(lines: Seq<Seq<char>>, i: int, value: Seq<char>)
    ensures
        (0 <= i < lines.len() && lines[i] == "event:"@ + value && (forall|j: int|
            i < j < lines.len() ==> !"event:"@.is_prefix_of(#[trigger] lines[j])))
            ==> crate::sse::event_of(lines) == crate::text::trimmed(value),
        (forall|j: int| 0 <= j < lines.len() ==> !"event:"@.is_prefix_of(#[trigger] lines[j]))
            ==> crate::sse::event_of(lines).len() == 0,
    decreases lines.len(),
{
    if lines.len() > 0 {
        let before = lines.drop_last();
        let n = lines.len() - 1;
        lemma_event_of_lines(before, i, value);
        assert forall|j: int| 0 <= j < n implies #[trigger] before[j] == lines[j] by {}
        assert(lines.last() == lines[n]);
        if i == n {
            crate::laws::texts::law_prefix(lines[n], "event:"@, value);
        }
    }
}

/// What a line adds to the data of its frame: what stands behind `data:` and, if
/// there is one, a space; any other line adds nothing.
pub open spec fn data_in_line(line: Seq<char>) -> Seq<char> {
    let n = "data:"@.len() as int;
    if !"data:"@.is_prefix_of(line) {
        Seq::empty()
    } else if line.len() > n && line[n] == ' ' {
        line.skip(n + 1)
    } else {
        line.skip(n)
    }
}

/// The data of a frame is that of its lines, one after the other.
pub proof fn law_data_of_a_frame(frame: Seq<char>)
    ensures
        crate::sse::frame_data(frame) == crate::text::text_lines(frame).map_values(
            |line: Seq<char>| data_in_line(line),
        ).flatten(),
{
    lemma_data_of_lines(crate::text::text_lines(frame));
}

proof fn lemma_data_of_lines(lines: Seq<Seq<char>>)
    ensures
        crate::sse::data_of(lines) == lines.map_values(
            |line: Seq<char>| data_in_line(line),
        ).flatten(),
    decreases lines.len(),
{
    let data = lines.map_values(|line: Seq<char>| data_in_line(line));
    if lines.len() > 0 {
        let before = lines.drop_last();
        let data_before = before.map_values(|line: Seq<char>| data_in_line(line));
        lemma_data_of_lines(before);
        lemma_data_in_line(lines.last());
        assert(data =~= data_before.push(data_in_line(lines.last())));
        data_before.lemma_flatten_push(data_in_line(lines.last()));
    } else {
        assert(data =~= Seq::<Seq<char>>::empty());
    }
}

proof fn lemma_data_in_line(line: Seq<char>)
    ensures
        crate::sse::line_data(line) == data_in_line(line),
{
    reveal_strlit("data:");
    reveal_strlit("data: ");
    let short = "data:"@;
    let long = "data: "@;
    assert(long =~= short.push(' '));
    if long.is_prefix_of(line) {
        assert(short =~= line.subrange(0, 5)) by {
            assert(line.subrange(0, 6) == long);
            assert forall|k: int| 0 <= k < 5 implies short[k] == line[k] by {
                assert(line.subrange(0, 6)[k] == long[k]);
            }
        }
        assert(line.subrange(0, 6)[5] == line[5]);
    } else if short.is_prefix_of(line) && line.len() > 5 && line[5] == ' ' {
        assert(long =~= line.subrange(0, 6)) by {
            assert forall|k: int| 0 <= k < 5 implies long[k] == line[k] by {
                assert(line.subrange(0, 5)[k] == short[k]);
            }
        }
    }
}

/// Reading undoes writing: a frame with an event type and one line of data, written
/// as the API writes it, is read as that type and that data.
pub proof fn law_frame_reads_back(event: Seq<char>, data: Seq<char>)
    requires
        crate::laws::texts::one_line(event),
        crate::laws::texts::one_line(data),
        event.len() > 0 ==> !crate::text::white_space(event[0]) && !crate::text::white_space(
            event.last(),
        ),
        data.len() > 0 ==> data.last() != '\r',
    ensures
        ({
            let frame = ("event: "@ + event) + seq!['\n'] + (("data: "@ + data) + seq!['\n']
                + seq!['\n']);
            &&& crate::sse::frame_event(frame) == event
            &&& crate::sse::frame_data(frame) == data
        }),
{
    reveal_strlit("event: ");
    reveal_strlit("event:");
    reveal_strlit("data: ");
    reveal_strlit("data:");
    let none = Seq::<char>::empty();
    let first = "event: "@ + event;
    let second = "data: "@ + data;
    let tail = second + seq!['\n'] + seq!['\n'];
    let frame = first + seq!['\n'] + tail;
    assert(crate::laws::texts::one_line(first)) by {
        assert forall|i: int| 0 <= i < first.len() implies #[trigger] first[i] != '\n' by {
            if i >= 7 {
                assert(first[i] == event[i - 7]);
            } else {
                assert(first[i] == "event: "@[i]);
            }
        }
    }
    assert(crate::laws::texts::one_line(second)) by {
        assert forall|i: int| 0 <= i < second.len() implies #[trigger] second[i] != '\n' by {
            if i >= 6 {
                assert(second[i] == data[i - 6]);
            } else {
                assert(second[i] == "data: "@[i]);
            }
        }
    }
    assert(first.last() != '\r') by {
        if event.len() > 0 {
            assert(first.last() == event.last());
        }
    }
    assert(second.last() != '\r') by {
        if data.len() > 0 {
            assert(second.last() == data.last());
        }
    }
    crate::laws::texts::law_lines(first, tail);
    crate::laws::texts::law_lines(second, seq!['\n']);
    crate::laws::texts::law_lines(none, none);
    assert(none + seq!['\n'] + none =~= seq!['\n']);
    let lines = crate::text::text_lines(frame);
    assert(lines =~= seq![first, second, none]);
    // the event type
    let value = seq![' '] + event;
    assert(first =~= "event:"@ + value);
    assert(second[0] == 'd');
    assert(!"event:"@.is_prefix_of(second)) by {
        if "event:"@.is_prefix_of(second) {
            assert(second.subrange(0, 6)[0] == second[0]);
        }
    }
    assert forall|j: int| 0 < j < lines.len() implies !"event:"@.is_prefix_of(
        #[trigger] lines[j],
    ) by {}
    law_event_of_a_frame(frame, 0, value);
    assert(value.skip(1) =~= event);
    reveal_with_fuel(crate::text::trimmed_start, 2);
    assert(crate::text::trimmed(value) == event);
    // the data
    law_data_of_a_frame(frame);
    let pieces = lines.map_values(|line: Seq<char>| data_in_line(line));
    assert(data_in_line(first) =~= none) by {
        if "data:"@.is_prefix_of(first) {
            assert(first.subrange(0, 5)[0] == first[0]);
        }
    }
    assert(data_in_line(second) =~= data) by {
        assert("data:"@ =~= second.subrange(0, 5));
        assert(second[5] == ' ');
        assert(second.skip(6) =~= data);
    }
    assert(pieces =~= seq![none, data, none]);
    let start = Seq::<Seq<char>>::empty();
    start.lemma_flatten_push(none);
    start.push(none).lemma_flatten_push(data);
    start.push(none).push(data).lemma_flatten_push(none);
    assert(pieces =~= start.push(none).push(data).push(none));
    assert(start.flatten() =~= none);
    assert(pieces.flatten() =~= data);
}

/// The names of the event types that are told apart.
proof fn lemma_event_names()
    ensures
        "content_block_delta"@.len() == 19 && "content_block_delta"@[14] == 'd',
        "content_block_start"@.len() == 19 && "content_block_start"@[14] == 's',
        "content_block_stop"@.len() == 18,
        "message_delta"@.len() == 13 && "message_delta"@[8] == 'd',
        "message_start"@.len() == 13 && "message_start"@[8] == 's',
        "error"@.len() == 5,
{
    reveal_strlit("content_block_delta");
    reveal_strlit("content_block_start");
    reveal_strlit("content_block_stop");
    reveal_strlit("message_delta");
    reveal_strlit("message_start");
    reveal_strlit("error");
}

/// A frame is what its event type and the document in its data mean.
pub proof fn law_frame_is_type_and_data(frame: Seq<char>, ctx: SseParseCtx)
    ensures
        crate::sse::parsed_frame(frame, ctx) == crate::sse::frame_meaning(
            crate::sse::frame_event(frame),
            crate::json_text::parsed_json(crate::sse::frame_data(frame)),
            ctx,
        ),
{
}

/// The text, if a string stands under `delta` and the given key.
pub open spec fn delta_text(v: JsonView, key: Seq<char>) -> Option<Seq<char>> {
    match v.at("delta"@).member(key) {
        Some(JsonView::String(text)) => Some(text),
        _ => None,
    }
}

/// A delta with a string under `thinking` is reasoning, inside a thinking block as
/// well as outside one; it is handed out unless it is empty, and the context stays
/// as it is.
pub proof fn law_thinking_delta(v: JsonView, ctx: SseParseCtx, text: Seq<char>)
    requires
        delta_text(v, "thinking"@) == Some(text),
    ensures
        ({
            let (meaning, next) = crate::sse::frame_meaning("content_block_delta"@, Some(v), ctx);
            &&& next == ctx
            &&& text.len() > 0 ==> meaning == Some(
                SseFrameView::Chunk(StreamChunkView::Thinking(text)),
            )
            &&& text.len() == 0 ==> meaning == Some(SseFrameView::Skip)
        }),
{
    lemma_event_names();
}

/// A delta without such a string is the text under `text`: reasoning inside a
/// thinking block, answer outside one; without a text, or with an empty one, there
/// is nothing to report. The context stays as it is.
pub proof fn law_text_delta(v: JsonView, ctx: SseParseCtx)
    requires
        delta_text(v, "thinking"@) is None,
    ensures
        ({
            let (meaning, next) = crate::sse::frame_meaning("content_block_delta"@, Some(v), ctx);
            &&& next == ctx
            &&& match delta_text(v, "text"@) {
                Some(text) => {
                    &&& text.len() > 0 && ctx.in_thinking_block ==> meaning == Some(
                        SseFrameView::Chunk(StreamChunkView::Thinking(text)),
                    )
                    &&& text.len() > 0 && !ctx.in_thinking_block ==> meaning == Some(
                        SseFrameView::Chunk(StreamChunkView::Delta(text)),
                    )
                    &&& text.len() == 0 ==> meaning == Some(SseFrameView::Skip)
                },
                None => meaning == Some(SseFrameView::Skip),
            }
        }),
{
    lemma_event_names();
}

/// The end of a message is the end of the answer, with the input count that was
/// remembered, or zero, and the output count that the document holds. The context
/// stays as it is.
pub proof fn law_end_of_message(v: JsonView, ctx: SseParseCtx)
    ensures
        ({
            let (meaning, next) = crate::sse::frame_meaning("message_delta"@, Some(v), ctx);
            &&& next == ctx
            &&& meaning matches Some(SseFrameView::Done(Some(usage)))
            &&& ctx.input_tokens matches Some(n) ==> usage.input_tokens == n
            &&& ctx.input_tokens is None ==> usage.input_tokens == 0
            &&& usage.output_tokens == crate::laws::responses::count_of(
                v,
                "usage"@,
                "output_tokens"@,
            )
        }),
{
    lemma_event_names();
}

/// The start of a message is not reported; its input count is remembered, and if it
/// holds none the one that was there is kept.
pub proof fn law_start_of_message(v: JsonView, ctx: SseParseCtx)
    ensures
        ({
            let (meaning, next) = crate::sse::frame_meaning("message_start"@, Some(v), ctx);
            &&& meaning == Some(SseFrameView::Skip)
            &&& next.in_thinking_block == ctx.in_thinking_block
            &&& match v.at("message"@).at("usage"@).member("input_tokens"@) {
                Some(JsonView::Number(Number::PosInt(n))) => next.input_tokens matches Some(kept)
                    && kept == n as int % 0x1_0000_0000,
                _ => next.input_tokens == ctx.input_tokens,
            }
        }),
{
    lemma_event_names();
}

/// The start of a content block is not reported; it is a thinking block exactly if
/// its type is a string that contains `thinking`.
pub proof fn law_start_of_block(v: JsonView, ctx: SseParseCtx)
    ensures
        ({
            let (meaning, next) = crate::sse::frame_meaning("content_block_start"@, Some(v), ctx);
            &&& meaning == Some(SseFrameView::Skip)
            &&& next.input_tokens == ctx.input_tokens
            &&& next.in_thinking_block <==> (v.at("content_block"@).member("type"@) matches Some(
                JsonView::String(kind),
            ) && crate::text::contains_text(kind, "thinking"@))
        }),
{
    lemma_event_names();
    reveal_strlit("thinking");
    assert("thinking"@.len() == 8);
    assert(!crate::text::contains_text(Seq::empty(), "thinking"@));
}

/// The stop of a content block is not reported; no block is a thinking block behind
/// it, whatever its data is.
pub proof fn law_stop_of_block(doc: Option<JsonView>, ctx: SseParseCtx)
    ensures
        ({
            let (meaning, next) = crate::sse::frame_meaning("content_block_stop"@, doc, ctx);
            &&& meaning == Some(SseFrameView::Skip)
            &&& !next.in_thinking_block
            &&& next.input_tokens == ctx.input_tokens
        }),
{
    lemma_event_names();
}

/// An error is reported with its message, or as unknown where no string stands
/// there. The context stays as it is.
pub proof fn law_error_frame(v: JsonView, ctx: SseParseCtx)
    ensures
        crate::sse::frame_meaning("error"@, Some(v), ctx) == (
            Some(
                SseFrameView::Chunk(
                    StreamChunkView::Error(
                        match v.at("error"@).member("message"@) {
                            Some(JsonView::String(message)) => message,
                            _ => "unknown error"@,
                        },
                    ),
                ),
            ),
            ctx,
        ),
{
    lemma_event_names();
}

/// Nothing comes of a frame of one of the five types whose data is read if the data
/// is no document, and the context stays as it is. Of any other type but the stop of
/// a block there is nothing to report, whatever the data is, and the context stays.
pub proof fn law_frames_without_meaning(event: Seq<char>, doc: Option<JsonView>, ctx: SseParseCtx)
    ensures
        ({
            let read = {
                ||| event == "content_block_delta"@
                ||| event == "message_delta"@
                ||| event == "message_start"@
                ||| event == "content_block_start"@
                ||| event == "error"@
            };
            &&& crate::sse::reads_data(event) == read
            &&& read && doc is None ==> crate::sse::frame_meaning(event, doc, ctx) == (
                None::<SseFrameView>,
                ctx,
            )
            &&& !read && event != "content_block_stop"@ ==> crate::sse::frame_meaning(
                event,
                doc,
                ctx,
            ) == (Some(SseFrameView::Skip), ctx)
        }),
{
    lemma_event_names();
}

/// Where a text of the answer can come from: only a delta with that text under
/// `text`, without a string under `thinking`, and outside a thinking block.
pub proof fn law_origin_of_answers(
    event: Seq<char>,
    doc: Option<JsonView>,
    ctx: SseParseCtx,
    text: Seq<char>,
)
    requires
        crate::sse::frame_meaning(event, doc, ctx).0 == Some(
            SseFrameView::Chunk(StreamChunkView::Delta(text)),
        ),
    ensures
        event == "content_block_delta"@,
        !ctx.in_thinking_block,
        text.len() > 0,
        doc matches Some(v) && delta_text(v, "thinking"@) is None && delta_text(v, "text"@) == Some(
            text,
        ),
{
    lemma_event_names();
}

/// Where reasoning can come from: only a delta with that text under `thinking`, or,
/// inside a thinking block and without a string there, under `text`.
pub proof fn law_origin_of_reasoning(
    event: Seq<char>,
    doc: Option<JsonView>,
    ctx: SseParseCtx,
    text: Seq<char>,
)
    requires
        crate::sse::frame_meaning(event, doc, ctx).0 == Some(
            SseFrameView::Chunk(StreamChunkView::Thinking(text)),
        ),
    ensures
        event == "content_block_delta"@,
        text.len() > 0,
        doc matches Some(v) && (delta_text(v, "thinking"@) == Some(text) || (delta_text(
            v,
            "thinking"@,
        ) is None && delta_text(v, "text"@) == Some(text) && ctx.in_thinking_block)),
{
    lemma_event_names();
}

/// Where the end of the answer and errors can come from: only the end of a message,
/// always with a usage, and only an error.
pub proof fn law_origin_of_ends_and_errors(
    event: Seq<char>,
    doc: Option<JsonView>,
    ctx: SseParseCtx,
)
    ensures
        ({
            let meaning = crate::sse::frame_meaning(event, doc, ctx).0;
            &&& meaning matches Some(SseFrameView::Done(usage)) ==> event == "message_delta"@
                && doc is Some && usage is Some
            &&& meaning matches Some(SseFrameView::Chunk(StreamChunkView::Error(_))) ==> event
                == "error"@ && doc is Some
            &&& !(meaning matches Some(SseFrameView::Chunk(StreamChunkView::Done { .. })))
        }),
{
    lemma_event_names();
}

/// What a frame in memory says is what it holds.
pub proof fn law_frames_in_memory(f: SseFrame)
    ensures
        match f {
            SseFrame::Chunk(c) => f@ == SseFrameView::Chunk(c@),
            SseFrame::Done(usage) => f@ == SseFrameView::Done(usage),
            SseFrame::Skip => f@ == SseFrameView::Skip,
        },
        crate::sse::optional_frame(Some(f)) == Some(f@),
        crate::sse::optional_frame(None) is None,
{
}

} // verus!
