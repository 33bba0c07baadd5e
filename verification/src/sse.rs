//! Server-sent events: splitting the text of a stream into frames, and what a
//! frame means.

use vstd::prelude::*;
use vstd::string::*;

use crate::json::{Json, JsonView};
use crate::text::{chars_of, find_chars, lines, slice_chars, str_contains, str_eq, strip_prefix, trim};
use crate::types::{StreamChunk, StreamChunkView, Usage};

verus! {

/// Cross-frame parse state: what earlier frames established about the message in
/// flight. These two facts are the only ones that outlive a frame.
#[derive(Clone, Copy, Debug, PartialEq, Eq, Structural)]
pub struct SseParseCtx {
    /// From `message_start`: the closing `message_delta` carries only the output
    /// count, so the input count is remembered until then.
    pub input_tokens: Option<u32>,
    /// True while inside a content block of the thinking family. Reasoning that
    /// streams as plain text inside such a block surfaces as `Thinking`, never as
    /// `Delta`.
    pub in_thinking_block: bool,
}

impl Default for SseParseCtx {
    fn default() -> (r: SseParseCtx)
        ensures
            r.input_tokens is None,
            !r.in_thinking_block,
    {
        SseParseCtx { input_tokens: None, in_thinking_block: false }
    }
}

/// What a frame comes to.
#[derive(Debug)]
pub enum SseFrame {
    /// A piece of the answer.
    Chunk(StreamChunk),
    /// The end of the answer.
    Done(Option<Usage>),
    /// Nothing to report.
    Skip,
}

/// What a frame comes to.
pub enum SseFrameView {
    Chunk(StreamChunkView),
    Done(Option<Usage>),
    Skip,
}

impl View for SseFrame {
    type V = SseFrameView;

    open spec fn view(&self) -> SseFrameView {
        match self {
            SseFrame::Chunk(c) => SseFrameView::Chunk(c@),
            SseFrame::Done(usage) => SseFrameView::Done(*usage),
            SseFrame::Skip => SseFrameView::Skip,
        }
    }
}

/// What a frame comes to, if it comes to anything.
pub open spec fn optional_frame(f: Option<SseFrame>) -> Option<SseFrameView> {
    match f {
        Some(frame) => Some(frame@),
        None => None,
    }
}

/// The first complete frame of a text and the text behind it. A blank line ends a
/// frame and belongs to it.
pub open spec fn next_frame(buf: Seq<char>) -> Option<(Seq<char>, Seq<char>)> {
    match crate::text::find(buf, "\n\n"@) {
        Some(i) => Some((buf.take(i + 2), buf.skip(i + 2))),
        None => None,
    }
}

/// The event type that a line names.
pub open spec fn line_event(line: Seq<char>) -> Option<Seq<char>> {
    match crate::text::without_prefix(line, "event:"@) {
        Some(value) => Some(crate::text::trimmed(value)),
        None => None,
    }
}

/// The data that a line holds. One space behind the colon is no part of it.
pub open spec fn line_data(line: Seq<char>) -> Seq<char> {
    match crate::text::without_prefix(line, "data: "@) {
        Some(value) => value,
        None => match crate::text::without_prefix(line, "data:"@) {
            Some(value) => value,
            None => Seq::empty(),
        },
    }
}

/// The event type that the last line to name one names, or the empty text.
pub open spec fn event_of(lines: Seq<Seq<char>>) -> Seq<char>
    decreases lines.len(),
{
    if lines.len() == 0 {
        Seq::empty()
    } else {
        match line_event(lines.last()) {
            Some(event) => event,
            None => event_of(lines.drop_last()),
        }
    }
}

/// The data of all lines, one after the other.
pub open spec fn data_of(lines: Seq<Seq<char>>) -> Seq<char>
    decreases lines.len(),
{
    if lines.len() == 0 {
        Seq::empty()
    } else {
        data_of(lines.drop_last()) + line_data(lines.last())
    }
}

/// The event type of a frame.
pub open spec fn frame_event(frame: Seq<char>) -> Seq<char> {
    event_of(crate::text::text_lines(frame))
}

/// The data of a frame.
pub open spec fn frame_data(frame: Seq<char>) -> Seq<char> {
    data_of(crate::text::text_lines(frame))
}

/// A token count as it is kept: the low 32 bits.
pub open spec fn token_count(n: u64) -> u32 {
    (n % 0x1_0000_0000) as u32
}

/// A number of tokens in a document, or zero.
pub open spec fn tokens_or_zero(v: JsonView) -> u32 {
    match v.unsigned() {
        Some(n) => token_count(n),
        None => 0,
    }
}

/// The chunk with the given text, which is skipped if it is empty.
pub open spec fn text_frame(text: Seq<char>, thinking: bool) -> SseFrameView {
    if text.len() == 0 {
        SseFrameView::Skip
    } else if thinking {
        SseFrameView::Chunk(StreamChunkView::Thinking(text))
    } else {
        SseFrameView::Chunk(StreamChunkView::Delta(text))
    }
}

/// What a `content_block_delta` with the given document comes to.
pub open spec fn delta_frame(v: JsonView, in_thinking_block: bool) -> SseFrameView {
    match v.at("delta"@).at("thinking"@).text() {
        Some(thinking) => text_frame(thinking, true),
        None => text_frame(v.at("delta"@).at("text"@).text_or(Seq::empty()), in_thinking_block),
    }
}

/// The context behind a `message_start` with the given document.
pub open spec fn started_ctx(v: JsonView, ctx: SseParseCtx) -> SseParseCtx {
    match v.at("message"@).at("usage"@).at("input_tokens"@).unsigned() {
        Some(n) => SseParseCtx { input_tokens: Some(token_count(n)), ..ctx },
        None => ctx,
    }
}

/// True of the event types whose data is read.
pub open spec fn reads_data(event: Seq<char>) -> bool {
    ||| event == "content_block_delta"@
    ||| event == "message_delta"@
    ||| event == "message_start"@
    ||| event == "content_block_start"@
    ||| event == "error"@
}

/// What a frame of an event type whose data is read comes to, and the context
/// behind it.
pub open spec fn document_meaning(event: Seq<char>, v: JsonView, ctx: SseParseCtx) -> (
    SseFrameView,
    SseParseCtx,
) {
    if event == "content_block_delta"@ {
        (delta_frame(v, ctx.in_thinking_block), ctx)
    } else if event == "message_delta"@ {
        let usage = Usage {
            input_tokens: match ctx.input_tokens {
                Some(n) => n,
                None => 0,
            },
            output_tokens: tokens_or_zero(v.at("usage"@).at("output_tokens"@)),
        };
        (SseFrameView::Done(Some(usage)), ctx)
    } else if event == "message_start"@ {
        (SseFrameView::Skip, started_ctx(v, ctx))
    } else if event == "content_block_start"@ {
        let block_type = v.at("content_block"@).at("type"@).text_or(Seq::empty());
        let inside = crate::text::contains_text(block_type, "thinking"@);
        (SseFrameView::Skip, SseParseCtx { in_thinking_block: inside, ..ctx })
    } else {
        let message = v.at("error"@).at("message"@).text_or("unknown error"@);
        (SseFrameView::Chunk(StreamChunkView::Error(message)), ctx)
    }
}

/// What a frame comes to, and the context behind it, given its event type and the
/// document that its data holds, if it holds one.
pub open spec fn frame_meaning(event: Seq<char>, doc: Option<JsonView>, ctx: SseParseCtx) -> (
    Option<SseFrameView>,
    SseParseCtx,
) {
    if reads_data(event) {
        match doc {
            Some(v) => {
                let (frame, next) = document_meaning(event, v, ctx);
                (Some(frame), next)
            },
            None => (None, ctx),
        }
    } else if event == "content_block_stop"@ {
        (Some(SseFrameView::Skip), SseParseCtx { in_thinking_block: false, ..ctx })
    } else {
        (Some(SseFrameView::Skip), ctx)
    }
}

/// What a frame comes to, and the context behind it.
pub open spec fn parsed_frame(frame: Seq<char>, ctx: SseParseCtx) -> (
    Option<SseFrameView>,
    SseParseCtx,
) {
    frame_meaning(
        frame_event(frame),
        crate::json_text::parsed_json(frame_data(frame)),
        ctx,
    )
}

/// A frame taken apart.
#[derive(Debug)]
pub struct SseEvent {
    pub event: String,
    pub data: String,
}

/// The event type and the data of a frame.
pub fn read_fields(frame: &str) -> (r: SseEvent)
    ensures
        r.event@ == frame_event(frame@),
        r.data@ == frame_data(frame@),
{
    let list = lines(frame);
    let ghost all = crate::text::text_views(list@);
    let mut event = String::new();
    let mut data = String::new();
    let mut i: usize = 0;
    assert(all.take(0) == Seq::<Seq<char>>::empty());
    while i < list.len()
        invariant
            i <= list@.len(),
            all == crate::text::text_views(list@),
            event@ == event_of(all.take(i as int)),
            data@ == data_of(all.take(i as int)),
        decreases list@.len() - i,
    {
        let line = list[i].as_str();
        proof {
            assert(all.take(i + 1).drop_last() == all.take(i as int));
            assert(all.take(i + 1).last() == line@);
        }
        if let Some(value) = strip_prefix(line, "event:") {
            event = trim(value.as_str());
            proof {
                lemma_event_line_has_no_data(line@);
                assert(data@ + Seq::<char>::empty() == data@);
            }
        } else if let Some(value) = strip_prefix(line, "data: ") {
            data.append(value.as_str());
        } else if let Some(value) = strip_prefix(line, "data:") {
            data.append(value.as_str());
        } else {
            assert(data@ + Seq::<char>::empty() == data@);
        }
        i += 1;
    }
    assert(all.take(i as int) == all);
    SseEvent { event, data }
}

/// A line that names an event type holds no data.
proof fn lemma_event_line_has_no_data(line: Seq<char>)
    requires
        line_event(line) is Some,
    ensures
        line_data(line) == Seq::<char>::empty(),
{
    reveal_strlit("event:");
    reveal_strlit("data: ");
    reveal_strlit("data:");
    assert("event:"@[0] == 'e');
    assert("data: "@[0] == 'd');
    assert("data:"@[0] == 'd');
}

/// Take the first complete frame off the front of the buffer.
pub fn take_frame(buf: &mut String) -> (r: Option<String>)
    ensures
        match next_frame(old(buf)@) {
            Some((frame, rest)) => r matches Some(f) && f@ == frame && final(buf)@ == rest,
            None => r is None && *final(buf) == *old(buf),
        },
{
    let text = chars_of(buf.as_str());
    let n: usize = text.len();
    let blank = chars_of("\n\n");
    proof {
        reveal_strlit("\n\n");
        crate::text::lemma_find_from(buf@, "\n\n"@, 0);
    }
    match find_chars(&text, &blank, 0) {
        Some(i) => {
            let end: usize = i + 2;
            let frame = slice_chars(buf.as_str(), 0, end);
            let rest = slice_chars(buf.as_str(), end, n);
            *buf = rest;
            Some(frame)
        },
        None => None,
    }
}

/// The low 32 bits of a token count.
pub fn narrow_count(n: u64) -> (r: u32)
    ensures
        r == token_count(n),
{
    assert(n % 0x1_0000_0000 == n & 0xffff_ffff) by (bit_vector);
    assert(n & 0xffff_ffff <= 0xffff_ffff) by (bit_vector);
    (n & 0xffff_ffff) as u32
}

/// The chunk with the given text, which is skipped if it is empty.
fn text_chunk(text: &str, thinking: bool) -> (r: SseFrame)
    ensures
        r@ == text_frame(text@, thinking),
{
    if text.is_empty() {
        SseFrame::Skip
    } else if thinking {
        SseFrame::Chunk(StreamChunk::Thinking(text.to_owned()))
    } else {
        SseFrame::Chunk(StreamChunk::Delta(text.to_owned()))
    }
}

/// What a `content_block_delta` comes to. Reasoning streams as `delta.thinking`, or
/// as plain `delta.text` inside a thinking block; both surface apart from the
/// answer.
fn read_delta(v: &Json, in_thinking_block: bool) -> (r: SseFrame)
    ensures
        r@ == delta_frame(v@, in_thinking_block),
{
    match v.str_under("delta", "thinking") {
        Some(thinking) => text_chunk(thinking, true),
        None => match v.str_under("delta", "text") {
            Some(text) => text_chunk(text, in_thinking_block),
            None => SseFrame::Skip,
        },
    }
}

/// The context behind a `message_start`.
fn read_start(v: &Json, ctx: SseParseCtx) -> (r: SseParseCtx)
    ensures
        r == started_ctx(v@, ctx),
{
    let count = match v.get("message") {
        Some(message) => message.u64_under("usage", "input_tokens"),
        None => None,
    };
    match count {
        Some(n) => SseParseCtx {
            input_tokens: Some(narrow_count(n)),
            in_thinking_block: ctx.in_thinking_block,
        },
        None => ctx,
    }
}

/// What a document comes to in a frame of an event type whose data is read.
fn read_document(event: &str, v: &Json, ctx: &mut SseParseCtx) -> (r: SseFrame)
    ensures
        (r@, *final(ctx)) == document_meaning(event@, v@, *old(ctx)),
{
    if str_eq(event, "content_block_delta") {
        read_delta(v, ctx.in_thinking_block)
    } else if str_eq(event, "message_delta") {
        let output_tokens: u32 = match v.u64_under("usage", "output_tokens") {
            Some(n) => narrow_count(n),
            None => 0,
        };
        let input_tokens: u32 = match ctx.input_tokens {
            Some(n) => n,
            None => 0,
        };
        SseFrame::Done(Some(Usage { input_tokens, output_tokens }))
    } else if str_eq(event, "message_start") {
        *ctx = read_start(v, *ctx);
        SseFrame::Skip
    } else if str_eq(event, "content_block_start") {
        let block_type = match v.str_under("content_block", "type") {
            Some(t) => t,
            None => "",
        };
        proof {
            reveal_strlit("");
            assert(""@ == Seq::<char>::empty());
        }
        ctx.in_thinking_block = str_contains(block_type, "thinking");
        SseFrame::Skip
    } else {
        let message = match v.str_under("error", "message") {
            Some(m) => m,
            None => "unknown error",
        };
        SseFrame::Chunk(StreamChunk::Error(message.to_owned()))
    }
}

/// Whether the data of frames of an event type is read.
pub fn event_reads_data(event: &str) -> (r: bool)
    ensures
        r == reads_data(event@),
{
    str_eq(event, "content_block_delta") || str_eq(event, "message_delta") || str_eq(
        event,
        "message_start",
    ) || str_eq(event, "content_block_start") || str_eq(event, "error")
}

/// What a frame comes to, given its event type and the document that its data
/// holds, if it holds one. Nothing comes of a frame whose data had to be read and
/// is no document.
pub fn interpret_frame(event: &str, doc: Option<Json>, ctx: &mut SseParseCtx) -> (r: Option<
    SseFrame,
>)
    ensures
        (optional_frame(r), *final(ctx)) == frame_meaning(
            event@,
            match doc {
                Some(v) => Some(v@),
                None => None,
            },
            *old(ctx),
        ),
{
    if event_reads_data(event) {
        match doc {
            Some(v) => Some(read_document(event, &v, ctx)),
            None => None,
        }
    } else {
        if str_eq(event, "content_block_stop") {
            ctx.in_thinking_block = false;
        }
        Some(SseFrame::Skip)
    }
}

/// Try to consume one complete frame (`event: ...\ndata: ...\n\n`) from the buffer.
/// Nothing comes back if there is no complete frame yet, or if the frame's data
/// had to be read and is not JSON; such a frame is consumed all the same. `ctx`
/// carries the little cross-frame state a frame can establish.
pub fn try_parse_sse_frame(buf: &mut String, ctx: &mut SseParseCtx) -> (r: Option<SseFrame>)
    ensures
        match next_frame(old(buf)@) {
            Some((frame, rest)) => {
                &&& final(buf)@ == rest
                &&& (optional_frame(r), *final(ctx)) == parsed_frame(frame, *old(ctx))
            },
            None => r is None && *final(buf) == *old(buf) && *final(ctx) == *old(ctx),
        },
{
    match take_frame(buf) {
        Some(frame) => {
            let fields = read_fields(frame.as_str());
            let doc = if event_reads_data(fields.event.as_str()) {
                Json::parse(fields.data.as_str())
            } else {
                None
            };
            interpret_frame(fields.event.as_str(), doc, ctx)
        },
        None => None,
    }
}

/// A complete frame is the same however much text has arrived behind it.
pub proof fn law_frame_is_stable(buf: Seq<char>, more: Seq<char>)
    ensures
        next_frame(buf) matches Some((frame, rest)) ==> next_frame(buf + more) == Some(
            (frame, rest + more),
        ),
{
    reveal_strlit("\n\n");
    crate::text::lemma_find_extended(buf, "\n\n"@, more);
    crate::text::lemma_find_from(buf, "\n\n"@, 0);
    if let Some(i) = crate::text::find(buf, "\n\n"@) {
        assert((buf + more).take(i + 2) == buf.take(i + 2));
        assert((buf + more).skip(i + 2) == buf.skip(i + 2) + more);
    }
}

/// Taking a frame loses and adds nothing: the frame and the text behind it are the
/// buffer, and the frame ends in the buffer's first blank line.
pub proof fn law_frame_is_a_prefix(buf: Seq<char>)
    ensures
        next_frame(buf) matches Some((frame, rest)) ==> {
            &&& frame + rest == buf
            &&& frame.len() >= 2
            &&& crate::text::find(frame, "\n\n"@) == Some(frame.len() - 2)
        },
        next_frame(buf) is None ==> !crate::text::contains_text(buf, "\n\n"@),
{
    reveal_strlit("\n\n");
    let pat = "\n\n"@;
    crate::text::lemma_find_from(buf, pat, 0);
    if let Some((frame, rest)) = next_frame(buf) {
        let i = crate::text::find(buf, pat)->0;
        assert(frame + rest == buf);
        assert(frame.subrange(i, i + 2) == buf.subrange(i, i + 2));
        assert forall|j: int| 0 <= j < i implies !crate::text::occurs_at(frame, pat, j) by {
            assert(!crate::text::occurs_at(buf, pat, j));
            assert(frame.subrange(j, j + 2) == buf.subrange(j, j + 2));
        }
        crate::text::lemma_find_from_unique(frame, pat, 0, i);
    }
}

/// Inside a thinking block no frame ever surfaces as text of the answer.
pub proof fn law_thinking_is_no_answer(event: Seq<char>, doc: Option<JsonView>, ctx: SseParseCtx)
    requires
        ctx.in_thinking_block,
    ensures
        !(frame_meaning(event, doc, ctx).0 matches Some(SseFrameView::Chunk(
            StreamChunkView::Delta(_),
        ))),
{
}

/// A text that surfaces, as answer or as reasoning, is never empty.
pub proof fn law_no_empty_text(event: Seq<char>, doc: Option<JsonView>, ctx: SseParseCtx)
    ensures
        frame_meaning(event, doc, ctx).0 matches Some(SseFrameView::Chunk(StreamChunkView::Delta(t)))
            ==> t.len() > 0,
        frame_meaning(event, doc, ctx).0 matches Some(
            SseFrameView::Chunk(StreamChunkView::Thinking(t)),
        ) ==> t.len() > 0,
{
}

/// A frame changes the context only as its event type allows: the input count is
/// set by `message_start` alone, and only the start and the stop of a content block
/// tell whether it is a thinking block.
pub proof fn law_context_changes(event: Seq<char>, doc: Option<JsonView>, ctx: SseParseCtx)
    ensures
        event != "message_start"@ ==> frame_meaning(event, doc, ctx).1.input_tokens
            == ctx.input_tokens,
        event != "content_block_start"@ && event != "content_block_stop"@ ==> frame_meaning(
            event,
            doc,
            ctx,
        ).1.in_thinking_block == ctx.in_thinking_block,
{
}

/// The context behind a run of frames, each given by its event type and the
/// document that its data holds.
pub open spec fn ctx_after(frames: Seq<(Seq<char>, Option<JsonView>)>, ctx: SseParseCtx) -> SseParseCtx
    decreases frames.len(),
{
    if frames.len() == 0 {
        ctx
    } else {
        let before = ctx_after(frames.drop_last(), ctx);
        frame_meaning(frames.last().0, frames.last().1, before).1
    }
}

/// The input count of a `message_start` is still known behind any run of frames
/// that holds no other `message_start`.
pub proof fn lemma_input_tokens_kept(frames: Seq<(Seq<char>, Option<JsonView>)>, ctx: SseParseCtx)
    requires
        forall|i: int| 0 <= i < frames.len() ==> (#[trigger] frames[i]).0 != "message_start"@,
    ensures
        ctx_after(frames, ctx).input_tokens == ctx.input_tokens,
    decreases frames.len(),
{
    if frames.len() > 0 {
        lemma_input_tokens_kept(frames.drop_last(), ctx);
        law_context_changes(
            frames.last().0,
            frames.last().1,
            ctx_after(frames.drop_last(), ctx),
        );
        assert(frames[frames.len() - 1].0 != "message_start"@);
    }
}

/// The usage that a `message_delta` reports has the input count of the last
/// `message_start` before it, whatever other frames came between.
pub proof fn law_input_tokens_carry(
    start: JsonView,
    between: Seq<(Seq<char>, Option<JsonView>)>,
    end: JsonView,
    ctx: SseParseCtx,
    n: u64,
)
    requires
        start.at("message"@).at("usage"@).at("input_tokens"@).unsigned() == Some(n),
        forall|i: int| 0 <= i < between.len() ==> (#[trigger] between[i]).0 != "message_start"@,
    ensures
        ({
            let started = frame_meaning("message_start"@, Some(start), ctx).1;
            frame_meaning("message_delta"@, Some(end), ctx_after(between, started)).0 == Some(
                SseFrameView::Done(
                    Some(
                        Usage {
                            input_tokens: token_count(n),
                            output_tokens: tokens_or_zero(end.at("usage"@).at("output_tokens"@)),
                        },
                    ),
                ),
            )
        }),
{
    let started = frame_meaning("message_start"@, Some(start), ctx).1;
    lemma_input_tokens_kept(between, started);
    reveal_strlit("message_start");
    reveal_strlit("message_delta");
    reveal_strlit("content_block_delta");
    assert("message_start"@[8] == 's');
    assert("message_delta"@[8] == 'd');
    assert("content_block_delta"@.len() == 19);
    assert("message_start"@.len() == 13);
    assert("message_delta"@.len() == 13);
}

/// Frames that neither start nor stop a content block leave it as it is.
pub proof fn lemma_block_kept(frames: Seq<(Seq<char>, Option<JsonView>)>, ctx: SseParseCtx)
    requires
        forall|i: int|
            0 <= i < frames.len() ==> (#[trigger] frames[i]).0 != "content_block_start"@
                && frames[i].0 != "content_block_stop"@,
    ensures
        ctx_after(frames, ctx).in_thinking_block == ctx.in_thinking_block,
    decreases frames.len(),
{
    if frames.len() > 0 {
        lemma_block_kept(frames.drop_last(), ctx);
        law_context_changes(
            frames.last().0,
            frames.last().1,
            ctx_after(frames.drop_last(), ctx),
        );
        assert(frames[frames.len() - 1].0 != "content_block_start"@);
    }
}

/// The type of a content block tells what its text is: behind the start of a block,
/// and until one starts or stops, text that streams as plain text is reasoning if
/// the block's type has `thinking` in it, and answer if not.
pub proof fn law_block_type_governs(
    start: JsonView,
    between: Seq<(Seq<char>, Option<JsonView>)>,
    delta: JsonView,
    ctx: SseParseCtx,
    block_type: Seq<char>,
    text: Seq<char>,
)
    requires
        start.at("content_block"@).at("type"@).text() == Some(block_type),
        forall|i: int|
            0 <= i < between.len() ==> (#[trigger] between[i]).0 != "content_block_start"@
                && between[i].0 != "content_block_stop"@,
        delta.at("delta"@).at("thinking"@).text() is None,
        delta.at("delta"@).at("text"@).text() == Some(text),
        text.len() > 0,
    ensures
        ({
            let started = frame_meaning("content_block_start"@, Some(start), ctx).1;
            frame_meaning("content_block_delta"@, Some(delta), ctx_after(between, started)).0
                == Some(
                SseFrameView::Chunk(
                    if crate::text::contains_text(block_type, "thinking"@) {
                        StreamChunkView::Thinking(text)
                    } else {
                        StreamChunkView::Delta(text)
                    },
                ),
            )
        }),
{
    let started = frame_meaning("content_block_start"@, Some(start), ctx).1;
    lemma_block_kept(between, started);
    reveal_strlit("content_block_start");
    reveal_strlit("content_block_delta");
    reveal_strlit("message_delta");
    reveal_strlit("message_start");
    assert("content_block_start"@.len() == 19 && "content_block_start"@[14] == 's');
    assert("content_block_delta"@.len() == 19 && "content_block_delta"@[14] == 'd');
    assert("message_delta"@.len() == 13 && "message_start"@.len() == 13);
}

} // verus!
