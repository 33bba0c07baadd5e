//! The stream of chunks that a streamed answer becomes, as a state machine: the
//! caller awaits the network and hands in what came, the machine says what to do
//! next.

use vstd::prelude::*;
use vstd::string::*;

use crate::sse::{try_parse_sse_frame, SseFrame, SseFrameView, SseParseCtx};
use crate::types::{StreamChunk, StreamChunkView};
use crate::utf8_stream::push_chunk_utf8;

verus! {

/// The state of a stream.
#[derive(Debug)]
pub struct SseState {
    /// Text that has arrived and was not consumed yet.
    pub buf: String,
    /// Trailing bytes of a character split across network chunks.
    pub pending: Vec<u8>,
    /// True once the last chunk has been handed out.
    pub done: bool,
    pub ctx: SseParseCtx,
}

/// What the state of a stream holds.
pub struct SseStateView {
    pub buf: Seq<char>,
    pub pending: Seq<u8>,
    pub done: bool,
    pub ctx: SseParseCtx,
}

impl View for SseState {
    type V = SseStateView;

    open spec fn view(&self) -> SseStateView {
        SseStateView { buf: self.buf@, pending: self.pending@, done: self.done, ctx: self.ctx }
    }
}

/// What a stream is told.
#[derive(Debug)]
pub enum StreamInput<'a> {
    /// The consumer asks for the next chunk.
    Resume,
    /// Bytes have arrived.
    Bytes(&'a [u8]),
    /// The connection failed, with the text of the error.
    Failed(String),
    /// The connection has ended.
    Closed,
}

/// What a stream is told.
pub enum StreamInputView {
    Resume,
    Bytes(Seq<u8>),
    Failed(Seq<char>),
    Closed,
}

impl<'a> View for StreamInput<'a> {
    type V = StreamInputView;

    open spec fn view(&self) -> StreamInputView {
        match self {
            StreamInput::Resume => StreamInputView::Resume,
            StreamInput::Bytes(bytes) => StreamInputView::Bytes(bytes@),
            StreamInput::Failed(message) => StreamInputView::Failed(message@),
            StreamInput::Closed => StreamInputView::Closed,
        }
    }
}

/// What is to be done next.
#[derive(Debug)]
pub enum StreamStep {
    /// Hand a chunk to the consumer.
    Emit(StreamChunk),
    /// Await what the network brings, and hand it in.
    Read,
    /// Tell the consumer that there is nothing more.
    Finish,
}

/// What is to be done next.
pub enum StreamStepView {
    Emit(StreamChunkView),
    Read,
    Finish,
}

impl View for StreamStep {
    type V = StreamStepView;

    open spec fn view(&self) -> StreamStepView {
        match self {
            StreamStep::Emit(chunk) => StreamStepView::Emit(chunk@),
            StreamStep::Read => StreamStepView::Read,
            StreamStep::Finish => StreamStepView::Finish,
        }
    }
}

/// What looking for a frame to report ends in.
pub enum Found {
    /// A frame that is to be reported.
    Frame(SseFrameView),
    /// A frame whose data had to be read and is not JSON.
    Malformed,
    /// No complete frame is left.
    Starved,
}

/// Frames taken off the front of a text, as long as there is nothing to report:
/// what that ends in, the text that is left, and the context behind it.
pub open spec fn drained(buf: Seq<char>, ctx: SseParseCtx) -> (Found, Seq<char>, SseParseCtx)
    decreases buf.len(),
{
    match crate::sse::next_frame(buf) {
        Some((frame, rest)) if rest.len() < buf.len() => {
            let (meaning, next) = crate::sse::parsed_frame(frame, ctx);
            match meaning {
                Some(SseFrameView::Skip) => drained(rest, next),
                Some(f) => (Found::Frame(f), rest, next),
                None => (Found::Malformed, rest, next),
            }
        },
        _ => (Found::Starved, buf, ctx),
    }
}

/// What comes of the text that has arrived.
pub open spec fn advanced(s: SseStateView) -> (StreamStepView, SseStateView) {
    let (found, buf, ctx) = drained(s.buf, s.ctx);
    let next = SseStateView { buf, ctx, ..s };
    match found {
        Found::Frame(SseFrameView::Chunk(c)) => (StreamStepView::Emit(c), next),
        Found::Frame(SseFrameView::Done(usage)) => (
            StreamStepView::Emit(StreamChunkView::Done { usage }),
            SseStateView { done: true, ..next },
        ),
        _ => (StreamStepView::Read, next),
    }
}

/// The text of the error for bytes that cannot be decoded.
pub open spec fn undecodable_text(bytes: Seq<u8>) -> Seq<char> {
    crate::utf8_stream::error_text(
        crate::utf8_stream::invalid_len(crate::utf8_stream::undecoded(bytes)) as nat,
        crate::utf8_stream::valid_up_to(bytes) as nat,
    )
}

/// The state with the given bytes decoded into its text, or nothing if they
/// cannot be.
pub open spec fn received(s: SseStateView, bytes: Seq<u8>) -> Option<SseStateView> {
    match crate::utf8_stream::fed(s.pending, bytes) {
        Some((text, rest)) => Some(SseStateView { buf: s.buf + text, pending: rest, ..s }),
        None => None,
    }
}

/// What a stream does when it is told something. A stream that is done stays as it
/// is.
pub open spec fn stepped(s: SseStateView, input: StreamInputView) -> (StreamStepView, SseStateView) {
    if s.done {
        (StreamStepView::Finish, s)
    } else {
        match input {
            StreamInputView::Resume => advanced(s),
            StreamInputView::Bytes(bytes) => match received(s, bytes) {
                Some(next) => advanced(next),
                None => (
                    StreamStepView::Emit(
                        StreamChunkView::Error(undecodable_text(s.pending + bytes)),
                    ),
                    SseStateView { pending: s.pending + bytes, done: true, ..s },
                ),
            },
            StreamInputView::Failed(message) => (
                StreamStepView::Emit(StreamChunkView::Error(message)),
                SseStateView { done: true, ..s },
            ),
            StreamInputView::Closed => (
                StreamStepView::Emit(StreamChunkView::Done { usage: None }),
                SseStateView { done: true, ..s },
            ),
        }
    }
}

/// A stream of which nothing has arrived.
pub open spec fn fresh_stream() -> SseStateView {
    SseStateView {
        buf: Seq::empty(),
        pending: Seq::empty(),
        done: false,
        ctx: SseParseCtx { input_tokens: None, in_thinking_block: false },
    }
}

impl SseState {
    /// A stream of which nothing has arrived.
    pub fn new() -> (r: SseState)
        ensures
            r@ == fresh_stream(),
    {
        SseState {
            buf: String::new(),
            pending: Vec::new(),
            done: false,
            ctx: SseParseCtx::default(),
        }
    }

    /// Take frames off the buffer until there is something to report or no frame
    /// is left.
    fn advance(&mut self) -> (r: StreamStep)
        ensures
            (r@, final(self)@) == advanced(old(self)@),
    {
        loop
            invariant
                self.pending@ == old(self).pending@,
                self.done == old(self).done,
                drained(self.buf@, self.ctx) == drained(old(self).buf@, old(self).ctx),
            decreases self.buf@.len(),
        {
            proof {
                crate::sse::law_frame_is_a_prefix(self.buf@);
            }
            match try_parse_sse_frame(&mut self.buf, &mut self.ctx) {
                Some(SseFrame::Chunk(chunk)) => {
                    return StreamStep::Emit(chunk);
                },
                Some(SseFrame::Done(usage)) => {
                    self.done = true;
                    return StreamStep::Emit(StreamChunk::Done { usage });
                },
                Some(SseFrame::Skip) => {},
                None => {
                    return StreamStep::Read;
                },
            }
        }
    }

    /// Tell the stream something, and learn what is to be done next.
    pub fn step(&mut self, input: StreamInput) -> (r: StreamStep)
        ensures
            (r@, final(self)@) == stepped(old(self)@, input@),
    {
        if self.done {
            return StreamStep::Finish;
        }
        match input {
            StreamInput::Resume => self.advance(),
            StreamInput::Bytes(bytes) => match push_chunk_utf8(
                &mut self.buf,
                &mut self.pending,
                bytes,
            ) {
                Ok(()) => self.advance(),
                Err(e) => {
                    self.done = true;
                    StreamStep::Emit(StreamChunk::Error(e.message()))
                },
            },
            StreamInput::Failed(message) => {
                self.done = true;
                StreamStep::Emit(StreamChunk::Error(message))
            },
            StreamInput::Closed => {
                self.done = true;
                StreamStep::Emit(StreamChunk::Done { usage: None })
            },
        }
    }
}

/// Once a stream is done it stays done, and all it says is that there is nothing
/// more.
pub proof fn law_done_is_final(s: SseStateView, input: StreamInputView)
    requires
        s.done,
    ensures
        stepped(s, input) == (StreamStepView::Finish, s),
{
}

/// A stream ends for its consumer exactly where it was done before, and it becomes
/// done exactly with a chunk that says so: the end of the answer, or a failure of
/// the connection or of decoding.
pub proof fn law_end_is_announced(s: SseStateView, input: StreamInputView)
    requires
        !s.done,
    ensures
        ({
            let (step, next) = stepped(s, input);
            &&& !(step is Finish)
            &&& next.done ==> {
                ||| step matches StreamStepView::Emit(StreamChunkView::Done { .. })
                ||| step matches StreamStepView::Emit(StreamChunkView::Error(_))
            }
            &&& (step matches StreamStepView::Emit(StreamChunkView::Done { .. }) ==> next.done)
        }),
{
    lemma_drained_reports(s.buf, s.ctx);
    if let StreamInputView::Bytes(bytes) = input {
        if let Some(next) = received(s, bytes) {
            lemma_drained_reports(next.buf, next.ctx);
        }
    }
}

/// A connection that ends early still ends the answer, so that no consumer hangs.
pub proof fn law_close_ends_the_answer(s: SseStateView)
    requires
        !s.done,
    ensures
        stepped(s, StreamInputView::Closed).0 == StreamStepView::Emit(
            StreamChunkView::Done { usage: None },
        ),
        stepped(s, StreamInputView::Closed).1.done,
{
}

/// No frame that is passed over is reported, and no chunk that a frame comes to is
/// the end of the answer.
pub(crate) proof fn lemma_drained_reports(buf: Seq<char>, ctx: SseParseCtx)
    ensures
        match drained(buf, ctx).0 {
            Found::Frame(SseFrameView::Skip) => false,
            Found::Frame(SseFrameView::Chunk(StreamChunkView::Done { .. })) => false,
            _ => true,
        },
    decreases buf.len(),
{
    if let Some((frame, rest)) = crate::sse::next_frame(buf) {
        if rest.len() < buf.len() {
            let (meaning, next) = crate::sse::parsed_frame(frame, ctx);
            if meaning matches Some(SseFrameView::Skip) {
                lemma_drained_reports(rest, next);
            }
        }
    }
}

/// The chunks that a stream hands out one after the other until it needs more
/// bytes or is done, and how it stands then.
pub struct Run {
    pub chunks: Seq<StreamChunkView>,
    pub state: SseStateView,
    /// False if a frame whose data is not JSON stopped the run.
    pub clean: bool,
}

/// What a consumer gets that asks for chunks until the stream needs more bytes or
/// is done.
pub open spec fn run(s: SseStateView) -> Run
    decreases s.buf.len(),
{
    let (step, next) = advanced(s);
    if s.done {
        Run { chunks: Seq::empty(), state: s, clean: true }
    } else {
        match step {
            StreamStepView::Emit(c) if next.buf.len() < s.buf.len() => {
                let rest = run(next);
                Run { chunks: seq![c] + rest.chunks, ..rest }
            },
            _ => Run {
                chunks: Seq::empty(),
                state: next,
                clean: drained(s.buf, s.ctx).0 is Starved,
            },
        }
    }
}

/// What a consumer gets when bytes arrive and it asks for chunks until the stream
/// needs more bytes or is done.
pub open spec fn run_bytes(s: SseStateView, bytes: Seq<u8>) -> Run {
    if s.done {
        Run { chunks: Seq::empty(), state: s, clean: true }
    } else {
        match received(s, bytes) {
            Some(next) => run(next),
            None => Run {
                chunks: seq![StreamChunkView::Error(undecodable_text(s.pending + bytes))],
                state: stepped(s, StreamInputView::Bytes(bytes)).1,
                clean: true,
            },
        }
    }
}

/// A run is what a consumer gets that tells the stream to resume until it hands out
/// no chunk, the first time with the bytes that arrived.
pub proof fn law_run_is_stepping(s: SseStateView, bytes: Seq<u8>)
    ensures
        match stepped(s, StreamInputView::Resume) {
            (StreamStepView::Emit(c), next) => run(s).chunks == seq![c] + run(next).chunks
                && run(s).state == run(next).state,
            (_, next) => run(s).chunks.len() == 0 && run(s).state == next,
        },
        match stepped(s, StreamInputView::Bytes(bytes)) {
            (StreamStepView::Emit(c), next) => run_bytes(s, bytes).chunks == seq![c] + run(
                next,
            ).chunks && run_bytes(s, bytes).state == run(next).state,
            (_, next) => run_bytes(s, bytes).chunks.len() == 0 && run_bytes(s, bytes).state == next,
        },
{
    let none = Seq::<char>::empty();
    lemma_drained_extends(s.buf, s.ctx, none);
    if let Some(next) = received(s, bytes) {
        lemma_drained_extends(next.buf, next.ctx, none);
    }
}

/// How frames are taken off a text when more text stands behind it.
pub(crate) proof fn lemma_drained_extends(buf: Seq<char>, ctx: SseParseCtx, more: Seq<char>)
    ensures
        ({
            let (found, rest, next) = drained(buf, ctx);
            &&& rest.len() <= buf.len()
            &&& !(found is Starved) ==> rest.len() < buf.len() && drained(buf + more, ctx) == (
                found,
                rest + more,
                next,
            )
            &&& found is Starved ==> drained(buf + more, ctx) == drained(rest + more, next)
        }),
    decreases buf.len(),
{
    crate::sse::law_frame_is_stable(buf, more);
    crate::sse::law_frame_is_a_prefix(buf);
    if let Some((frame, rest)) = crate::sse::next_frame(buf) {
        let (meaning, next) = crate::sse::parsed_frame(frame, ctx);
        if meaning matches Some(SseFrameView::Skip) {
            lemma_drained_extends(rest, next, more);
        }
    }
}

/// What a run comes to when more text stands behind what it starts from. A run
/// that a malformed frame stops is stopped there all the same.
pub(crate) proof fn lemma_run_extends(s: SseStateView, more: Seq<char>, pending: Seq<u8>)
    requires
        !s.done,
    ensures
        ({
            let long = run(SseStateView { buf: s.buf + more, pending, ..s });
            let first = run(s);
            &&& first.state.done || !first.clean ==> long.chunks == first.chunks && long.clean
                == first.clean && long.state.done == first.state.done
            &&& !first.state.done && first.clean ==> {
                let second = run(
                    SseStateView { buf: first.state.buf + more, pending, ..first.state },
                );
                &&& long.chunks == first.chunks + second.chunks
                &&& long.state == second.state
                &&& long.clean == second.clean
            }
        }),
    decreases s.buf.len(),
{
    let t = SseStateView { buf: s.buf + more, pending, ..s };
    lemma_drained_extends(s.buf, s.ctx, more);
    lemma_drained_reports(s.buf, s.ctx);
    let (found, rest, ctx) = drained(s.buf, s.ctx);
    let (step, next) = advanced(s);
    let (long_step, long_next) = advanced(t);
    if found is Frame {
        assert(step is Emit);
        assert(long_step == step);
        assert(long_next == (SseStateView { buf: next.buf + more, pending, ..next }));
        if next.done {
            assert(run(next).chunks == Seq::<StreamChunkView>::empty());
            assert(run(long_next).chunks == Seq::<StreamChunkView>::empty());
            assert(run(s).state == next);
        } else {
            lemma_run_extends(next, more, pending);
            let c = step->Emit_0;
            assert(run(s).chunks == seq![c] + run(next).chunks);
            assert(run(t).chunks == seq![c] + run(long_next).chunks);
            if !run(s).state.done && run(s).clean {
                let second = run(
                    SseStateView { buf: run(s).state.buf + more, pending, ..run(s).state },
                );
                assert(seq![c] + (run(next).chunks + second.chunks) == run(s).chunks
                    + second.chunks);
            }
        }
    } else if found is Starved {
        let u = SseStateView { buf: next.buf + more, pending, ..next };
        assert(drained(u.buf, u.ctx) == drained(t.buf, t.ctx));
        assert(advanced(u) == advanced(t));
        lemma_run_same(t, u);
        assert(run(s).chunks + run(u).chunks == run(u).chunks);
    }
}

/// Runs from two states that advance alike are alike.
proof fn lemma_run_same(t: SseStateView, u: SseStateView)
    requires
        !t.done,
        !u.done,
        drained(t.buf, t.ctx) == drained(u.buf, u.ctx),
        advanced(t) == advanced(u),
    ensures
        run(t) == run(u),
{
    lemma_drained_extends(t.buf, t.ctx, Seq::empty());
    lemma_drained_extends(u.buf, u.ctx, Seq::empty());
    lemma_drained_reports(t.buf, t.ctx);
}

/// True when it makes no difference whether bytes arrive in one piece or in two.
///
/// A stream that is done: always.
/// Bytes that can be decoded: unless a frame whose data is not JSON stands in the
/// first piece, behind which the stream waits for more bytes before it looks at the
/// next frame. Bytes that cannot be decoded: only if the first piece cannot be
/// already, or nothing came of it; what could be decoded is lost otherwise when all
/// arrives in one piece.
pub open spec fn boundary_is_harmless(s: SseStateView, a: Seq<u8>, b: Seq<u8>) -> bool {
    let first = run_bytes(s, a);
    if s.done {
        true
    } else if received(s, a + b) is Some {
        first.clean || run_bytes(first.state, b).chunks.len() == 0
    } else {
        match crate::utf8_stream::fed(s.pending, a) {
            Some((text, rest)) => text.len() == 0 && first.chunks.len() == 0,
            None => true,
        }
    }
}

/// Chunk boundaries on the network do not matter for what a consumer sees: bytes
/// that arrive in two pieces lead to the same chunks, in the same order, as the
/// same bytes in one piece.
pub proof fn law_network_chunks(s: SseStateView, a: Seq<u8>, b: Seq<u8>)
    requires
        boundary_is_harmless(s, a, b),
    ensures
        run_bytes(s, a + b).chunks == run_bytes(s, a).chunks + run_bytes(
            run_bytes(s, a).state,
            b,
        ).chunks,
{
    crate::utf8_stream::law_chunk_boundaries(s.pending, a, b);
    let none = Seq::<StreamChunkView>::empty();
    let after = run_bytes(s, a);
    if s.done {
        assert(none + none == none);
    } else if received(s, a + b) is Some {
        let (text, rest) = crate::utf8_stream::fed(s.pending, a)->0;
        let (more, last) = crate::utf8_stream::fed(rest, b)->0;
        let first = received(s, a)->0;
        let both = received(s, a + b)->0;
        assert(s.buf + (text + more) == first.buf + more);
        assert(both == (SseStateView { buf: first.buf + more, pending: last, ..first }));
        lemma_run_extends(first, more, last);
        lemma_run_keeps_pending(first);
        if after.state.done {
            assert(run_bytes(after.state, b).chunks == none);
        }
        if after.state.done || !after.clean {
            assert(run_bytes(after.state, b).chunks == none);
            assert(after.chunks + none == after.chunks);
        }
    } else {
        match crate::utf8_stream::fed(s.pending, a) {
            Some((text, rest)) => {
                let first = received(s, a)->0;
                lemma_run_keeps_pending(first);
                lemma_quiet_run_is_not_done(first);
                crate::utf8_stream::lemma_no_text_decoded(s.pending + a);
                assert(rest == s.pending + a);
                assert(s.pending + (a + b) == rest + b);
                assert(after.chunks == none);
                assert(none + run_bytes(after.state, b).chunks == run_bytes(after.state, b).chunks);
            },
            None => {
                crate::utf8_stream::lemma_error_is_kept(s.pending + a, b);
                assert(s.pending + (a + b) == s.pending + a + b);
                assert(after.chunks + none == after.chunks);
            },
        }
    }
}

/// A stream that hands out nothing does not become done by it.
proof fn lemma_quiet_run_is_not_done(s: SseStateView)
    requires
        !s.done,
        run(s).chunks.len() == 0,
    ensures
        !run(s).state.done,
{
    lemma_drained_extends(s.buf, s.ctx, Seq::empty());
}

/// A run leaves the pending bytes alone.
pub(crate) proof fn lemma_run_keeps_pending(s: SseStateView)
    ensures
        run(s).state.pending == s.pending,
    decreases s.buf.len(),
{
    let (step, next) = advanced(s);
    if !s.done && step is Emit && next.buf.len() < s.buf.len() {
        lemma_run_keeps_pending(next);
    }
}

} // verus!
