//! What a consumer gets from a whole stream, from the first time that it asks for a
//! chunk until the connection has ended.

use vstd::prelude::*;

use crate::sse::{SseFrameView, SseParseCtx};
use crate::stream::{Found, SseStateView, StreamInputView, StreamStepView};
use crate::types::StreamChunkView;

verus! {

/// All chunks that a consumer gets from a stream that is told `input`, and then to
/// resume behind each chunk, while the network brings `net`, an item for each time
/// that the stream asks for more.
pub open spec fn session(
    s: SseStateView,
    input: StreamInputView,
    net: Seq<StreamInputView>,
) -> Seq<StreamChunkView>
    decreases
            net.len(),
            if input is Resume {
                0int
            } else {
                1int
            },
            s.buf.len(),
    via session_decreases
{
    match crate::stream::stepped(s, input) {
        (StreamStepView::Emit(c), next) => seq![c] + session(next, StreamInputView::Resume, net),
        (StreamStepView::Read, next) => if net.len() == 0 {
            Seq::empty()
        } else {
            session(next, net[0], net.skip(1))
        },
        (StreamStepView::Finish, _) => Seq::empty(),
    }
}

#[via_fn]
proof fn session_decreases(s: SseStateView, input: StreamInputView, net: Seq<StreamInputView>) {
    crate::stream::lemma_drained_extends(s.buf, s.ctx, Seq::empty());
}

/// All chunks that a consumer gets from a new stream, when the network brings what
/// is given and the connection then ends.
pub open spec fn consumer_items(net: Seq<StreamInputView>) -> Seq<StreamChunkView> {
    session(crate::stream::fresh_stream(), StreamInputView::Resume, net.push(StreamInputView::Closed))
}

/// The bytes that an input brings.
pub open spec fn input_bytes(input: StreamInputView) -> Seq<u8> {
    match input {
        StreamInputView::Bytes(bytes) => bytes,
        _ => Seq::empty(),
    }
}

/// The bytes that the inputs bring, one after the other.
pub open spec fn net_bytes(net: Seq<StreamInputView>) -> Seq<u8>
    decreases net.len(),
{
    if net.len() == 0 {
        Seq::empty()
    } else {
        input_bytes(net[0]) + net_bytes(net.skip(1))
    }
}

/// True when no input is a failure of the connection.
pub open spec fn no_failure(net: Seq<StreamInputView>) -> bool {
    forall|i: int| 0 <= i < net.len() ==> !((#[trigger] net[i]) is Failed)
}

/// What holds of all that a consumer gets from a stream up to its end: there is
/// something; the last item is the end of the answer or an error; the end of the
/// answer is no other item; and no text is empty.
pub open spec fn well_ended(items: Seq<StreamChunkView>) -> bool {
    &&& items.len() > 0
    &&& items.last() is Done || items.last() is Error
    &&& forall|i: int| 0 <= i < items.len() - 1 ==> !((#[trigger] items[i]) is Done)
    &&& forall|i: int|
        0 <= i < items.len() ==> match #[trigger] items[i] {
            StreamChunkView::Delta(t) => t.len() > 0,
            StreamChunkView::Thinking(t) => t.len() > 0,
            _ => true,
        }
}

/// A text that a frame comes to is not empty.
proof fn lemma_drained_text(buf: Seq<char>, ctx: SseParseCtx)
    ensures
        match crate::stream::drained(buf, ctx).0 {
            Found::Frame(SseFrameView::Chunk(StreamChunkView::Delta(t))) => t.len() > 0,
            Found::Frame(SseFrameView::Chunk(StreamChunkView::Thinking(t))) => t.len() > 0,
            _ => true,
        },
    decreases buf.len(),
{
    if let Some((frame, rest)) = crate::sse::next_frame(buf) {
        if rest.len() < buf.len() {
            let doc = crate::json_text::parsed_json(crate::sse::frame_data(frame));
            crate::sse::law_no_empty_text(crate::sse::frame_event(frame), doc, ctx);
            let (meaning, next) = crate::sse::parsed_frame(frame, ctx);
            if meaning matches Some(SseFrameView::Skip) {
                lemma_drained_text(rest, next);
            }
        }
    }
}

/// A chunk that a step hands out is no empty text.
proof fn lemma_step_text(s: SseStateView, input: StreamInputView)
    ensures
        match crate::stream::stepped(s, input).0 {
            StreamStepView::Emit(StreamChunkView::Delta(t)) => t.len() > 0,
            StreamStepView::Emit(StreamChunkView::Thinking(t)) => t.len() > 0,
            _ => true,
        },
{
    lemma_drained_text(s.buf, s.ctx);
    if let Some(next) = crate::stream::received(s, input_bytes(input)) {
        lemma_drained_text(next.buf, next.ctx);
    }
}

/// Where a chunk goes before items that are well ended, so are all.
proof fn lemma_well_ended_push_front(c: StreamChunkView, items: Seq<StreamChunkView>)
    requires
        well_ended(items),
        !(c is Done),
        c matches StreamChunkView::Delta(t) ==> t.len() > 0,
        c matches StreamChunkView::Thinking(t) ==> t.len() > 0,
    ensures
        well_ended(seq![c] + items),
        (seq![c] + items).last() == items.last(),
{
    let all = seq![c] + items;
    assert forall|i: int| 0 <= i < all.len() - 1 implies !((#[trigger] all[i]) is Done) by {
        if i > 0 {
            assert(all[i] == items[i - 1]);
        }
    }
    assert forall|i: int| 0 <= i < all.len() implies match #[trigger] all[i] {
        StreamChunkView::Delta(t) => t.len() > 0,
        StreamChunkView::Thinking(t) => t.len() > 0,
        _ => true,
    } by {
        if i > 0 {
            assert(all[i] == items[i - 1]);
        }
    }
}

/// What a session comes to from any state that is not done.
proof fn lemma_session(s: SseStateView, input: StreamInputView, net: Seq<StreamInputView>)
    requires
        !s.done,
        input is Closed || (net.len() > 0 && net.last() is Closed),
    ensures
        well_ended(session(s, input, net)),
        !(input is Failed) && no_failure(net) && crate::utf8_stream::decodable(
            s.pending + (input_bytes(input) + net_bytes(net)),
        ) ==> session(s, input, net).last() is Done,
    decreases
            net.len(),
            if input is Resume {
                0int
            } else {
                1int
            },
            s.buf.len(),
{
    let (step, next) = crate::stream::stepped(s, input);
    let bytes = input_bytes(input);
    let later = net_bytes(net);
    let good = !(input is Failed) && no_failure(net) && crate::utf8_stream::decodable(
        s.pending + (bytes + later),
    );
    crate::stream::law_end_is_announced(s, input);
    lemma_step_text(s, input);
    crate::stream::lemma_drained_extends(s.buf, s.ctx, Seq::empty());
    crate::utf8_stream::law_chunk_boundaries(s.pending, bytes, later);
    if input is Bytes {
        if good {
            assert(crate::stream::received(s, bytes) is Some);
            assert(next.pending == (crate::utf8_stream::fed(s.pending, bytes)->0).1);
        }
    } else {
        assert(bytes + later == later);
    }
    match step {
        StreamStepView::Emit(c) => {
            if next.done {
                assert(session(next, StreamInputView::Resume, net)
                    == Seq::<StreamChunkView>::empty());
                assert(session(s, input, net) == seq![c]);
                if good {
                    lemma_done_without_error(s, input);
                }
            } else {
                lemma_session(next, StreamInputView::Resume, net);
                assert(Seq::<u8>::empty() + later == later);
                lemma_well_ended_push_front(c, session(next, StreamInputView::Resume, net));
            }
        },
        StreamStepView::Read => {
            let rest = net.skip(1);
            if rest.len() > 0 {
                assert(rest.last() == net.last());
            } else {
                assert(net[0] == net.last());
            }
            if no_failure(net) {
                assert(no_failure(rest)) by {
                    assert forall|i: int| 0 <= i < rest.len() implies !((#[trigger] rest[i]) is Failed) by {
                        assert(rest[i] == net[i + 1]);
                    }
                }
            }
            lemma_session(next, net[0], rest);
        },
        StreamStepView::Finish => {},
    }
}

/// A stream that becomes done, while its bytes can be decoded and the connection
/// holds, says that the answer has ended.
proof fn lemma_done_without_error(s: SseStateView, input: StreamInputView)
    requires
        !s.done,
        !(input is Failed),
        crate::stream::received(s, input_bytes(input)) is Some,
        crate::stream::stepped(s, input).1.done,
    ensures
        crate::stream::stepped(s, input).0 matches StreamStepView::Emit(StreamChunkView::Done { .. }),
{
}

/// A consumer always gets an end. Whatever the network brings before the connection
/// ends: the consumer gets at least one item; the last is the end of the answer or
/// an error, and the end of the answer is never another one; no text is empty. If
/// the connection does not fail and the bytes can be decoded, the last item is the
/// end of the answer, whatever errors the API reported before.
pub proof fn law_consumer_gets_an_end(net: Seq<StreamInputView>)
    ensures
        well_ended(consumer_items(net)),
        no_failure(net) && crate::utf8_stream::decodable(net_bytes(net))
            ==> consumer_items(net).last() is Done,
{
    let all = net.push(StreamInputView::Closed);
    lemma_net_bytes_push(net);
    lemma_session(crate::stream::fresh_stream(), StreamInputView::Resume, all);
    assert(Seq::<u8>::empty() + (Seq::<u8>::empty() + net_bytes(all)) == net_bytes(all));
    if no_failure(net) {
        assert(no_failure(all));
    }
}

/// The end of a connection brings no bytes.
proof fn lemma_net_bytes_push(net: Seq<StreamInputView>)
    ensures
        net_bytes(net.push(StreamInputView::Closed)) == net_bytes(net),
    decreases net.len(),
{
    let all = net.push(StreamInputView::Closed);
    if net.len() == 0 {
        assert(all.skip(1) == net);
    } else {
        assert(all.skip(1) == net.skip(1).push(StreamInputView::Closed));
        lemma_net_bytes_push(net.skip(1));
    }
}

/// An error that the API reports in a frame does not end the stream. The consumer
/// gets it, the stream is not done, and if the connection then ends, now or after
/// more has come, the consumer gets more behind the error, up to an end.
pub proof fn law_error_frame_goes_on(
    s: SseStateView,
    input: StreamInputView,
    message: Seq<char>,
    net: Seq<StreamInputView>,
)
    requires
        !s.done,
        !(input is Failed),
        crate::stream::received(s, input_bytes(input)) is Some,
        crate::stream::stepped(s, input).0 == StreamStepView::Emit(StreamChunkView::Error(message)),
    ensures
        ({
            let next = crate::stream::stepped(s, input).1;
            let behind = session(next, StreamInputView::Resume, net);
            &&& !next.done
            &&& session(s, input, net) == seq![StreamChunkView::Error(message)] + behind
            &&& net.len() > 0 && net.last() is Closed ==> well_ended(behind)
        }),
{
    if net.len() > 0 && net.last() is Closed {
        lemma_session(crate::stream::stepped(s, input).1, StreamInputView::Resume, net);
    }
}

/// True when each frame that is read off a text has data that is JSON, where its
/// event type is one whose data is read. No frame is read behind the one that ends
/// the answer.
pub open spec fn frames_hold_json(text: Seq<char>) -> bool
    decreases text.len(),
{
    match crate::sse::next_frame(text) {
        Some((frame, rest)) if rest.len() < text.len() => {
            let event = crate::sse::frame_event(frame);
            &&& crate::sse::reads_data(event) ==> crate::json_text::parsed_json(
                crate::sse::frame_data(frame),
            ) is Some
            &&& event == "message_delta"@ || frames_hold_json(rest)
        },
        _ => true,
    }
}

/// True of a body that is valid UTF-8, but for a last character that may be
/// incomplete, and whose frames that are read hold JSON.
pub open spec fn readable_body(body: Seq<u8>) -> bool {
    match crate::utf8_stream::fed(Seq::empty(), body) {
        Some((text, _)) => frames_hold_json(text),
        None => false,
    }
}

/// What the network brings when a body arrives in the given pieces.
pub open spec fn arrivals(pieces: Seq<Seq<u8>>) -> Seq<StreamInputView> {
    Seq::new(pieces.len(), |i: int| StreamInputView::Bytes(pieces[i]))
}

/// Whether the frames of a text hold JSON, once those are taken off that there is
/// nothing to report of.
proof fn lemma_drained_json(text: Seq<char>, ctx: SseParseCtx)
    ensures
        frames_hold_json(text) == match crate::stream::drained(text, ctx) {
            (Found::Frame(SseFrameView::Done(_)), _, _) => true,
            (Found::Frame(_), rest, _) => frames_hold_json(rest),
            (Found::Malformed, _, _) => false,
            (Found::Starved, _, _) => true,
        },
    decreases text.len(),
{
    reveal_strlit("content_block_delta");
    reveal_strlit("message_delta");
    assert("content_block_delta"@.len() != "message_delta"@.len());
    if let Some((frame, rest)) = crate::sse::next_frame(text) {
        if rest.len() < text.len() {
            let (meaning, next) = crate::sse::parsed_frame(frame, ctx);
            if meaning matches Some(SseFrameView::Skip) {
                lemma_drained_json(rest, next);
            }
        }
    }
}

/// No malformed frame stops a run exactly when the frames that are read hold JSON.
proof fn lemma_clean_run(s: SseStateView)
    requires
        !s.done,
    ensures
        crate::stream::run(s).clean == frames_hold_json(s.buf),
    decreases s.buf.len(),
{
    lemma_drained_json(s.buf, s.ctx);
    crate::stream::lemma_drained_extends(s.buf, s.ctx, Seq::empty());
    crate::stream::lemma_drained_reports(s.buf, s.ctx);
    let (step, next) = crate::stream::advanced(s);
    if step is Emit {
        if next.done {
            assert(crate::stream::run(next).clean);
        } else {
            lemma_clean_run(next);
        }
    }
}

/// All chunks that a consumer gets from a stream that asks for more.
spec fn awaited(s: SseStateView, net: Seq<StreamInputView>) -> Seq<StreamChunkView> {
    if net.len() == 0 {
        Seq::empty()
    } else {
        session(s, net[0], net.skip(1))
    }
}

/// A session is a run and what comes when the stream asks for more.
proof fn lemma_session_runs(s: SseStateView, net: Seq<StreamInputView>)
    ensures
        session(s, StreamInputView::Resume, net) == crate::stream::run(s).chunks + awaited(
            crate::stream::run(s).state,
            net,
        ),
    decreases s.buf.len(),
{
    let (step, next) = crate::stream::stepped(s, StreamInputView::Resume);
    let end = awaited(crate::stream::run(s).state, net);
    crate::stream::lemma_drained_extends(s.buf, s.ctx, Seq::empty());
    if step is Emit {
        let c = step->Emit_0;
        lemma_session_runs(next, net);
        assert(seq![c] + (crate::stream::run(next).chunks + end) == seq![c] + crate::stream::run(
            next,
        ).chunks + end);
    } else {
        assert(Seq::<StreamChunkView>::empty() + end == end);
    }
}

/// A session that begins with bytes is a run with them and what comes when the
/// stream asks for more.
proof fn lemma_session_runs_bytes(s: SseStateView, bytes: Seq<u8>, net: Seq<StreamInputView>)
    requires
        !s.done,
        crate::stream::received(s, bytes) is Some,
    ensures
        session(s, StreamInputView::Bytes(bytes), net) == crate::stream::run_bytes(s, bytes).chunks
            + awaited(crate::stream::run_bytes(s, bytes).state, net),
{
    let there = crate::stream::received(s, bytes)->0;
    assert(crate::stream::stepped(s, StreamInputView::Bytes(bytes)) == crate::stream::stepped(
        there,
        StreamInputView::Resume,
    ));
    lemma_session_runs(there, net);
}

/// A stream that has nothing more to hand out of what has arrived.
spec fn waiting(s: SseStateView) -> bool {
    &&& !s.done
    &&& crate::stream::drained(s.buf, s.ctx) == (Found::Starved, s.buf, s.ctx)
    &&& crate::utf8_stream::fed(s.pending, Seq::empty()) == Some((Seq::<char>::empty(), s.pending))
}

/// A run that no malformed frame stops ends where the stream is done or waits.
proof fn lemma_run_ends_waiting(s: SseStateView)
    requires
        !s.done,
        crate::stream::run(s).clean,
        crate::utf8_stream::fed(s.pending, Seq::empty()) == Some((Seq::<char>::empty(), s.pending)),
    ensures
        crate::stream::run(s).state.done || waiting(crate::stream::run(s).state),
    decreases s.buf.len(),
{
    let none = Seq::<char>::empty();
    let (found, rest, ctx) = crate::stream::drained(s.buf, s.ctx);
    crate::stream::lemma_drained_extends(s.buf, s.ctx, none);
    crate::stream::lemma_drained_reports(s.buf, s.ctx);
    assert(s.buf + none == s.buf);
    assert(rest + none == rest);
    let (step, next) = crate::stream::advanced(s);
    if step is Emit {
        if next.done {
            assert(crate::stream::run(next).state == next);
        } else {
            lemma_run_ends_waiting(next);
        }
    }
}

/// What a consumer gets of a body in pieces, up to the end of the connection: what
/// it gets of the whole body at once, and the end of the answer if the body did not
/// hold it.
proof fn lemma_pieces(s: SseStateView, pieces: Seq<Seq<u8>>)
    requires
        waiting(s),
        crate::stream::received(s, pieces.flatten()) is Some,
        crate::stream::run_bytes(s, pieces.flatten()).clean,
    ensures
        ({
            let whole = crate::stream::run_bytes(s, pieces.flatten());
            awaited(s, arrivals(pieces).push(StreamInputView::Closed)) == whole.chunks + if whole.state.done {
                Seq::empty()
            } else {
                seq![StreamChunkView::Done { usage: None }]
            }
        }),
    decreases pieces.len(),
{
    let body = pieces.flatten();
    let whole = crate::stream::run_bytes(s, body);
    let net = arrivals(pieces).push(StreamInputView::Closed);
    let end = seq![StreamChunkView::Done { usage: None }];
    let none = Seq::<StreamChunkView>::empty();
    if pieces.len() == 0 {
        assert(s.buf + Seq::<char>::empty() == s.buf);
        assert(crate::stream::received(s, body) == Some(s));
        let (step, next) = crate::stream::stepped(s, StreamInputView::Closed);
        assert(session(next, StreamInputView::Resume, net.skip(1)) == none);
        assert(awaited(s, net) == end + none);
        assert(none + end == end + none);
    } else {
        let a = pieces[0];
        let later = pieces.drop_first();
        let b = later.flatten();
        assert(body == a + b);
        assert(net.skip(1) == arrivals(later).push(StreamInputView::Closed));
        crate::utf8_stream::law_chunk_boundaries(s.pending, a, b);
        crate::utf8_stream::lemma_pending_is_stable(s.pending, a);
        let (text, rest) = crate::utf8_stream::fed(s.pending, a)->0;
        let (more, last) = crate::utf8_stream::fed(rest, b)->0;
        let first = crate::stream::received(s, a)->0;
        let both = crate::stream::received(s, body)->0;
        assert(s.buf + (text + more) == first.buf + more);
        assert(both == (SseStateView { buf: first.buf + more, pending: last, ..first }));
        let mid = crate::stream::run(first);
        crate::stream::lemma_run_extends(first, more, last);
        crate::stream::lemma_run_keeps_pending(first);
        lemma_session_runs_bytes(s, a, net.skip(1));
        if mid.state.done {
            assert(awaited(mid.state, net.skip(1)) == none);
        } else {
            lemma_run_ends_waiting(first);
            lemma_pieces(mid.state, later);
            let second = crate::stream::run_bytes(mid.state, b);
            let close = if whole.state.done {
                none
            } else {
                end
            };
            assert(mid.chunks + (second.chunks + close) == mid.chunks + second.chunks + close);
        }
    }
}

/// Chunk boundaries on the network do not matter for what a consumer sees: however
/// a body is cut into pieces, a consumer gets the same items in the same order, the
/// one that ends the stream included. Left out are bodies that are not valid UTF-8,
/// of which text decoded before the bad bytes is lost if it arrives with them, and
/// bodies with a frame that is read and holds no JSON, behind which the stream waits
/// for more bytes.
pub proof fn law_cuts_do_not_matter(one: Seq<Seq<u8>>, other: Seq<Seq<u8>>)
    requires
        one.flatten() == other.flatten(),
        readable_body(one.flatten()),
    ensures
        consumer_items(arrivals(one)) == consumer_items(arrivals(other)),
{
    let s = crate::stream::fresh_stream();
    let body = one.flatten();
    let none = Seq::<u8>::empty();
    crate::utf8_stream::lemma_pending_is_stable(none, none);
    assert(none + none == none);
    assert(waiting(s));
    let there = crate::stream::received(s, body)->0;
    assert(s.buf + there.buf == there.buf);
    lemma_clean_run(there);
    lemma_pieces(s, one);
    lemma_pieces(s, other);
}

} // verus!
