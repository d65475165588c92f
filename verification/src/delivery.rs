//! What a streamed chat delivers, from the first poll to the end, and why
//! the cut of the response into chunks does not matter.
//!
//! [`produced`] runs the machine of [`crate::stream`] the way a caller does:
//! it polls, hands on what the machine yields, and answers every request
//! for bytes with the next chunk of the connection, or with its end.

use vstd::prelude::*;
use crate::chat::ReplyModel;
use crate::entities::Providers;
use crate::errors::ChatError;
use crate::framing::{
    lemma_next_record_append, lemma_next_record_shrinks, next_record, RecordModel,
};
use crate::providers::types::ResponseFrame;
use crate::reasoning::{
    advance, brackets_begin_markers, group, holds_marker, initial, lemma_advance_concat,
    lemma_rechunk, lemma_select_concat, lemma_select_tag, lemma_split_holds_no_marker, scan,
    select, tag, ReasoningState, Run, Tagged,
};
use crate::stream::{
    after_chunk, after_content, after_decoded, after_end, finished, hand_out, increments,
    opening, polled, ActionModel, Phase, StreamModel,
};

verus! {

/// How far a phase is from the end of the stream.
pub open spec fn rank(phase: Phase) -> nat {
    match phase {
        Phase::Open => 2,
        Phase::Ended => 1,
        Phase::Closed => 0,
    }
}

/// How many values wait to be handed out: the ready increments, and the
/// failure if there is one.
pub open spec fn waiting(m: StreamModel) -> nat {
    m.ready.len() + if m.failure is Some {
        1nat
    } else {
        0nat
    }
}

/// The values that a stream delivers from state `m` on, when the connection
/// still has `chunks` to give and ends after them: the increments in order,
/// and the error that ends the stream, if one does.
pub open spec fn produced(m: StreamModel, chunks: Seq<Seq<u8>>) -> Seq<Result<ReplyModel, ChatError>>
    decreases chunks.len(), rank(m.phase), m.buffer.len(), waiting(m),
    via produced_terminates
{
    let (next, action) = polled(m);
    match action {
        ActionModel::Yield(reply) => seq![Ok(reply)] + produced(next, chunks),
        ActionModel::Fail(error) => seq![Err(error)],
        ActionModel::Done => Seq::empty(),
        ActionModel::Read => if chunks.len() > 0 {
            produced(after_chunk(next, chunks[0]), chunks.skip(1))
        } else {
            produced(after_end(next), chunks)
        },
    }
}

#[via_fn]
proof fn produced_terminates(m: StreamModel, chunks: Seq<Seq<u8>>) {
    lemma_poll_makes_progress(m);
}

/// A poll never adds to the buffer; it leaves the phase as it is or closes
/// the stream. It asks for bytes only while the stream is open, and leaves
/// it open then. When it yields an increment, the stream has come closer to
/// its end, or bytes have left the buffer, or fewer values wait.
pub proof fn lemma_poll_makes_progress(m: StreamModel)
    ensures
        polled(m).0.buffer.len() <= m.buffer.len(),
        rank(polled(m).0.phase) <= rank(m.phase),
        polled(m).0.phase == m.phase || polled(m).0.phase == Phase::Closed,
        polled(m).1 is Read ==> m.phase == Phase::Open && polled(m).0.phase == Phase::Open,
        polled(m).1 is Yield ==> rank(polled(m).0.phase) < rank(m.phase)
            || polled(m).0.buffer.len() < m.buffer.len() || (polled(m).0.buffer.len()
            == m.buffer.len() && waiting(polled(m).0) < waiting(m)),
    decreases m.buffer.len(),
{
    if m.ready.len() > 0 || m.failure is Some || m.phase == Phase::Closed {
    } else {
        let (record, rest) = next_record(m.framing, m.buffer);
        let taken = StreamModel { buffer: rest, ..m };
        lemma_next_record_shrinks(m.framing, m.buffer);
        match record {
            Some(RecordModel::Payload(bytes)) => {
                lemma_poll_makes_progress(
                    after_decoded(taken, ResponseFrame::spec_decoded(m.kind, bytes)),
                );
            },
            _ => {},
        }
    }
}

/// A closed stream delivers what waits in it, whatever the connection still
/// has to give.
pub proof fn lemma_closed_ignores_chunks(
    m: StreamModel,
    chunks: Seq<Seq<u8>>,
    others: Seq<Seq<u8>>,
)
    requires
        m.phase == Phase::Closed,
    ensures
        produced(m, chunks) == produced(m, others),
    decreases waiting(m),
{
    let (next, action) = hand_out(m);
    if action is Yield {
        lemma_closed_ignores_chunks(next, chunks, others);
    }
}

/// The poll of an open stream and the poll of the same stream with more
/// bytes at the end of its buffer come to the same: where the first asks
/// for bytes, the second does what the first does next, once it has been
/// given those bytes; in every other case both do the same, and the bytes
/// stay in the buffer of a stream that is still open.
pub proof fn lemma_poll_with_bytes_ahead(m: StreamModel, more: Seq<u8>)
    requires
        m.phase == Phase::Open,
    ensures
        polled(m).1 is Read ==> polled(after_chunk(polled(m).0, more)) == polled(
            after_chunk(m, more),
        ),
        !(polled(m).1 is Read) ==> polled(after_chunk(m, more)) == (
            after_chunk(polled(m).0, more),
            polled(m).1,
        ),
    decreases m.buffer.len(),
{
    let ahead = after_chunk(m, more);
    if m.ready.len() > 0 || m.failure is Some {
        let (next, action) = hand_out(m);
        if m.ready.len() > 0 {
            assert(hand_out(ahead).0 == after_chunk(next, more));
        }
    } else {
        let (record, rest) = next_record(m.framing, m.buffer);
        let taken = StreamModel { buffer: rest, ..m };
        lemma_next_record_shrinks(m.framing, m.buffer);
        lemma_next_record_append(m.framing, m.buffer, more);
        match record {
            Some(RecordModel::Payload(bytes)) => {
                let decoded = ResponseFrame::spec_decoded(m.kind, bytes);
                let inner = after_decoded(taken, decoded);
                let taken_ahead = StreamModel { buffer: rest + more, ..m };
                assert(next_record(ahead.framing, ahead.buffer) == (record, rest + more));
                assert(polled(ahead) == polled(after_decoded(taken_ahead, decoded)));
                if inner.phase == Phase::Open {
                    assert(after_decoded(taken_ahead, decoded) == after_chunk(inner, more));
                    lemma_poll_with_bytes_ahead(inner, more);
                } else {
                    assert(after_decoded(taken_ahead, decoded) == inner);
                }
            },
            Some(RecordModel::Done) => {
                let taken_ahead = StreamModel { buffer: rest + more, ..m };
                assert(finished(taken_ahead) == finished(taken));
            },
            None => {
                let asked = after_chunk(taken, more);
                assert(next_record(asked.framing, asked.buffer) == next_record(
                    ahead.framing,
                    ahead.buffer,
                ));
            },
        }
    }
}

/// Bytes that arrive early change nothing: an open stream delivers the same
/// whether a chunk is given to it when it asks, or is already in its buffer.
pub proof fn lemma_chunk_ahead(m: StreamModel, more: Seq<u8>, rest: Seq<Seq<u8>>)
    requires
        m.phase == Phase::Open,
    ensures
        produced(m, seq![more] + rest) == produced(after_chunk(m, more), rest),
    decreases rank(m.phase), m.buffer.len(), waiting(m),
{
    let chunks = seq![more] + rest;
    let ahead = after_chunk(m, more);
    let (next, action) = polled(m);
    lemma_poll_with_bytes_ahead(m, more);
    lemma_poll_makes_progress(m);
    assert(chunks[0] == more);
    assert(chunks.skip(1) =~= rest);
    match action {
        ActionModel::Yield(reply) => {
            assert(polled(ahead) == (after_chunk(next, more), action));
            if next.phase == Phase::Open {
                lemma_chunk_ahead(next, more, rest);
            } else {
                assert(after_chunk(next, more) == next);
                lemma_closed_ignores_chunks(next, chunks, rest);
            }
            assert(produced(m, chunks) == seq![Ok::<ReplyModel, ChatError>(reply)] + produced(
                next,
                chunks,
            ));
            assert(produced(ahead, rest) == seq![Ok::<ReplyModel, ChatError>(reply)] + produced(
                after_chunk(next, more),
                rest,
            ));
        },
        ActionModel::Read => {
            assert(polled(after_chunk(next, more)) == polled(ahead));
            assert(produced(m, chunks) == produced(after_chunk(next, more), rest));
            lemma_same_poll_same_delivery(after_chunk(next, more), ahead, rest);
        },
        ActionModel::Fail(error) => {
            assert(polled(ahead) == (after_chunk(next, more), action));
        },
        ActionModel::Done => {
            assert(polled(ahead) == (after_chunk(next, more), action));
        },
    }
}

/// Two states that a poll treats alike deliver the same.
proof fn lemma_same_poll_same_delivery(one: StreamModel, other: StreamModel, chunks: Seq<Seq<u8>>)
    requires
        polled(one) == polled(other),
    ensures
        produced(one, chunks) == produced(other, chunks),
{
}

/// The cut of a response into chunks does not matter: whatever the backend
/// and wherever the cut falls, a response that arrives in two chunks
/// delivers what it delivers when it arrives in one.
pub proof fn lemma_delivery_rechunk(kind: Providers, first: Seq<u8>, second: Seq<u8>)
    ensures
        produced(opening(kind), seq![first, second]) == produced(
            opening(kind),
            seq![first + second],
        ),
{
    let start = opening(kind);
    let none = Seq::<Seq<u8>>::empty();
    assert(seq![first, second] =~= seq![first] + seq![second]);
    assert(seq![first + second] =~= seq![first + second] + none);
    assert(seq![second] =~= seq![second] + none);
    lemma_chunk_ahead(start, first, seq![second]);
    lemma_chunk_ahead(after_chunk(start, first), second, none);
    lemma_chunk_ahead(start, first + second, none);
    assert(after_chunk(after_chunk(start, first), second) == after_chunk(start, first + second))
        by {
        assert((start.buffer + first) + second =~= start.buffer + (first + second));
    }
}

/// The text that an increment adds to one channel.
pub open spec fn text_in(reply: ReplyModel, channel: ReasoningState) -> Seq<char> {
    match channel {
        ReasoningState::Answering => reply.message,
        ReasoningState::Reasoning => match reply.reasoning {
            Some(text) => text,
            None => Seq::empty(),
        },
    }
}

/// The text that increments add to one channel, all in all.
pub open spec fn gathered(replies: Seq<ReplyModel>, channel: ReasoningState) -> Seq<char>
    decreases replies.len(),
{
    if replies.len() == 0 {
        Seq::empty()
    } else {
        gathered(replies.drop_last(), channel) + text_in(replies.last(), channel)
    }
}

/// The text that runs hold for one channel, all in all.
pub open spec fn held(runs: Seq<Run>, channel: ReasoningState) -> Seq<char>
    decreases runs.len(),
{
    if runs.len() == 0 {
        Seq::empty()
    } else if runs.last().0 == channel {
        held(runs.drop_last(), channel) + runs.last().1
    } else {
        held(runs.drop_last(), channel)
    }
}

/// The content of frames, one after the other.
pub open spec fn contents(frames: Seq<ResponseFrame>) -> Seq<char>
    decreases frames.len(),
{
    if frames.len() == 0 {
        Seq::empty()
    } else {
        frames[0].content() + contents(frames.skip(1))
    }
}

/// The state after the content of frames has been taken in, one after the
/// other.
pub open spec fn fed(m: StreamModel, frames: Seq<ResponseFrame>) -> StreamModel
    decreases frames.len(),
{
    if frames.len() == 0 {
        m
    } else {
        fed(after_content(m, frames[0]), frames.skip(1))
    }
}

/// Gathering distributes over concatenation.
pub proof fn lemma_gathered_concat(
    a: Seq<ReplyModel>,
    b: Seq<ReplyModel>,
    channel: ReasoningState,
)
    ensures
        gathered(a + b, channel) == gathered(a, channel) + gathered(b, channel),
    decreases b.len(),
{
    if b.len() == 0 {
        assert(a + b =~= a);
        assert(gathered(a, channel) + gathered(b, channel) =~= gathered(a, channel));
    } else {
        assert((a + b).drop_last() =~= a + b.drop_last());
        assert((a + b).last() == b.last());
        lemma_gathered_concat(a, b.drop_last(), channel);
        assert((gathered(a, channel) + gathered(b.drop_last(), channel)) + text_in(
            b.last(),
            channel,
        ) =~= gathered(a, channel) + (gathered(b.drop_last(), channel) + text_in(
            b.last(),
            channel,
        )));
    }
}

/// The runs of routed characters hold, for each channel, the characters
/// that were routed to it.
proof fn lemma_held_is_selected(out: Seq<Tagged>, channel: ReasoningState)
    ensures
        held(group(out), channel) == select(out, channel),
    decreases out.len(),
{
    if out.len() > 0 {
        let before = group(out.drop_last());
        let last = out.last();
        lemma_held_is_selected(out.drop_last(), channel);
        let after = group(out);
        if before.len() > 0 && before.last().0 == last.0 {
            assert(after.drop_last() =~= before.drop_last());
            if last.0 == channel {
                assert(held(before.drop_last(), channel) + (before.last().1 + seq![last.1])
                    =~= (held(before.drop_last(), channel) + before.last().1).push(last.1));
            }
        } else {
            assert(after.drop_last() =~= before);
            if last.0 == channel {
                assert(held(before, channel) + seq![last.1] =~= held(before, channel).push(last.1));
            }
        }
    }
}

/// The increments of runs add to each channel the text that the runs hold
/// for it; the counts of the frame add no text.
proof fn lemma_increments_carry_runs(
    runs: Seq<Run>,
    prompt: Option<u32>,
    completion: Option<u32>,
    channel: ReasoningState,
)
    ensures
        gathered(increments(runs, prompt, completion), channel) == held(runs, channel),
    decreases runs.len(),
{
    let all = increments(runs, prompt, completion);
    if runs.len() == 0 {
        if all.len() > 0 {
            assert(all.drop_last() =~= Seq::<ReplyModel>::empty());
            assert(gathered(all.drop_last(), channel) + text_in(all.last(), channel) =~= Seq::<
                char,
            >::empty());
        }
    } else {
        let front = runs.drop_last();
        lemma_increments_carry_runs(front, None, None, channel);
        let plain = increments(front, None, None);
        if front.len() == 0 {
            assert(all.drop_last() =~= Seq::<ReplyModel>::empty());
            assert(plain =~= Seq::<ReplyModel>::empty());
        } else {
            assert(all.drop_last().len() == plain.len());
            assert forall|i: int| 0 <= i < plain.len() implies text_in(
                all.drop_last()[i],
                channel,
            ) == text_in(plain[i], channel) by {
                assert(front[i] == runs[i]);
            }
            lemma_same_text_same_gathering(all.drop_last(), plain, channel);
        }
        assert(text_in(all.last(), channel) == if runs.last().0 == channel {
            runs.last().1
        } else {
            Seq::<char>::empty()
        });
        if runs.last().0 != channel {
            assert(held(front, channel) + Seq::<char>::empty() =~= held(front, channel));
        }
    }
}

/// Increments that add the same text, one by one, add the same text all in
/// all.
proof fn lemma_same_text_same_gathering(
    a: Seq<ReplyModel>,
    b: Seq<ReplyModel>,
    channel: ReasoningState,
)
    requires
        a.len() == b.len(),
        forall|i: int| 0 <= i < a.len() ==> text_in(a[i], channel) == text_in(b[i], channel),
    ensures
        gathered(a, channel) == gathered(b, channel),
    decreases a.len(),
{
    if a.len() > 0 {
        assert forall|i: int| 0 <= i < a.drop_last().len() implies text_in(
            a.drop_last()[i],
            channel,
        ) == text_in(b.drop_last()[i], channel) by {
            assert(a.drop_last()[i] == a[i]);
            assert(b.drop_last()[i] == b[i]);
        }
        lemma_same_text_same_gathering(a.drop_last(), b.drop_last(), channel);
    }
}

/// The increments of a frame add to each channel the characters that its
/// content released to that channel.
pub proof fn lemma_increments_carry_text(
    out: Seq<Tagged>,
    prompt: Option<u32>,
    completion: Option<u32>,
    channel: ReasoningState,
)
    ensures
        gathered(increments(group(out), prompt, completion), channel) == select(out, channel),
{
    lemma_increments_carry_runs(group(out), prompt, completion, channel);
    lemma_held_is_selected(out, channel);
}

/// After the content of frames has been taken in, the segmenter is where the
/// whole content would have brought it, and the ready increments hold, for
/// each channel, what the whole content would have released to it.
pub proof fn lemma_fed_is_advanced(
    m: StreamModel,
    frames: Seq<ResponseFrame>,
    channel: ReasoningState,
)
    ensures
        fed(m, frames).segmenter == advance(m.segmenter, contents(frames)).0,
        gathered(fed(m, frames).ready, channel) == gathered(m.ready, channel) + select(
            advance(m.segmenter, contents(frames)).1,
            channel,
        ),
    decreases frames.len(),
{
    if frames.len() == 0 {
        assert(gathered(m.ready, channel) + Seq::<char>::empty() =~= gathered(m.ready, channel));
    } else {
        let frame = frames[0];
        let next = after_content(m, frame);
        let first = advance(m.segmenter, frame.content());
        let rest = advance(first.0, contents(frames.skip(1)));
        lemma_fed_is_advanced(next, frames.skip(1), channel);
        lemma_advance_concat(m.segmenter, frame.content(), contents(frames.skip(1)));
        lemma_increments_carry_text(first.1, frame.prompt_tokens, frame.completion_tokens, channel);
        lemma_gathered_concat(
            m.ready,
            increments(group(first.1), frame.prompt_tokens, frame.completion_tokens),
            channel,
        );
        lemma_select_concat(first.1, rest.1, channel);
        assert((gathered(m.ready, channel) + select(first.1, channel)) + select(rest.1, channel)
            =~= gathered(m.ready, channel) + (select(first.1, channel) + select(rest.1, channel)));
    }
}

/// However the content of a response is cut into frames, the stream
/// delivers, channel by channel, the split of the whole content: what its
/// increments add to the answer is the answer of the content, and what they
/// add to the reasoning is its reasoning. The stream ends with the report of
/// an unclosed reasoning segment exactly where the content ends in one.
pub proof fn lemma_stream_delivers_the_split(
    kind: Providers,
    frames: Seq<ResponseFrame>,
    channel: ReasoningState,
)
    ensures
        gathered(finished(fed(opening(kind), frames)).ready, channel) == select(
            scan(contents(frames), ReasoningState::Answering).0,
            channel,
        ),
        finished(fed(opening(kind), frames)).failure is Some <==> scan(
            contents(frames),
            ReasoningState::Answering,
        ).1 == ReasoningState::Reasoning,
{
    let start = opening(kind);
    let end = fed(start, frames);
    let run = advance(initial(), contents(frames));
    lemma_fed_is_advanced(start, frames, channel);
    lemma_rechunk(contents(frames), 0);
    assert(gathered(start.ready, channel) + select(run.1, channel) =~= select(run.1, channel));
    lemma_select_concat(run.1, tag(run.0.state, run.0.carry), channel);
    lemma_select_tag(run.0.state, run.0.carry, channel);
    let last = finished(end);
    if end.segmenter.carry.len() > 0 {
        assert(last.ready.drop_last() =~= end.ready);
        if channel != run.0.state {
            assert(gathered(end.ready, channel) + Seq::<char>::empty() =~= gathered(
                end.ready,
                channel,
            ));
        }
    } else {
        assert(run.0.carry =~= Seq::<char>::empty());
        assert(gathered(end.ready, channel) + Seq::<char>::empty() =~= gathered(
            end.ready,
            channel,
        ));
    }
}

/// Where every `<` of the content of a response begins a marker, no marker
/// reaches what the stream delivers: however the content is cut into
/// frames, what the increments add to a channel, all in all, holds no
/// marker.
pub proof fn lemma_stream_delivers_no_marker(
    kind: Providers,
    frames: Seq<ResponseFrame>,
    channel: ReasoningState,
)
    requires
        brackets_begin_markers(contents(frames)),
    ensures
        !holds_marker(gathered(finished(fed(opening(kind), frames)).ready, channel)),
{
    lemma_stream_delivers_the_split(kind, frames, channel);
    lemma_split_holds_no_marker(contents(frames), ReasoningState::Answering, channel);
}

} // verus!
