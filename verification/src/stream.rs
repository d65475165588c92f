//! The streamed chat as a state machine.
//!
//! The caller owns the connection and drives the machine: it asks
//! [`BotReplyStream::poll`] what to do next and reports what came of it.
//! The machine never reads ahead. It asks for bytes only when it has nothing
//! left to hand out, so a caller that stops asking stops the reading, and a
//! caller that drops the machine may close the connection at once.

use vstd::prelude::*;
use crate::chat::{BotReply, ReplyModel};
use crate::entities::Providers;
use crate::errors::{ChatError, DecodeError, TransportError};
use crate::framing::{
    framing_of, lemma_next_record_shrinks, next_record, FrameDecoder, Framing, Record,
    RecordModel,
};
use crate::providers::types::ResponseFrame;
use crate::reasoning::{
    advance, alternating, group, initial, lemma_advance_well_formed, lemma_group_alternating,
    open_marker, well_formed, ReasoningState, Run, SegmenterModel,
};
use crate::segmenter::{runs, ReasoningSegmenter, Segment};
use crate::usage::{spec_sum_option, sum_option};

verus! {

/// How far a stream has come.
#[derive(Clone, Copy, Debug, PartialEq, Eq, Structural)]
pub enum Phase {
    /// The response is still arriving.
    Open,
    /// The connection has delivered its last byte; what is buffered is still
    /// to be decoded.
    Ended,
    /// Nothing more will be read or decoded.
    Closed,
}

/// What the caller is to do next.
#[derive(Clone, Debug, PartialEq, Eq)]
pub enum Action {
    /// Hand this increment to the consumer.
    Yield(BotReply),
    /// Hand this error to the consumer; it is the last value of the stream.
    Fail(ChatError),
    /// Read the next chunk from the connection and report it with
    /// [`BotReplyStream::chunk`], or its end with [`BotReplyStream::end`],
    /// or its failure with [`BotReplyStream::broken`].
    Read,
    /// The stream is over.
    Done,
}

/// The mathematical value of an [`Action`].
pub ghost enum ActionModel {
    Yield(ReplyModel),
    Fail(ChatError),
    Read,
    Done,
}

impl View for Action {
    type V = ActionModel;

    open spec fn view(&self) -> ActionModel {
        match self {
            Action::Yield(reply) => ActionModel::Yield(reply@),
            Action::Fail(error) => ActionModel::Fail(*error),
            Action::Read => ActionModel::Read,
            Action::Done => ActionModel::Done,
        }
    }
}

/// The state of a streamed chat.
pub ghost struct StreamModel {
    /// The backend kind, which says what a frame looks like.
    pub kind: Providers,
    /// How the stream is cut into records.
    pub framing: Framing,
    /// The bytes that arrived and belong to no record taken yet.
    pub buffer: Seq<u8>,
    /// The state of the reasoning segmenter.
    pub segmenter: SegmenterModel,
    /// The increments that are ready but not yet handed out, oldest first.
    pub ready: Seq<ReplyModel>,
    /// The error that ends the stream once the ready increments are out.
    pub failure: Option<ChatError>,
    pub phase: Phase,
}

/// The state at the start of a response from a backend of the given kind.
pub open spec fn opening(kind: Providers) -> StreamModel {
    StreamModel {
        kind,
        framing: framing_of(kind),
        buffer: Seq::empty(),
        segmenter: initial(),
        ready: Seq::empty(),
        failure: None,
        phase: Phase::Open,
    }
}

/// An increment without text or counts.
pub open spec fn blank() -> ReplyModel {
    ReplyModel {
        message: Seq::empty(),
        reasoning: None,
        prompt_token: None,
        completion_token: None,
        reasoning_token: None,
        total_token: None,
    }
}

/// The increment for text that was routed to one channel.
pub open spec fn increment_of(channel: ReasoningState, text: Seq<char>) -> ReplyModel {
    match channel {
        ReasoningState::Answering => ReplyModel { message: text, ..blank() },
        ReasoningState::Reasoning => ReplyModel { reasoning: Some(text), ..blank() },
    }
}

/// An increment with the token counts of its frame: the counts as reported
/// and their total where both are there.
pub open spec fn with_usage(
    reply: ReplyModel,
    prompt: Option<u32>,
    completion: Option<u32>,
) -> ReplyModel {
    ReplyModel {
        prompt_token: prompt,
        completion_token: completion,
        total_token: spec_sum_option(prompt, completion),
        ..reply
    }
}

/// The increments of one frame: one for each run of text that its content
/// released, in order. The token counts go with the last of them. A frame
/// that released nothing gives one increment without text where it reports a
/// count, and none otherwise.
pub open spec fn increments(
    runs: Seq<Run>,
    prompt: Option<u32>,
    completion: Option<u32>,
) -> Seq<ReplyModel> {
    if runs.len() == 0 {
        if prompt is Some || completion is Some {
            seq![with_usage(blank(), prompt, completion)]
        } else {
            Seq::empty()
        }
    } else {
        Seq::new(
            runs.len(),
            |i: int|
                if i + 1 == runs.len() {
                    with_usage(increment_of(runs[i].0, runs[i].1), prompt, completion)
                } else {
                    increment_of(runs[i].0, runs[i].1)
                },
        )
    }
}

/// What an increment of a stream looks like: text in exactly one of the two
/// channels, or no text at all and a token count instead; a total that is
/// the sum of the two counts where both are there and absent otherwise; and
/// never a count of reasoning tokens.
pub open spec fn is_increment(reply: ReplyModel) -> bool {
    &&& reply.reasoning_token is None
    &&& reply.total_token == spec_sum_option(reply.prompt_token, reply.completion_token)
    &&& match reply.reasoning {
        Some(text) => text.len() > 0 && reply.message.len() == 0,
        None => reply.message.len() > 0 || reply.prompt_token is Some
            || reply.completion_token is Some,
    }
}

/// A state that is closed: nothing more will be read or decoded, and the
/// bytes that are left in the buffer are let go.
pub open spec fn closed(m: StreamModel) -> StreamModel {
    StreamModel { buffer: Seq::empty(), phase: Phase::Closed, ..m }
}

/// The state after the end of the content: the carry-over goes out as a
/// last increment, an unclosed reasoning segment is reported after it, and
/// the stream is closed.
pub open spec fn finished(m: StreamModel) -> StreamModel {
    StreamModel {
        buffer: Seq::empty(),
        segmenter: initial(),
        ready: if m.segmenter.carry.len() > 0 {
            m.ready.push(increment_of(m.segmenter.state, m.segmenter.carry))
        } else {
            m.ready
        },
        failure: if m.segmenter.state == ReasoningState::Reasoning {
            Some(ChatError::Decode(DecodeError::UnterminatedReasoning))
        } else {
            None
        },
        phase: Phase::Closed,
        ..m
    }
}

/// The state after a chunk has arrived. A stream that is no longer open
/// takes no bytes.
pub open spec fn after_chunk(m: StreamModel, bytes: Seq<u8>) -> StreamModel {
    if m.phase == Phase::Open {
        StreamModel { buffer: m.buffer + bytes, ..m }
    } else {
        m
    }
}

/// The state after the connection has delivered its last byte.
pub open spec fn after_end(m: StreamModel) -> StreamModel {
    if m.phase == Phase::Open {
        StreamModel { phase: Phase::Ended, ..m }
    } else {
        m
    }
}

/// The state after the connection has failed: the failure ends the stream
/// once the ready increments are out.
pub open spec fn after_broken(m: StreamModel, failure: TransportError) -> StreamModel {
    if m.phase == Phase::Closed {
        m
    } else {
        closed(StreamModel { failure: Some(ChatError::Stream(failure)), ..m })
    }
}

/// The state after the caller has given the stream up: nothing is left to
/// hand out.
pub open spec fn after_close(m: StreamModel) -> StreamModel {
    closed(StreamModel { ready: Seq::empty(), failure: None, ..m })
}

/// The state after the content of one frame: the content has gone through
/// the segmenter, and the runs of text that it released are queued as
/// increments.
pub open spec fn after_content(m: StreamModel, frame: ResponseFrame) -> StreamModel {
    let run = advance(m.segmenter, frame.content());
    StreamModel {
        segmenter: run.0,
        ready: m.ready + increments(group(run.1), frame.prompt_tokens, frame.completion_tokens),
        ..m
    }
}

/// The state after a frame: its content is taken in, and a terminal frame
/// ends the content.
pub open spec fn after_frame(m: StreamModel, frame: ResponseFrame) -> StreamModel {
    if frame.is_terminal {
        finished(after_content(m, frame))
    } else {
        after_content(m, frame)
    }
}

/// The state after a frame could not be decoded: the error ends the stream
/// once the ready increments are out, and no further frame is decoded.
pub open spec fn after_error(m: StreamModel, error: DecodeError) -> StreamModel {
    closed(StreamModel { failure: Some(ChatError::Decode(error)), ..m })
}

/// The state after what reading a payload came to has been taken in. A
/// closed stream takes nothing.
pub open spec fn after_decoded(
    m: StreamModel,
    decoded: Result<ResponseFrame, DecodeError>,
) -> StreamModel {
    if m.phase == Phase::Closed {
        m
    } else {
        match decoded {
            Ok(frame) => after_frame(m, frame),
            Err(error) => after_error(m, error),
        }
    }
}

/// What is handed out of a state that has something ready, a failure
/// waiting, or is closed: ready increments first, then the failure, then
/// nothing more.
pub open spec fn hand_out(m: StreamModel) -> (StreamModel, ActionModel) {
    if m.ready.len() > 0 {
        (StreamModel { ready: m.ready.skip(1), ..m }, ActionModel::Yield(m.ready[0]))
    } else {
        match m.failure {
            Some(failure) => (
                closed(StreamModel { failure: None, ..m }),
                ActionModel::Fail(failure),
            ),
            None => (m, ActionModel::Done),
        }
    }
}

/// What [`BotReplyStream::poll`] does: the state after it and the action.
///
/// Increments that are ready go out first, one per call and in order; then
/// a failure, if one waits; after that the stream is over. Only when
/// nothing is ready does the machine take the next record from its buffer.
/// A payload is read as a frame of the backend and taken in, and the
/// machine looks again. The sentinel ends the content. Without a complete
/// record an open stream asks for bytes; a stream whose connection has
/// ended is truncated if bytes are left over, and has come to the end of
/// its content otherwise.
pub open spec fn polled(m: StreamModel) -> (StreamModel, ActionModel)
    decreases m.buffer.len(),
    via polled_terminates
{
    if m.ready.len() > 0 || m.failure is Some || m.phase == Phase::Closed {
        hand_out(m)
    } else {
        let (record, rest) = next_record(m.framing, m.buffer);
        let taken = StreamModel { buffer: rest, ..m };
        match record {
            Some(RecordModel::Payload(bytes)) => polled(
                after_decoded(taken, ResponseFrame::spec_decoded(m.kind, bytes)),
            ),
            Some(RecordModel::Done) => hand_out(finished(taken)),
            None => if m.phase == Phase::Open {
                (taken, ActionModel::Read)
            } else if rest.len() > 0 {
                (closed(taken), ActionModel::Fail(ChatError::Decode(DecodeError::TruncatedStream)))
            } else {
                hand_out(finished(taken))
            },
        }
    }
}

#[via_fn]
proof fn polled_terminates(m: StreamModel) {
    lemma_next_record_shrinks(m.framing, m.buffer);
}

/// The views of a list of replies.
pub open spec fn views(replies: Seq<BotReply>) -> Seq<ReplyModel> {
    Seq::new(replies.len(), |i: int| replies[i]@)
}

/// A streamed chat in progress.
pub struct BotReplyStream {
    kind: Providers,
    decoder: FrameDecoder,
    segmenter: ReasoningSegmenter,
    ready: Vec<BotReply>,
    failure: Option<ChatError>,
    phase: Phase,
}

impl View for BotReplyStream {
    type V = StreamModel;

    closed spec fn view(&self) -> StreamModel {
        StreamModel {
            kind: self.kind,
            framing: self.decoder.framing(),
            buffer: self.decoder.buffered(),
            segmenter: self.segmenter@,
            ready: views(self.ready@),
            failure: self.failure,
            phase: self.phase,
        }
    }
}

/// The increment for one segment.
fn increment(segment: Segment) -> (reply: BotReply)
    ensures
        reply@ == increment_of(segment.channel, segment.text@),
{
    match segment.channel {
        ReasoningState::Answering => BotReply {
            message: segment.text,
            reasoning: None,
            prompt_token: None,
            completion_token: None,
            reasoning_token: None,
            total_token: None,
        },
        ReasoningState::Reasoning => BotReply {
            message: String::new(),
            reasoning: Some(segment.text),
            prompt_token: None,
            completion_token: None,
            reasoning_token: None,
            total_token: None,
        },
    }
}

impl BotReplyStream {
    /// A stream at the start of a response from a backend of the given kind.
    pub fn new(kind: Providers) -> (stream: Self)
        ensures
            stream@ == opening(kind),
    {
        let stream = BotReplyStream {
            kind,
            decoder: FrameDecoder::for_provider(kind),
            segmenter: ReasoningSegmenter::new(),
            ready: Vec::new(),
            failure: None,
            phase: Phase::Open,
        };
        assert(stream@.ready =~= Seq::<ReplyModel>::empty());
        stream
    }

    /// How far the stream has come.
    pub fn phase(&self) -> (phase: Phase)
        ensures
            phase == self@.phase,
    {
        self.phase
    }

    /// Takes in the next chunk of the response body.
    pub fn chunk(&mut self, bytes: &[u8])
        ensures
            final(self)@ == after_chunk(old(self)@, bytes@),
    {
        match self.phase {
            Phase::Open => {
                self.decoder.push(bytes);
            },
            _ => {},
        }
    }

    /// Takes note that the response body has ended.
    pub fn end(&mut self)
        ensures
            final(self)@ == after_end(old(self)@),
    {
        match self.phase {
            Phase::Open => {
                self.phase = Phase::Ended;
            },
            _ => {},
        }
    }

    /// Takes note that the connection has failed in the middle of the body.
    pub fn broken(&mut self, failure: TransportError)
        ensures
            final(self)@ == after_broken(old(self)@, failure),
    {
        match self.phase {
            Phase::Closed => {},
            _ => {
                self.failure = Some(ChatError::Stream(failure));
                self.phase = Phase::Closed;
                self.decoder.clear();
            },
        }
    }

    /// Gives the stream up. Whatever was ready is dropped; from now on
    /// [`BotReplyStream::poll`] answers [`Action::Done`] and asks for
    /// nothing.
    pub fn close(&mut self)
        ensures
            final(self)@ == after_close(old(self)@),
            polled(final(self)@) == (final(self)@, ActionModel::Done),
    {
        self.ready = Vec::new();
        self.failure = None;
        self.phase = Phase::Closed;
        self.decoder.clear();
        assert(self@.ready =~= Seq::<ReplyModel>::empty());
    }

    /// Ends the content: see [`finished`].
    fn finish(&mut self)
        ensures
            final(self)@ == finished(old(self)@),
    {
        let mut segmenter = ReasoningSegmenter::new();
        core::mem::swap(&mut self.segmenter, &mut segmenter);
        let ghost before = views(self.ready@);
        let tail = segmenter.finish();
        match tail.segment {
            Some(segment) => {
                let reply = increment(segment);
                self.ready.push(reply);
                assert(views(self.ready@) =~= before.push(reply@));
            },
            None => {},
        }
        self.failure = if tail.unterminated {
            Some(ChatError::Decode(DecodeError::UnterminatedReasoning))
        } else {
            None
        };
        self.phase = Phase::Closed;
        self.decoder.clear();
    }

    /// Hands out what is ready: see [`hand_out`].
    fn deliver(&mut self) -> (action: Action)
        ensures
            (final(self)@, action@) == hand_out(old(self)@),
    {
        if self.ready.len() > 0 {
            let ghost before = views(self.ready@);
            let reply = self.ready.remove(0);
            assert(views(self.ready@) =~= before.skip(1));
            assert(before[0] == reply@);
            return Action::Yield(reply);
        }
        assert(views(self.ready@) =~= Seq::<ReplyModel>::empty());
        match self.failure.take() {
            Some(failure) => {
                self.phase = Phase::Closed;
                self.decoder.clear();
                Action::Fail(failure)
            },
            None => Action::Done,
        }
    }

    /// Says what the caller is to do next: see [`polled`].
    pub fn poll(&mut self) -> (action: Action)
        ensures
            (final(self)@, action@) == polled(old(self)@),
    {
        loop
            invariant
                polled(self@) == polled(old(self)@),
            decreases self@.buffer.len(),
        {
            if self.ready.len() > 0 || self.failure.is_some() {
                return self.deliver();
            }
            assert(views(self.ready@) =~= Seq::<ReplyModel>::empty());
            match self.phase {
                Phase::Closed => {
                    return self.deliver();
                },
                _ => {},
            }
            proof {
                lemma_next_record_shrinks(self@.framing, self@.buffer);
            }
            match self.decoder.next() {
                Some(Record::Payload(bytes)) => {
                    let decoded = ResponseFrame::read(self.kind, bytes.as_slice());
                    self.frame(decoded);
                },
                Some(Record::Done) => {
                    self.finish();
                    return self.deliver();
                },
                None => {
                    match self.phase {
                        Phase::Open => {
                            return Action::Read;
                        },
                        _ => {
                            if !self.decoder.is_empty() {
                                self.phase = Phase::Closed;
                                self.decoder.clear();
                                return Action::Fail(
                                    ChatError::Decode(DecodeError::TruncatedStream),
                                );
                            } else {
                                self.finish();
                                return self.deliver();
                            }
                        },
                    }
                },
            }
        }
    }

    /// Takes in what reading a payload came to: the frame, or the report of
    /// a malformed one. [`BotReplyStream::poll`] does so for every payload
    /// of the stream.
    ///
    /// A malformed frame ends the stream; no further frame is decoded. The
    /// content of a frame goes through the reasoning segmenter, and what it
    /// releases becomes increments: see [`increments`]. A terminal frame
    /// ends the content. A closed stream takes nothing.
    pub fn frame(&mut self, decoded: Result<ResponseFrame, DecodeError>)
        ensures
            final(self)@ == after_decoded(old(self)@, decoded),
    {
        match self.phase {
            Phase::Closed => {
                return ;
            },
            _ => {},
        }
        let frame = match decoded {
            Ok(frame) => frame,
            Err(error) => {
                self.failure = Some(ChatError::Decode(error));
                self.phase = Phase::Closed;
                self.decoder.clear();
                return ;
            },
        };
        let ghost before = self@;
        let segments = match &frame.content_delta {
            Some(content) => self.segmenter.push(content.as_str()),
            None => self.segmenter.push(""),
        };
        proof {
            reveal_strlit("");
            assert(""@ =~= Seq::<char>::empty());
        }
        self.enqueue(segments, frame.prompt_tokens, frame.completion_tokens);
        assert(self@ == after_content(before, frame));
        if frame.is_terminal {
            self.finish();
        }
    }

    /// Makes the segments of one frame into increments and queues them.
    fn enqueue(&mut self, segments: Vec<Segment>, prompt: Option<u32>, completion: Option<u32>)
        ensures
            final(self)@ == (StreamModel {
                ready: old(self)@.ready + increments(runs(segments@), prompt, completion),
                ..old(self)@
            }),
    {
        let ghost before = views(self.ready@);
        let ghost all = segments@;
        let ghost target = increments(runs(all), prompt, completion);
        if segments.len() == 0 {
            if prompt.is_some() || completion.is_some() {
                let reply = BotReply {
                    message: String::new(),
                    reasoning: None,
                    prompt_token: prompt,
                    completion_token: completion,
                    reasoning_token: None,
                    total_token: sum_option(prompt, completion),
                };
                self.ready.push(reply);
                assert(views(self.ready@) =~= before + target);
            } else {
                assert(views(self.ready@) =~= before + target);
            }
            return ;
        }
        let mut segments = segments;
        let count: usize = segments.len();
        let mut done: usize = 0;
        assert(before + target.take(0) =~= before);
        while segments.len() > 0
            invariant
                done + segments.len() == count,
                count == all.len(),
                count > 0,
                target == increments(runs(all), prompt, completion),
                segments@ == all.skip(done as int),
                views(self.ready@) == before + target.take(done as int),
                self.kind == old(self).kind,
                self.decoder == old(self).decoder,
                self.segmenter == old(self).segmenter,
                self.failure == old(self).failure,
                self.phase == old(self).phase,
            decreases segments.len(),
        {
            let ghost queued = views(self.ready@);
            let segment = segments.remove(0);
            assert(segment == all[done as int]);
            let mut reply = increment(segment);
            if segments.len() == 0 {
                reply.prompt_token = prompt;
                reply.completion_token = completion;
                reply.total_token = sum_option(prompt, completion);
            }
            assert(reply@ == target[done as int]);
            self.ready.push(reply);
            proof {
                assert(views(self.ready@) =~= queued.push(reply@));
                assert(target.take(done + 1) =~= target.take(done as int).push(
                    target[done as int],
                ));
                assert(before + target.take(done + 1) =~= (before + target.take(
                    done as int,
                )).push(target[done as int]));
                assert(segments@ =~= all.skip(done + 1));
            }
            done += 1;
        }
        assert(target.take(count as int) =~= target);
    }
}

/// Every increment of a frame has the shape of an increment.
pub proof fn lemma_increments_shape(runs: Seq<Run>, prompt: Option<u32>, completion: Option<u32>)
    requires
        alternating(runs),
    ensures
        forall|i: int|
            0 <= i < increments(runs, prompt, completion).len() ==> is_increment(
                #[trigger] increments(runs, prompt, completion)[i],
            ),
{
    let all = increments(runs, prompt, completion);
    assert forall|i: int| 0 <= i < all.len() implies is_increment(#[trigger] all[i]) by {
        if runs.len() > 0 {
            assert(runs[i].1.len() > 0);
        }
    }
}

/// Whatever a frame holds, every increment that it adds to the ready ones
/// has the shape of an increment: text in exactly one channel, or counts
/// only.
pub proof fn lemma_frame_adds_increments(m: StreamModel, frame: ResponseFrame)
    requires
        well_formed(m.segmenter),
        forall|i: int| 0 <= i < m.ready.len() ==> is_increment(#[trigger] m.ready[i]),
    ensures
        forall|i: int|
            0 <= i < after_frame(m, frame).ready.len() ==> is_increment(
                #[trigger] after_frame(m, frame).ready[i],
            ),
{
    let run = advance(m.segmenter, frame.content());
    let added = increments(group(run.1), frame.prompt_tokens, frame.completion_tokens);
    lemma_group_alternating(run.1);
    lemma_increments_shape(group(run.1), frame.prompt_tokens, frame.completion_tokens);
    lemma_advance_well_formed(m.segmenter, frame.content());
    let taken = after_content(m, frame);
    assert forall|i: int| 0 <= i < taken.ready.len() implies is_increment(
        #[trigger] taken.ready[i],
    ) by {
        if i < m.ready.len() {
            assert(taken.ready[i] == m.ready[i]);
        } else {
            assert(taken.ready[i] == added[i - m.ready.len()]);
        }
    }
    if frame.is_terminal {
        let last = finished(taken);
        assert forall|i: int| 0 <= i < last.ready.len() implies is_increment(
            #[trigger] last.ready[i],
        ) by {
            if i < taken.ready.len() {
                assert(last.ready[i] == taken.ready[i]);
            }
        }
    }
}

/// A state as it can arise: the segmenter holds back the beginning of a
/// marker at most, and everything that is ready has the shape of an
/// increment.
pub open spec fn sound(m: StreamModel) -> bool {
    &&& well_formed(m.segmenter)
    &&& forall|i: int| 0 <= i < m.ready.len() ==> is_increment(#[trigger] m.ready[i])
}

/// A stream starts in a sound state.
pub proof fn lemma_opening_is_sound(kind: Providers)
    ensures
        sound(opening(kind)),
{
    assert(initial().carry.is_prefix_of(open_marker()));
}

/// Ending the content keeps a state sound.
proof fn lemma_finished_is_sound(m: StreamModel)
    requires
        sound(m),
    ensures
        sound(finished(m)),
{
    let last = finished(m);
    assert(initial().carry.is_prefix_of(open_marker()));
    assert forall|i: int| 0 <= i < last.ready.len() implies is_increment(
        #[trigger] last.ready[i],
    ) by {
        if i < m.ready.len() {
            assert(last.ready[i] == m.ready[i]);
        }
    }
}

/// Whatever the connection reports, and when the caller gives up, the
/// state stays sound.
pub proof fn lemma_events_keep_sound(m: StreamModel, bytes: Seq<u8>, failure: TransportError)
    requires
        sound(m),
    ensures
        sound(after_chunk(m, bytes)),
        sound(after_end(m)),
        sound(after_broken(m, failure)),
        sound(after_close(m)),
{
}

/// Whatever a payload holds, the state stays sound.
pub proof fn lemma_decoded_keeps_sound(m: StreamModel, decoded: Result<ResponseFrame, DecodeError>)
    requires
        sound(m),
    ensures
        sound(after_decoded(m, decoded)),
{
    match decoded {
        Ok(frame) => {
            lemma_frame_adds_increments(m, frame);
            lemma_advance_well_formed(m.segmenter, frame.content());
            if frame.is_terminal {
                assert(initial().carry.is_prefix_of(open_marker()));
            }
        },
        Err(_) => {},
    }
}

/// In a sound state, what [`BotReplyStream::poll`] hands out is an
/// increment with text in exactly one channel, or with counts only; and the
/// state stays sound.
pub proof fn lemma_poll_yields_increments(m: StreamModel)
    requires
        sound(m),
    ensures
        sound(polled(m).0),
        polled(m).1 matches ActionModel::Yield(reply) ==> is_increment(reply),
    decreases m.buffer.len(),
{
    if m.ready.len() > 0 || m.failure is Some || m.phase == Phase::Closed {
        lemma_hand_out_is_sound(m);
    } else {
        let (record, rest) = next_record(m.framing, m.buffer);
        let taken = StreamModel { buffer: rest, ..m };
        lemma_next_record_shrinks(m.framing, m.buffer);
        match record {
            Some(RecordModel::Payload(bytes)) => {
                let decoded = ResponseFrame::spec_decoded(m.kind, bytes);
                lemma_decoded_keeps_sound(taken, decoded);
                lemma_poll_yields_increments(after_decoded(taken, decoded));
            },
            Some(RecordModel::Done) => {
                lemma_finished_is_sound(taken);
                lemma_hand_out_is_sound(finished(taken));
            },
            None => {
                if m.phase != Phase::Open && rest.len() == 0 {
                    lemma_finished_is_sound(taken);
                    lemma_hand_out_is_sound(finished(taken));
                }
            },
        }
    }
}

/// Handing out keeps a state sound, and what is handed out is an increment.
proof fn lemma_hand_out_is_sound(m: StreamModel)
    requires
        sound(m),
    ensures
        sound(hand_out(m).0),
        hand_out(m).1 matches ActionModel::Yield(reply) ==> is_increment(reply),
{
    if m.ready.len() > 0 {
        let left = hand_out(m).0;
        assert forall|i: int| 0 <= i < left.ready.len() implies is_increment(
            #[trigger] left.ready[i],
        ) by {
            assert(left.ready[i] == m.ready[i + 1]);
        }
    }
}

/// A closed stream with nothing ready and no failure waiting stays as it is
/// and asks for nothing.
pub proof fn lemma_closed_is_final(m: StreamModel)
    requires
        m.phase == Phase::Closed,
        m.ready.len() == 0,
        m.failure is None,
    ensures
        polled(m) == (m, ActionModel::Done),
{
}

} // verus!
