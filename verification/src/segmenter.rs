//! The reasoning segmenter: splits decoded content into visible answer and
//! model reasoning while the content arrives delta by delta.

use vstd::prelude::*;
use vstd::string::StringExecFns;
use crate::reasoning::{
    advance, close_marker, extend, group, initial, lemma_advance_push, lemma_extend_twice,
    lemma_group_tag, lemma_select_concat, lemma_select_tag, lemma_step_well_formed,
    lemma_stream_is_scan, lemma_tag_concat, marker, open_marker, scan, select, step, tag,
    well_formed, ReasoningState, Run, SegmenterModel, Tagged,
};
use crate::text::{chars_of, string_of};

verus! {

/// A run of text that was routed to one channel.
#[derive(Debug)]
pub struct Segment {
    /// The channel the text belongs to.
    pub channel: ReasoningState,
    /// The text, without any marker.
    pub text: String,
}

/// The routed characters that a list of segments stands for.
pub open spec fn flatten(segments: Seq<Segment>) -> Seq<Tagged>
    decreases segments.len(),
{
    if segments.len() == 0 {
        Seq::empty()
    } else {
        flatten(segments.drop_last()) + tag(segments.last().channel, segments.last().text@)
    }
}

/// The runs that a list of segments stands for: each segment's channel with
/// the characters of its text.
pub open spec fn runs(segments: Seq<Segment>) -> Seq<Run> {
    Seq::new(segments.len(), |i: int| (segments[i].channel, segments[i].text@))
}

/// Segments as the segmenter hands them out: none is empty, and neighbours
/// belong to different channels. Together with [`flatten`] this fixes the
/// list.
pub open spec fn canonical(segments: Seq<Segment>) -> bool {
    &&& forall|i: int| 0 <= i < segments.len() ==> (#[trigger] segments[i]).text@.len() > 0
    &&& forall|i: int, j: int|
        0 <= i && j == i + 1 && j < segments.len() ==> (#[trigger] segments[i]).channel != (
        #[trigger] segments[j]).channel
}

/// What is left when a stream ends.
#[derive(Debug)]
pub struct Tail {
    /// The carry-over, released to the channel that was active at the end;
    /// `None` where nothing was held back.
    pub segment: Option<Segment>,
    /// Whether the stream ended inside a reasoning segment that was never
    /// closed.
    pub unterminated: bool,
}

/// The two channels of one whole text.
#[derive(Debug)]
pub struct Partition {
    /// The visible answer.
    pub answer: String,
    /// The model's reasoning.
    pub reasoning: String,
    /// Whether the text ended inside a reasoning segment that was never
    /// closed.
    pub unterminated: bool,
}

/// The length of the marker that switches to the given channel.
fn marker_len(target: ReasoningState) -> (n: usize)
    ensures
        n == marker(target).len(),
{
    match target {
        ReasoningState::Reasoning => 7,
        ReasoningState::Answering => 8,
    }
}

/// The character at position `k` of the marker that switches to the given
/// channel.
fn marker_char(target: ReasoningState, k: usize) -> (c: char)
    requires
        k < marker(target).len(),
    ensures
        c == marker(target)[k as int],
{
    let m = match target {
        ReasoningState::Reasoning => "<think>",
        ReasoningState::Answering => "</think>",
    };
    proof {
        reveal_strlit("<think>");
        reveal_strlit("</think>");
        assert(m@ =~= marker(target));
    }
    m.get_char(k)
}

/// Whether `text` is the beginning of the marker that switches to the given
/// channel, or the whole of it.
fn begins(text: &Vec<char>, target: ReasoningState) -> (yes: bool)
    ensures
        yes == text@.is_prefix_of(marker(target)),
{
    if text.len() > marker_len(target) {
        return false;
    }
    let mut i: usize = 0;
    while i < text.len()
        invariant
            i <= text.len(),
            text.len() <= marker(target).len(),
            forall|j: int| 0 <= j < i ==> text@[j] == marker(target)[j],
        decreases text.len() - i,
    {
        if text[i] != marker_char(target, i) {
            return false;
        }
        i += 1;
    }
    true
}

/// The segments of one delta while they are being put together: the closed
/// ones, and the text of the last one, which may still grow.
struct Builder {
    closed: Vec<Segment>,
    channel: ReasoningState,
    text: Vec<char>,
}

impl Builder {
    spec fn routed(self) -> Seq<Tagged> {
        flatten(self.closed@) + tag(self.channel, self.text@)
    }

    spec fn built(self) -> Seq<Run> {
        extend(runs(self.closed@), self.channel, self.text@)
    }

    spec fn wf(self) -> bool {
        &&& canonical(self.closed@)
        &&& self.closed@.len() > 0 ==> self.text@.len() > 0 && self.closed@.last().channel
            != self.channel
    }

    fn new(channel: ReasoningState) -> (b: Self)
        ensures
            b.channel == channel,
            b.closed@ == Seq::<Segment>::empty(),
            b.text@ == Seq::<char>::empty(),
            b.wf(),
            b.routed() == Seq::<Tagged>::empty(),
            b.built() == Seq::<Run>::empty(),
    {
        let b = Builder { closed: Vec::new(), channel, text: Vec::new() };
        assert(b.routed() =~= Seq::<Tagged>::empty());
        assert(b.built() =~= Seq::<Run>::empty());
        b
    }

    /// Appends text that was released to `channel`.
    fn add(&mut self, channel: ReasoningState, released: Vec<char>)
        requires
            old(self).wf(),
        ensures
            final(self).wf(),
            final(self).routed() == old(self).routed() + tag(channel, released@),
            final(self).built() == extend(old(self).built(), channel, released@),
    {
        let ghost done = self.routed();
        let ghost runs_before = self.built();
        let mut released = released;
        if released.len() == 0 {
            assert(done + tag(channel, released@) =~= done);
            return ;
        }
        if self.text.len() > 0 && !same_channel(self.channel, channel) {
            let segment = Segment { channel: self.channel, text: string_of(&self.text) };
            proof {
                lemma_flatten_push(self.closed@, segment);
                lemma_canonical_push(self.closed@, segment);
                lemma_runs_push(self.closed@, segment);
                if self.closed@.len() > 0 {
                    assert(runs(self.closed@).last().0 == self.closed@.last().channel);
                }
                assert(runs_before == runs(self.closed@.push(segment)));
            }
            self.closed.push(segment);
            self.text = Vec::new();
            assert(tag(channel, self.text@) =~= Seq::<Tagged>::empty());
            assert(flatten(self.closed@) + tag(channel, self.text@) =~= done);
            assert(self.text@ + released@ =~= released@);
            assert(runs(self.closed@).last().0 != channel);
        } else {
            proof {
                if self.text@.len() > 0 {
                    lemma_extend_twice(runs(self.closed@), channel, self.text@, released@);
                } else {
                    assert(self.text@ + released@ =~= released@);
                    assert(runs(self.closed@) =~= Seq::<Run>::empty());
                }
            }
        }
        proof {
            if self.text@.len() == 0 {
                assert(tag(self.channel, self.text@) =~= tag(channel, self.text@));
            }
            lemma_tag_concat(channel, self.text@, released@);
            assert(flatten(self.closed@) + tag(channel, self.text@ + released@) =~= (flatten(
                self.closed@,
            ) + tag(channel, self.text@)) + tag(channel, released@));
        }
        self.channel = channel;
        self.text.append(&mut released);
    }

    /// Closes the last segment and hands the list out.
    fn close(self) -> (segments: Vec<Segment>)
        requires
            self.wf(),
        ensures
            canonical(segments@),
            flatten(segments@) == self.routed(),
            runs(segments@) == self.built(),
    {
        let mut segments = self.closed;
        if self.text.len() > 0 {
            let segment = Segment { channel: self.channel, text: string_of(&self.text) };
            proof {
                lemma_flatten_push(segments@, segment);
                lemma_canonical_push(segments@, segment);
                lemma_runs_push(segments@, segment);
                if segments@.len() > 0 {
                    assert(runs(segments@).last().0 == segments@.last().channel);
                }
            }
            segments.push(segment);
        } else {
            assert(flatten(segments@) + tag(self.channel, self.text@) =~= flatten(segments@));
        }
        segments
    }
}

/// The streaming classifier. It lives for one response and is fed the
/// content deltas in arrival order.
pub struct ReasoningSegmenter {
    state: ReasoningState,
    carry: Vec<char>,
}

impl View for ReasoningSegmenter {
    type V = SegmenterModel;

    closed spec fn view(&self) -> SegmenterModel {
        SegmenterModel { state: self.state, carry: self.carry@ }
    }
}

impl ReasoningSegmenter {
    #[verifier::type_invariant]
    spec fn inv(self) -> bool {
        well_formed(self@)
    }

    /// A segmenter at the start of a response.
    pub fn new() -> (s: Self)
        ensures
            s@ == initial(),
    {
        let s = ReasoningSegmenter { state: ReasoningState::Answering, carry: Vec::new() };
        assert(s@.carry =~= initial().carry);
        assert(s@.carry.is_prefix_of(open_marker()));
        s
    }

    /// The channel that is active now.
    pub fn state(&self) -> (state: ReasoningState)
        ensures
            state == self@.state,
    {
        self.state
    }

    /// The number of characters held back.
    pub fn carry_len(&self) -> (n: usize)
        ensures
            n == self@.carry.len(),
            n <= 7,
    {
        proof {
            use_type_invariant(self);
            if self.carry@.len() >= 8 {
                assert(self.carry@ =~= close_marker());
            }
        }
        self.carry.len()
    }

    /// One character through the machine: `self` becomes the next state; the
    /// result is the text released to the channel that was active before.
    fn feed(&mut self, c: char) -> (released: Vec<char>)
        ensures
            (final(self)@, released@) == step(old(self)@, c),
    {
        proof {
            use_type_invariant(&*self);
            lemma_step_well_formed(self@, c);
        }
        let mut current = ReasoningSegmenter::new();
        core::mem::swap(self, &mut current);
        let ReasoningSegmenter { state, mut carry } = current;
        let ghost before = SegmenterModel { state, carry: carry@ };
        carry.push(c);
        let opens = begins(&carry, ReasoningState::Reasoning);
        let closes = begins(&carry, ReasoningState::Answering);
        let none: Vec<char> = Vec::new();
        let fresh: Vec<char> = Vec::new();
        if opens && carry.len() == 7 {
            assert(carry@ =~= open_marker());
            *self = ReasoningSegmenter { state: ReasoningState::Reasoning, carry: fresh };
            assert(none@ =~= step(before, c).1);
            assert(self@.carry =~= step(before, c).0.carry);
            none
        } else if closes && carry.len() == 8 {
            assert(carry@ =~= close_marker());
            assert(carry@ != open_marker());
            *self = ReasoningSegmenter { state: ReasoningState::Answering, carry: fresh };
            assert(none@ =~= step(before, c).1);
            assert(self@.carry =~= step(before, c).0.carry);
            none
        } else if opens || closes {
            *self = ReasoningSegmenter { state, carry };
            assert(none@ =~= step(before, c).1);
            none
        } else if c == '<' {
            carry.pop();
            let mut held: Vec<char> = Vec::new();
            held.push('<');
            assert(held@ =~= seq!['<']);
            assert(carry@ =~= before.carry);
            *self = ReasoningSegmenter { state, carry: held };
            carry
        } else {
            *self = ReasoningSegmenter { state, carry: fresh };
            assert(self@.carry =~= step(before, c).0.carry);
            carry
        }
    }

    /// Feeds one content delta and returns what it releases.
    ///
    /// Text is released as soon as it can no longer be part of a marker;
    /// markers themselves are never released. What is released comes as
    /// segments: the runs of [`group`], none empty, neighbours of different
    /// channels. The result does not depend on how the content was cut into
    /// deltas: see [`crate::reasoning::lemma_advance_concat`].
    pub fn push(&mut self, delta: &str) -> (segments: Vec<Segment>)
        ensures
            final(self)@ == advance(old(self)@, delta@).0,
            runs(segments@) == group(advance(old(self)@, delta@).1),
            flatten(segments@) == advance(old(self)@, delta@).1,
            canonical(segments@),
    {
        let chars = chars_of(delta);
        let ghost start = self@;
        let mut builder = Builder::new(self.state);
        let mut i: usize = 0;
        proof {
            assert(chars@.take(0) =~= Seq::<char>::empty());
        }
        while i < chars.len()
            invariant
                i <= chars.len(),
                self@ == advance(start, chars@.take(i as int)).0,
                builder.routed() == advance(start, chars@.take(i as int)).1,
                builder.built() == group(advance(start, chars@.take(i as int)).1),
                builder.wf(),
            decreases chars.len() - i,
        {
            let c = chars[i];
            let channel = self.state;
            let released = self.feed(c);
            proof {
                assert(chars@.take(i + 1) =~= chars@.take(i as int).push(c));
                lemma_advance_push(start, chars@.take(i as int), c);
                lemma_group_tag(advance(start, chars@.take(i as int)).1, channel, released@);
            }
            builder.add(channel, released);
            i += 1;
        }
        proof {
            assert(chars@.take(chars@.len() as int) =~= chars@);
        }
        builder.close()
    }

    /// Ends the stream: the carry-over, which turned out to be no marker, is
    /// released to the active channel, and an unclosed reasoning segment is
    /// reported.
    pub fn finish(self) -> (tail: Tail)
        ensures
            tail.unterminated == (self@.state == ReasoningState::Reasoning),
            match tail.segment {
                Some(segment) => segment.channel == self@.state && segment.text@ == self@.carry
                    && self@.carry.len() > 0,
                None => self@.carry.len() == 0,
            },
    {
        let unterminated = match self.state {
            ReasoningState::Answering => false,
            ReasoningState::Reasoning => true,
        };
        let segment = if self.carry.len() > 0 {
            Some(Segment { channel: self.state, text: string_of(&self.carry) })
        } else {
            None
        };
        Tail { segment, unterminated }
    }
}

/// Whether two channels are the same.
fn same_channel(a: ReasoningState, b: ReasoningState) -> (same: bool)
    ensures
        same == (a == b),
{
    a == b
}

/// A non-empty segment of another channel than the last keeps a list
/// canonical.
proof fn lemma_canonical_push(segments: Seq<Segment>, segment: Segment)
    requires
        canonical(segments),
        segment.text@.len() > 0,
        segments.len() > 0 ==> segments.last().channel != segment.channel,
    ensures
        canonical(segments.push(segment)),
{
    let longer = segments.push(segment);
    assert forall|i: int| 0 <= i < longer.len() implies (#[trigger] longer[i]).text@.len()
        > 0 by {
        if i < segments.len() {
            assert(longer[i] == segments[i]);
        }
    }
    assert forall|i: int, j: int| 0 <= i && j == i + 1 && j < longer.len() implies (
    #[trigger] longer[i]).channel != (#[trigger] longer[j]).channel by {
        assert(longer[i] == segments[i]);
        if j < segments.len() {
            assert(longer[j] == segments[j]);
        }
    }
}

/// Appending a segment appends its run.
proof fn lemma_runs_push(segments: Seq<Segment>, segment: Segment)
    ensures
        runs(segments.push(segment)) == runs(segments).push((segment.channel, segment.text@)),
{
    assert(runs(segments.push(segment)) =~= runs(segments).push((segment.channel, segment.text@)));
}

/// Appending a segment appends its routed characters.
proof fn lemma_flatten_push(segments: Seq<Segment>, segment: Segment)
    ensures
        flatten(segments.push(segment)) == flatten(segments) + tag(segment.channel, segment.text@),
{
    assert(segments.push(segment).drop_last() =~= segments);
}

/// The text that a list of segments holds for one channel, in order.
pub fn collect(segments: &Vec<Segment>, channel: ReasoningState) -> (text: String)
    ensures
        text@ == select(flatten(segments@), channel),
{
    let mut text = String::new();
    let mut i: usize = 0;
    proof {
        assert(segments@.take(0) =~= Seq::<Segment>::empty());
    }
    while i < segments.len()
        invariant
            i <= segments.len(),
            text@ == select(flatten(segments@.take(i as int)), channel),
        decreases segments.len() - i,
    {
        let segment = &segments[i];
        proof {
            let done = segments@.take(i as int);
            assert(segments@.take(i + 1) =~= done.push(*segment));
            lemma_flatten_push(done, *segment);
            lemma_select_concat(flatten(done), tag(segment.channel, segment.text@), channel);
            lemma_select_tag(segment.channel, segment.text@, channel);
            if channel != segment.channel {
                assert(text@ + Seq::<char>::empty() =~= text@);
            }
        }
        if same_channel(segment.channel, channel) {
            text.append(segment.text.as_str());
        }
        i += 1;
    }
    proof {
        assert(segments@.take(segments@.len() as int) =~= segments@);
    }
    text
}

/// The answer of a whole text: the characters that [`scan`] routes to the
/// answer channel.
pub open spec fn answer_of(text: Seq<char>) -> Seq<char> {
    select(scan(text, ReasoningState::Answering).0, ReasoningState::Answering)
}

/// The reasoning of a whole text: the characters that [`scan`] routes to the
/// reasoning channel.
pub open spec fn reasoning_of(text: Seq<char>) -> Seq<char> {
    select(scan(text, ReasoningState::Answering).0, ReasoningState::Reasoning)
}

/// Whether a whole text ends inside a reasoning segment.
pub open spec fn ends_in_reasoning(text: Seq<char>) -> bool {
    scan(text, ReasoningState::Answering).1 == ReasoningState::Reasoning
}

/// Splits a whole text into answer and reasoning.
pub fn split_reasoning(text: &str) -> (parts: Partition)
    ensures
        parts.answer@ == answer_of(text@),
        parts.reasoning@ == reasoning_of(text@),
        parts.unterminated == ends_in_reasoning(text@),
{
    let mut segmenter = ReasoningSegmenter::new();
    let segments = segmenter.push(text);
    let ghost end = segmenter@;
    let tail = segmenter.finish();
    let mut answer = collect(&segments, ReasoningState::Answering);
    let mut reasoning = collect(&segments, ReasoningState::Reasoning);
    proof {
        assert(initial().carry + text@ =~= text@);
        assert(initial().carry.is_prefix_of(open_marker()));
        lemma_stream_is_scan(initial(), text@);
        let released = flatten(segments@);
        let held = tag(end.state, end.carry);
        assert(scan(text@, ReasoningState::Answering).0 == released + held);
        lemma_select_concat(released, held, ReasoningState::Answering);
        lemma_select_concat(released, held, ReasoningState::Reasoning);
        lemma_select_tag(end.state, end.carry, ReasoningState::Answering);
        lemma_select_tag(end.state, end.carry, ReasoningState::Reasoning);
        assert(answer@ + Seq::<char>::empty() =~= answer@);
        assert(reasoning@ + Seq::<char>::empty() =~= reasoning@);
    }
    match tail.segment {
        Some(segment) => {
            match segment.channel {
                ReasoningState::Answering => {
                    answer.append(segment.text.as_str());
                },
                ReasoningState::Reasoning => {
                    reasoning.append(segment.text.as_str());
                },
            }
        },
        None => {
            proof {
                assert(end.carry =~= Seq::<char>::empty());
            }
        },
    }
    Partition { answer, reasoning, unterminated: tail.unterminated }
}

} // verus!
