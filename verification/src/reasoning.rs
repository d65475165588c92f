//! The model of reasoning segmentation: which characters of a model's output
//! are visible answer and which are reasoning.
//!
//! Reasoning is delimited by a pair of markers inside the text itself: the
//! opening marker switches to the reasoning channel, the closing marker back
//! to the answer. Two descriptions are given. [`scan`] reads a whole text
//! with lookahead and is the definition of the split. [`advance`] is the
//! streaming machine that sees one character at a time and holds back a
//! short carry-over while the text seen so far could still turn into a
//! marker. The laws in this file show that the two agree however the text is
//! cut into deltas.

use vstd::prelude::*;

verus! {

/// The channel that text is currently routed to.
#[derive(Clone, Copy, Debug, PartialEq, Eq, Structural)]
pub enum ReasoningState {
    /// Text is part of the visible answer.
    Answering,
    /// Text is part of the model's reasoning.
    Reasoning,
}

/// One character of output together with the channel it was routed to.
pub type Tagged = (ReasoningState, char);

/// A run of text that was routed to one channel.
pub type Run = (ReasoningState, Seq<char>);

/// The state of the streaming machine: the active channel and the text that
/// has been seen but not yet classified.
pub ghost struct SegmenterModel {
    pub state: ReasoningState,
    pub carry: Seq<char>,
}

/// The marker that opens a reasoning segment.
pub open spec fn open_marker() -> Seq<char> {
    seq!['<', 't', 'h', 'i', 'n', 'k', '>']
}

/// The marker that closes a reasoning segment.
pub open spec fn close_marker() -> Seq<char> {
    seq!['<', '/', 't', 'h', 'i', 'n', 'k', '>']
}

/// The marker that switches to the given channel.
pub open spec fn marker(target: ReasoningState) -> Seq<char> {
    match target {
        ReasoningState::Reasoning => open_marker(),
        ReasoningState::Answering => close_marker(),
    }
}

/// The channel that the marker at the beginning of `text` switches to, if
/// `text` begins with a marker.
pub open spec fn marker_at(text: Seq<char>) -> Option<ReasoningState> {
    if open_marker().is_prefix_of(text) {
        Some(ReasoningState::Reasoning)
    } else if close_marker().is_prefix_of(text) {
        Some(ReasoningState::Answering)
    } else {
        None
    }
}

/// Whether `text` is the beginning of a marker, or a whole one.
pub open spec fn begins_marker(text: Seq<char>) -> bool {
    text.is_prefix_of(open_marker()) || text.is_prefix_of(close_marker())
}

/// The longest carry-over the machine ever holds: one character less than
/// the longer marker.
pub open spec fn max_carry() -> nat {
    7
}

/// `text`, every character routed to `channel`.
pub open spec fn tag(channel: ReasoningState, text: Seq<char>) -> Seq<Tagged> {
    Seq::new(text.len(), |i: int| (channel, text[i]))
}

/// The characters of `out` that were routed to `channel`, in order.
pub open spec fn select(out: Seq<Tagged>, channel: ReasoningState) -> Seq<char>
    decreases out.len(),
{
    if out.len() == 0 {
        Seq::empty()
    } else if out.last().0 == channel {
        select(out.drop_last(), channel).push(out.last().1)
    } else {
        select(out.drop_last(), channel)
    }
}

/// The characters of routed output, without their channels.
pub open spec fn plain(out: Seq<Tagged>) -> Seq<char> {
    Seq::new(out.len(), |i: int| out[i].1)
}

/// The split of a whole text, read from the left with lookahead: where a
/// marker begins, it is dropped and its channel becomes the active one; any
/// other character belongs to the channel that is active. The result is the
/// routed characters and the channel that is active at the end.
pub open spec fn scan(text: Seq<char>, state: ReasoningState) -> (Seq<Tagged>, ReasoningState)
    decreases text.len(),
{
    if text.len() == 0 {
        (Seq::empty(), state)
    } else {
        match marker_at(text) {
            Some(target) => scan(text.skip(marker(target).len() as int), target),
            None => {
                let rest = scan(text.skip(1), state);
                (seq![(state, text[0])] + rest.0, rest.1)
            },
        }
    }
}

/// A machine at the start of a response: answering, nothing held back.
pub open spec fn initial() -> SegmenterModel {
    SegmenterModel { state: ReasoningState::Answering, carry: Seq::empty() }
}

/// A machine state that can arise: the carry-over is the beginning of a
/// marker, and not a whole one.
pub open spec fn well_formed(m: SegmenterModel) -> bool {
    &&& begins_marker(m.carry)
    &&& m.carry != open_marker()
    &&& m.carry != close_marker()
}

/// One character through the machine: the next state and the text released
/// to the channel that was active before the character.
///
/// The character is appended to the carry-over. A complete marker is dropped
/// and makes its channel the active one. The beginning of a marker is held
/// back. Anything else is released at once, except that a `<` which may
/// start the next marker stays behind as the new carry-over.
pub open spec fn step(m: SegmenterModel, c: char) -> (SegmenterModel, Seq<char>) {
    let candidate = m.carry.push(c);
    if candidate == open_marker() {
        (
            SegmenterModel { state: ReasoningState::Reasoning, carry: Seq::empty() },
            Seq::empty(),
        )
    } else if candidate == close_marker() {
        (
            SegmenterModel { state: ReasoningState::Answering, carry: Seq::empty() },
            Seq::empty(),
        )
    } else if begins_marker(candidate) {
        (SegmenterModel { state: m.state, carry: candidate }, Seq::empty())
    } else if c == '<' {
        (SegmenterModel { state: m.state, carry: seq!['<'] }, m.carry)
    } else {
        (SegmenterModel { state: m.state, carry: Seq::empty() }, candidate)
    }
}

/// A whole delta through the machine, character by character: the state
/// after it and the routed characters it released.
pub open spec fn advance(m: SegmenterModel, text: Seq<char>) -> (SegmenterModel, Seq<Tagged>)
    decreases text.len(),
{
    if text.len() == 0 {
        (m, Seq::empty())
    } else {
        let first = step(m, text[0]);
        let rest = advance(first.0, text.skip(1));
        (rest.0, tag(m.state, first.1) + rest.1)
    }
}

/// Everything a stream has produced once it ends: what was released plus the
/// carry-over, which goes to the channel that is active at the end.
pub open spec fn flushed(run: (SegmenterModel, Seq<Tagged>)) -> (Seq<Tagged>, ReasoningState) {
    (run.1 + tag(run.0.state, run.0.carry), run.0.state)
}

/// The outcome of streaming `first` and then `second` through a machine that
/// starts in state `m`.
pub open spec fn advance_twice(m: SegmenterModel, first: Seq<char>, second: Seq<char>) -> (
    SegmenterModel,
    Seq<Tagged>,
) {
    let a = advance(m, first);
    let b = advance(a.0, second);
    (b.0, a.1 + b.1)
}

/// `runs` with more text of one channel at the end: it joins the last run
/// where that is of the same channel, and is a run of its own otherwise.
/// Empty text changes nothing.
pub open spec fn extend(runs: Seq<Run>, channel: ReasoningState, text: Seq<char>) -> Seq<Run> {
    if text.len() == 0 {
        runs
    } else if runs.len() > 0 && runs.last().0 == channel {
        runs.drop_last().push((channel, runs.last().1 + text))
    } else {
        runs.push((channel, text))
    }
}

/// Routed characters as runs: the longest stretches of neighbours that
/// belong to one channel, in order.
pub open spec fn group(out: Seq<Tagged>) -> Seq<Run>
    decreases out.len(),
{
    if out.len() == 0 {
        Seq::empty()
    } else {
        extend(group(out.drop_last()), out.last().0, seq![out.last().1])
    }
}

/// Runs as they come out of [`group`]: none is empty, and neighbours belong
/// to different channels.
pub open spec fn alternating(runs: Seq<Run>) -> bool {
    &&& forall|i: int| 0 <= i < runs.len() ==> (#[trigger] runs[i]).1.len() > 0
    &&& forall|i: int, j: int|
        0 <= i && j == i + 1 && j < runs.len() ==> (#[trigger] runs[i]).0 != (#[trigger] runs[j]).0
}

/// Whether `part` can be had from `whole` by leaving characters out, the
/// others staying in their order.
pub open spec fn is_subsequence(part: Seq<char>, whole: Seq<char>) -> bool
    decreases whole.len(),
{
    if part.len() == 0 {
        true
    } else if whole.len() == 0 {
        false
    } else {
        (part[0] == whole[0] && is_subsequence(part.skip(1), whole.skip(1))) || is_subsequence(
            part,
            whole.skip(1),
        )
    }
}

/// Routing distributes over concatenation.
pub proof fn lemma_tag_concat(channel: ReasoningState, a: Seq<char>, b: Seq<char>)
    ensures
        tag(channel, a + b) == tag(channel, a) + tag(channel, b),
{
    assert(tag(channel, a + b) =~= tag(channel, a) + tag(channel, b));
}

/// Selecting a channel distributes over concatenation.
pub proof fn lemma_select_concat(a: Seq<Tagged>, b: Seq<Tagged>, channel: ReasoningState)
    ensures
        select(a + b, channel) == select(a, channel) + select(b, channel),
    decreases b.len(),
{
    if b.len() == 0 {
        assert(a + b =~= a);
        assert(select(a, channel) + select(b, channel) =~= select(a, channel));
    } else {
        assert((a + b).drop_last() =~= a + b.drop_last());
        assert((a + b).last() == b.last());
        lemma_select_concat(a, b.drop_last(), channel);
        if b.last().0 == channel {
            assert(select(a, channel) + select(b.drop_last(), channel).push(b.last().1)
                =~= (select(a, channel) + select(b.drop_last(), channel)).push(b.last().1));
        }
    }
}

/// Selecting the channel that a text was routed to gives the text back, and
/// selecting the other channel gives nothing.
pub proof fn lemma_select_tag(channel: ReasoningState, text: Seq<char>, wanted: ReasoningState)
    ensures
        select(tag(channel, text), wanted) == if wanted == channel {
            text
        } else {
            Seq::<char>::empty()
        },
    decreases text.len(),
{
    if text.len() > 0 {
        assert(tag(channel, text).drop_last() =~= tag(channel, text.drop_last()));
        lemma_select_tag(channel, text.drop_last(), wanted);
        if wanted == channel {
            assert(text.drop_last().push(text.last()) =~= text);
        }
    } else {
        assert(text =~= Seq::<char>::empty());
    }
}

/// One step keeps the machine well formed.
pub proof fn lemma_step_well_formed(m: SegmenterModel, c: char)
    requires
        well_formed(m),
    ensures
        well_formed(step(m, c).0),
{
    let candidate = m.carry.push(c);
    let next = step(m, c).0;
    if candidate == open_marker() || candidate == close_marker() {
        assert(next.carry.is_prefix_of(open_marker()));
    } else if begins_marker(candidate) {
    } else if c == '<' {
        assert(seq!['<'].is_prefix_of(open_marker()));
    } else {
        assert(next.carry.is_prefix_of(open_marker()));
    }
}

/// A whole delta keeps the machine well formed: the carry-over never grows
/// beyond [`max_carry`].
pub proof fn lemma_advance_well_formed(m: SegmenterModel, text: Seq<char>)
    requires
        well_formed(m),
    ensures
        well_formed(advance(m, text).0),
        advance(m, text).0.carry.len() <= max_carry(),
    decreases text.len(),
{
    if text.len() > 0 {
        lemma_step_well_formed(m, text[0]);
        lemma_advance_well_formed(step(m, text[0]).0, text.skip(1));
    } else {
        if m.carry.len() >= 8 {
            assert(m.carry =~= close_marker());
        }
    }
}

/// A delta of one character is one step.
pub proof fn lemma_advance_one(m: SegmenterModel, c: char)
    ensures
        advance(m, seq![c]) == (step(m, c).0, tag(m.state, step(m, c).1)),
{
    let text = seq![c];
    assert(text.skip(1) =~= Seq::<char>::empty());
    assert(advance(step(m, c).0, text.skip(1)).1 =~= Seq::<Tagged>::empty());
    assert(tag(m.state, step(m, c).1) + Seq::<Tagged>::empty() =~= tag(m.state, step(m, c).1));
}

/// Streaming a text in two deltas is streaming it in one: the cut changes
/// neither the state reached nor the characters released.
pub proof fn lemma_advance_concat(m: SegmenterModel, first: Seq<char>, second: Seq<char>)
    ensures
        advance(m, first + second) == advance_twice(m, first, second),
    decreases first.len(),
{
    if first.len() == 0 {
        assert(first + second =~= second);
        assert(advance(m, first).1 + advance(m, second).1 =~= advance(m, second).1);
    } else {
        let whole = first + second;
        let one = step(m, first[0]);
        assert(whole[0] == first[0]);
        assert(whole.skip(1) =~= first.skip(1) + second);
        lemma_advance_concat(one.0, first.skip(1), second);
        let a = advance(one.0, first.skip(1));
        let b = advance(a.0, second);
        assert(tag(m.state, one.1) + (a.1 + b.1) =~= (tag(m.state, one.1) + a.1) + b.1);
    }
}

/// One more character at the end of a delta is one more step.
pub proof fn lemma_advance_push(m: SegmenterModel, text: Seq<char>, c: char)
    ensures
        advance(m, text.push(c)) == (
            step(advance(m, text).0, c).0,
            advance(m, text).1 + tag(advance(m, text).0.state, step(advance(m, text).0, c).1),
        ),
{
    assert(text.push(c) =~= text + seq![c]);
    lemma_advance_concat(m, text, seq![c]);
    lemma_advance_one(advance(m, text).0, c);
}

/// Where no marker begins within `head`, the scan routes `head` to the
/// active channel and goes on with `rest`.
proof fn lemma_scan_plain(head: Seq<char>, rest: Seq<char>, state: ReasoningState)
    requires
        forall|j: int| 0 <= j < head.len() ==> marker_at((head + rest).skip(j)) is None,
    ensures
        scan(head + rest, state) == (tag(state, head) + scan(rest, state).0, scan(rest, state).1),
    decreases head.len(),
{
    let text = head + rest;
    if head.len() == 0 {
        assert(text =~= rest);
        assert(tag(state, head) + scan(rest, state).0 =~= scan(rest, state).0);
    } else {
        assert(text.skip(0) =~= text);
        assert(text.skip(1) =~= head.skip(1) + rest);
        assert forall|j: int| 0 <= j < head.skip(1).len() implies marker_at(
            (head.skip(1) + rest).skip(j),
        ) is None by {
            assert((head.skip(1) + rest).skip(j) =~= text.skip(j + 1));
        }
        lemma_scan_plain(head.skip(1), rest, state);
        assert(text[0] == head[0]);
        assert(seq![(state, head[0])] + (tag(state, head.skip(1)) + scan(rest, state).0) =~= tag(
            state,
            head,
        ) + scan(rest, state).0);
    }
}

/// A marker can only begin at a `<`.
proof fn lemma_marker_needs_bracket(text: Seq<char>, j: int)
    requires
        0 <= j < text.len(),
        text[j] != '<',
    ensures
        marker_at(text.skip(j)) is None,
{
    if open_marker().is_prefix_of(text.skip(j)) {
        assert(text.skip(j)[0] == open_marker()[0]);
    }
    if close_marker().is_prefix_of(text.skip(j)) {
        assert(text.skip(j)[0] == close_marker()[0]);
    }
}

/// Within the beginning of a marker no other marker begins after the first
/// character, whatever follows.
proof fn lemma_carry_is_plain(carry: Seq<char>, rest: Seq<char>, j: int)
    requires
        begins_marker(carry),
        1 <= j < carry.len(),
    ensures
        marker_at((carry + rest).skip(j)) is None,
{
    let whole = carry + rest;
    assert(whole[j] == carry[j]);
    if carry.is_prefix_of(open_marker()) {
        assert(carry[j] == open_marker()[j]);
    } else {
        assert(carry[j] == close_marker()[j]);
    }
    lemma_marker_needs_bracket(whole, j);
}

/// A text that begins with something that is not the beginning of a marker,
/// yet is no longer than one, does not begin with a marker.
proof fn lemma_no_marker_in_front(candidate: Seq<char>, rest: Seq<char>)
    requires
        candidate.len() >= 1,
        begins_marker(candidate.drop_last()),
        candidate.drop_last() != open_marker(),
        candidate.drop_last() != close_marker(),
        !begins_marker(candidate),
    ensures
        marker_at(candidate + rest) is None,
{
    let whole = candidate + rest;
    let carry = candidate.drop_last();
    if open_marker().is_prefix_of(whole) {
        if candidate.len() <= 7 {
            assert(candidate =~= open_marker().subrange(0, candidate.len() as int));
        } else {
            // the carry-over is the closing marker without its last character
            assert(carry.len() >= 7);
            if carry.is_prefix_of(open_marker()) {
                assert(carry =~= open_marker());
            }
            assert(carry[1] == close_marker()[1]);
            assert(whole[1] == carry[1]);
        }
    }
    if close_marker().is_prefix_of(whole) {
        if candidate.len() <= 8 {
            assert(candidate =~= close_marker().subrange(0, candidate.len() as int));
        } else {
            if carry.is_prefix_of(close_marker()) {
                assert(carry =~= close_marker());
            }
        }
    }
}

/// The scan of a text that begins with what one step releases.
proof fn lemma_scan_after_release(m: SegmenterModel, c: char, tail: Seq<char>)
    requires
        well_formed(m),
        !begins_marker(m.carry.push(c)),
    ensures
        scan(m.carry.push(c) + tail, m.state) == (
            tag(m.state, step(m, c).1) + scan(step(m, c).0.carry + tail, m.state).0,
            scan(step(m, c).0.carry + tail, m.state).1,
        ),
{
    let candidate = m.carry.push(c);
    let whole = candidate + tail;
    assert(candidate.drop_last() =~= m.carry);
    lemma_no_marker_in_front(candidate, tail);
    assert(whole.skip(0) =~= whole);
    assert(candidate != open_marker() && candidate != close_marker()) by {
        if candidate == open_marker() {
            assert(candidate.is_prefix_of(open_marker()));
        }
        if candidate == close_marker() {
            assert(candidate.is_prefix_of(close_marker()));
        }
    }
    if c == '<' {
        let rest = seq!['<'] + tail;
        assert(whole =~= m.carry + rest);
        assert forall|j: int| 0 <= j < m.carry.len() implies marker_at(
            (m.carry + rest).skip(j),
        ) is None by {
            if j >= 1 {
                lemma_carry_is_plain(m.carry, rest, j);
            }
        }
        lemma_scan_plain(m.carry, rest, m.state);
    } else {
        assert(Seq::<char>::empty() + tail =~= tail);
        assert forall|j: int| 0 <= j < candidate.len() implies marker_at(whole.skip(j)) is None by {
            if 1 <= j < m.carry.len() {
                assert(whole =~= m.carry + (seq![c] + tail));
                lemma_carry_is_plain(m.carry, seq![c] + tail, j);
            } else if j >= 1 {
                assert(whole[j] == c);
                lemma_marker_needs_bracket(whole, j);
            }
        }
        lemma_scan_plain(candidate, tail, m.state);
    }
}

/// The beginning of a marker that is not a whole one is routed whole to the
/// active channel.
proof fn lemma_scan_carry(carry: Seq<char>, state: ReasoningState)
    requires
        begins_marker(carry),
        carry != open_marker(),
        carry != close_marker(),
    ensures
        scan(carry, state) == (tag(state, carry), state),
{
    let rest = Seq::<char>::empty();
    assert(carry + rest =~= carry);
    assert forall|j: int| 0 <= j < carry.len() implies marker_at((carry + rest).skip(j)) is None by {
        if j >= 1 {
            lemma_carry_is_plain(carry, rest, j);
        } else {
            assert(carry.skip(0) =~= carry);
            if open_marker().is_prefix_of(carry) {
                if carry.is_prefix_of(open_marker()) {
                    assert(carry =~= open_marker());
                } else {
                    assert(carry[1] == close_marker()[1]);
                }
            }
            if close_marker().is_prefix_of(carry) {
                if carry.is_prefix_of(close_marker()) {
                    assert(carry =~= close_marker());
                } else {
                    assert(carry[1] == open_marker()[1]);
                }
            }
        }
    }
    lemma_scan_plain(carry, rest, state);
    assert(tag(state, carry) + scan(rest, state).0 =~= tag(state, carry));
}

/// Streaming from any state that can arise, then flushing, gives the scan of
/// the carry-over followed by the text.
pub proof fn lemma_stream_is_scan(m: SegmenterModel, text: Seq<char>)
    requires
        well_formed(m),
    ensures
        flushed(advance(m, text)) == scan(m.carry + text, m.state),
    decreases text.len(),
{
    if text.len() == 0 {
        assert(m.carry + text =~= m.carry);
        lemma_scan_carry(m.carry, m.state);
        assert(Seq::<Tagged>::empty() + tag(m.state, m.carry) =~= tag(m.state, m.carry));
    } else {
        let c = text[0];
        let tail = text.skip(1);
        let candidate = m.carry.push(c);
        let one = step(m, c);
        let whole = m.carry + text;
        assert(whole =~= candidate + tail);
        lemma_step_well_formed(m, c);
        lemma_stream_is_scan(one.0, tail);
        let rest = advance(one.0, tail);
        let end = tag(rest.0.state, rest.0.carry);
        assert(flushed(advance(m, text)).0 =~= tag(m.state, one.1) + (rest.1 + end));
        if candidate == open_marker() {
            assert(open_marker().is_prefix_of(whole));
            assert(whole.skip(7) =~= tail);
            assert(one.0.carry + tail =~= tail);
            assert(tag(m.state, one.1) + (rest.1 + end) =~= rest.1 + end);
        } else if candidate == close_marker() {
            assert(close_marker().is_prefix_of(whole));
            assert(!open_marker().is_prefix_of(whole)) by {
                assert(whole[1] == close_marker()[1]);
            }
            assert(whole.skip(8) =~= tail);
            assert(one.0.carry + tail =~= tail);
            assert(tag(m.state, one.1) + (rest.1 + end) =~= rest.1 + end);
        } else if begins_marker(candidate) {
            assert(tag(m.state, one.1) + (rest.1 + end) =~= rest.1 + end);
        } else {
            lemma_scan_after_release(m, c, tail);
        }
    }
}

/// Extending in two steps is extending by the whole text.
pub proof fn lemma_extend_twice(
    runs: Seq<Run>,
    channel: ReasoningState,
    first: Seq<char>,
    second: Seq<char>,
)
    ensures
        extend(extend(runs, channel, first), channel, second) == extend(
            runs,
            channel,
            first + second,
        ),
{
    if first.len() == 0 {
        assert(first + second =~= second);
    } else if second.len() == 0 {
        assert(first + second =~= first);
    } else if runs.len() > 0 && runs.last().0 == channel {
        let once = runs.drop_last().push((channel, runs.last().1 + first));
        assert(once.drop_last() =~= runs.drop_last());
        assert((runs.last().1 + first) + second =~= runs.last().1 + (first + second));
    } else {
        let once = runs.push((channel, first));
        assert(once.drop_last() =~= runs);
    }
}

/// Text that is routed to one channel extends the runs by that text.
pub proof fn lemma_group_tag(out: Seq<Tagged>, channel: ReasoningState, text: Seq<char>)
    ensures
        group(out + tag(channel, text)) == extend(group(out), channel, text),
    decreases text.len(),
{
    if text.len() == 0 {
        assert(out + tag(channel, text) =~= out);
    } else {
        let front = text.drop_last();
        let whole = out + tag(channel, text);
        assert(whole.drop_last() =~= out + tag(channel, front));
        assert(whole.last() == (channel, text.last()));
        lemma_group_tag(out, channel, front);
        lemma_extend_twice(group(out), channel, front, seq![text.last()]);
        assert(front + seq![text.last()] =~= text);
    }
}

/// Extending keeps runs alternating.
pub proof fn lemma_extend_alternating(runs: Seq<Run>, channel: ReasoningState, text: Seq<char>)
    requires
        alternating(runs),
    ensures
        alternating(extend(runs, channel, text)),
{
    let longer = extend(runs, channel, text);
    if text.len() > 0 {
        assert forall|i: int| 0 <= i < longer.len() implies (#[trigger] longer[i]).1.len() > 0 by {
            if i + 1 < longer.len() {
                assert(longer[i] == runs[i]);
            } else if runs.len() > 0 && runs.last().0 == channel {
                assert(runs[i].1.len() > 0);
            }
        }
        assert forall|i: int, j: int| 0 <= i && j == i + 1 && j < longer.len() implies (
        #[trigger] longer[i]).0 != (#[trigger] longer[j]).0 by {
            assert(longer[i] == runs[i]);
            if j + 1 < longer.len() {
                assert(longer[j] == runs[j]);
            } else if runs.len() > 0 && runs.last().0 == channel {
                assert(longer[j].0 == runs[j].0);
            }
        }
    }
}

/// The runs of routed characters alternate.
pub proof fn lemma_group_alternating(out: Seq<Tagged>)
    ensures
        alternating(group(out)),
    decreases out.len(),
{
    if out.len() > 0 {
        lemma_group_alternating(out.drop_last());
        lemma_extend_alternating(group(out.drop_last()), out.last().0, seq![out.last().1]);
    }
}

/// A marker that arrives cut in two deltas is detected as if it had arrived
/// whole, wherever the cut falls, and so between its last two characters:
/// its channel becomes the active one and nothing is released.
pub proof fn lemma_marker_in_two_deltas(state: ReasoningState, target: ReasoningState, cut: int)
    requires
        0 <= cut <= marker(target).len(),
    ensures
        advance_twice(
            SegmenterModel { state, carry: Seq::empty() },
            marker(target).take(cut),
            marker(target).skip(cut),
        ) == (SegmenterModel { state: target, carry: Seq::<char>::empty() }, Seq::<
            Tagged,
        >::empty()),
{
    let m = SegmenterModel { state, carry: Seq::empty() };
    let mk = marker(target);
    assert(mk.take(cut) + mk.skip(cut) =~= mk);
    lemma_advance_concat(m, mk.take(cut), mk.skip(cut));
    assert(m.carry.is_prefix_of(open_marker()));
    lemma_stream_is_scan(m, mk);
    assert(m.carry + mk =~= mk);
    assert(mk.is_prefix_of(mk));
    assert(marker_at(mk) == Some(target)) by {
        if target == ReasoningState::Answering {
            assert(mk[1] != open_marker()[1]);
        }
    }
    assert(mk.skip(mk.len() as int) =~= Seq::<char>::empty());
    assert(scan(Seq::<char>::empty(), target) == (Seq::<Tagged>::empty(), target));
    assert(scan(mk, state) == scan(mk.skip(mk.len() as int), target));
    let run = advance(m, mk);
    assert(flushed(run).0.len() == 0);
    assert(run.1 =~= Seq::<Tagged>::empty());
    assert(run.0.carry =~= Seq::<char>::empty());
}

/// However a text is cut in two deltas, streaming both from the start of a
/// response and flushing gives the split of the whole text: the same
/// routed characters, hence the same answer and the same reasoning, and the
/// same channel at the end.
pub proof fn lemma_rechunk(text: Seq<char>, cut: int)
    requires
        0 <= cut <= text.len(),
    ensures
        flushed(advance_twice(initial(), text.take(cut), text.skip(cut))) == scan(
            text,
            ReasoningState::Answering,
        ),
        flushed(advance(initial(), text)) == scan(text, ReasoningState::Answering),
{
    assert(text.take(cut) + text.skip(cut) =~= text);
    lemma_advance_concat(initial(), text.take(cut), text.skip(cut));
    assert(initial().carry.is_prefix_of(open_marker()));
    lemma_stream_is_scan(initial(), text);
    assert(initial().carry + text =~= text);
}

/// What can be had from the rest of a text can be had from the text.
proof fn lemma_subsequence_skip(part: Seq<char>, whole: Seq<char>, k: int)
    requires
        0 <= k <= whole.len(),
        is_subsequence(part, whole.skip(k)),
    ensures
        is_subsequence(part, whole),
    decreases k,
{
    if k > 0 {
        assert(whole.skip(1).skip(k - 1) =~= whole.skip(k));
        lemma_subsequence_skip(part, whole.skip(1), k - 1);
    } else {
        assert(whole.skip(0) =~= whole);
    }
}

/// The split never reorders or invents content: the characters that it
/// routes, taken in order and whatever their channel, are the text with
/// characters left out. What is left out are the markers.
pub proof fn lemma_scan_keeps_order(text: Seq<char>, state: ReasoningState)
    ensures
        is_subsequence(plain(scan(text, state).0), text),
    decreases text.len(),
{
    if text.len() == 0 {
    } else {
        match marker_at(text) {
            Some(target) => {
                let skipped = marker(target).len() as int;
                lemma_scan_keeps_order(text.skip(skipped), target);
                lemma_subsequence_skip(plain(scan(text, state).0), text, skipped);
            },
            None => {
                let rest = scan(text.skip(1), state);
                lemma_scan_keeps_order(text.skip(1), state);
                let out = scan(text, state).0;
                assert(plain(out)[0] == text[0]);
                assert(plain(out).skip(1) =~= plain(rest.0));
            },
        }
    }
}

/// Whether a marker stands somewhere in `text`.
pub open spec fn holds_marker(text: Seq<char>) -> bool {
    exists|j: int| 0 <= j < text.len() && marker_at(#[trigger] text.skip(j)) is Some
}

/// Whether every `<` of `text` is the beginning of a marker that stands
/// there.
pub open spec fn brackets_begin_markers(text: Seq<char>) -> bool {
    forall|j: int| 0 <= j < text.len() && text[j] == '<' ==> marker_at(#[trigger] text.skip(j)) is Some
}

/// Whether `text` is without any `<`.
pub open spec fn no_bracket(text: Seq<char>) -> bool {
    forall|i: int| 0 <= i < text.len() ==> text[i] != '<'
}

/// Where every `<` of a text begins a marker, the split releases no `<`.
proof fn lemma_scan_releases_no_bracket(text: Seq<char>, state: ReasoningState)
    requires
        brackets_begin_markers(text),
    ensures
        no_bracket(plain(scan(text, state).0)),
    decreases text.len(),
{
    if text.len() > 0 {
        assert(text.skip(0) =~= text);
        match marker_at(text) {
            Some(target) => {
                let skipped = marker(target).len() as int;
                let rest = text.skip(skipped);
                assert forall|j: int| 0 <= j < rest.len() && rest[j] == '<' implies marker_at(
                    #[trigger] rest.skip(j),
                ) is Some by {
                    assert(rest.skip(j) =~= text.skip(skipped + j));
                    assert(text[skipped + j] == '<');
                }
                lemma_scan_releases_no_bracket(rest, target);
            },
            None => {
                let rest = text.skip(1);
                assert forall|j: int| 0 <= j < rest.len() && rest[j] == '<' implies marker_at(
                    #[trigger] rest.skip(j),
                ) is Some by {
                    assert(rest.skip(j) =~= text.skip(1 + j));
                    assert(text[1 + j] == '<');
                }
                lemma_scan_releases_no_bracket(rest, state);
                let out = plain(scan(text, state).0);
                let later = plain(scan(rest, state).0);
                assert forall|i: int| 0 <= i < out.len() implies out[i] != '<' by {
                    if i > 0 {
                        assert(out[i] == later[i - 1]);
                    }
                }
            },
        }
    }
}

/// Output without any `<` gives every channel text without any `<`.
proof fn lemma_select_has_no_bracket(out: Seq<Tagged>, channel: ReasoningState)
    requires
        no_bracket(plain(out)),
    ensures
        no_bracket(select(out, channel)),
    decreases out.len(),
{
    if out.len() > 0 {
        let front = out.drop_last();
        assert forall|i: int| 0 <= i < plain(front).len() implies plain(front)[i] != '<' by {
            assert(plain(front)[i] == plain(out)[i]);
        }
        lemma_select_has_no_bracket(front, channel);
        assert(plain(out)[out.len() - 1] == out.last().1);
    }
}

/// A text without any `<` holds no marker.
proof fn lemma_no_bracket_no_marker(text: Seq<char>)
    requires
        no_bracket(text),
    ensures
        !holds_marker(text),
{
    assert forall|j: int| 0 <= j < text.len() implies marker_at(#[trigger] text.skip(j)) is None by {
        lemma_marker_needs_bracket(text, j);
    }
}

/// Where every `<` of a text begins a marker, no marker reaches either
/// channel, whole or pieced together: what the split routes to a channel
/// holds no marker. Without the condition a marker can come together from
/// the text on both sides of a dropped one, as in `<thi<think>x</think>nk>`,
/// whose answer is `<think>`.
pub proof fn lemma_split_holds_no_marker(
    text: Seq<char>,
    state: ReasoningState,
    channel: ReasoningState,
)
    requires
        brackets_begin_markers(text),
    ensures
        no_bracket(select(scan(text, state).0, channel)),
        !holds_marker(select(scan(text, state).0, channel)),
{
    lemma_scan_releases_no_bracket(text, state);
    lemma_select_has_no_bracket(scan(text, state).0, channel);
    lemma_no_bracket_no_marker(select(scan(text, state).0, channel));
}

} // verus!
