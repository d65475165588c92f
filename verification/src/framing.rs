//! The stream frame decoder: cuts the raw bytes of a streamed response into
//! logical records, whatever the sizes of the chunks they arrive in.
//!
//! Both wire formats are line oriented. The bytes are buffered until a line
//! feed ends a line; a carriage return before it is dropped. What a line
//! means depends on the framing: see [`record_of`].

use vstd::prelude::*;
use crate::entities::Providers;

verus! {

/// How a backend frames the units of its stream.
#[derive(Clone, Copy, Debug, PartialEq, Eq, Structural)]
pub enum Framing {
    /// One JSON document per line.
    Lines,
    /// Server-sent events: the payload follows `data:`, and the payload
    /// `[DONE]` ends the stream.
    Events,
}

/// One logical unit of a stream.
#[derive(Clone, Debug, PartialEq, Eq)]
pub enum Record {
    /// The bytes of one frame, still to be read as JSON.
    Payload(Vec<u8>),
    /// The sentinel that ends the stream.
    Done,
}

/// The mathematical value of a [`Record`].
pub enum RecordModel {
    Payload(Seq<u8>),
    Done,
}

impl View for Record {
    type V = RecordModel;

    open spec fn view(&self) -> RecordModel {
        match self {
            Record::Payload(bytes) => RecordModel::Payload(bytes@),
            Record::Done => RecordModel::Done,
        }
    }
}

/// The bytes of `data:`.
pub open spec fn data_field() -> Seq<u8> {
    seq![100u8, 97u8, 116u8, 97u8, 58u8]
}

/// The bytes of `[DONE]`.
pub open spec fn done_sentinel() -> Seq<u8> {
    seq![91u8, 68u8, 79u8, 78u8, 69u8, 93u8]
}

/// The framing that a backend kind uses.
pub open spec fn framing_of(kind: Providers) -> Framing {
    match kind {
        Providers::Ollama => Framing::Lines,
        Providers::Custom => Framing::Events,
    }
}

/// The position of the first line feed in `buffer`, if there is one.
pub open spec fn first_newline(buffer: Seq<u8>) -> Option<int>
    decreases buffer.len(),
{
    if buffer.len() == 0 {
        None
    } else if buffer[0] == 10u8 {
        Some(0)
    } else {
        match first_newline(buffer.skip(1)) {
            Some(k) => Some(k + 1),
            None => None,
        }
    }
}

/// A line without the carriage return that may end it.
pub open spec fn without_cr(line: Seq<u8>) -> Seq<u8> {
    if line.len() > 0 && line.last() == 13u8 {
        line.drop_last()
    } else {
        line
    }
}

/// The value of an event field: what follows the field name, without the one
/// space that may come first.
pub open spec fn field_value(rest: Seq<u8>) -> Seq<u8> {
    if rest.len() > 0 && rest[0] == 32u8 {
        rest.skip(1)
    } else {
        rest
    }
}

/// The record that one line carries, if it carries one.
///
/// With [`Framing::Lines`] every line that is not empty is a payload. With
/// [`Framing::Events`] only a `data:` line with a value carries a record:
/// the sentinel [`Record::Done`] where the value is `[DONE]`, else a
/// payload. Blank lines, comments and other fields carry none.
pub open spec fn record_of(framing: Framing, line: Seq<u8>) -> Option<RecordModel> {
    let text = without_cr(line);
    match framing {
        Framing::Lines => if text.len() == 0 {
            None
        } else {
            Some(RecordModel::Payload(text))
        },
        Framing::Events => if data_field().is_prefix_of(text) {
            let value = field_value(text.skip(data_field().len() as int));
            if value.len() == 0 {
                None
            } else if value == done_sentinel() {
                Some(RecordModel::Done)
            } else {
                Some(RecordModel::Payload(value))
            }
        } else {
            None
        },
    }
}

/// The first record in `buffer` and the bytes that remain after its line.
/// Lines that carry no record are consumed on the way. Without a complete
/// line that carries one there is no record, and what remains is the
/// unfinished last line.
pub open spec fn next_record(framing: Framing, buffer: Seq<u8>) -> (Option<RecordModel>, Seq<u8>)
    decreases buffer.len(),
{
    match first_newline(buffer) {
        None => (None, buffer),
        Some(k) => if 0 <= k < buffer.len() {
            match record_of(framing, buffer.take(k)) {
                Some(record) => (Some(record), buffer.skip(k + 1)),
                None => next_record(framing, buffer.skip(k + 1)),
            }
        } else {
            (None, buffer)
        },
    }
}

/// All records that `buffer` holds, in order, and the bytes that remain.
pub open spec fn drain(framing: Framing, buffer: Seq<u8>) -> (Seq<RecordModel>, Seq<u8>)
    decreases buffer.len(),
{
    match first_newline(buffer) {
        None => (Seq::empty(), buffer),
        Some(k) => if 0 <= k < buffer.len() {
            let rest = drain(framing, buffer.skip(k + 1));
            match record_of(framing, buffer.take(k)) {
                Some(record) => (seq![record] + rest.0, rest.1),
                None => rest,
            }
        } else {
            (Seq::empty(), buffer)
        },
    }
}

/// Where `first_newline` finds a line feed, it is the first one.
pub proof fn lemma_first_newline_some(buffer: Seq<u8>)
    ensures
        match first_newline(buffer) {
            Some(k) => 0 <= k < buffer.len() && buffer[k] == 10u8 && forall|j: int|
                0 <= j < k ==> buffer[j] != 10u8,
            None => forall|j: int| 0 <= j < buffer.len() ==> buffer[j] != 10u8,
        },
    decreases buffer.len(),
{
    if buffer.len() > 0 && buffer[0] != 10u8 {
        let tail = buffer.skip(1);
        lemma_first_newline_some(tail);
        match first_newline(tail) {
            Some(k) => {
                assert forall|j: int| 0 <= j < k + 1 implies buffer[j] != 10u8 by {
                    if j > 0 {
                        assert(buffer[j] == tail[j - 1]);
                    }
                }
            },
            None => {
                assert forall|j: int| 0 <= j < buffer.len() implies buffer[j] != 10u8 by {
                    if j > 0 {
                        assert(buffer[j] == tail[j - 1]);
                    }
                }
            },
        }
    }
}

/// The first line feed is found where it is.
pub proof fn lemma_first_newline_at(buffer: Seq<u8>, k: int)
    requires
        0 <= k < buffer.len(),
        buffer[k] == 10u8,
        forall|j: int| 0 <= j < k ==> buffer[j] != 10u8,
    ensures
        first_newline(buffer) == Some(k),
    decreases k,
{
    if k > 0 {
        let tail = buffer.skip(1);
        assert(tail[k - 1] == buffer[k]);
        assert forall|j: int| 0 <= j < k - 1 implies tail[j] != 10u8 by {
            assert(tail[j] == buffer[j + 1]);
        }
        lemma_first_newline_at(tail, k - 1);
    }
}

/// Without a line feed nothing is found.
pub proof fn lemma_first_newline_none(buffer: Seq<u8>)
    requires
        forall|j: int| 0 <= j < buffer.len() ==> buffer[j] != 10u8,
    ensures
        first_newline(buffer) is None,
    decreases buffer.len(),
{
    if buffer.len() > 0 {
        let tail = buffer.skip(1);
        assert forall|j: int| 0 <= j < tail.len() implies tail[j] != 10u8 by {
            assert(tail[j] == buffer[j + 1]);
        }
        lemma_first_newline_none(tail);
    }
}

/// Bytes that arrive later do not change the first line.
pub proof fn lemma_first_newline_append(buffer: Seq<u8>, more: Seq<u8>)
    requires
        first_newline(buffer) is Some,
    ensures
        first_newline(buffer + more) == first_newline(buffer),
{
    lemma_first_newline_some(buffer);
    let k = first_newline(buffer)->0;
    let whole = buffer + more;
    assert(whole[k] == buffer[k]);
    assert forall|j: int| 0 <= j < k implies whole[j] != 10u8 by {
        assert(whole[j] == buffer[j]);
    }
    lemma_first_newline_at(whole, k);
}

/// Taking a record consumes its line: what remains is shorter. Without a
/// record nothing is added.
pub proof fn lemma_next_record_shrinks(framing: Framing, buffer: Seq<u8>)
    ensures
        next_record(framing, buffer).1.len() <= buffer.len(),
        next_record(framing, buffer).0 is Some ==> next_record(framing, buffer).1.len()
            < buffer.len(),
    decreases buffer.len(),
{
    lemma_first_newline_some(buffer);
    match first_newline(buffer) {
        None => {},
        Some(k) => {
            lemma_next_record_shrinks(framing, buffer.skip(k + 1));
        },
    }
}

/// Bytes that arrive later do not change the record that is there, and stay
/// behind it; where there is no record yet, the lines without one that were
/// passed over are passed over for good.
pub proof fn lemma_next_record_append(framing: Framing, buffer: Seq<u8>, more: Seq<u8>)
    ensures
        next_record(framing, buffer).0 is Some ==> next_record(framing, buffer + more) == (
            next_record(framing, buffer).0,
            next_record(framing, buffer).1 + more,
        ),
        next_record(framing, buffer).0 is None ==> next_record(framing, buffer + more)
            == next_record(framing, next_record(framing, buffer).1 + more),
    decreases buffer.len(),
{
    let whole = buffer + more;
    lemma_first_newline_some(buffer);
    match first_newline(buffer) {
        None => {},
        Some(k) => {
            lemma_first_newline_append(buffer, more);
            assert(whole.take(k) =~= buffer.take(k));
            assert(whole.skip(k + 1) =~= buffer.skip(k + 1) + more);
            lemma_next_record_append(framing, buffer.skip(k + 1), more);
        },
    }
}

/// What is left after draining holds no complete line.
pub proof fn lemma_drain_rest(framing: Framing, buffer: Seq<u8>)
    ensures
        first_newline(drain(framing, buffer).1) is None,
        drain(framing, buffer).1.len() <= buffer.len(),
    decreases buffer.len(),
{
    lemma_first_newline_some(buffer);
    match first_newline(buffer) {
        None => {},
        Some(k) => {
            lemma_drain_rest(framing, buffer.skip(k + 1));
        },
    }
}

/// The cut of the stream into chunks does not matter: draining after each of
/// two chunks gives, in all, the records of draining once after both, and
/// leaves the same bytes.
pub proof fn lemma_drain_rechunk(framing: Framing, first: Seq<u8>, second: Seq<u8>)
    ensures
        drain(framing, first + second) == (
            drain(framing, first).0 + drain(framing, drain(framing, first).1 + second).0,
            drain(framing, drain(framing, first).1 + second).1,
        ),
    decreases first.len(),
{
    let whole = first + second;
    lemma_first_newline_some(first);
    match first_newline(first) {
        None => {
            assert(drain(framing, first).0 + drain(framing, whole).0 =~= drain(framing, whole).0);
        },
        Some(k) => {
            lemma_first_newline_append(first, second);
            assert(whole.take(k) =~= first.take(k));
            assert(whole.skip(k + 1) =~= first.skip(k + 1) + second);
            lemma_drain_rechunk(framing, first.skip(k + 1), second);
            let rest = drain(framing, first.skip(k + 1));
            let late = drain(framing, rest.1 + second);
            match record_of(framing, first.take(k)) {
                Some(record) => {
                    assert(seq![record] + (rest.0 + late.0) =~= (seq![record] + rest.0) + late.0);
                },
                None => {},
            }
        },
    }
}

/// Draining is taking records one by one until there is none.
pub proof fn lemma_drain_unfold(framing: Framing, buffer: Seq<u8>)
    ensures
        match next_record(framing, buffer).0 {
            Some(record) => drain(framing, buffer) == (
                seq![record] + drain(framing, next_record(framing, buffer).1).0,
                drain(framing, next_record(framing, buffer).1).1,
            ),
            None => drain(framing, buffer) == (
                Seq::<RecordModel>::empty(),
                next_record(framing, buffer).1,
            ) && first_newline(next_record(framing, buffer).1) is None,
        },
    decreases buffer.len(),
{
    lemma_first_newline_some(buffer);
    match first_newline(buffer) {
        None => {},
        Some(k) => {
            match record_of(framing, buffer.take(k)) {
                Some(record) => {},
                None => {
                    lemma_drain_unfold(framing, buffer.skip(k + 1));
                },
            }
        },
    }
}

/// Whether `bytes` begins with `data:`.
fn has_data_field(bytes: &Vec<u8>) -> (yes: bool)
    ensures
        yes == data_field().is_prefix_of(bytes@),
{
    if bytes.len() < 5 {
        return false;
    }
    let yes = bytes[0] == 100 && bytes[1] == 97 && bytes[2] == 116 && bytes[3] == 97 && bytes[4]
        == 58;
    proof {
        if yes {
            assert(data_field() =~= bytes@.subrange(0, 5));
        }
    }
    yes
}

/// Whether `bytes` is `[DONE]`.
fn is_done_sentinel(bytes: &Vec<u8>) -> (yes: bool)
    ensures
        yes == (bytes@ == done_sentinel()),
{
    if bytes.len() != 6 {
        return false;
    }
    let yes = bytes[0] == 91 && bytes[1] == 68 && bytes[2] == 79 && bytes[3] == 78 && bytes[4]
        == 69 && bytes[5] == 93;
    proof {
        if yes {
            assert(bytes@ =~= done_sentinel());
        }
    }
    yes
}

/// The record that one line carries.
fn read_line(framing: Framing, line: Vec<u8>) -> (record: Option<Record>)
    ensures
        match record_of(framing, line@) {
            Some(model) => record matches Some(r) && r@ == model,
            None => record is None,
        },
{
    let mut text = line;
    if text.len() > 0 && text[text.len() - 1] == 13 {
        text.pop();
    }
    assert(text@ =~= without_cr(line@));
    match framing {
        Framing::Lines => if text.len() == 0 {
            None
        } else {
            Some(Record::Payload(text))
        },
        Framing::Events => {
            if !has_data_field(&text) {
                return None;
            }
            let start: usize = if text.len() > 5 && text[5] == 32 {
                6
            } else {
                5
            };
            let value = text.split_off(start);
            proof {
                let rest = without_cr(line@).skip(5);
                assert(value@ =~= field_value(rest));
            }
            if value.len() == 0 {
                None
            } else if is_done_sentinel(&value) {
                Some(Record::Done)
            } else {
                Some(Record::Payload(value))
            }
        },
    }
}

/// The decoder of one stream: the framing and the bytes that have arrived
/// but belong to no record handed out yet.
pub struct FrameDecoder {
    framing: Framing,
    buffer: Vec<u8>,
}

impl FrameDecoder {
    /// The framing in use.
    pub closed spec fn framing(&self) -> Framing {
        self.framing
    }

    /// The bytes that have arrived and are not yet consumed.
    pub closed spec fn buffered(&self) -> Seq<u8> {
        self.buffer@
    }

    /// A decoder that has seen nothing yet.
    pub fn new(framing: Framing) -> (decoder: Self)
        ensures
            decoder.framing() == framing,
            decoder.buffered() == Seq::<u8>::empty(),
    {
        FrameDecoder { framing, buffer: Vec::new() }
    }

    /// A decoder for the stream of a backend of the given kind.
    pub fn for_provider(kind: Providers) -> (decoder: Self)
        ensures
            decoder.framing() == framing_of(kind),
            decoder.buffered() == Seq::<u8>::empty(),
    {
        match kind {
            Providers::Ollama => FrameDecoder::new(Framing::Lines),
            Providers::Custom => FrameDecoder::new(Framing::Events),
        }
    }

    /// Takes in the next chunk of the stream, in arrival order.
    pub fn push(&mut self, chunk: &[u8])
        ensures
            final(self).framing() == old(self).framing(),
            final(self).buffered() == old(self).buffered() + chunk@,
    {
        let mut i: usize = 0;
        while i < chunk.len()
            invariant
                i <= chunk.len(),
                self.framing == old(self).framing,
                self.buffer@ == old(self).buffer@ + chunk@.take(i as int),
            decreases chunk.len() - i,
        {
            self.buffer.push(chunk[i]);
            proof {
                assert(chunk@.take(i + 1) =~= chunk@.take(i as int).push(chunk@[i as int]));
            }
            i += 1;
        }
        proof {
            assert(chunk@.take(chunk@.len() as int) =~= chunk@);
        }
    }

    /// Lets go of the bytes that have not been consumed.
    pub fn clear(&mut self)
        ensures
            final(self).framing() == old(self).framing(),
            final(self).buffered() == Seq::<u8>::empty(),
    {
        self.buffer = Vec::new();
    }

    /// Whether all bytes that arrived have been consumed.
    pub fn is_empty(&self) -> (empty: bool)
        ensures
            empty == (self.buffered().len() == 0),
    {
        self.buffer.len() == 0
    }

    /// Hands out the next record, if a complete one has arrived. Nothing is
    /// decoded ahead: one call consumes one record and the lines before it
    /// that carry none.
    pub fn next(&mut self) -> (record: Option<Record>)
        ensures
            final(self).framing() == old(self).framing(),
            final(self).buffered() == next_record(old(self).framing(), old(self).buffered()).1,
            match next_record(old(self).framing(), old(self).buffered()).0 {
                Some(model) => record matches Some(r) && r@ == model,
                None => record is None,
            },
    {
        loop
            invariant
                self.framing == old(self).framing,
                next_record(self.framing, self.buffer@) == next_record(
                    old(self).framing,
                    old(self).buffer@,
                ),
            decreases self.buffer.len(),
        {
            let mut k: usize = 0;
            while k < self.buffer.len() && self.buffer[k] != 10
                invariant
                    k <= self.buffer.len(),
                    forall|j: int| 0 <= j < k ==> self.buffer@[j] != 10u8,
                decreases self.buffer.len() - k,
            {
                k += 1;
            }
            if k == self.buffer.len() {
                proof {
                    lemma_first_newline_none(self.buffer@);
                }
                return None;
            }
            proof {
                lemma_first_newline_at(self.buffer@, k as int);
            }
            let ghost before = self.buffer@;
            let rest = self.buffer.split_off(k + 1);
            let mut line = rest;
            core::mem::swap(&mut self.buffer, &mut line);
            line.truncate(k);
            proof {
                assert(line@ =~= before.take(k as int));
                assert(self.buffer@ =~= before.skip(k + 1));
            }
            let record = read_line(self.framing, line);
            if record.is_some() {
                return record;
            }
        }
    }
}

} // verus!
