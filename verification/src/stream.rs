//! The sub-protocol that carries an ordered sequence of replies for one request.
//!
//! A stream is a run of `StreamItem` frames whose indices count up from zero,
//! closed by exactly one `StreamEnd` or `StreamError` frame. The payload of an
//! item is its index in eight little-endian bytes followed by the value.

use vstd::prelude::*;
use crate::envelope::{Envelope, EnvelopeKind, EnvelopeView};
use crate::wire::{
    append_bytes, copy_range, le_bytes, le_value, lemma_le_bytes_len, lemma_le_value_of_bytes,
    lemma_radix_values, put_le, read_le,
};

verus! {

/// Bytes of the index in front of every item's value.
pub const INDEX_LEN: usize = 8;

/// What the producing side's sequence yields next.
#[derive(Debug, Clone)]
pub enum Yielded {
    /// The next value.
    Value(Vec<u8>),
    /// The sequence is exhausted.
    Exhausted,
    /// The sequence failed; the bytes say why.
    Failed(Vec<u8>),
}

/// A yield as a mathematical value.
pub enum YieldedView {
    Value(Seq<u8>),
    Exhausted,
    Failed(Seq<u8>),
}

impl View for Yielded {
    type V = YieldedView;

    open spec fn view(&self) -> YieldedView {
        match *self {
            Yielded::Value(bytes) => YieldedView::Value(bytes@),
            Yielded::Exhausted => YieldedView::Exhausted,
            Yielded::Failed(bytes) => YieldedView::Failed(bytes@),
        }
    }
}

/// What the consuming side hands to the reader of the stream.
#[derive(Debug, Clone)]
pub enum Delivery {
    /// The next value of the stream.
    Item(Vec<u8>),
    /// The stream ended normally.
    End,
    /// The producer failed; the bytes say why.
    Failed(Vec<u8>),
}

/// A delivery as a mathematical value.
pub enum DeliveryView {
    Item(Seq<u8>),
    End,
    Failed(Seq<u8>),
}

impl View for Delivery {
    type V = DeliveryView;

    open spec fn view(&self) -> DeliveryView {
        match *self {
            Delivery::Item(bytes) => DeliveryView::Item(bytes@),
            Delivery::End => DeliveryView::End,
            Delivery::Failed(bytes) => DeliveryView::Failed(bytes@),
        }
    }
}

/// How a frame broke the rules of the stream it was routed to.
#[derive(Debug, Clone, Copy, PartialEq, Eq, Structural)]
pub enum StreamProtocolError {
    /// An item came with an index other than the next one: a gap, a
    /// duplicate, or more items than indices exist.
    OutOfOrder { expected: u64, received: u64 },
    /// An item too short to hold its index.
    MalformedItem,
    /// A frame for a stream that has already ended.
    AfterTerminal,
    /// A frame that belongs to another correlation id.
    WrongCorrelation,
    /// A frame of a kind that no stream carries.
    NotAStreamFrame,
}

/// The consuming side of one stream.
#[derive(Debug, Clone, Copy, PartialEq, Eq, Structural)]
pub struct StreamSession {
    /// The request this stream answers.
    pub correlation_id: u64,
    /// The index the next item must carry.
    pub next_expected_index: u64,
    /// Whether the stream has ended, normally or not.
    pub terminal: bool,
}

/// The producing side of one stream.
#[derive(Debug, Clone, Copy, PartialEq, Eq, Structural)]
pub struct StreamEmitter {
    /// The request this stream answers.
    pub correlation_id: u64,
    /// The index the next item will carry.
    pub next_index: u64,
    /// Whether the terminal frame has been emitted.
    pub finished: bool,
}

/// The payload of the item with index `index` and value `value`.
pub open spec fn item_payload(index: u64, value: Seq<u8>) -> Seq<u8> {
    le_bytes(index as nat, 8) + value
}

/// The `StreamItem` frame number `index` of stream `correlation_id`.
pub open spec fn item_frame(correlation_id: u64, index: u64, value: Seq<u8>) -> EnvelopeView {
    EnvelopeView {
        correlation_id,
        kind: EnvelopeKind::StreamItem,
        payload: item_payload(index, value),
    }
}

/// The `StreamEnd` frame of stream `correlation_id`.
pub open spec fn end_frame(correlation_id: u64) -> EnvelopeView {
    EnvelopeView { correlation_id, kind: EnvelopeKind::StreamEnd, payload: Seq::empty() }
}

/// The `StreamError` frame of stream `correlation_id`.
pub open spec fn error_frame(correlation_id: u64, reason: Seq<u8>) -> EnvelopeView {
    EnvelopeView { correlation_id, kind: EnvelopeKind::StreamError, payload: reason }
}

/// The emitter after `yielded`.
pub open spec fn emitter_after(emitter: StreamEmitter, yielded: YieldedView) -> StreamEmitter {
    if emitter.finished {
        emitter
    } else {
        match yielded {
            YieldedView::Value(_) => if emitter.next_index < u64::MAX {
                StreamEmitter { next_index: (emitter.next_index + 1) as u64, ..emitter }
            } else {
                StreamEmitter { finished: true, ..emitter }
            },
            _ => StreamEmitter { finished: true, ..emitter },
        }
    }
}

/// The frame the emitter writes for `yielded`, if it writes one.
///
/// A finished emitter writes nothing. A value beyond the last index closes
/// the stream with an error frame without a reason.
pub open spec fn emitted_frame(emitter: StreamEmitter, yielded: YieldedView) -> Option<
    EnvelopeView,
> {
    if emitter.finished {
        None
    } else {
        Some(
            match yielded {
                YieldedView::Value(value) => if emitter.next_index < u64::MAX {
                    item_frame(emitter.correlation_id, emitter.next_index, value)
                } else {
                    error_frame(emitter.correlation_id, Seq::empty())
                },
                YieldedView::Exhausted => end_frame(emitter.correlation_id),
                YieldedView::Failed(reason) => error_frame(emitter.correlation_id, reason),
            },
        )
    }
}

/// The session after `frame`.
pub open spec fn session_after(session: StreamSession, frame: EnvelopeView) -> StreamSession {
    if session.terminal || frame.correlation_id != session.correlation_id {
        session
    } else {
        match frame.kind {
            EnvelopeKind::StreamItem => if frame.payload.len() >= INDEX_LEN && le_value(
                frame.payload.subrange(0, 8),
            ) == session.next_expected_index && session.next_expected_index < u64::MAX {
                StreamSession {
                    next_expected_index: (session.next_expected_index + 1) as u64,
                    ..session
                }
            } else {
                StreamSession { terminal: true, ..session }
            },
            EnvelopeKind::StreamEnd | EnvelopeKind::StreamError => StreamSession {
                terminal: true,
                ..session
            },
            _ => session,
        }
    }
}

/// What the session hands out for `frame`, or how `frame` broke the rules.
pub open spec fn session_outcome(session: StreamSession, frame: EnvelopeView) -> Result<
    DeliveryView,
    StreamProtocolError,
> {
    if session.terminal {
        Err(StreamProtocolError::AfterTerminal)
    } else if frame.correlation_id != session.correlation_id {
        Err(StreamProtocolError::WrongCorrelation)
    } else {
        match frame.kind {
            EnvelopeKind::StreamItem => if frame.payload.len() < INDEX_LEN {
                Err(StreamProtocolError::MalformedItem)
            } else if le_value(frame.payload.subrange(0, 8)) == session.next_expected_index
                && session.next_expected_index < u64::MAX {
                Ok(DeliveryView::Item(frame.payload.subrange(8, frame.payload.len() as int)))
            } else {
                Err(
                    StreamProtocolError::OutOfOrder {
                        expected: session.next_expected_index,
                        received: le_value(frame.payload.subrange(0, 8)) as u64,
                    },
                )
            },
            EnvelopeKind::StreamEnd => Ok(DeliveryView::End),
            EnvelopeKind::StreamError => Ok(DeliveryView::Failed(frame.payload)),
            _ => Err(StreamProtocolError::NotAStreamFrame),
        }
    }
}

/// An outcome of `accept` as a mathematical value.
pub open spec fn outcome_view(outcome: Result<Delivery, StreamProtocolError>) -> Result<
    DeliveryView,
    StreamProtocolError,
> {
    match outcome {
        Ok(delivery) => Ok(delivery@),
        Err(error) => Err(error),
    }
}

impl StreamEmitter {
    /// The producing side of the stream that answers `correlation_id`, before its first item.
    pub fn new(correlation_id: u64) -> (emitter: Self)
        ensures
            emitter == (StreamEmitter { correlation_id, next_index: 0, finished: false }),
    {
        StreamEmitter { correlation_id, next_index: 0, finished: false }
    }

    /// Turns what the sequence yielded into the frame to write.
    ///
    /// Values become items with consecutive indices; exhaustion and failure
    /// become the terminal frame. After the terminal frame nothing is emitted.
    pub fn emit(&mut self, yielded: &Yielded) -> (frame: Option<Envelope>)
        ensures
            *final(self) == emitter_after(*old(self), yielded@),
            frame is Some == emitted_frame(*old(self), yielded@) is Some,
            frame is Some ==> frame->Some_0@ == emitted_frame(*old(self), yielded@)->Some_0,
    {
        if self.finished {
            return None;
        }
        let correlation_id: u64 = self.correlation_id;
        match yielded {
            Yielded::Value(value) => {
                if self.next_index < u64::MAX {
                    let mut payload: Vec<u8> = Vec::new();
                    put_le(&mut payload, self.next_index, 8);
                    append_bytes(&mut payload, value.as_slice());
                    assert(payload@ =~= item_payload(self.next_index, value@));
                    self.next_index = self.next_index + 1;
                    Some(Envelope { correlation_id, kind: EnvelopeKind::StreamItem, payload })
                } else {
                    self.finished = true;
                    Some(
                        Envelope {
                            correlation_id,
                            kind: EnvelopeKind::StreamError,
                            payload: Vec::new(),
                        },
                    )
                }
            },
            Yielded::Exhausted => {
                self.finished = true;
                Some(Envelope { correlation_id, kind: EnvelopeKind::StreamEnd, payload: Vec::new() })
            },
            Yielded::Failed(reason) => {
                self.finished = true;
                let payload = copy_range(reason.as_slice(), 0, reason.len());
                assert(payload@ =~= reason@);
                Some(Envelope { correlation_id, kind: EnvelopeKind::StreamError, payload })
            },
        }
    }
}

impl StreamSession {
    /// The consuming side of the stream that answers `correlation_id`, before its first item.
    pub fn new(correlation_id: u64) -> (session: Self)
        ensures
            session == (StreamSession { correlation_id, next_expected_index: 0, terminal: false }),
    {
        StreamSession { correlation_id, next_expected_index: 0, terminal: false }
    }

    /// Takes one frame that was routed to this stream.
    ///
    /// An item with the next index is handed out and the index moves on. The
    /// terminal frames end the stream. An item with any other index, or one
    /// too short to hold an index, is a violation that ends the stream as
    /// well. Once the stream has ended every frame is refused and nothing is
    /// handed out.
    pub fn accept(&mut self, frame: &Envelope) -> (outcome: Result<Delivery, StreamProtocolError>)
        ensures
            *final(self) == session_after(*old(self), frame@),
            outcome_view(outcome) == session_outcome(*old(self), frame@),
    {
        if self.terminal {
            return Err(StreamProtocolError::AfterTerminal);
        }
        if frame.correlation_id != self.correlation_id {
            return Err(StreamProtocolError::WrongCorrelation);
        }
        match frame.kind {
            EnvelopeKind::StreamItem => {
                if frame.payload.len() < INDEX_LEN {
                    self.terminal = true;
                    return Err(StreamProtocolError::MalformedItem);
                }
                let received: u64 = read_le(frame.payload.as_slice(), 0, 8);
                if received == self.next_expected_index && received < u64::MAX {
                    self.next_expected_index = received + 1;
                    Ok(
                        Delivery::Item(
                            copy_range(frame.payload.as_slice(), INDEX_LEN, frame.payload.len()),
                        ),
                    )
                } else {
                    let expected: u64 = self.next_expected_index;
                    self.terminal = true;
                    Err(StreamProtocolError::OutOfOrder { expected, received })
                }
            },
            EnvelopeKind::StreamEnd => {
                self.terminal = true;
                Ok(Delivery::End)
            },
            EnvelopeKind::StreamError => {
                self.terminal = true;
                let reason = copy_range(frame.payload.as_slice(), 0, frame.payload.len());
                assert(reason@ =~= frame.payload@);
                Ok(Delivery::Failed(reason))
            },
            _ => Err(StreamProtocolError::NotAStreamFrame),
        }
    }
}

/// The frames a producer writes for a sequence that yields `values` and then
/// either is exhausted or fails with `failure`.
pub open spec fn stream_frames(
    correlation_id: u64,
    values: Seq<Seq<u8>>,
    failure: Option<Seq<u8>>,
) -> Seq<EnvelopeView> {
    Seq::new(
        values.len() + 1,
        |i: int|
            if i < values.len() {
                item_frame(correlation_id, i as u64, values[i])
            } else {
                match failure {
                    Some(reason) => error_frame(correlation_id, reason),
                    None => end_frame(correlation_id),
                }
            },
    )
}

/// What the reader of the stream receives for such a sequence.
pub open spec fn stream_deliveries(values: Seq<Seq<u8>>, failure: Option<Seq<u8>>) -> Seq<
    Result<DeliveryView, StreamProtocolError>,
> {
    Seq::new(
        values.len() + 1,
        |i: int|
            if i < values.len() {
                Ok(DeliveryView::Item(values[i]))
            } else {
                match failure {
                    Some(reason) => Ok(DeliveryView::Failed(reason)),
                    None => Ok(DeliveryView::End),
                }
            },
    )
}

/// The yields of such a sequence, one after the other.
pub open spec fn stream_yields(values: Seq<Seq<u8>>, failure: Option<Seq<u8>>) -> Seq<
    YieldedView,
> {
    Seq::new(
        values.len() + 1,
        |i: int|
            if i < values.len() {
                YieldedView::Value(values[i])
            } else {
                match failure {
                    Some(reason) => YieldedView::Failed(reason),
                    None => YieldedView::Exhausted,
                }
            },
    )
}

/// The emitter after all of `yields`, in order.
pub open spec fn emitter_after_all(emitter: StreamEmitter, yields: Seq<YieldedView>) -> StreamEmitter
    decreases yields.len(),
{
    if yields.len() == 0 {
        emitter
    } else {
        emitter_after(emitter_after_all(emitter, yields.drop_last()), yields.last())
    }
}

/// The frames the emitter writes for all of `yields`, in order.
pub open spec fn emitted_frames(emitter: StreamEmitter, yields: Seq<YieldedView>) -> Seq<
    EnvelopeView,
>
    decreases yields.len(),
{
    if yields.len() == 0 {
        Seq::empty()
    } else {
        let before = emitted_frames(emitter, yields.drop_last());
        match emitted_frame(emitter_after_all(emitter, yields.drop_last()), yields.last()) {
            Some(frame) => before.push(frame),
            None => before,
        }
    }
}

/// The session after all of `frames`, in order.
pub open spec fn session_after_all(session: StreamSession, frames: Seq<EnvelopeView>) -> StreamSession
    decreases frames.len(),
{
    if frames.len() == 0 {
        session
    } else {
        session_after(session_after_all(session, frames.drop_last()), frames.last())
    }
}

/// What the session hands out for each of `frames`, in order.
pub open spec fn session_outcomes(session: StreamSession, frames: Seq<EnvelopeView>) -> Seq<
    Result<DeliveryView, StreamProtocolError>,
>
    decreases frames.len(),
{
    if frames.len() == 0 {
        Seq::empty()
    } else {
        session_outcomes(session, frames.drop_last()).push(
            session_outcome(session_after_all(session, frames.drop_last()), frames.last()),
        )
    }
}

/// An item read back from its payload gives the index and the value it was made of.
pub proof fn lemma_item_payload_round_trip(index: u64, value: Seq<u8>)
    ensures
        item_payload(index, value).len() == INDEX_LEN + value.len(),
        le_value(item_payload(index, value).subrange(0, 8)) == index,
        item_payload(index, value).subrange(8, item_payload(index, value).len() as int) == value,
{
    let payload = item_payload(index, value);
    lemma_le_bytes_len(index as nat, 8);
    lemma_radix_values();
    lemma_le_value_of_bytes(index as nat, 8);
    assert(payload.subrange(0, 8) =~= le_bytes(index as nat, 8));
    assert(payload.subrange(8, payload.len() as int) =~= value);
}

/// The first `count` values of a sequence are emitted as items with the
/// indices from zero up, and leave the emitter unfinished.
proof fn lemma_emitting_values(
    correlation_id: u64,
    values: Seq<Seq<u8>>,
    failure: Option<Seq<u8>>,
    count: int,
)
    requires
        0 <= count <= values.len() < u64::MAX,
    ensures
        emitter_after_all(
            StreamEmitter { correlation_id, next_index: 0, finished: false },
            stream_yields(values, failure).take(count),
        ) == (StreamEmitter { correlation_id, next_index: count as u64, finished: false }),
        emitted_frames(
            StreamEmitter { correlation_id, next_index: 0, finished: false },
            stream_yields(values, failure).take(count),
        ) == stream_frames(correlation_id, values, failure).take(count),
    decreases count,
{
    let fresh = StreamEmitter { correlation_id, next_index: 0, finished: false };
    let yields = stream_yields(values, failure);
    let frames = stream_frames(correlation_id, values, failure);
    if count == 0 {
        assert(emitted_frames(fresh, yields.take(0)) =~= frames.take(0));
    } else {
        lemma_emitting_values(correlation_id, values, failure, count - 1);
        assert(yields.take(count).drop_last() =~= yields.take(count - 1));
        assert(yields.take(count).last() == YieldedView::Value(values[count - 1]));
        assert(frames.take(count) =~= frames.take(count - 1).push(frames[count - 1]));
    }
}

/// The first `count` frames of a stream are handed out as its first `count`
/// values, and leave the session open with `count` as the next index.
proof fn lemma_consuming_items(
    correlation_id: u64,
    values: Seq<Seq<u8>>,
    failure: Option<Seq<u8>>,
    count: int,
)
    requires
        0 <= count <= values.len() < u64::MAX,
    ensures
        session_after_all(
            StreamSession { correlation_id, next_expected_index: 0, terminal: false },
            stream_frames(correlation_id, values, failure).take(count),
        ) == (StreamSession { correlation_id, next_expected_index: count as u64, terminal: false }),
        session_outcomes(
            StreamSession { correlation_id, next_expected_index: 0, terminal: false },
            stream_frames(correlation_id, values, failure).take(count),
        ) == stream_deliveries(values, failure).take(count),
    decreases count,
{
    let fresh = StreamSession { correlation_id, next_expected_index: 0, terminal: false };
    let frames = stream_frames(correlation_id, values, failure);
    let deliveries = stream_deliveries(values, failure);
    if count == 0 {
        assert(session_outcomes(fresh, frames.take(0)) =~= deliveries.take(0));
    } else {
        lemma_consuming_items(correlation_id, values, failure, count - 1);
        lemma_item_payload_round_trip((count - 1) as u64, values[count - 1]);
        assert(frames.take(count).drop_last() =~= frames.take(count - 1));
        assert(frames.take(count).last() == item_frame(
            correlation_id,
            (count - 1) as u64,
            values[count - 1],
        ));
        assert(deliveries.take(count) =~= deliveries.take(count - 1).push(deliveries[count - 1]));
    }
}

/// A producer whose sequence yields `values` and then ends, normally or with
/// `failure`, writes exactly one item frame per value, with the indices from
/// zero up in order, then exactly one terminal frame, and is finished.
pub proof fn lemma_producer_frames(
    correlation_id: u64,
    values: Seq<Seq<u8>>,
    failure: Option<Seq<u8>>,
)
    requires
        values.len() < u64::MAX,
    ensures
        emitted_frames(
            StreamEmitter { correlation_id, next_index: 0, finished: false },
            stream_yields(values, failure),
        ) == stream_frames(correlation_id, values, failure),
        emitter_after_all(
            StreamEmitter { correlation_id, next_index: 0, finished: false },
            stream_yields(values, failure),
        ).finished,
        stream_frames(correlation_id, values, failure).len() == values.len() + 1,
        forall|i: int|
            0 <= i < values.len() ==> (#[trigger] stream_frames(correlation_id, values, failure)[i])
                == item_frame(correlation_id, i as u64, values[i]),
        stream_frames(correlation_id, values, failure).last().kind == (if failure is Some {
            EnvelopeKind::StreamError
        } else {
            EnvelopeKind::StreamEnd
        }),
{
    let fresh = StreamEmitter { correlation_id, next_index: 0, finished: false };
    let yields = stream_yields(values, failure);
    let frames = stream_frames(correlation_id, values, failure);
    let count = values.len() as int;
    lemma_emitting_values(correlation_id, values, failure, count);
    assert(yields.drop_last() =~= yields.take(count));
    assert(frames =~= frames.take(count).push(frames[count]));
}

/// A finished producer writes nothing more, whatever its sequence yields.
pub proof fn lemma_nothing_after_terminal(emitter: StreamEmitter, yields: Seq<YieldedView>)
    requires
        emitter.finished,
    ensures
        emitted_frames(emitter, yields) == Seq::<EnvelopeView>::empty(),
        emitter_after_all(emitter, yields) == emitter,
    decreases yields.len(),
{
    if yields.len() > 0 {
        lemma_nothing_after_terminal(emitter, yields.drop_last());
    }
}

/// The reader of a stream receives the values in the order they were yielded,
/// then the end or the failure, and after that the session is terminal.
pub proof fn lemma_consumer_deliveries(
    correlation_id: u64,
    values: Seq<Seq<u8>>,
    failure: Option<Seq<u8>>,
)
    requires
        values.len() < u64::MAX,
    ensures
        session_outcomes(
            StreamSession { correlation_id, next_expected_index: 0, terminal: false },
            stream_frames(correlation_id, values, failure),
        ) == stream_deliveries(values, failure),
        session_after_all(
            StreamSession { correlation_id, next_expected_index: 0, terminal: false },
            stream_frames(correlation_id, values, failure),
        ).terminal,
{
    let fresh = StreamSession { correlation_id, next_expected_index: 0, terminal: false };
    let frames = stream_frames(correlation_id, values, failure);
    let deliveries = stream_deliveries(values, failure);
    let count = values.len() as int;
    lemma_consuming_items(correlation_id, values, failure, count);
    assert(frames.drop_last() =~= frames.take(count));
    assert(deliveries =~= deliveries.take(count).push(deliveries[count]));
}

/// Once a session is terminal it hands out nothing: every further frame is
/// refused and the session does not change.
pub proof fn lemma_terminal_session_is_final(session: StreamSession, frames: Seq<EnvelopeView>)
    requires
        session.terminal,
    ensures
        session_after_all(session, frames) == session,
        forall|i: int|
            0 <= i < frames.len() ==> (#[trigger] session_outcomes(session, frames)[i]) == Err::<
                DeliveryView,
                StreamProtocolError,
            >(StreamProtocolError::AfterTerminal),
        session_outcomes(session, frames).len() == frames.len(),
    decreases frames.len(),
{
    if frames.len() > 0 {
        lemma_terminal_session_is_final(session, frames.drop_last());
    }
}

/// The indices a session accepts count up by one from where it stands: an
/// item is handed out only if it carries the next expected index, and then
/// the next expected index is one more.
pub proof fn lemma_indices_strictly_increase(session: StreamSession, frame: EnvelopeView)
    ensures
        session_outcome(session, frame) matches Ok(DeliveryView::Item(_)) ==> {
            &&& !session.terminal
            &&& frame.kind == EnvelopeKind::StreamItem
            &&& le_value(frame.payload.subrange(0, 8)) == session.next_expected_index
            &&& session_after(session, frame).next_expected_index == session.next_expected_index
                + 1
            &&& !session_after(session, frame).terminal
        },
        session_outcome(session, frame) is Err && frame.correlation_id == session.correlation_id
            && frame.kind == EnvelopeKind::StreamItem ==> session_after(session, frame).terminal,
{
}

} // verus!
