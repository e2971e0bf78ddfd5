//! The wire unit: one frame tagged by kind and correlation id.
//!
//! A frame is `[kind: 1 byte][correlation id: 8 bytes][payload length: 4 bytes]`
//! followed by the payload, all integers little-endian.

use vstd::prelude::*;
use crate::wire::{
    append_bytes, copy_range, le_bytes, le_value, lemma_le_bytes_len, lemma_le_bytes_of_value,
    lemma_le_value_bound, lemma_le_value_of_bytes, lemma_radix_values, put_le, read_le,
};

verus! {

/// Bytes of the fixed header in front of every payload.
pub const HEADER_LEN: usize = 13;

/// The largest payload a frame can carry.
pub const MAX_PAYLOAD_LEN: u64 = 0xffff_ffff;

/// What a frame means to its receiver.
#[derive(Debug, Clone, Copy, PartialEq, Eq, Structural)]
pub enum EnvelopeKind {
    Request,
    Reply,
    StreamItem,
    StreamEnd,
    StreamError,
    Callback,
    CallbackReply,
    HandshakeInit,
    HandshakeAck,
}

/// The byte that stands for `kind` on the wire.
pub open spec fn tag_of(kind: EnvelopeKind) -> u8 {
    match kind {
        EnvelopeKind::Request => 0,
        EnvelopeKind::Reply => 1,
        EnvelopeKind::StreamItem => 2,
        EnvelopeKind::StreamEnd => 3,
        EnvelopeKind::StreamError => 4,
        EnvelopeKind::Callback => 5,
        EnvelopeKind::CallbackReply => 6,
        EnvelopeKind::HandshakeInit => 7,
        EnvelopeKind::HandshakeAck => 8,
    }
}

/// The kind that `tag` stands for, if it stands for one.
pub open spec fn kind_of_tag(tag: u8) -> Option<EnvelopeKind> {
    if tag == 0 {
        Some(EnvelopeKind::Request)
    } else if tag == 1 {
        Some(EnvelopeKind::Reply)
    } else if tag == 2 {
        Some(EnvelopeKind::StreamItem)
    } else if tag == 3 {
        Some(EnvelopeKind::StreamEnd)
    } else if tag == 4 {
        Some(EnvelopeKind::StreamError)
    } else if tag == 5 {
        Some(EnvelopeKind::Callback)
    } else if tag == 6 {
        Some(EnvelopeKind::CallbackReply)
    } else if tag == 7 {
        Some(EnvelopeKind::HandshakeInit)
    } else if tag == 8 {
        Some(EnvelopeKind::HandshakeAck)
    } else {
        None
    }
}

impl EnvelopeKind {
    /// The byte that stands for this kind on the wire.
    pub fn tag(self) -> (tag: u8)
        ensures
            tag == tag_of(self),
    {
        match self {
            EnvelopeKind::Request => 0,
            EnvelopeKind::Reply => 1,
            EnvelopeKind::StreamItem => 2,
            EnvelopeKind::StreamEnd => 3,
            EnvelopeKind::StreamError => 4,
            EnvelopeKind::Callback => 5,
            EnvelopeKind::CallbackReply => 6,
            EnvelopeKind::HandshakeInit => 7,
            EnvelopeKind::HandshakeAck => 8,
        }
    }

    /// The kind that `tag` stands for; `None` for a byte that stands for none.
    pub fn from_tag(tag: u8) -> (kind: Option<EnvelopeKind>)
        ensures
            kind == kind_of_tag(tag),
    {
        if tag == 0 {
            Some(EnvelopeKind::Request)
        } else if tag == 1 {
            Some(EnvelopeKind::Reply)
        } else if tag == 2 {
            Some(EnvelopeKind::StreamItem)
        } else if tag == 3 {
            Some(EnvelopeKind::StreamEnd)
        } else if tag == 4 {
            Some(EnvelopeKind::StreamError)
        } else if tag == 5 {
            Some(EnvelopeKind::Callback)
        } else if tag == 6 {
            Some(EnvelopeKind::CallbackReply)
        } else if tag == 7 {
            Some(EnvelopeKind::HandshakeInit)
        } else if tag == 8 {
            Some(EnvelopeKind::HandshakeAck)
        } else {
            None
        }
    }
}

/// One framed unit: who it belongs to, what it means, and its bytes.
#[derive(Debug, Clone)]
pub struct Envelope {
    /// Links a request to its reply, stream or callback on one connection.
    pub correlation_id: u64,
    /// What the frame means to its receiver.
    pub kind: EnvelopeKind,
    /// The bytes carried, opaque to the framing.
    pub payload: Vec<u8>,
}

/// An envelope as a mathematical value.
pub struct EnvelopeView {
    pub correlation_id: u64,
    pub kind: EnvelopeKind,
    pub payload: Seq<u8>,
}

impl View for Envelope {
    type V = EnvelopeView;

    open spec fn view(&self) -> EnvelopeView {
        EnvelopeView { correlation_id: self.correlation_id, kind: self.kind, payload: self.payload@ }
    }
}

/// Why a frame could not be written.
#[derive(Debug, Clone, Copy, PartialEq, Eq, Structural)]
pub enum EncodeError {
    /// The payload is longer than the four-byte length field can say.
    PayloadTooLarge,
}

/// What the front of a byte buffer holds.
#[derive(Debug, Clone)]
pub enum Decoded {
    /// A whole frame, and how many bytes of the buffer it took.
    Frame { envelope: Envelope, consumed: usize },
    /// The frame is cut short: at least `missing` more bytes are needed.
    NeedMore { missing: usize },
    /// The first byte names no kind: the buffer does not start with a frame.
    Malformed { tag: u8 },
}

/// A decoding outcome as a mathematical value.
pub enum DecodedView {
    Frame { envelope: EnvelopeView, consumed: nat },
    NeedMore { missing: nat },
    Malformed { tag: u8 },
}

impl View for Decoded {
    type V = DecodedView;

    open spec fn view(&self) -> DecodedView {
        match *self {
            Decoded::Frame { envelope, consumed } => DecodedView::Frame {
                envelope: envelope@,
                consumed: consumed as nat,
            },
            Decoded::NeedMore { missing } => DecodedView::NeedMore { missing: missing as nat },
            Decoded::Malformed { tag } => DecodedView::Malformed { tag },
        }
    }
}

/// The bytes of the frame that carries `envelope`.
pub open spec fn frame_bytes(envelope: EnvelopeView) -> Seq<u8> {
    seq![tag_of(envelope.kind)] + le_bytes(envelope.correlation_id as nat, 8) + le_bytes(
        envelope.payload.len(),
        4,
    ) + envelope.payload
}

/// What a decoder finds at the front of `input`.
///
/// An unknown kind byte is malformed at once; anything else that is shorter
/// than the frame it announces only needs more bytes.
pub open spec fn decode_spec(input: Seq<u8>) -> DecodedView {
    if input.len() == 0 {
        DecodedView::NeedMore { missing: HEADER_LEN as nat }
    } else if kind_of_tag(input[0]) is None {
        DecodedView::Malformed { tag: input[0] }
    } else if input.len() < HEADER_LEN {
        DecodedView::NeedMore { missing: (HEADER_LEN - input.len()) as nat }
    } else {
        let announced = le_value(input.subrange(9, 13));
        if input.len() < HEADER_LEN + announced {
            DecodedView::NeedMore { missing: (HEADER_LEN + announced - input.len()) as nat }
        } else {
            DecodedView::Frame {
                envelope: EnvelopeView {
                    correlation_id: le_value(input.subrange(1, 9)) as u64,
                    kind: kind_of_tag(input[0])->Some_0,
                    payload: input.subrange(13, 13 + announced as int),
                },
                consumed: HEADER_LEN as nat + announced,
            }
        }
    }
}

/// Every kind survives the trip through its tag.
pub proof fn lemma_tag_round_trip(kind: EnvelopeKind)
    ensures
        kind_of_tag(tag_of(kind)) == Some(kind),
{
}

/// Only the nine tags from 0 to 8 name a kind, and each names the kind it came from.
pub proof fn lemma_tag_is_canonical(tag: u8)
    ensures
        kind_of_tag(tag) is Some <==> tag <= 8,
        kind_of_tag(tag) is Some ==> tag_of(kind_of_tag(tag)->Some_0) == tag,
{
}

/// Writes `envelope` as one frame.
///
/// Fails exactly when the payload is too long for the length field.
pub fn encode(envelope: &Envelope) -> (result: Result<Vec<u8>, EncodeError>)
    ensures
        envelope.payload@.len() <= MAX_PAYLOAD_LEN ==> result is Ok && result->Ok_0@
            == frame_bytes(envelope@),
        envelope.payload@.len() > MAX_PAYLOAD_LEN ==> result == Err::<Vec<u8>, EncodeError>(
            EncodeError::PayloadTooLarge,
        ),
{
    let length: usize = envelope.payload.len();
    if length as u64 > MAX_PAYLOAD_LEN {
        return Err(EncodeError::PayloadTooLarge);
    }
    let mut out: Vec<u8> = Vec::new();
    out.push(envelope.kind.tag());
    put_le(&mut out, envelope.correlation_id, 8);
    put_le(&mut out, length as u64, 4);
    append_bytes(&mut out, envelope.payload.as_slice());
    Ok(out)
}

/// Reads the frame at the front of `input`, if a whole one is there.
///
/// Never fails on a short buffer: it says how many bytes are missing.
pub fn decode(input: &[u8]) -> (decoded: Decoded)
    ensures
        decoded@ == decode_spec(input@),
{
    let available: usize = input.len();
    if available == 0 {
        return Decoded::NeedMore { missing: HEADER_LEN };
    }
    let kind = match EnvelopeKind::from_tag(input[0]) {
        Some(kind) => kind,
        None => {
            return Decoded::Malformed { tag: input[0] };
        },
    };
    if available < HEADER_LEN {
        return Decoded::NeedMore { missing: HEADER_LEN - available };
    }
    let correlation_id: u64 = read_le(input, 1, 8);
    let announced: u64 = read_le(input, 9, 4);
    proof {
        lemma_le_value_bound(input@.subrange(9, 13));
        lemma_radix_values();
    }
    let beyond_header: usize = available - HEADER_LEN;
    if (beyond_header as u64) < announced {
        let missing: u64 = announced - beyond_header as u64;
        return Decoded::NeedMore { missing: missing as usize };
    }
    let end: usize = HEADER_LEN + announced as usize;
    let payload = copy_range(input, HEADER_LEN, end);
    Decoded::Frame { envelope: Envelope { correlation_id, kind, payload }, consumed: end }
}

/// What is left of `input` once the frame at its front, if a whole one is
/// there, has been taken out.
pub open spec fn remaining_after(input: Seq<u8>) -> Seq<u8> {
    match decode_spec(input) {
        DecodedView::Frame { consumed, .. } => input.skip(consumed as int),
        _ => input,
    }
}

/// The bytes of the frames that carry `envelopes`, one after the other.
pub open spec fn frames_bytes(envelopes: Seq<EnvelopeView>) -> Seq<u8>
    decreases envelopes.len(),
{
    if envelopes.len() == 0 {
        Seq::empty()
    } else {
        frame_bytes(envelopes[0]) + frames_bytes(envelopes.drop_first())
    }
}

/// What is left of `input` once `count` frames have been taken out of it.
pub open spec fn remaining_after_frames(input: Seq<u8>, count: nat) -> Seq<u8>
    decreases count,
{
    if count == 0 {
        input
    } else {
        remaining_after_frames(remaining_after(input), (count - 1) as nat)
    }
}

/// Whether the payload of every envelope fits a frame.
pub open spec fn all_fit(envelopes: Seq<EnvelopeView>) -> bool {
    forall|i: int|
        0 <= i < envelopes.len() ==> (#[trigger] envelopes[i]).payload.len() <= MAX_PAYLOAD_LEN
}

/// The bytes that were received and have not been taken out as frames yet.
///
/// Bytes arrive in pieces of any size; frames come out whole. How the bytes
/// were cut into pieces makes no difference: only their concatenation counts.
#[derive(Debug)]
pub struct FrameBuffer {
    bytes: Vec<u8>,
}

impl View for FrameBuffer {
    type V = Seq<u8>;

    closed spec fn view(&self) -> Seq<u8> {
        self.bytes@
    }
}

impl FrameBuffer {
    /// A buffer without bytes.
    pub fn new() -> (buffer: Self)
        ensures
            buffer@ == Seq::<u8>::empty(),
    {
        FrameBuffer { bytes: Vec::new() }
    }

    /// How many bytes wait in the buffer.
    pub fn len(&self) -> (len: usize)
        ensures
            len == self@.len(),
    {
        self.bytes.len()
    }

    /// Adds bytes that were received to the end of the buffer.
    pub fn push(&mut self, received: &[u8])
        ensures
            final(self)@ == old(self)@ + received@,
    {
        append_bytes(&mut self.bytes, received);
    }

    /// Takes the frame at the front out of the buffer, if a whole one is there.
    ///
    /// Where the front is cut short or is no frame, the buffer is left as it
    /// is and the outcome says which of the two holds.
    pub fn next_frame(&mut self) -> (decoded: Decoded)
        ensures
            decoded@ == decode_spec(old(self)@),
            final(self)@ == remaining_after(old(self)@),
    {
        let decoded = decode(self.bytes.as_slice());
        match decoded {
            Decoded::Frame { consumed, .. } => {
                let rest = self.bytes.split_off(consumed);
                self.bytes = rest;
                assert(self.bytes@ =~= old(self)@.skip(consumed as int));
            },
            _ => {},
        }
        decoded
    }
}

/// Encoding and then decoding gives the envelope back, whatever bytes follow
/// the frame in the buffer.
pub proof fn lemma_decode_inverts_encode(envelope: EnvelopeView, rest: Seq<u8>)
    requires
        envelope.payload.len() <= MAX_PAYLOAD_LEN,
    ensures
        decode_spec(frame_bytes(envelope) + rest) == (DecodedView::Frame {
            envelope,
            consumed: frame_bytes(envelope).len(),
        }),
        frame_bytes(envelope).len() == HEADER_LEN + envelope.payload.len(),
{
    let id_bytes = le_bytes(envelope.correlation_id as nat, 8);
    let len_bytes = le_bytes(envelope.payload.len(), 4);
    let input = frame_bytes(envelope) + rest;
    lemma_le_bytes_len(envelope.correlation_id as nat, 8);
    lemma_le_bytes_len(envelope.payload.len(), 4);
    lemma_radix_values();
    lemma_le_value_of_bytes(envelope.correlation_id as nat, 8);
    lemma_le_value_of_bytes(envelope.payload.len(), 4);
    lemma_tag_round_trip(envelope.kind);
    assert(input[0] == tag_of(envelope.kind));
    assert(input.subrange(1, 9) =~= id_bytes);
    assert(input.subrange(9, 13) =~= len_bytes);
    assert(input.subrange(13, 13 + envelope.payload.len() as int) =~= envelope.payload);
}

/// A frame that is cut short anywhere is never taken for a frame, nor for a
/// malformed one: the decoder asks for more bytes.
pub proof fn lemma_truncated_frame_needs_more(envelope: EnvelopeView, kept: int)
    requires
        envelope.payload.len() <= MAX_PAYLOAD_LEN,
        0 <= kept < frame_bytes(envelope).len(),
    ensures
        decode_spec(frame_bytes(envelope).subrange(0, kept)) is NeedMore,
        kept >= HEADER_LEN ==> decode_spec(frame_bytes(envelope).subrange(0, kept))
            == (DecodedView::NeedMore { missing: (frame_bytes(envelope).len() - kept) as nat }),
{
    let whole = frame_bytes(envelope);
    let input = whole.subrange(0, kept);
    lemma_le_bytes_len(envelope.correlation_id as nat, 8);
    lemma_le_bytes_len(envelope.payload.len(), 4);
    lemma_radix_values();
    lemma_le_value_of_bytes(envelope.payload.len(), 4);
    lemma_tag_round_trip(envelope.kind);
    if kept > 0 {
        assert(input[0] == tag_of(envelope.kind));
    }
    if kept >= HEADER_LEN {
        assert(input.subrange(9, 13) =~= le_bytes(envelope.payload.len(), 4));
    }
}

/// Whatever the decoder accepts as a frame is exactly the encoding of the
/// envelope it hands out: no two byte strings decode to the same frame.
pub proof fn lemma_decoded_frame_is_canonical(input: Seq<u8>)
    requires
        decode_spec(input) is Frame,
    ensures
        decode_spec(input)->consumed <= input.len(),
        decode_spec(input)->envelope.payload.len() <= MAX_PAYLOAD_LEN,
        frame_bytes(decode_spec(input)->envelope) == input.subrange(
            0,
            decode_spec(input)->consumed as int,
        ),
{
    let envelope = decode_spec(input)->envelope;
    let id_field = input.subrange(1, 9);
    let len_field = input.subrange(9, 13);
    lemma_le_value_bound(id_field);
    lemma_le_value_bound(len_field);
    lemma_radix_values();
    lemma_le_bytes_of_value(id_field);
    lemma_le_bytes_of_value(len_field);
    lemma_tag_is_canonical(input[0]);
    assert(frame_bytes(envelope) =~= input.subrange(0, decode_spec(input)->consumed as int));
}

/// From a buffer that begins with the frames of `envelopes`, the first frame
/// comes out as the first envelope, and what is left begins with the frames
/// of the others.
pub proof fn lemma_first_frame_comes_out(envelopes: Seq<EnvelopeView>, tail: Seq<u8>)
    requires
        envelopes.len() > 0,
        all_fit(envelopes),
    ensures
        decode_spec(frames_bytes(envelopes) + tail) == (DecodedView::Frame {
            envelope: envelopes[0],
            consumed: frame_bytes(envelopes[0]).len(),
        }),
        remaining_after(frames_bytes(envelopes) + tail) == frames_bytes(envelopes.drop_first())
            + tail,
{
    let first = frame_bytes(envelopes[0]);
    let others = frames_bytes(envelopes.drop_first());
    let input = frames_bytes(envelopes) + tail;
    assert(input =~= first + (others + tail));
    lemma_decode_inverts_encode(envelopes[0], others + tail);
    assert(input.skip(first.len() as int) =~= others + tail);
}

/// Frames come out of a buffer in the order they went in, whatever follows
/// them: after `taken` frames, the next one out is envelope number `taken`,
/// and after all of them exactly what followed is left.
pub proof fn lemma_frames_come_out_in_order(
    envelopes: Seq<EnvelopeView>,
    tail: Seq<u8>,
    taken: nat,
)
    requires
        all_fit(envelopes),
        taken <= envelopes.len(),
    ensures
        remaining_after_frames(frames_bytes(envelopes) + tail, taken) == frames_bytes(
            envelopes.skip(taken as int),
        ) + tail,
        taken < envelopes.len() ==> decode_spec(
            remaining_after_frames(frames_bytes(envelopes) + tail, taken),
        ) == (DecodedView::Frame {
            envelope: envelopes[taken as int],
            consumed: frame_bytes(envelopes[taken as int]).len(),
        }),
        taken == envelopes.len() ==> remaining_after_frames(frames_bytes(envelopes) + tail, taken)
            == tail,
    decreases taken,
{
    let input = frames_bytes(envelopes) + tail;
    if taken == 0 {
        assert(envelopes.skip(0) =~= envelopes);
    } else {
        let others = envelopes.drop_first();
        assert forall|i: int| 0 <= i < others.len() implies (#[trigger] others[i]).payload.len()
            <= MAX_PAYLOAD_LEN by {
            assert(others[i] == envelopes[i + 1]);
        }
        lemma_first_frame_comes_out(envelopes, tail);
        lemma_frames_come_out_in_order(others, tail, (taken - 1) as nat);
        assert(others.skip(taken - 1) =~= envelopes.skip(taken as int));
    }
    let left = envelopes.skip(taken as int);
    if taken < envelopes.len() {
        assert forall|i: int| 0 <= i < left.len() implies (#[trigger] left[i]).payload.len()
            <= MAX_PAYLOAD_LEN by {
            assert(left[i] == envelopes[taken + i]);
        }
        lemma_first_frame_comes_out(left, tail);
    } else {
        assert(frames_bytes(left) + tail =~= tail);
    }
}

} // verus!
