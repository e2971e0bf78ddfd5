//! The negotiation that runs once on every connection before any traffic.
//!
//! The initiating side sends its record in a `HandshakeInit` frame; the peer
//! compares schema fingerprints and answers with a `HandshakeAck` frame that
//! holds its verdict and its own record. A mismatch is fatal for the
//! connection: a failed handshake never becomes ready again.

use vstd::prelude::*;
use crate::envelope::{Envelope, EnvelopeKind, EnvelopeView};
use crate::wire::{
    le_bytes, le_value, lemma_le_bytes_len, lemma_le_value_of_bytes, lemma_radix_values, put_le,
    read_le,
};

verus! {

/// Bytes of an encoded record: the fingerprint and one flag byte.
pub const RECORD_LEN: usize = 9;

/// Bytes of an encoded answer: one verdict byte and the peer's record.
pub const ANSWER_LEN: usize = 10;

/// The correlation id that every handshake frame carries.
pub const HANDSHAKE_CORRELATION_ID: u64 = 0;

/// What one side declares about itself.
#[derive(Debug, Clone, Copy, PartialEq, Eq, Structural)]
pub struct HandshakeRecord {
    /// Identifies the shape of the request and reply types.
    pub schema_fingerprint: u64,
    /// Whether this side can take part in streams.
    pub streaming_supported: bool,
}

/// Why a handshake failed.
#[derive(Debug, Clone, Copy, PartialEq, Eq, Structural)]
pub enum HandshakeFailure {
    /// The peer refused our record.
    Rejected,
    /// The peer accepted, but its own fingerprint is not ours.
    FingerprintMismatch,
    /// The peer sent something that is no answer to a handshake.
    UnexpectedFrame,
    /// The handshake did not complete in time.
    TimedOut,
    /// The transport failed while handshaking.
    TransportFailed,
    /// An event arrived that the current state cannot take.
    OutOfOrder,
}

/// Where the initiating side stands.
#[derive(Debug, Clone, Copy, PartialEq, Eq, Structural)]
pub enum HandshakeState {
    Init,
    SentCapabilities,
    AwaitingAck,
    /// The connection is usable; `streaming` says whether both sides stream.
    Ready { streaming: bool },
    Failed { reason: HandshakeFailure },
}

/// What happened on the connection, as far as the handshake cares.
#[derive(Debug, Clone, Copy, PartialEq, Eq, Structural)]
pub enum HandshakeEvent {
    /// The transport is connected.
    Connected,
    /// The `HandshakeInit` frame has been written.
    InitSent,
    /// The peer accepted and declared `peer`.
    Accepted { peer: HandshakeRecord },
    /// The peer refused.
    Rejected,
    /// The peer sent a frame that is no handshake answer.
    Unexpected,
    /// The deadline passed.
    TimedOut,
    /// The transport failed.
    TransportFailed,
}

/// What the caller has to do next.
#[derive(Debug, Clone, Copy, PartialEq, Eq, Structural)]
pub enum HandshakeAction {
    /// Write the `HandshakeInit` frame.
    SendInit,
    /// Wait for the peer's frame.
    AwaitAnswer,
    /// Hand the connection over to application traffic.
    Complete,
    /// Close the connection.
    TearDown,
    /// Nothing: the handshake had ended before.
    Nothing,
}

/// The bytes that carry `record`.
pub open spec fn record_bytes(record: HandshakeRecord) -> Seq<u8> {
    le_bytes(record.schema_fingerprint as nat, 8) + seq![
        if record.streaming_supported {
            1u8
        } else {
            0u8
        },
    ]
}

/// The record that `bytes` carry, if they carry one.
pub open spec fn record_of_bytes(bytes: Seq<u8>) -> Option<HandshakeRecord> {
    if bytes.len() == RECORD_LEN && bytes[8] <= 1 {
        Some(
            HandshakeRecord {
                schema_fingerprint: le_value(bytes.subrange(0, 8)) as u64,
                streaming_supported: bytes[8] == 1,
            },
        )
    } else {
        None
    }
}

/// The `HandshakeInit` frame of a side that declares `local`.
pub open spec fn init_frame(local: HandshakeRecord) -> EnvelopeView {
    EnvelopeView {
        correlation_id: HANDSHAKE_CORRELATION_ID,
        kind: EnvelopeKind::HandshakeInit,
        payload: record_bytes(local),
    }
}

/// The `HandshakeAck` frame with the given verdict from a side that declares `local`.
pub open spec fn answer_frame(accepted: bool, local: HandshakeRecord) -> EnvelopeView {
    EnvelopeView {
        correlation_id: HANDSHAKE_CORRELATION_ID,
        kind: EnvelopeKind::HandshakeAck,
        payload: seq![
            if accepted {
                1u8
            } else {
                0u8
            },
        ] + record_bytes(local),
    }
}

/// Whether `frame` is a `HandshakeInit` whose fingerprint is the one `expected` declares.
pub open spec fn init_matches(expected: HandshakeRecord, frame: EnvelopeView) -> bool {
    frame.kind == EnvelopeKind::HandshakeInit && record_of_bytes(frame.payload) is Some
        && record_of_bytes(frame.payload)->Some_0.schema_fingerprint == expected.schema_fingerprint
}

/// How the peer that declares `expected` answers `frame`.
pub open spec fn respond_spec(expected: HandshakeRecord, frame: EnvelopeView) -> EnvelopeView {
    answer_frame(init_matches(expected, frame), expected)
}

/// What the initiating side makes of a frame from the peer.
pub open spec fn classify_spec(frame: EnvelopeView) -> HandshakeEvent {
    if frame.kind != EnvelopeKind::HandshakeAck || frame.payload.len() != ANSWER_LEN {
        HandshakeEvent::Unexpected
    } else if frame.payload[0] == 0 {
        HandshakeEvent::Rejected
    } else if frame.payload[0] == 1 && record_of_bytes(frame.payload.subrange(1, 10)) is Some {
        HandshakeEvent::Accepted { peer: record_of_bytes(frame.payload.subrange(1, 10))->Some_0 }
    } else {
        HandshakeEvent::Unexpected
    }
}

/// The state after `event`, for a side that declares `local`.
pub open spec fn next_state(
    state: HandshakeState,
    local: HandshakeRecord,
    event: HandshakeEvent,
) -> HandshakeState {
    match state {
        HandshakeState::Ready { .. } | HandshakeState::Failed { .. } => state,
        _ => match event {
            HandshakeEvent::TimedOut => HandshakeState::Failed {
                reason: HandshakeFailure::TimedOut,
            },
            HandshakeEvent::TransportFailed => HandshakeState::Failed {
                reason: HandshakeFailure::TransportFailed,
            },
            HandshakeEvent::Connected => if state == HandshakeState::Init {
                HandshakeState::SentCapabilities
            } else {
                HandshakeState::Failed { reason: HandshakeFailure::OutOfOrder }
            },
            HandshakeEvent::InitSent => if state == HandshakeState::SentCapabilities {
                HandshakeState::AwaitingAck
            } else {
                HandshakeState::Failed { reason: HandshakeFailure::OutOfOrder }
            },
            HandshakeEvent::Rejected => if state == HandshakeState::AwaitingAck {
                HandshakeState::Failed { reason: HandshakeFailure::Rejected }
            } else {
                HandshakeState::Failed { reason: HandshakeFailure::OutOfOrder }
            },
            HandshakeEvent::Unexpected => if state == HandshakeState::AwaitingAck {
                HandshakeState::Failed { reason: HandshakeFailure::UnexpectedFrame }
            } else {
                HandshakeState::Failed { reason: HandshakeFailure::OutOfOrder }
            },
            HandshakeEvent::Accepted { peer } => if state != HandshakeState::AwaitingAck {
                HandshakeState::Failed { reason: HandshakeFailure::OutOfOrder }
            } else if peer.schema_fingerprint == local.schema_fingerprint {
                HandshakeState::Ready {
                    streaming: local.streaming_supported && peer.streaming_supported,
                }
            } else {
                HandshakeState::Failed { reason: HandshakeFailure::FingerprintMismatch }
            },
        },
    }
}

/// What the caller does on entering `after` from `before`.
pub open spec fn action_for(before: HandshakeState, after: HandshakeState) -> HandshakeAction {
    match before {
        HandshakeState::Ready { .. } | HandshakeState::Failed { .. } => HandshakeAction::Nothing,
        _ => match after {
            HandshakeState::Init => HandshakeAction::Nothing,
            HandshakeState::SentCapabilities => HandshakeAction::SendInit,
            HandshakeState::AwaitingAck => HandshakeAction::AwaitAnswer,
            HandshakeState::Ready { .. } => HandshakeAction::Complete,
            HandshakeState::Failed { .. } => HandshakeAction::TearDown,
        },
    }
}

/// The state after all of `events`, taken in order.
pub open spec fn run(
    state: HandshakeState,
    local: HandshakeRecord,
    events: Seq<HandshakeEvent>,
) -> HandshakeState
    decreases events.len(),
{
    if events.len() == 0 {
        state
    } else {
        run(next_state(state, local, events[0]), local, events.drop_first())
    }
}

/// Writes `record` as the nine bytes that carry it.
pub fn encode_record(record: &HandshakeRecord) -> (bytes: Vec<u8>)
    ensures
        bytes@ == record_bytes(*record),
{
    let mut bytes: Vec<u8> = Vec::new();
    put_le(&mut bytes, record.schema_fingerprint, 8);
    let flag: u8 = if record.streaming_supported {
        1
    } else {
        0
    };
    bytes.push(flag);
    assert(bytes@ =~= record_bytes(*record));
    bytes
}

/// Reads a record from `bytes[start..start + 9]`; `None` where the flag byte is no flag.
fn decode_record_at(bytes: &[u8], start: usize) -> (record: Option<HandshakeRecord>)
    requires
        start + RECORD_LEN <= bytes@.len(),
    ensures
        record == record_of_bytes(bytes@.subrange(start as int, start + RECORD_LEN)),
{
    let ghost field = bytes@.subrange(start as int, start + RECORD_LEN);
    assert(field.subrange(0, 8) =~= bytes@.subrange(start as int, start + 8));
    let total: usize = bytes.len();
    assert(start + RECORD_LEN <= total);
    let flag: u8 = bytes[start + 8];
    if flag > 1 {
        return None;
    }
    let schema_fingerprint: u64 = read_le(bytes, start, 8);
    Some(HandshakeRecord { schema_fingerprint, streaming_supported: flag == 1 })
}

/// Reads a record back from the bytes that carry it.
///
/// `None` exactly where `bytes` is not nine bytes long or its flag byte is
/// neither 0 nor 1.
pub fn decode_record(bytes: &[u8]) -> (record: Option<HandshakeRecord>)
    ensures
        record == record_of_bytes(bytes@),
{
    if bytes.len() != RECORD_LEN {
        return None;
    }
    assert(bytes@.subrange(0, RECORD_LEN as int) =~= bytes@);
    decode_record_at(bytes, 0)
}

/// The frame that opens the handshake for a side that declares `local`.
pub fn init_envelope(local: &HandshakeRecord) -> (frame: Envelope)
    ensures
        frame@ == init_frame(*local),
{
    Envelope {
        correlation_id: HANDSHAKE_CORRELATION_ID,
        kind: EnvelopeKind::HandshakeInit,
        payload: encode_record(local),
    }
}

/// The peer's side: answers `frame` for a peer that declares `expected`.
///
/// The answer accepts exactly when `frame` is a well-formed `HandshakeInit`
/// with the expected fingerprint; `accepted` repeats the verdict it carries.
pub fn respond(expected: &HandshakeRecord, frame: &Envelope) -> (answer: (Envelope, bool))
    ensures
        answer.0@ == respond_spec(*expected, frame@),
        answer.1 == init_matches(*expected, frame@),
{
    let accepted: bool = match frame.kind {
        EnvelopeKind::HandshakeInit => match decode_record(frame.payload.as_slice()) {
            Some(record) => record.schema_fingerprint == expected.schema_fingerprint,
            None => false,
        },
        _ => false,
    };
    let mut payload: Vec<u8> = Vec::new();
    payload.push(if accepted {
        1
    } else {
        0
    });
    let ghost verdict = payload@;
    put_le(&mut payload, expected.schema_fingerprint, 8);
    payload.push(if expected.streaming_supported {
        1
    } else {
        0
    });
    assert(payload@ =~= verdict + record_bytes(*expected));
    (
        Envelope {
            correlation_id: HANDSHAKE_CORRELATION_ID,
            kind: EnvelopeKind::HandshakeAck,
            payload,
        },
        accepted,
    )
}

/// The initiating side: turns a frame from the peer into a handshake event.
pub fn classify(frame: &Envelope) -> (event: HandshakeEvent)
    ensures
        event == classify_spec(frame@),
{
    match frame.kind {
        EnvelopeKind::HandshakeAck => {},
        _ => {
            return HandshakeEvent::Unexpected;
        },
    }
    if frame.payload.len() != ANSWER_LEN {
        return HandshakeEvent::Unexpected;
    }
    let verdict: u8 = frame.payload[0];
    if verdict == 0 {
        return HandshakeEvent::Rejected;
    }
    if verdict != 1 {
        return HandshakeEvent::Unexpected;
    }
    match decode_record_at(frame.payload.as_slice(), 1) {
        Some(peer) => HandshakeEvent::Accepted { peer },
        None => HandshakeEvent::Unexpected,
    }
}

/// One step of the initiating side: the state after `event` and what to do next.
///
/// `Ready` and `Failed` are final: no event leaves them, and nothing is left to do.
pub fn step(state: HandshakeState, local: &HandshakeRecord, event: HandshakeEvent) -> (next: (
    HandshakeState,
    HandshakeAction,
))
    ensures
        next.0 == next_state(state, *local, event),
        next.1 == action_for(state, next.0),
{
    match state {
        HandshakeState::Ready { .. } | HandshakeState::Failed { .. } => {
            return (state, HandshakeAction::Nothing);
        },
        _ => {},
    }
    let out_of_order = HandshakeState::Failed { reason: HandshakeFailure::OutOfOrder };
    let after = match event {
        HandshakeEvent::TimedOut => HandshakeState::Failed { reason: HandshakeFailure::TimedOut },
        HandshakeEvent::TransportFailed => HandshakeState::Failed {
            reason: HandshakeFailure::TransportFailed,
        },
        HandshakeEvent::Connected => match state {
            HandshakeState::Init => HandshakeState::SentCapabilities,
            _ => out_of_order,
        },
        HandshakeEvent::InitSent => match state {
            HandshakeState::SentCapabilities => HandshakeState::AwaitingAck,
            _ => out_of_order,
        },
        HandshakeEvent::Rejected => match state {
            HandshakeState::AwaitingAck => HandshakeState::Failed {
                reason: HandshakeFailure::Rejected,
            },
            _ => out_of_order,
        },
        HandshakeEvent::Unexpected => match state {
            HandshakeState::AwaitingAck => HandshakeState::Failed {
                reason: HandshakeFailure::UnexpectedFrame,
            },
            _ => out_of_order,
        },
        HandshakeEvent::Accepted { peer } => match state {
            HandshakeState::AwaitingAck => {
                if peer.schema_fingerprint == local.schema_fingerprint {
                    HandshakeState::Ready {
                        streaming: local.streaming_supported && peer.streaming_supported,
                    }
                } else {
                    HandshakeState::Failed { reason: HandshakeFailure::FingerprintMismatch }
                }
            },
            _ => out_of_order,
        },
    };
    let action = match after {
        HandshakeState::Init => HandshakeAction::Nothing,
        HandshakeState::SentCapabilities => HandshakeAction::SendInit,
        HandshakeState::AwaitingAck => HandshakeAction::AwaitAnswer,
        HandshakeState::Ready { .. } => HandshakeAction::Complete,
        HandshakeState::Failed { .. } => HandshakeAction::TearDown,
    };
    (after, action)
}

/// A record survives the trip through its bytes.
pub proof fn lemma_record_round_trip(record: HandshakeRecord)
    ensures
        record_bytes(record).len() == RECORD_LEN,
        record_of_bytes(record_bytes(record)) == Some(record),
{
    lemma_le_bytes_len(record.schema_fingerprint as nat, 8);
    lemma_radix_values();
    lemma_le_value_of_bytes(record.schema_fingerprint as nat, 8);
    assert(record_bytes(record).subrange(0, 8) =~= le_bytes(record.schema_fingerprint as nat, 8));
}

/// What the initiating side reads in the peer's answer: an acceptance that
/// names the peer's record where the fingerprints agree, a refusal where they
/// do not.
pub proof fn lemma_answer_is_understood(local: HandshakeRecord, expected: HandshakeRecord)
    ensures
        classify_spec(respond_spec(expected, init_frame(local))) == if local.schema_fingerprint
            == expected.schema_fingerprint {
            HandshakeEvent::Accepted { peer: expected }
        } else {
            HandshakeEvent::Rejected
        },
{
    lemma_record_round_trip(local);
    lemma_record_round_trip(expected);
    let answer = respond_spec(expected, init_frame(local));
    assert(answer.payload.subrange(1, 10) =~= record_bytes(expected));
}

/// A handshake that has failed stays failed, whatever happens afterwards: it
/// is never retried on the same connection.
pub proof fn lemma_failed_is_final(
    reason: HandshakeFailure,
    local: HandshakeRecord,
    events: Seq<HandshakeEvent>,
)
    ensures
        run(HandshakeState::Failed { reason }, local, events) == (HandshakeState::Failed { reason }),
    decreases events.len(),
{
    if events.len() > 0 {
        lemma_failed_is_final(reason, local, events.drop_first());
    }
}

/// With the fingerprints in agreement, the three events of an undisturbed
/// handshake end in `Ready`, streaming where both sides stream.
pub proof fn lemma_matching_handshake_is_ready(local: HandshakeRecord, expected: HandshakeRecord)
    requires
        local.schema_fingerprint == expected.schema_fingerprint,
    ensures
        run(
            HandshakeState::Init,
            local,
            seq![
                HandshakeEvent::Connected,
                HandshakeEvent::InitSent,
                classify_spec(respond_spec(expected, init_frame(local))),
            ],
        ) == (HandshakeState::Ready {
            streaming: local.streaming_supported && expected.streaming_supported,
        }),
{
    lemma_answer_is_understood(local, expected);
    reveal_with_fuel(run, 4);
    let events = seq![
        HandshakeEvent::Connected,
        HandshakeEvent::InitSent,
        classify_spec(respond_spec(expected, init_frame(local))),
    ];
    assert(events.drop_first() =~= seq![events[1], events[2]]);
    assert(events.drop_first().drop_first() =~= seq![events[2]]);
    assert(events.drop_first().drop_first().drop_first() =~= Seq::<HandshakeEvent>::empty());
}

/// Whether no event of `events` is an acceptance by a peer with the fingerprint `fingerprint`.
pub open spec fn never_accepted_with(events: Seq<HandshakeEvent>, fingerprint: u64) -> bool {
    forall|i: int|
        0 <= i < events.len() ==> !(#[trigger] events[i] matches HandshakeEvent::Accepted { peer }
            && peer.schema_fingerprint == fingerprint)
}

/// A handshake never becomes ready unless the peer accepted with our own
/// fingerprint: whatever else happens, in whatever order, the state it ends in
/// is not `Ready`.
pub proof fn lemma_ready_needs_matching_acceptance(
    state: HandshakeState,
    local: HandshakeRecord,
    events: Seq<HandshakeEvent>,
)
    requires
        !(state is Ready),
        never_accepted_with(events, local.schema_fingerprint),
    ensures
        !(run(state, local, events) is Ready),
    decreases events.len(),
{
    if events.len() > 0 {
        let rest = events.drop_first();
        assert(!(events[0] matches HandshakeEvent::Accepted { peer } && peer.schema_fingerprint
            == local.schema_fingerprint));
        assert forall|i: int| 0 <= i < rest.len() implies !(#[trigger] rest[i] matches HandshakeEvent::Accepted {
            peer,
        } && peer.schema_fingerprint == local.schema_fingerprint) by {
            assert(rest[i] == events[i + 1]);
        }
        lemma_ready_needs_matching_acceptance(next_state(state, local, events[0]), local, rest);
    }
}

/// Against a peer whose fingerprint differs, the handshake fails: once the
/// peer's answer to our record has been read, the state is `Failed`, it is
/// never `Ready`, and no later event changes that. A timeout or a transport
/// failure at any earlier point fails it as well.
pub proof fn lemma_mismatch_never_ready(
    local: HandshakeRecord,
    expected: HandshakeRecord,
    later: Seq<HandshakeEvent>,
)
    requires
        local.schema_fingerprint != expected.schema_fingerprint,
    ensures
        classify_spec(respond_spec(expected, init_frame(local))) == HandshakeEvent::Rejected,
        forall|state: HandshakeState|
            !(state is Ready) ==> (#[trigger] run(
                next_state(state, local, HandshakeEvent::Rejected),
                local,
                later,
            )) is Failed,
        forall|state: HandshakeState|
            !(state is Ready) ==> (#[trigger] run(
                next_state(state, local, HandshakeEvent::TimedOut),
                local,
                later,
            )) is Failed,
{
    lemma_answer_is_understood(local, expected);
    assert forall|state: HandshakeState| !(state is Ready) implies (#[trigger] run(
        next_state(state, local, HandshakeEvent::Rejected),
        local,
        later,
    )) is Failed by {
        let after = next_state(state, local, HandshakeEvent::Rejected);
        lemma_failed_is_final(after->reason, local, later);
    }
    assert forall|state: HandshakeState| !(state is Ready) implies (#[trigger] run(
        next_state(state, local, HandshakeEvent::TimedOut),
        local,
        later,
    )) is Failed by {
        let after = next_state(state, local, HandshakeEvent::TimedOut);
        lemma_failed_is_final(after->reason, local, later);
    }
}

} // verus!
