//! The reverse path: a worker task asks the supervisor for something mid-call.
//!
//! The payload of a `Callback` frame is the identity of its message type in
//! eight little-endian bytes followed by the message. The supervisor looks
//! the type up in a table that was filled at startup. The payload of the
//! `CallbackReply` frame is one status byte followed by the answer.

use vstd::prelude::*;
use crate::envelope::{Envelope, EnvelopeKind, EnvelopeView};
use crate::wire::{
    append_bytes, copy_range, le_bytes, le_value, lemma_le_bytes_len, lemma_le_value_of_bytes,
    lemma_radix_values, put_le, read_le,
};

verus! {

/// Bytes of the type identity in front of every callback's message.
pub const TYPE_ID_LEN: usize = 8;

/// Why a callback brought no answer.
#[derive(Debug, Clone, Copy, PartialEq, Eq, Structural)]
pub enum CallbackError {
    /// No handler is registered for the type of the message.
    NoHandler,
    /// The handler failed.
    HandlerFailed,
    /// No answer came in time.
    TimedOut,
    /// The frame does not hold what a callback or its reply must hold.
    Malformed,
}

/// One line of the table: the handler of one message type.
#[derive(Debug, Clone, Copy, PartialEq, Eq, Structural)]
pub struct Registration {
    /// The identity of the message type.
    pub type_id: u64,
    /// The number under which the caller keeps the handler.
    pub handler: u32,
    /// The fingerprint of the message type's shape.
    pub schema_fingerprint: u64,
}

/// What the supervisor does with a callback.
#[derive(Debug, Clone)]
pub enum CallbackDecision {
    /// Call the handler with `body` and answer under `correlation_id`.
    Invoke { handler: u32, correlation_id: u64, body: Vec<u8> },
    /// Send `reply` at once: the callback cannot be served.
    Refuse { reply: Envelope },
}

/// A decision as a mathematical value.
pub enum CallbackDecisionView {
    Invoke { handler: u32, correlation_id: u64, body: Seq<u8> },
    Refuse { reply: EnvelopeView },
}

impl View for CallbackDecision {
    type V = CallbackDecisionView;

    open spec fn view(&self) -> CallbackDecisionView {
        match *self {
            CallbackDecision::Invoke { handler, correlation_id, body } => CallbackDecisionView::Invoke {
                handler,
                correlation_id,
                body: body@,
            },
            CallbackDecision::Refuse { reply } => CallbackDecisionView::Refuse { reply: reply@ },
        }
    }
}

/// The status byte that stands for `error`.
pub open spec fn status_of(error: CallbackError) -> u8 {
    match error {
        CallbackError::NoHandler => 1,
        CallbackError::HandlerFailed => 2,
        CallbackError::TimedOut => 3,
        CallbackError::Malformed => 4,
    }
}

/// An outcome of a callback as a mathematical value.
pub open spec fn outcome_view(outcome: Result<Vec<u8>, CallbackError>) -> Result<
    Seq<u8>,
    CallbackError,
> {
    match outcome {
        Ok(answer) => Ok(answer@),
        Err(error) => Err(error),
    }
}

/// The payload of the reply that carries `outcome`.
pub open spec fn reply_payload(outcome: Result<Seq<u8>, CallbackError>) -> Seq<u8> {
    match outcome {
        Ok(answer) => seq![0u8] + answer,
        Err(error) => seq![status_of(error)],
    }
}

/// The outcome that the payload of a reply carries.
///
/// A payload without a status byte, with an unknown one, or with bytes
/// behind a failure is malformed.
pub open spec fn outcome_of_payload(payload: Seq<u8>) -> Result<Seq<u8>, CallbackError> {
    if payload.len() == 0 {
        Err(CallbackError::Malformed)
    } else if payload[0] == 0 {
        Ok(payload.subrange(1, payload.len() as int))
    } else if payload.len() != 1 {
        Err(CallbackError::Malformed)
    } else if payload[0] == 1 {
        Err(CallbackError::NoHandler)
    } else if payload[0] == 2 {
        Err(CallbackError::HandlerFailed)
    } else if payload[0] == 3 {
        Err(CallbackError::TimedOut)
    } else {
        Err(CallbackError::Malformed)
    }
}

/// The `Callback` frame that carries `body` as a message of type `type_id`.
pub open spec fn callback_frame_of(correlation_id: u64, type_id: u64, body: Seq<u8>) -> EnvelopeView {
    EnvelopeView {
        correlation_id,
        kind: EnvelopeKind::Callback,
        payload: le_bytes(type_id as nat, 8) + body,
    }
}

/// The `CallbackReply` frame that carries `outcome`.
pub open spec fn reply_frame_of(
    correlation_id: u64,
    outcome: Result<Seq<u8>, CallbackError>,
) -> EnvelopeView {
    EnvelopeView {
        correlation_id,
        kind: EnvelopeKind::CallbackReply,
        payload: reply_payload(outcome),
    }
}

/// The registration of type `type_id` in `table`, if it has one.
pub open spec fn registered(table: Seq<Registration>, type_id: u64) -> Option<Registration>
    decreases table.len(),
{
    if table.len() == 0 {
        None
    } else if table[0].type_id == type_id {
        Some(table[0])
    } else {
        registered(table.drop_first(), type_id)
    }
}

/// What the supervisor does with the callback `payload` that came under `correlation_id`.
pub open spec fn decision_of(
    table: Seq<Registration>,
    correlation_id: u64,
    payload: Seq<u8>,
) -> CallbackDecisionView {
    if payload.len() < TYPE_ID_LEN {
        CallbackDecisionView::Refuse {
            reply: reply_frame_of(correlation_id, Err(CallbackError::Malformed)),
        }
    } else {
        match registered(table, le_value(payload.subrange(0, 8)) as u64) {
            Some(registration) => CallbackDecisionView::Invoke {
                handler: registration.handler,
                correlation_id,
                body: payload.subrange(8, payload.len() as int),
            },
            None => CallbackDecisionView::Refuse {
                reply: reply_frame_of(correlation_id, Err(CallbackError::NoHandler)),
            },
        }
    }
}

/// The table of callback handlers, by message type.
#[derive(Debug)]
pub struct CallbackRegistry {
    entries: Vec<Registration>,
}

impl View for CallbackRegistry {
    type V = Seq<Registration>;

    closed spec fn view(&self) -> Seq<Registration> {
        self.entries@
    }
}

impl CallbackRegistry {
    /// A table without handlers.
    pub fn new() -> (registry: Self)
        ensures
            registry@ == Seq::<Registration>::empty(),
    {
        CallbackRegistry { entries: Vec::new() }
    }

    /// The registration of type `type_id`, if it has one.
    pub fn lookup(&self, type_id: u64) -> (found: Option<Registration>)
        ensures
            found == registered(self@, type_id),
    {
        let mut at: usize = 0;
        assert(self.entries@.skip(0) =~= self.entries@);
        while at < self.entries.len()
            invariant
                at <= self.entries@.len(),
                registered(self.entries@, type_id) == registered(
                    self.entries@.skip(at as int),
                    type_id,
                ),
            decreases self.entries@.len() - at,
        {
            let entry = self.entries[at];
            assert(self.entries@.skip(at as int)[0] == entry);
            if entry.type_id == type_id {
                return Some(entry);
            }
            assert(self.entries@.skip(at as int).drop_first() =~= self.entries@.skip(at + 1));
            at = at + 1;
        }
        None
    }

    /// Adds a handler to the table.
    ///
    /// Returns `false`, and changes nothing, where the type has a handler
    /// already: a type is registered once.
    pub fn register(&mut self, registration: Registration) -> (added: bool)
        ensures
            added == (registered(old(self)@, registration.type_id) is None),
            final(self)@ == if added {
                old(self)@.push(registration)
            } else {
                old(self)@
            },
    {
        match self.lookup(registration.type_id) {
            Some(_) => false,
            None => {
                self.entries.push(registration);
                true
            },
        }
    }

    /// How many types have a handler.
    pub fn len(&self) -> (len: usize)
        ensures
            len == self@.len(),
    {
        self.entries.len()
    }

    /// Decides what to do with a callback that came under `correlation_id`.
    ///
    /// A callback whose type has a handler is to be invoked with the message
    /// behind the type identity. One without a handler, or too short to name
    /// a type, is refused with a reply for the waiting task; the connection
    /// is not affected.
    pub fn decide(&self, correlation_id: u64, payload: &Vec<u8>) -> (decision: CallbackDecision)
        ensures
            decision@ == decision_of(self@, correlation_id, payload@),
    {
        if payload.len() < TYPE_ID_LEN {
            return CallbackDecision::Refuse {
                reply: callback_reply(correlation_id, Err(CallbackError::Malformed)),
            };
        }
        let type_id: u64 = read_le(payload.as_slice(), 0, 8);
        match self.lookup(type_id) {
            Some(registration) => CallbackDecision::Invoke {
                handler: registration.handler,
                correlation_id,
                body: copy_range(payload.as_slice(), TYPE_ID_LEN, payload.len()),
            },
            None => CallbackDecision::Refuse {
                reply: callback_reply(correlation_id, Err(CallbackError::NoHandler)),
            },
        }
    }
}

/// The worker's side: the `Callback` frame for a message of type `type_id`.
pub fn callback_frame(correlation_id: u64, type_id: u64, body: &Vec<u8>) -> (frame: Envelope)
    ensures
        frame@ == callback_frame_of(correlation_id, type_id, body@),
{
    let mut payload: Vec<u8> = Vec::new();
    put_le(&mut payload, type_id, 8);
    append_bytes(&mut payload, body.as_slice());
    Envelope { correlation_id, kind: EnvelopeKind::Callback, payload }
}

/// The supervisor's side: the `CallbackReply` frame that carries `outcome`
/// under the correlation id of the callback it answers.
pub fn callback_reply(correlation_id: u64, outcome: Result<Vec<u8>, CallbackError>) -> (frame:
    Envelope)
    ensures
        frame@ == reply_frame_of(correlation_id, outcome_view(outcome)),
{
    let mut payload: Vec<u8> = Vec::new();
    match outcome {
        Ok(answer) => {
            payload.push(0);
            append_bytes(&mut payload, answer.as_slice());
        },
        Err(error) => {
            let status: u8 = match error {
                CallbackError::NoHandler => 1,
                CallbackError::HandlerFailed => 2,
                CallbackError::TimedOut => 3,
                CallbackError::Malformed => 4,
            };
            payload.push(status);
            assert(payload@ =~= seq![status_of(error)]);
        },
    }
    Envelope { correlation_id, kind: EnvelopeKind::CallbackReply, payload }
}

/// The worker's side: what the payload of a `CallbackReply` brings to the
/// task that waits for it.
pub fn read_callback_reply(payload: &Vec<u8>) -> (outcome: Result<Vec<u8>, CallbackError>)
    ensures
        outcome_view(outcome) == outcome_of_payload(payload@),
{
    if payload.len() == 0 {
        return Err(CallbackError::Malformed);
    }
    let status: u8 = payload[0];
    if status == 0 {
        return Ok(copy_range(payload.as_slice(), 1, payload.len()));
    }
    if payload.len() != 1 {
        return Err(CallbackError::Malformed);
    }
    if status == 1 {
        Err(CallbackError::NoHandler)
    } else if status == 2 {
        Err(CallbackError::HandlerFailed)
    } else if status == 3 {
        Err(CallbackError::TimedOut)
    } else {
        Err(CallbackError::Malformed)
    }
}

/// Whatever the supervisor answers reaches the waiting task unchanged.
pub proof fn lemma_reply_round_trip(outcome: Result<Seq<u8>, CallbackError>)
    ensures
        outcome_of_payload(reply_payload(outcome)) == outcome,
{
    match outcome {
        Ok(answer) => {
            let payload = reply_payload(outcome);
            assert(payload.subrange(1, payload.len() as int) =~= answer);
        },
        Err(_) => {},
    }
}

/// A callback for a registered type is invoked with exactly the message the
/// worker sent, under the correlation id it was sent with.
pub proof fn lemma_registered_callback_is_invoked(
    table: Seq<Registration>,
    correlation_id: u64,
    type_id: u64,
    body: Seq<u8>,
)
    ensures
        decision_of(table, correlation_id, callback_frame_of(correlation_id, type_id, body).payload)
            == match registered(table, type_id) {
            Some(registration) => CallbackDecisionView::Invoke {
                handler: registration.handler,
                correlation_id,
                body,
            },
            None => CallbackDecisionView::Refuse {
                reply: reply_frame_of(correlation_id, Err(CallbackError::NoHandler)),
            },
        },
{
    let payload = le_bytes(type_id as nat, 8) + body;
    lemma_le_bytes_len(type_id as nat, 8);
    lemma_radix_values();
    lemma_le_value_of_bytes(type_id as nat, 8);
    assert(payload.subrange(0, 8) =~= le_bytes(type_id as nat, 8));
    assert(payload.subrange(8, payload.len() as int) =~= body);
}

/// A type that was registered is found, with the registration it was given;
/// a type that was never registered is not.
pub proof fn lemma_registered_after_push(
    table: Seq<Registration>,
    registration: Registration,
    type_id: u64,
)
    ensures
        registered(table.push(registration), type_id) == if registered(table, type_id) is Some {
            registered(table, type_id)
        } else if registration.type_id == type_id {
            Some(registration)
        } else {
            None
        },
    decreases table.len(),
{
    let longer = table.push(registration);
    if table.len() == 0 {
        assert(longer.drop_first() =~= table);
    } else {
        assert(longer[0] == table[0]);
        assert(longer.drop_first() =~= table.drop_first().push(registration));
        if table[0].type_id != type_id {
            lemma_registered_after_push(table.drop_first(), registration, type_id);
        }
    }
}

} // verus!
