//! What a `Request` frame carries besides the message itself.
//!
//! The payload of a request is one mode byte, the length of the trace
//! context in four little-endian bytes, the trace context, and the message.
//! The trace context is opaque here: the worker hands it to its telemetry so
//! that the spans of the call nest under the trace of the caller.

use vstd::prelude::*;
use crate::wire::{
    append_bytes, copy_range, le_bytes, le_value, lemma_le_bytes_len, lemma_le_value_bound,
    lemma_le_value_of_bytes, lemma_radix_values, put_le, read_le,
};

verus! {

/// Bytes in front of the trace context: the mode and the context's length.
pub const PREFIX_LEN: usize = 5;

/// The longest trace context a request can carry.
pub const MAX_TRACE_CONTEXT_LEN: u64 = 0xffff_ffff;

/// What the caller expects back.
#[derive(Debug, Clone, Copy, PartialEq, Eq, Structural)]
pub enum RequestMode {
    /// One reply.
    Single,
    /// A stream of replies.
    Stream,
}

/// Why a request could not be written.
#[derive(Debug, Clone, Copy, PartialEq, Eq, Structural)]
pub enum RequestError {
    /// The trace context is longer than its length field can say.
    TraceContextTooLarge,
}

/// A request as its worker sees it.
#[derive(Debug, Clone, PartialEq, Eq)]
pub struct Request {
    pub mode: RequestMode,
    /// The caller's trace context, opaque to the protocol.
    pub trace_context: Vec<u8>,
    /// The message.
    pub body: Vec<u8>,
}

/// A request as a mathematical value.
pub struct RequestView {
    pub mode: RequestMode,
    pub trace_context: Seq<u8>,
    pub body: Seq<u8>,
}

impl View for Request {
    type V = RequestView;

    open spec fn view(&self) -> RequestView {
        RequestView { mode: self.mode, trace_context: self.trace_context@, body: self.body@ }
    }
}

/// The byte that stands for `mode`.
pub open spec fn mode_tag(mode: RequestMode) -> u8 {
    match mode {
        RequestMode::Single => 0,
        RequestMode::Stream => 1,
    }
}

/// The payload that carries `request`.
pub open spec fn request_payload(request: RequestView) -> Seq<u8> {
    seq![mode_tag(request.mode)] + le_bytes(request.trace_context.len(), 4) + request.trace_context
        + request.body
}

/// The request that `payload` carries, if it carries one: the mode byte must
/// name a mode, and the trace context must be all there.
pub open spec fn request_of_payload(payload: Seq<u8>) -> Option<RequestView> {
    if payload.len() < PREFIX_LEN || payload[0] > 1 || payload.len() < PREFIX_LEN + le_value(
        payload.subrange(1, 5),
    ) {
        None
    } else {
        let context_len = le_value(payload.subrange(1, 5)) as int;
        Some(
            RequestView {
                mode: if payload[0] == 0 {
                    RequestMode::Single
                } else {
                    RequestMode::Stream
                },
                trace_context: payload.subrange(5, 5 + context_len),
                body: payload.subrange(5 + context_len, payload.len() as int),
            },
        )
    }
}

/// A decoded request as a mathematical value.
pub open spec fn decoded_view(decoded: Option<Request>) -> Option<RequestView> {
    match decoded {
        Some(request) => Some(request@),
        None => None,
    }
}

/// Writes `request` as the payload of a `Request` frame.
///
/// Fails exactly when the trace context is too long for its length field.
pub fn encode_request(request: &Request) -> (payload: Result<Vec<u8>, RequestError>)
    ensures
        request.trace_context@.len() <= MAX_TRACE_CONTEXT_LEN ==> payload is Ok
            && payload->Ok_0@ == request_payload(request@),
        request.trace_context@.len() > MAX_TRACE_CONTEXT_LEN ==> payload == Err::<
            Vec<u8>,
            RequestError,
        >(RequestError::TraceContextTooLarge),
{
    let context_len: usize = request.trace_context.len();
    if context_len as u64 > MAX_TRACE_CONTEXT_LEN {
        return Err(RequestError::TraceContextTooLarge);
    }
    let mut payload: Vec<u8> = Vec::new();
    payload.push(
        match request.mode {
            RequestMode::Single => 0,
            RequestMode::Stream => 1,
        },
    );
    put_le(&mut payload, context_len as u64, 4);
    append_bytes(&mut payload, request.trace_context.as_slice());
    append_bytes(&mut payload, request.body.as_slice());
    Ok(payload)
}

/// Reads the payload of a `Request` frame.
///
/// `None` exactly where the payload is too short for its prefix, its mode
/// byte names no mode, or it ends before its trace context does.
pub fn decode_request(payload: &Vec<u8>) -> (decoded: Option<Request>)
    ensures
        decoded_view(decoded) == request_of_payload(payload@),
{
    let total: usize = payload.len();
    if total < PREFIX_LEN {
        return None;
    }
    let tag: u8 = payload[0];
    if tag > 1 {
        return None;
    }
    let announced: u64 = read_le(payload.as_slice(), 1, 4);
    proof {
        lemma_le_value_bound(payload@.subrange(1, 5));
        lemma_radix_values();
    }
    if ((total - PREFIX_LEN) as u64) < announced {
        return None;
    }
    let context_end: usize = PREFIX_LEN + announced as usize;
    let mode = if tag == 0 {
        RequestMode::Single
    } else {
        RequestMode::Stream
    };
    Some(
        Request {
            mode,
            trace_context: copy_range(payload.as_slice(), PREFIX_LEN, context_end),
            body: copy_range(payload.as_slice(), context_end, total),
        },
    )
}

/// The worker reads exactly what the caller wrote: the mode, the trace
/// context and the message all cross the process boundary unchanged.
pub proof fn lemma_request_round_trip(request: RequestView)
    requires
        request.trace_context.len() <= MAX_TRACE_CONTEXT_LEN,
    ensures
        request_of_payload(request_payload(request)) == Some(request),
{
    let payload = request_payload(request);
    let context_len = request.trace_context.len();
    lemma_le_bytes_len(context_len, 4);
    lemma_radix_values();
    lemma_le_value_of_bytes(context_len, 4);
    assert(payload.subrange(1, 5) =~= le_bytes(context_len, 4));
    assert(payload.subrange(5, 5 + context_len as int) =~= request.trace_context);
    assert(payload.subrange(5 + context_len as int, payload.len() as int) =~= request.body);
}

} // verus!
