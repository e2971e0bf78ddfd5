//! The failures a caller can meet, and how far each one reaches.
//!
//! A failure of the call itself or of the codec concerns the one caller that
//! made the request. A severed connection fails every operation on it and
//! costs the worker. A failure while the pool is being built leaves no pool.

use vstd::prelude::*;
use crate::callback::CallbackError;
use crate::channel::ChannelError;
use crate::dispatch::{ExecutionError, ExecutionErrorView};
use crate::handshake::HandshakeFailure;
use crate::pool::{PoolSpawnError, StartError};
use crate::stream::StreamProtocolError;

verus! {

/// Every failure that a call site can be handed.
#[derive(Debug, Clone)]
pub enum Error {
    /// The transport is severed or no worker can be reached.
    ConnectionError,
    /// The handshake on a connection failed: the fingerprints differ, or it
    /// did not complete.
    HandshakeError { reason: HandshakeFailure },
    /// The pool could not be built: a worker did not start, did not finish
    /// its handshake, or failed its own setup.
    PoolSpawnError { cause: PoolSpawnError },
    /// The message could not be turned into an interpreter value.
    SerializationError { message: String },
    /// The result could not be turned back into a reply.
    DeserializationError { message: String },
    /// The call itself raised or returned a failure.
    CallError { function: String, message: String },
    /// A callback found no handler, its handler failed, or it timed out.
    CallbackError { failure: CallbackError },
    /// The caller's own deadline passed.
    TimeoutError,
    /// A stream item came out of order or twice.
    StreamProtocolError { violation: StreamProtocolError },
}

/// A failure as a mathematical value.
pub enum ErrorView {
    ConnectionError,
    HandshakeError { reason: HandshakeFailure },
    PoolSpawnError { cause: PoolSpawnError },
    SerializationError { message: Seq<char> },
    DeserializationError { message: Seq<char> },
    CallError { function: Seq<char>, message: Seq<char> },
    CallbackError { failure: CallbackError },
    TimeoutError,
    StreamProtocolError { violation: StreamProtocolError },
}

impl View for Error {
    type V = ErrorView;

    open spec fn view(&self) -> ErrorView {
        match *self {
            Error::ConnectionError => ErrorView::ConnectionError,
            Error::HandshakeError { reason } => ErrorView::HandshakeError { reason },
            Error::PoolSpawnError { cause } => ErrorView::PoolSpawnError { cause },
            Error::SerializationError { message } => ErrorView::SerializationError {
                message: message@,
            },
            Error::DeserializationError { message } => ErrorView::DeserializationError {
                message: message@,
            },
            Error::CallError { function, message } => ErrorView::CallError {
                function: function@,
                message: message@,
            },
            Error::CallbackError { failure } => ErrorView::CallbackError { failure },
            Error::TimeoutError => ErrorView::TimeoutError,
            Error::StreamProtocolError { violation } => ErrorView::StreamProtocolError { violation },
        }
    }
}

/// How far a failure reaches.
#[derive(Debug, Clone, Copy, PartialEq, Eq, Structural)]
pub enum Reach {
    /// There is no pool: nothing of it may be used.
    Pool,
    /// Every operation on the connection fails, and the worker is dead.
    Connection,
    /// The one operation fails; other operations and the worker's health are
    /// not affected.
    Operation,
}

/// How far `error` reaches.
pub open spec fn reach_of(error: ErrorView) -> Reach {
    match error {
        ErrorView::PoolSpawnError { .. } | ErrorView::HandshakeError { .. } => Reach::Pool,
        ErrorView::ConnectionError => Reach::Connection,
        _ => Reach::Operation,
    }
}

/// The failure that a caller is handed for the execution error `error`.
pub open spec fn of_execution(error: ExecutionErrorView) -> ErrorView {
    match error {
        ExecutionErrorView::SerializationError { message } => ErrorView::SerializationError {
            message,
        },
        ExecutionErrorView::DeserializationError { message } => ErrorView::DeserializationError {
            message,
        },
        ExecutionErrorView::CallError { function, message } => ErrorView::CallError {
            function,
            message,
        },
    }
}

impl Error {
    /// How far this failure reaches.
    pub fn reach(&self) -> (reach: Reach)
        ensures
            reach == reach_of(self@),
    {
        match self {
            Error::PoolSpawnError { .. } | Error::HandshakeError { .. } => Reach::Pool,
            Error::ConnectionError => Reach::Connection,
            _ => Reach::Operation,
        }
    }

    /// The failure that a caller is handed when its request failed in the worker.
    pub fn from_execution(error: ExecutionError) -> (failure: Error)
        ensures
            failure@ == of_execution(error@),
            reach_of(failure@) == Reach::Operation,
    {
        match error {
            ExecutionError::SerializationError { message } => Error::SerializationError { message },
            ExecutionError::DeserializationError { message } => Error::DeserializationError {
                message,
            },
            ExecutionError::CallError { function, message } => Error::CallError {
                function,
                message,
            },
        }
    }

    /// The failure that a caller is handed when no operation could be
    /// started: no worker can be reached.
    pub fn from_start(error: StartError) -> (failure: Error)
        ensures
            failure@ == ErrorView::ConnectionError,
    {
        Error::ConnectionError
    }

    /// The failure that a caller is handed when its connection takes no more operations.
    pub fn from_channel(error: ChannelError) -> (failure: Error)
        ensures
            failure@ == ErrorView::ConnectionError,
    {
        Error::ConnectionError
    }

    /// The failure that the builder of a pool is handed.
    pub fn from_spawn(cause: PoolSpawnError) -> (failure: Error)
        ensures
            failure@ == (ErrorView::PoolSpawnError { cause }),
            reach_of(failure@) == Reach::Pool,
    {
        Error::PoolSpawnError { cause }
    }

    /// The failure that the builder of a pool is handed for a handshake that failed.
    pub fn from_handshake(reason: HandshakeFailure) -> (failure: Error)
        ensures
            failure@ == (ErrorView::HandshakeError { reason }),
            reach_of(failure@) == Reach::Pool,
    {
        Error::HandshakeError { reason }
    }

    /// The failure that a worker task is handed when its callback brought no answer.
    pub fn from_callback(cause: CallbackError) -> (failure: Error)
        ensures
            failure@ == (ErrorView::CallbackError { failure: cause }),
            reach_of(failure@) == Reach::Operation,
    {
        Error::CallbackError { failure: cause }
    }

    /// The failure that the reader of a stream is handed when the stream broke its rules.
    pub fn from_violation(violation: StreamProtocolError) -> (failure: Error)
        ensures
            failure@ == (ErrorView::StreamProtocolError { violation }),
            reach_of(failure@) == Reach::Operation,
    {
        Error::StreamProtocolError { violation }
    }
}

} // verus!
