//! Cross-process actor messaging for interpreter-hosting worker subprocesses:
//! framing, handshake, correlation, pooling, dispatch, streaming and callbacks.

pub mod callback;
pub mod cases;
pub mod channel;
pub mod config;
pub mod dispatch;
pub mod dispatcher;
pub mod envelope;
pub mod error;
pub mod handshake;
pub mod harness;
pub mod lock;
pub mod messages;
pub mod pool;
pub mod request;
pub mod stream;
pub mod tracker;
pub mod wire;
