use kameo_snake_handler::callback::{callback_reply, CallbackError};
use kameo_snake_handler::channel::ChannelError;
use kameo_snake_handler::dispatch::request_frame;
use kameo_snake_handler::dispatcher::{Dispatcher, Inbound};
use kameo_snake_handler::envelope::{Envelope, EnvelopeKind};
use kameo_snake_handler::request::{encode_request, Request, RequestMode};

fn request(correlation_id: u64, mode: RequestMode, body: &[u8]) -> Envelope {
    let request = Request { mode, trace_context: b"trace".to_vec(), body: body.to_vec() };
    request_frame(correlation_id, encode_request(&request).unwrap())
}

#[test]
fn every_request_is_spawned_at_once_and_counted() {
    let mut dispatcher = Dispatcher::new();
    for n in 0..5u64 {
        match dispatcher.on_frame(&request(n + 1, RequestMode::Single, &[n as u8])) {
            Inbound::Spawn { correlation_id, request } => {
                assert_eq!(correlation_id, n + 1);
                assert_eq!(request.mode, RequestMode::Single);
                assert_eq!(request.trace_context, b"trace".to_vec());
                assert_eq!(request.body, vec![n as u8]);
            }
            other => panic!("expected a task, got {:?}", other),
        }
        assert_eq!(dispatcher.in_flight(), n as usize + 1);
    }
    for left in (0..5).rev() {
        dispatcher.task_done();
        assert_eq!(dispatcher.in_flight(), left);
    }
    dispatcher.task_done();
    assert_eq!(dispatcher.in_flight(), 0);
}

#[test]
fn stream_request_is_spawned_as_a_stream() {
    let mut dispatcher = Dispatcher::new();
    assert!(matches!(
        dispatcher.on_frame(&request(3, RequestMode::Stream, b"count")),
        Inbound::Spawn { correlation_id: 3, request: Request { mode: RequestMode::Stream, .. } }
    ));
}

#[test]
fn request_that_cannot_be_read_is_answered_not_spawned() {
    let mut dispatcher = Dispatcher::new();
    let broken = request_frame(8, vec![9, 9]);
    assert!(matches!(dispatcher.on_frame(&broken), Inbound::Malformed { correlation_id: 8 }));
    assert_eq!(dispatcher.in_flight(), 0);
}

#[test]
fn frames_that_ask_nothing_of_a_worker_are_ignored() {
    let mut dispatcher = Dispatcher::new();
    for kind in [
        EnvelopeKind::Reply,
        EnvelopeKind::StreamItem,
        EnvelopeKind::StreamEnd,
        EnvelopeKind::StreamError,
        EnvelopeKind::Callback,
        EnvelopeKind::CallbackReply,
        EnvelopeKind::HandshakeInit,
        EnvelopeKind::HandshakeAck,
    ] {
        let frame = Envelope { correlation_id: 1, kind, payload: vec![0, 0, 0, 0, 0] };
        assert!(matches!(dispatcher.on_frame(&frame), Inbound::Ignore));
    }
    assert_eq!(dispatcher.in_flight(), 0);
    assert_eq!(dispatcher.callbacks_under_way(), 0);
}

#[test]
fn callback_is_issued_under_a_fresh_id_and_resumed_by_its_answer() {
    let mut dispatcher = Dispatcher::new();
    let first = dispatcher.issue_callback(0x11, &vec![1, 2]).unwrap();
    let second = dispatcher.issue_callback(0x22, &vec![]).unwrap();
    assert_eq!((first.correlation_id, second.correlation_id), (1, 2));
    assert_eq!(first.kind, EnvelopeKind::Callback);
    assert_eq!(first.payload, vec![0x11, 0, 0, 0, 0, 0, 0, 0, 1, 2]);
    assert_eq!(dispatcher.callbacks_under_way(), 2);

    match dispatcher.on_frame(&callback_reply(2, Ok(vec![7]))) {
        Inbound::Resume { correlation_id, outcome } => {
            assert_eq!(correlation_id, 2);
            assert_eq!(outcome, Ok(vec![7]));
        }
        other => panic!("expected the answer, got {:?}", other),
    }
    match dispatcher.on_frame(&callback_reply(1, Err(CallbackError::NoHandler))) {
        Inbound::Resume { correlation_id, outcome } => {
            assert_eq!(correlation_id, 1);
            assert_eq!(outcome, Err(CallbackError::NoHandler));
        }
        other => panic!("expected the refusal, got {:?}", other),
    }
    assert_eq!(dispatcher.callbacks_under_way(), 0);
    assert!(matches!(dispatcher.on_frame(&callback_reply(1, Ok(vec![]))), Inbound::Ignore));
}

#[test]
fn abandoned_callback_ignores_its_late_answer() {
    let mut dispatcher = Dispatcher::new();
    let issued = dispatcher.issue_callback(5, &vec![]).unwrap();
    assert!(dispatcher.abandon_callback(issued.correlation_id));
    assert!(!dispatcher.abandon_callback(issued.correlation_id));
    assert!(matches!(
        dispatcher.on_frame(&callback_reply(issued.correlation_id, Ok(vec![1]))),
        Inbound::Ignore
    ));
}

#[test]
fn hang_up_fails_the_callbacks_under_way() {
    let mut dispatcher = Dispatcher::new();
    dispatcher.issue_callback(5, &vec![]).unwrap();
    dispatcher.issue_callback(6, &vec![]).unwrap();
    assert!(matches!(
        dispatcher.on_frame(&request(9, RequestMode::Single, b"")),
        Inbound::Spawn { .. }
    ));
    assert_eq!(dispatcher.hang_up(), vec![1, 2]);
    assert_eq!(dispatcher.callbacks_under_way(), 0);
    assert_eq!(dispatcher.in_flight(), 1);
    assert_eq!(dispatcher.issue_callback(7, &vec![]).err(), Some(ChannelError::Closed));
}
