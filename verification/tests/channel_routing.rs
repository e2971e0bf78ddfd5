use kameo_snake_handler::channel::{Channel, ChannelError, Routed, Slot};
use kameo_snake_handler::envelope::{Envelope, EnvelopeKind};
use kameo_snake_handler::stream::{StreamProtocolError, StreamSession};

fn frame(kind: EnvelopeKind, correlation_id: u64, payload: Vec<u8>) -> Envelope {
    Envelope { correlation_id, kind, payload }
}

fn item(correlation_id: u64, index: u64, value: &[u8]) -> Envelope {
    let mut payload = index.to_le_bytes().to_vec();
    payload.extend_from_slice(value);
    frame(EnvelopeKind::StreamItem, correlation_id, payload)
}

#[test]
fn ids_count_up_from_one() {
    let mut channel = Channel::new();
    assert_eq!(channel.open_ask(), Ok(1));
    assert_eq!(channel.open_stream(), Ok(2));
    assert_eq!(channel.open_callback(), Ok(3));
    assert_eq!(channel.in_flight(), 3);
    assert_eq!(channel.slot(1), Some(Slot::Ask));
    assert_eq!(
        channel.slot(2),
        Some(Slot::Stream {
            session: StreamSession { correlation_id: 2, next_expected_index: 0, terminal: false }
        })
    );
    assert_eq!(channel.slot(3), Some(Slot::Callback));
    assert_eq!(channel.slot(4), None);
}

#[test]
fn replies_out_of_order_reach_their_own_callers() {
    let mut channel = Channel::new();
    let ids: Vec<u64> = (0..8).map(|_| channel.open_ask().unwrap()).collect();
    assert_eq!(ids, vec![1, 2, 3, 4, 5, 6, 7, 8]);
    for id in [5u64, 1, 8, 3, 2, 7, 4, 6] {
        let reply = frame(EnvelopeKind::Reply, id, vec![id as u8, 0xff]);
        match channel.route(&reply) {
            Routed::Fulfil { correlation_id, payload } => {
                assert_eq!(correlation_id, id);
                assert_eq!(payload, vec![id as u8, 0xff]);
            }
            other => panic!("expected the reply for {}, got {:?}", id, other),
        }
        assert_eq!(channel.slot(id), None);
    }
    assert_eq!(channel.in_flight(), 0);
}

#[test]
fn second_reply_for_one_id_is_dropped() {
    let mut channel = Channel::new();
    let id = channel.open_ask().unwrap();
    assert!(matches!(channel.route(&frame(EnvelopeKind::Reply, id, vec![1])), Routed::Fulfil { .. }));
    assert!(matches!(
        channel.route(&frame(EnvelopeKind::Reply, id, vec![2])),
        Routed::Dropped { correlation_id } if correlation_id == id
    ));
}

#[test]
fn reply_after_cancel_is_dropped() {
    let mut channel = Channel::new();
    let id = channel.open_ask().unwrap();
    assert!(channel.cancel(id));
    assert!(!channel.cancel(id));
    assert!(matches!(channel.route(&frame(EnvelopeKind::Reply, id, vec![])), Routed::Dropped { .. }));
    assert_eq!(channel.open_ask(), Ok(2));
}

#[test]
fn reply_does_not_fulfil_a_stream_or_a_callback() {
    let mut channel = Channel::new();
    let stream = channel.open_stream().unwrap();
    let callback = channel.open_callback().unwrap();
    assert!(matches!(channel.route(&frame(EnvelopeKind::Reply, stream, vec![])), Routed::Dropped { .. }));
    assert!(matches!(channel.route(&frame(EnvelopeKind::Reply, callback, vec![])), Routed::Dropped { .. }));
    assert!(matches!(
        channel.route(&frame(EnvelopeKind::CallbackReply, stream, vec![])),
        Routed::Dropped { .. }
    ));
    assert_eq!(channel.in_flight(), 2);
    match channel.route(&frame(EnvelopeKind::CallbackReply, callback, vec![0, 9])) {
        Routed::Resume { correlation_id, payload } => {
            assert_eq!(correlation_id, callback);
            assert_eq!(payload, vec![0, 9]);
        }
        other => panic!("expected the answer, got {:?}", other),
    }
    assert_eq!(channel.in_flight(), 1);
}

#[test]
fn stream_items_are_routed_in_order_and_the_end_frees_the_slot() {
    let mut channel = Channel::new();
    let ask = channel.open_ask().unwrap();
    let id = channel.open_stream().unwrap();
    for index in 0..3u64 {
        match channel.route(&item(id, index, &[index as u8])) {
            Routed::StreamItem { correlation_id, value } => {
                assert_eq!(correlation_id, id);
                assert_eq!(value, vec![index as u8]);
            }
            other => panic!("expected item {}, got {:?}", index, other),
        }
    }
    assert_eq!(
        channel.slot(id),
        Some(Slot::Stream {
            session: StreamSession { correlation_id: id, next_expected_index: 3, terminal: false }
        })
    );
    assert!(matches!(
        channel.route(&frame(EnvelopeKind::StreamEnd, id, vec![])),
        Routed::StreamEnded { correlation_id } if correlation_id == id
    ));
    assert_eq!(channel.slot(id), None);
    assert!(matches!(channel.route(&item(id, 3, &[])), Routed::Dropped { .. }));
    assert_eq!(channel.slot(ask), Some(Slot::Ask));
}

#[test]
fn stream_item_out_of_order_ends_the_stream_with_a_violation() {
    let mut channel = Channel::new();
    let id = channel.open_stream().unwrap();
    assert!(matches!(channel.route(&item(id, 0, &[])), Routed::StreamItem { .. }));
    match channel.route(&item(id, 2, &[])) {
        Routed::StreamViolation { correlation_id, error } => {
            assert_eq!(correlation_id, id);
            assert_eq!(error, StreamProtocolError::OutOfOrder { expected: 1, received: 2 });
        }
        other => panic!("expected a violation, got {:?}", other),
    }
    assert_eq!(channel.slot(id), None);
    assert!(matches!(channel.route(&item(id, 1, &[])), Routed::Dropped { .. }));
}

#[test]
fn stream_error_frame_fails_the_stream() {
    let mut channel = Channel::new();
    let id = channel.open_stream().unwrap();
    match channel.route(&frame(EnvelopeKind::StreamError, id, b"bad".to_vec())) {
        Routed::StreamFailed { correlation_id, reason } => {
            assert_eq!(correlation_id, id);
            assert_eq!(reason, b"bad".to_vec());
        }
        other => panic!("expected the failure, got {:?}", other),
    }
    assert_eq!(channel.in_flight(), 0);
}

#[test]
fn requests_and_callbacks_pass_through() {
    let mut channel = Channel::new();
    match channel.route(&frame(EnvelopeKind::Request, 41, vec![1, 2])) {
        Routed::Request { correlation_id, payload } => {
            assert_eq!(correlation_id, 41);
            assert_eq!(payload, vec![1, 2]);
        }
        other => panic!("expected a request, got {:?}", other),
    }
    match channel.route(&frame(EnvelopeKind::Callback, 42, vec![3])) {
        Routed::Callback { correlation_id, payload } => {
            assert_eq!(correlation_id, 42);
            assert_eq!(payload, vec![3]);
        }
        other => panic!("expected a callback, got {:?}", other),
    }
    assert_eq!(channel.in_flight(), 0);
}

#[test]
fn handshake_frames_are_unroutable() {
    let mut channel = Channel::new();
    assert!(matches!(
        channel.route(&frame(EnvelopeKind::HandshakeInit, 0, vec![])),
        Routed::Unroutable { kind: EnvelopeKind::HandshakeInit }
    ));
    assert!(matches!(
        channel.route(&frame(EnvelopeKind::HandshakeAck, 0, vec![])),
        Routed::Unroutable { kind: EnvelopeKind::HandshakeAck }
    ));
}

#[test]
fn close_fails_everything_in_flight_and_refuses_new_operations() {
    let mut channel = Channel::new();
    channel.open_ask().unwrap();
    channel.open_stream().unwrap();
    channel.open_ask().unwrap();
    assert!(matches!(channel.route(&frame(EnvelopeKind::Reply, 1, vec![])), Routed::Fulfil { .. }));
    assert!(!channel.closed());
    assert_eq!(channel.close(), vec![2, 3]);
    assert!(channel.closed());
    assert_eq!(channel.in_flight(), 0);
    assert_eq!(channel.open_ask(), Err(ChannelError::Closed));
    assert_eq!(channel.open_stream(), Err(ChannelError::Closed));
    assert_eq!(channel.open_callback(), Err(ChannelError::Closed));
    assert_eq!(channel.close(), Vec::<u64>::new());
}

#[test]
fn ids_run_out_at_the_top() {
    let mut channel = Channel::with_first_id(u64::MAX - 1);
    assert_eq!(channel.open_ask(), Ok(u64::MAX - 1));
    assert_eq!(channel.open_ask(), Err(ChannelError::IdsExhausted));
    assert_eq!(channel.open_stream(), Err(ChannelError::IdsExhausted));
    assert_eq!(channel.in_flight(), 1);
}
