use kameo_snake_handler::envelope::{decode, encode, Decoded, Envelope, EnvelopeKind};

fn sample(kind: EnvelopeKind, correlation_id: u64, payload: Vec<u8>) -> Envelope {
    Envelope { correlation_id, kind, payload }
}

#[test]
fn encode_writes_the_header_little_endian() {
    let bytes = encode(&sample(EnvelopeKind::Reply, 0x0102, vec![0xaa, 0xbb, 0xcc])).unwrap();
    assert_eq!(
        bytes,
        vec![1, 0x02, 0x01, 0, 0, 0, 0, 0, 0, 3, 0, 0, 0, 0xaa, 0xbb, 0xcc]
    );
}

#[test]
fn decode_gives_back_what_encode_wrote() {
    let kinds = [
        EnvelopeKind::Request,
        EnvelopeKind::Reply,
        EnvelopeKind::StreamItem,
        EnvelopeKind::StreamEnd,
        EnvelopeKind::StreamError,
        EnvelopeKind::Callback,
        EnvelopeKind::CallbackReply,
        EnvelopeKind::HandshakeInit,
        EnvelopeKind::HandshakeAck,
    ];
    for (n, kind) in kinds.iter().enumerate() {
        let payload: Vec<u8> = (0..(n * 7)).map(|b| (b * 31 % 256) as u8).collect();
        let envelope = sample(*kind, u64::MAX - n as u64, payload.clone());
        let mut bytes = encode(&envelope).unwrap();
        let frame_len = bytes.len();
        bytes.extend_from_slice(&[9, 9, 9]);
        match decode(&bytes) {
            Decoded::Frame { envelope: back, consumed } => {
                assert_eq!(consumed, frame_len);
                assert_eq!(back.kind, *kind);
                assert_eq!(back.correlation_id, u64::MAX - n as u64);
                assert_eq!(back.payload, payload);
            }
            other => panic!("expected a frame, got {:?}", other),
        }
    }
}

#[test]
fn truncated_frame_needs_more_bytes() {
    let bytes = encode(&sample(EnvelopeKind::Request, 7, vec![1, 2, 3, 4, 5])).unwrap();
    assert_eq!(bytes.len(), 18);
    for kept in 0..bytes.len() {
        match decode(&bytes[..kept]) {
            Decoded::NeedMore { missing } => {
                if kept >= 13 {
                    assert_eq!(missing, bytes.len() - kept);
                } else {
                    assert_eq!(missing, 13 - kept);
                }
            }
            other => panic!("expected NeedMore at {}, got {:?}", kept, other),
        }
    }
}

#[test]
fn unknown_kind_is_malformed() {
    match decode(&[9, 0, 0, 0, 0, 0, 0, 0, 0, 0, 0, 0, 0]) {
        Decoded::Malformed { tag } => assert_eq!(tag, 9),
        other => panic!("expected Malformed, got {:?}", other),
    }
    match decode(&[200]) {
        Decoded::Malformed { tag } => assert_eq!(tag, 200),
        other => panic!("expected Malformed, got {:?}", other),
    }
}

#[test]
fn empty_payload_round_trips() {
    let bytes = encode(&sample(EnvelopeKind::StreamEnd, 5, vec![])).unwrap();
    assert_eq!(bytes.len(), 13);
    match decode(&bytes) {
        Decoded::Frame { envelope, consumed } => {
            assert_eq!(consumed, 13);
            assert_eq!(envelope.kind, EnvelopeKind::StreamEnd);
            assert_eq!(envelope.correlation_id, 5);
            assert!(envelope.payload.is_empty());
        }
        other => panic!("expected a frame, got {:?}", other),
    }
}

#[test]
fn kinds_have_the_tags_zero_to_eight() {
    let kinds = [
        EnvelopeKind::Request,
        EnvelopeKind::Reply,
        EnvelopeKind::StreamItem,
        EnvelopeKind::StreamEnd,
        EnvelopeKind::StreamError,
        EnvelopeKind::Callback,
        EnvelopeKind::CallbackReply,
        EnvelopeKind::HandshakeInit,
        EnvelopeKind::HandshakeAck,
    ];
    for (tag, kind) in kinds.iter().enumerate() {
        assert_eq!(kind.tag(), tag as u8);
        assert_eq!(EnvelopeKind::from_tag(tag as u8), Some(*kind));
    }
    for tag in 9..=255u8 {
        assert_eq!(EnvelopeKind::from_tag(tag), None);
    }
}

#[test]
fn frame_that_announces_more_than_it_holds_needs_the_rest() {
    let mut bytes = vec![0u8, 1, 0, 0, 0, 0, 0, 0, 0];
    bytes.extend_from_slice(&1000u32.to_le_bytes());
    bytes.extend_from_slice(&[7; 10]);
    match decode(&bytes) {
        Decoded::NeedMore { missing } => assert_eq!(missing, 990),
        other => panic!("expected NeedMore, got {:?}", other),
    }
}

#[test]
fn frames_come_out_whole_however_the_bytes_were_cut() {
    let sent = vec![
        sample(EnvelopeKind::Request, 1, vec![1, 2, 3]),
        sample(EnvelopeKind::StreamEnd, 2, vec![]),
        sample(EnvelopeKind::Reply, u64::MAX, (0..200).map(|b| b as u8).collect()),
        sample(EnvelopeKind::Callback, 4, vec![0xff]),
    ];
    let mut wire: Vec<u8> = Vec::new();
    for envelope in &sent {
        wire.extend(encode(envelope).unwrap());
    }
    for piece in [1usize, 2, 3, 5, 13, 14, 64, wire.len()] {
        let mut buffer = kameo_snake_handler::envelope::FrameBuffer::new();
        let mut received: Vec<Envelope> = Vec::new();
        for chunk in wire.chunks(piece) {
            buffer.push(chunk);
            loop {
                match buffer.next_frame() {
                    Decoded::Frame { envelope, .. } => received.push(envelope),
                    Decoded::NeedMore { .. } => break,
                    other => panic!("the wire holds frames only, got {:?}", other),
                }
            }
        }
        assert_eq!(buffer.len(), 0);
        assert_eq!(received.len(), sent.len());
        for (got, expected) in received.iter().zip(&sent) {
            assert_eq!(got.kind, expected.kind);
            assert_eq!(got.correlation_id, expected.correlation_id);
            assert_eq!(got.payload, expected.payload);
        }
    }
}

#[test]
fn buffer_keeps_what_is_no_frame() {
    let mut buffer = kameo_snake_handler::envelope::FrameBuffer::new();
    buffer.push(&[1, 0, 0]);
    assert!(matches!(buffer.next_frame(), Decoded::NeedMore { missing: 10 }));
    assert_eq!(buffer.len(), 3);
    let mut broken = kameo_snake_handler::envelope::FrameBuffer::new();
    broken.push(&[77, 1, 2, 3]);
    assert!(matches!(broken.next_frame(), Decoded::Malformed { tag: 77 }));
    assert!(matches!(broken.next_frame(), Decoded::Malformed { tag: 77 }));
    assert_eq!(broken.len(), 4);
}
