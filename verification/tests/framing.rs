//! The datagram framing and the message codec against the real serializer:
//! every message kind over the wire and back, the control tags, and the
//! malformed datagrams the decoder must refuse.

use file_protocol::codec::{decode_frame, frame_message, pause_frame, resume_frame, FrameEvent};
use file_protocol::errors::ProtocolError;
use file_protocol::message::Message;

fn round_trip(msg: Message) -> Message {
    let framed = frame_message(&msg);
    assert_eq!(framed[0], 0);
    match decode_frame(&framed).expect("decode") {
        FrameEvent::Data(m) => m,
        _ => panic!("framed message decoded as something else"),
    }
}

#[test]
fn every_message_kind_survives_the_wire() {
    let hash = "f".repeat(64);

    match round_trip(Message::Sync { hash: hash.clone(), num_chunks: 9 }) {
        Message::Sync { hash: h, num_chunks } => {
            assert_eq!(h, hash);
            assert_eq!(num_chunks, 9);
        }
        _ => panic!("wrong kind"),
    }
    match round_trip(Message::SyncNack { hash: hash.clone(), missing: vec![0, 2, 5] }) {
        Message::SyncNack { missing, .. } => assert_eq!(missing, vec![0, 2, 5]),
        _ => panic!("wrong kind"),
    }
    match round_trip(Message::SyncNack { hash: hash.clone(), missing: Vec::new() }) {
        Message::SyncNack { missing, .. } => assert_eq!(missing, Vec::<u32>::new()),
        _ => panic!("wrong kind"),
    }
    match round_trip(Message::Chunk { hash: hash.clone(), index: 3, bytes: vec![1, 2, 3] }) {
        Message::Chunk { index, bytes, .. } => {
            assert_eq!(index, 3);
            assert_eq!(bytes, vec![1, 2, 3]);
        }
        _ => panic!("wrong kind"),
    }
    match round_trip(Message::Ack { hash: hash.clone() }) {
        Message::Ack { hash: h } => assert_eq!(h, hash),
        _ => panic!("wrong kind"),
    }
    match round_trip(Message::Nak { hash: hash.clone(), reason: "hash mismatch".to_string() }) {
        Message::Nak { reason, .. } => assert_eq!(reason, "hash mismatch"),
        _ => panic!("wrong kind"),
    }
    match round_trip(Message::Import { path: "/a/b".to_string() }) {
        Message::Import { path } => assert_eq!(path, "/a/b"),
        _ => panic!("wrong kind"),
    }
    match round_trip(Message::Export { hash: hash.clone(), path: "/dest".to_string(), mode: 420 }) {
        Message::Export { path, mode, .. } => {
            assert_eq!(path, "/dest");
            assert_eq!(mode, 420);
        }
        _ => panic!("wrong kind"),
    }
    match round_trip(Message::Done { hash: hash.clone() }) {
        Message::Done { hash: h } => assert_eq!(h, hash),
        _ => panic!("wrong kind"),
    }
}

#[test]
fn control_tags_and_empty_datagrams() {
    assert_eq!(pause_frame(), vec![1u8]);
    assert_eq!(resume_frame(), vec![2u8]);

    assert!(matches!(decode_frame(&Vec::new()), Ok(FrameEvent::Empty)));
    assert!(matches!(decode_frame(&vec![1u8]), Ok(FrameEvent::Pause)));
    assert!(matches!(decode_frame(&vec![2u8]), Ok(FrameEvent::Resume)));
    assert!(matches!(decode_frame(&vec![9u8, 1, 2]), Ok(FrameEvent::Ignored(9))));
}

#[test]
fn malformed_bodies_are_refused() {
    // Tag 0 with garbage after it: not CBOR at all.
    assert_eq!(
        decode_frame(&vec![0u8, 0xff, 0xff, 0xff]).expect_err("garbage"),
        ProtocolError::BadFrame
    );

    // Tag 0 with a well-formed body that is not an ordered sequence.
    let mut not_a_sequence = vec![0u8];
    not_a_sequence.extend(serde_cbor::to_vec(&7u32).expect("cbor"));
    assert_eq!(
        decode_frame(&not_a_sequence).expect_err("not a sequence"),
        ProtocolError::BadFrame
    );

    // An ordered sequence outside the closed set of shapes.
    let stray = serde_cbor::Value::Array(vec![serde_cbor::Value::Text("hello".to_string())]);
    let mut unknown_kind = vec![0u8];
    unknown_kind.extend(serde_cbor::to_vec(&stray).expect("cbor"));
    assert_eq!(
        decode_frame(&unknown_kind).expect_err("unknown kind"),
        ProtocolError::BadFrame
    );
}
