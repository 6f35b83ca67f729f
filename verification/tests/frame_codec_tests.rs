use bytes::BytesMut;
use zenet::errors::WireError;
use zenet::frame::{Frame, FrameCodec, Message};

fn encode_frame(codec: &FrameCodec, kind: u8, payload: &[u8], buf: &mut BytesMut) -> Result<(), WireError> {
    let frame = Frame { message: Message(kind), payload: bytes::Bytes::copy_from_slice(payload) };
    codec.encode(&frame, buf)
}

#[test]
fn s1_empty_frame_exact_bytes_and_round_trip() {
    let codec = FrameCodec::default();
    let mut buf = BytesMut::new();
    encode_frame(&codec, 2, b"", &mut buf).unwrap();
    assert_eq!(buf.as_ref(), &[0x02, 0x00, 0x00]);

    let decoded = codec.decode(&mut buf).unwrap().unwrap();
    assert_eq!(decoded.message.0, 2);
    assert_eq!(decoded.payload.as_ref(), b"");
    assert_eq!(buf.len(), 0);
}

#[test]
fn frame_round_trip_with_payload() {
    let mut codec = FrameCodec::default();
    codec.register_message_kind(7);
    let mut buf = BytesMut::new();
    encode_frame(&codec, 7, b"hello world", &mut buf).unwrap();
    assert_eq!(buf.as_ref()[0], 7);
    assert_eq!(buf.as_ref()[1], 0);
    assert_eq!(buf.as_ref()[2], 11);

    let decoded = codec.decode(&mut buf).unwrap().unwrap();
    assert_eq!(decoded.message.0, 7);
    assert_eq!(decoded.payload.as_ref(), b"hello world");
    assert_eq!(buf.len(), 0);
}

#[test]
fn s4_partial_frame_then_completion() {
    let codec = FrameCodec::default();
    let mut buf = BytesMut::new();
    buf.extend_from_slice(&[0x02, 0x00, 0x05, b'h']);
    assert!(codec.decode(&mut buf).unwrap().is_none());
    assert_eq!(buf.len(), 4);

    buf.extend_from_slice(b"ello");
    let decoded = codec.decode(&mut buf).unwrap().unwrap();
    assert_eq!(decoded.message.0, 2);
    assert_eq!(decoded.payload.as_ref(), b"hello");
    assert_eq!(buf.len(), 0);
}

#[test]
fn p3_every_strict_prefix_is_not_ready() {
    let codec = FrameCodec::default();
    let mut wire = BytesMut::new();
    encode_frame(&codec, 2, b"abcdef", &mut wire).unwrap();
    let wire = wire.freeze();
    let total = wire.len();

    for k in 0..total {
        let mut partial = BytesMut::new();
        partial.extend_from_slice(&wire[..k]);
        assert!(codec.decode(&mut partial).unwrap().is_none());
        assert_eq!(partial.as_ref(), &wire[..k]);
    }

    let mut full = BytesMut::new();
    full.extend_from_slice(&wire);
    full.extend_from_slice(&[0x05, 0x00]);
    let decoded = codec.decode(&mut full).unwrap().unwrap();
    assert_eq!(decoded.payload.as_ref(), b"abcdef");
    assert_eq!(full.as_ref(), &[0x05, 0x00]);
    assert!(codec.decode(&mut full).unwrap().is_none());
    assert_eq!(full.as_ref(), &[0x05, 0x00]);
}

#[test]
fn p4_oversized_payload_is_rejected() {
    let codec = FrameCodec::default();
    let mut buf = BytesMut::new();
    let payload = vec![0u8; 1301];
    let err = encode_frame(&codec, 1, &payload, &mut buf).unwrap_err();
    assert!(matches!(err, WireError::Oversized("payload_length", 1301, 1300)));
    assert_eq!(buf.len(), 0);
}

#[test]
fn payload_beyond_u16_is_rejected() {
    let codec = FrameCodec::new(0xffff);
    let mut buf = BytesMut::new();
    let payload = vec![0u8; 70000];
    let err = encode_frame(&codec, 1, &payload, &mut buf).unwrap_err();
    assert!(matches!(err, WireError::Oversized("payload_length", 70000, 65535)));
}

#[test]
fn decode_rejects_header_past_payload_cap() {
    let codec = FrameCodec::default();
    let mut buf = BytesMut::new();
    buf.extend_from_slice(&[0x01, 0xff, 0xff]);
    let err = match codec.decode(&mut buf) {
        Err(e) => e,
        Ok(_) => panic!("expected an error"),
    };
    assert!(matches!(err, WireError::Oversized("payload_length", 65535, 1300)));
    assert_eq!(buf.len(), 3);
}

#[test]
fn unregistered_kind_is_rejected_without_consuming() {
    let codec = FrameCodec::default();
    let mut buf = BytesMut::new();
    buf.extend_from_slice(&[0x09, 0x00, 0x02, b'h', b'i']);
    let err = match codec.decode(&mut buf) {
        Err(e) => e,
        Ok(_) => panic!("expected an error"),
    };
    assert!(matches!(err, WireError::InvalidMessageType(9)));
    assert_eq!(buf.len(), 5);

    let mut codec = FrameCodec::default();
    codec.register_message_kind(9);
    let decoded = codec.decode(&mut buf).unwrap().unwrap();
    assert_eq!(decoded.message.0, 9);
    assert_eq!(decoded.payload.as_ref(), b"hi");
}

#[test]
fn reserved_kinds_are_registered_by_default() {
    let codec = FrameCodec::default();
    for code in 1u8..=4 {
        let mut buf = BytesMut::new();
        buf.extend_from_slice(&[code, 0x00, 0x00]);
        let decoded = codec.decode(&mut buf).unwrap().unwrap();
        assert_eq!(decoded.message.0, code);
    }
}
