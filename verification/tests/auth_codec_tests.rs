use bytes::BytesMut;
use zenet::auth_codec::{AuthPayload, AuthPayloadCodec};
use zenet::errors::{MalformedStringKind, WireError};
use zenet::frame::Message;

fn sample_payload() -> AuthPayload {
    AuthPayload {
        client_identifier: b"Zeltra-9".to_vec(),
        timestamp: 0x0000000065000000,
        nonce: 0x00000000000000000000000000000001,
        mac: vec![0u8; 32],
    }
}

#[test]
fn s2_auth_payload_exact_bytes() {
    let codec = AuthPayloadCodec::default();
    let mut buf = BytesMut::new();
    codec.encode(&sample_payload(), &mut buf).unwrap();

    assert_eq!(buf.len(), 65);
    assert_eq!(&buf.as_ref()[0..8], &[0x00, 0x00, 0x00, 0x00, 0x65, 0x00, 0x00, 0x00]);
    assert_eq!(buf.as_ref()[23], 0x01);
    assert_eq!(&buf.as_ref()[24..56], &[0u8; 32][..]);
    assert_eq!(buf.as_ref()[56], 0x08);
    assert_eq!(&buf.as_ref()[57..65], b"Zeltra-9");
}

#[test]
fn p2_auth_payload_round_trip() {
    let codec = AuthPayloadCodec::default();
    let mut buf = BytesMut::new();
    let original = AuthPayload {
        client_identifier: b"client_A-1".to_vec(),
        timestamp: 123456789,
        nonce: 0xDEADBEEFDEADBEEFDEADBEEFDEADBEEF,
        mac: (0u8..32).collect(),
    };
    codec.encode(&original, &mut buf).unwrap();

    let decoded = codec.decode(&mut buf).unwrap().unwrap();
    assert_eq!(decoded.client_identifier, original.client_identifier);
    assert_eq!(decoded.timestamp, original.timestamp);
    assert_eq!(decoded.nonce, original.nonce);
    assert_eq!(decoded.mac, original.mac);
    assert_eq!(buf.len(), 0);
}

#[test]
fn p5_invalid_identifier_byte_fails_decode() {
    let codec = AuthPayloadCodec::default();
    let mut buf = BytesMut::new();
    codec.encode(&sample_payload(), &mut buf).unwrap();
    let mut raw = buf.to_vec();
    raw[57] = b'!';
    let mut tampered = BytesMut::new();
    tampered.extend_from_slice(&raw);

    let err = codec.decode(&mut tampered).unwrap_err();
    match err {
        WireError::MalformedString(m) => {
            assert_eq!(m.field, Some("client_identifier"));
            assert!(matches!(m.kind, MalformedStringKind::InvalidCharacter(b'!')));
        },
        other => panic!("unexpected error {:?}", other),
    }
}

#[test]
fn p5_invalid_identifier_byte_fails_encode() {
    let codec = AuthPayloadCodec::default();
    let mut buf = BytesMut::new();
    let mut payload = sample_payload();
    payload.client_identifier = b"bad id".to_vec();
    let err = codec.encode(&payload, &mut buf).unwrap_err();
    match err {
        WireError::MalformedString(m) => {
            assert_eq!(m.field, Some("client_identifier"));
            assert!(matches!(m.kind, MalformedStringKind::InvalidCharacter(b' ')));
        },
        other => panic!("unexpected error {:?}", other),
    }
    assert_eq!(buf.len(), 0);
}

#[test]
fn decode_is_not_ready_before_whole_record() {
    let codec = AuthPayloadCodec::default();
    let mut wire = BytesMut::new();
    codec.encode(&sample_payload(), &mut wire).unwrap();
    let wire = wire.freeze();

    for k in [0usize, 1, 56, 57, 60, 64] {
        let mut partial = BytesMut::new();
        partial.extend_from_slice(&wire[..k]);
        assert!(codec.decode(&mut partial).unwrap().is_none());
        assert_eq!(partial.as_ref(), &wire[..k]);
    }
}

#[test]
fn mac_of_wrong_length_is_rejected() {
    let codec = AuthPayloadCodec::default();
    let mut buf = BytesMut::new();
    let mut short = sample_payload();
    short.mac = vec![0u8; 31];
    assert!(matches!(
        codec.encode(&short, &mut buf).unwrap_err(),
        WireError::Underflow("mac", 31, 32)
    ));
    let mut long = sample_payload();
    long.mac = vec![0u8; 33];
    assert!(matches!(
        codec.encode(&long, &mut buf).unwrap_err(),
        WireError::Oversized("mac", 33, 32)
    ));
}

#[test]
fn oversized_identifier_is_rejected() {
    let codec = AuthPayloadCodec::default();
    let mut buf = BytesMut::new();
    let mut payload = sample_payload();
    payload.client_identifier = vec![b'a'; 256];
    assert!(matches!(
        codec.encode(&payload, &mut buf).unwrap_err(),
        WireError::Oversized("client_identifier_length", 256, 255)
    ));
}

#[test]
fn frame_level_round_trip() {
    let codec = AuthPayloadCodec::default();
    let mut scratch = BytesMut::new();
    let frame = codec
        .encode_into_frame(&sample_payload(), Message(1), &mut scratch)
        .unwrap();
    assert_eq!(scratch.len(), 0);
    assert_eq!(frame.message.0, 1);
    assert_eq!(frame.payload.len(), 65);

    let mut buffer = BytesMut::new();
    let (decoded, message) = codec.decode_from_frame(&frame, &mut buffer).unwrap().unwrap();
    assert_eq!(message.0, 1);
    assert_eq!(decoded.client_identifier, b"Zeltra-9".to_vec());
    assert_eq!(decoded.timestamp, 0x0000000065000000);
    assert_eq!(decoded.nonce, 1);
    assert_eq!(buffer.len(), 0);
}

#[test]
fn empty_identifier_is_rejected_on_encode() {
    let codec = AuthPayloadCodec::default();
    let mut buf = BytesMut::new();
    let mut payload = sample_payload();
    payload.client_identifier = Vec::new();
    assert!(matches!(
        codec.encode(&payload, &mut buf).unwrap_err(),
        WireError::Underflow("client_identifier", 0, 1)
    ));
    assert_eq!(buf.len(), 0);
}

#[test]
fn empty_identifier_is_rejected_on_decode() {
    let codec = AuthPayloadCodec::default();
    let mut buf = BytesMut::new();
    // A record with id_length 0: 57 bytes, the last one the zero length.
    buf.extend_from_slice(&[0u8; 57]);
    assert!(matches!(
        codec.decode(&mut buf).unwrap_err(),
        WireError::Underflow("client_identifier", 0, 1)
    ));
    assert_eq!(buf.len(), 0);
}
