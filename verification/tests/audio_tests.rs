use bytes::BytesMut;
use zenet::audio::{AudioEncoding, AudioMetadata, AudioMetadataCodec, AudioPayloadCodec, Channels};
use zenet::errors::WireError;

#[test]
fn metadata_exact_bytes_and_round_trip() {
    let codec = AudioMetadataCodec::default();
    let metadata = AudioMetadata {
        encoding: AudioEncoding::PcmS16Le,
        channels: Channels::Stereo,
        sample_rate: 44100,
    };
    let mut buf = BytesMut::new();
    codec.encode(&metadata, &mut buf).unwrap();
    assert_eq!(buf.as_ref(), &[0x01, 0x02, 0x00, 0x00, 0xAC, 0x44]);

    let decoded = codec.decode(&mut buf).unwrap().unwrap();
    assert_eq!(decoded, metadata);
    assert_eq!(buf.len(), 0);
}

#[test]
fn metadata_short_input_is_not_ready() {
    let codec = AudioMetadataCodec::default();
    let mut buf = BytesMut::new();
    buf.extend_from_slice(&[1, 1, 0]);
    assert!(codec.decode(&mut buf).unwrap().is_none());
    assert_eq!(buf.len(), 3);
}

#[test]
fn metadata_long_input_is_oversized() {
    let codec = AudioMetadataCodec::default();
    let mut buf = BytesMut::new();
    buf.extend_from_slice(&[1, 1, 0, 0, 0, 1, 9]);
    assert!(matches!(
        codec.decode(&mut buf).unwrap_err(),
        WireError::Oversized("total_length", 7, 6)
    ));
}

#[test]
fn metadata_unknown_codes_are_rejected() {
    let codec = AudioMetadataCodec::default();
    let mut buf = BytesMut::new();
    buf.extend_from_slice(&[9, 1, 0, 0, 0, 1]);
    assert!(matches!(
        codec.decode(&mut buf).unwrap_err(),
        WireError::InvalidMessageType(9)
    ));

    let mut buf = BytesMut::new();
    buf.extend_from_slice(&[1, 3, 0, 0, 0, 1]);
    assert!(matches!(
        codec.decode(&mut buf).unwrap_err(),
        WireError::InvalidMessageType(3)
    ));
}

#[test]
fn audio_payload_round_trip_and_backpressure() {
    let codec = AudioPayloadCodec::default();
    let mut buf = BytesMut::new();
    let samples = bytes::Bytes::from_static(b"pcm-data-here");
    codec.encode(&samples, &mut buf).unwrap();
    assert_eq!(buf.as_ref()[0], 0);
    assert_eq!(buf.as_ref()[1], 13);

    let mut partial = BytesMut::new();
    partial.extend_from_slice(&buf.as_ref()[..5]);
    assert!(codec.decode(&mut partial).unwrap().is_none());

    let decoded = codec.decode(&mut buf).unwrap().unwrap();
    assert_eq!(decoded.as_ref(), b"pcm-data-here");
    assert_eq!(buf.len(), 0);
}
