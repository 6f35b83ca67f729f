use bytes::{Bytes, BytesMut};
use zenet::bytestring::WiredStringPolicyKind;
use zenet::errors::{MalformedStringKind, WireError};
use zenet::put::{append_bytes, prefix_max, put_fixed_bytes, put_length_prefixed, put_length_prefixed_string, put_single};
use zenet::take::{take_fixed_bytes, take_length_prefixed, take_length_prefixed_string, take_single};

#[test]
fn put_single_writes_big_endian() {
    let mut buf = BytesMut::new();
    put_single(&mut buf, 2, 0x0102);
    put_single(&mut buf, 1, 0xAB);
    assert_eq!(buf.as_ref(), &[0x01, 0x02, 0xAB]);
}

#[test]
fn take_single_consumes_exactly_the_prefix() {
    let mut buf = BytesMut::new();
    buf.extend_from_slice(&[0x01, 0x02, 0xAB]);
    assert_eq!(take_single(&mut buf, 2), Some(0x0102));
    assert_eq!(buf.as_ref(), &[0xAB]);
    assert_eq!(take_single(&mut buf, 2), None);
    assert_eq!(buf.as_ref(), &[0xAB]);
}

#[test]
fn put_fixed_bytes_demands_the_exact_length() {
    let mut buf = BytesMut::new();
    assert!(put_fixed_bytes(&mut buf, &Bytes::from_static(b"abcd"), 4, "tag").is_ok());
    assert_eq!(buf.as_ref(), b"abcd");
    assert!(matches!(
        put_fixed_bytes(&mut buf, &Bytes::from_static(b"abc"), 4, "tag").unwrap_err(),
        WireError::Underflow("tag", 3, 4)
    ));
    assert!(matches!(
        put_fixed_bytes(&mut buf, &Bytes::from_static(b"abcde"), 4, "tag").unwrap_err(),
        WireError::Oversized("tag", 5, 4)
    ));
    assert_eq!(buf.as_ref(), b"abcd");
}

#[test]
fn take_fixed_bytes_splits_off_the_block() {
    let mut buf = BytesMut::new();
    buf.extend_from_slice(b"abcdef");
    let chunk = take_fixed_bytes(&mut buf, 4).unwrap();
    assert_eq!(chunk.as_ref(), b"abcd");
    assert_eq!(buf.as_ref(), b"ef");
    assert!(take_fixed_bytes(&mut buf, 4).is_none());
}

#[test]
fn length_prefixed_round_trip_and_backpressure() {
    let mut buf = BytesMut::new();
    put_length_prefixed(&mut buf, &Bytes::from_static(b"hello"), 2, 65535, "field").unwrap();
    assert_eq!(buf.as_ref(), &[0x00, 0x05, b'h', b'e', b'l', b'l', b'o']);

    let mut partial = BytesMut::new();
    partial.extend_from_slice(&buf.as_ref()[..4]);
    assert!(take_length_prefixed(&mut partial, 2, 100, "field").unwrap().is_none());
    assert_eq!(partial.len(), 4);

    let taken = take_length_prefixed(&mut buf, 2, 100, "field").unwrap().unwrap();
    assert_eq!(taken.as_ref(), b"hello");
    assert_eq!(buf.len(), 0);
}

#[test]
fn take_length_prefixed_enforces_the_cap() {
    let mut buf = BytesMut::new();
    buf.extend_from_slice(&[0x00, 0x05, b'h', b'e', b'l', b'l', b'o']);
    assert!(matches!(
        take_length_prefixed(&mut buf, 2, 4, "field").unwrap_err(),
        WireError::Oversized("field", 5, 4)
    ));
    assert_eq!(buf.len(), 7);
}

#[test]
fn take_length_prefixed_rejects_lengths_past_usize() {
    let mut buf = BytesMut::new();
    buf.extend_from_slice(&[0xffu8; 16]);
    assert!(matches!(
        take_length_prefixed(&mut buf, 16, usize::MAX, "field").unwrap_err(),
        WireError::LengthOverflow("field", _)
    ));
}

#[test]
fn put_length_prefixed_rejects_overlong_blocks() {
    let mut buf = BytesMut::new();
    let long = Bytes::from(vec![0u8; 256]);
    assert!(matches!(
        put_length_prefixed(&mut buf, &long, 1, 255, "field").unwrap_err(),
        WireError::Oversized("field", 256, 255)
    ));
    assert_eq!(buf.len(), 0);
}

#[test]
fn prefix_max_values() {
    assert_eq!(prefix_max(1), 255);
    assert_eq!(prefix_max(2), 65535);
    assert_eq!(prefix_max(16), usize::MAX);
}

#[test]
fn string_fields_validate_their_policy() {
    let mut buf = BytesMut::new();
    put_length_prefixed_string(
        &mut buf,
        &Bytes::from_static(b"Good-1"),
        1,
        255,
        WiredStringPolicyKind::AsciiHyphen,
        "name",
    )
    .unwrap();
    assert_eq!(buf.as_ref()[0], 6);

    let err = put_length_prefixed_string(
        &mut buf,
        &Bytes::from_static(b"bad name"),
        1,
        255,
        WiredStringPolicyKind::AsciiHyphen,
        "name",
    )
    .unwrap_err();
    match err {
        WireError::MalformedString(m) => {
            assert_eq!(m.field, Some("name"));
            assert!(matches!(m.kind, MalformedStringKind::InvalidCharacter(b' ')));
        },
        other => panic!("unexpected error {:?}", other),
    }

    let taken = take_length_prefixed_string(
        &mut buf,
        1,
        255,
        WiredStringPolicyKind::AsciiHyphen,
        "name",
    )
    .unwrap()
    .unwrap();
    assert_eq!(taken, b"Good-1".to_vec());
}

#[test]
fn take_string_rejects_policy_violations() {
    let mut buf = BytesMut::new();
    buf.extend_from_slice(&[4, b'a', b'!', b'c', b'd']);
    let err = take_length_prefixed_string(
        &mut buf,
        1,
        255,
        WiredStringPolicyKind::AsciiHyphen,
        "name",
    )
    .unwrap_err();
    match err {
        WireError::MalformedString(m) => {
            assert_eq!(m.field, Some("name"));
            assert!(matches!(m.kind, MalformedStringKind::InvalidCharacter(b'!')));
        },
        other => panic!("unexpected error {:?}", other),
    }
}

#[test]
fn append_bytes_checks_the_cap() {
    let mut buf = BytesMut::new();
    append_bytes(&mut buf, &Bytes::from_static(b"xyz"), 3, "blob").unwrap();
    assert_eq!(buf.as_ref(), b"xyz");
    assert!(matches!(
        append_bytes(&mut buf, &Bytes::from_static(b"wxyz"), 3, "blob").unwrap_err(),
        WireError::Oversized("blob", 4, 3)
    ));
    assert_eq!(buf.as_ref(), b"xyz");
}
