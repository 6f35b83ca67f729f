use bytes::BytesMut;
use zenet::bytestring::WiredStringPolicyKind;
use zenet::errors::{MalformedStringKind, WireError};
use zenet::layout::{resolve_layout, FieldDef, FieldKind, LayoutError};
use zenet::peek::{peek_at, CheckedAddWire};
use zenet::wire::{be_decode, be_encode};

#[test]
fn big_endian_encode_decode_round_trip() {
    assert_eq!(be_encode(0x1234, 2), vec![0x12, 0x34]);
    assert_eq!(be_encode(0, 2), vec![0, 0]);
    assert_eq!(
        be_encode(0x0102030405060708, 8),
        vec![1, 2, 3, 4, 5, 6, 7, 8]
    );
    assert_eq!(be_decode(&[0x12, 0x34]), 0x1234);
    assert_eq!(be_decode(&[]), 0);

    for value in [0u128, 1, 255, 256, 0xFFFF, 0xDEADBEEF, u64::MAX as u128] {
        assert_eq!(be_decode(&be_encode(value, 16)), value);
    }
}

#[test]
fn peek_reads_without_consuming() {
    let mut buf = BytesMut::new();
    buf.extend_from_slice(&[0x01, 0x00, 0x05, b'h']);

    let peeked = peek_at(&buf, 1, 2, "payload_length").unwrap();
    assert!(peeked.is_ready());
    assert_eq!(peeked.get(), Some(5));
    assert_eq!(peeked.get_with_header(), Some(7));
    assert_eq!(peeked.get_total(), Some(7));
    assert_eq!(peeked.get_total_separated(), Some((5, 2)));
    assert_eq!(peeked.saturating_add(usize::MAX), Some(usize::MAX));
    assert_eq!(peeked.checked_add(usize::MAX), None);
    assert_eq!(peeked.checked_add(3), Some(8));
    assert_eq!(buf.len(), 4);

    let not_ready = peek_at(&buf, 3, 2, "payload_length").unwrap();
    assert!(!not_ready.is_ready());
    assert_eq!(not_ready.get(), None);
    assert_eq!(not_ready.get_total(), None);
    assert_eq!(not_ready.saturating_add(1), None);
}

#[test]
fn peek_rejects_lengths_past_usize() {
    let mut buf = BytesMut::new();
    buf.extend_from_slice(&[0xffu8; 16]);
    let err = peek_at(&buf, 0, 16, "huge").unwrap_err();
    assert!(matches!(err, WireError::LengthOverflow("huge", _)));
}

#[test]
fn checked_add_wire_reports_both_fields() {
    assert_eq!(3usize.checked_add_wire("header", 4, "payload"), Ok(7));
    assert!(matches!(
        usize::MAX.checked_add_wire("header", 1, "payload"),
        Err(WireError::ArithmeticOverflow(usize::MAX, "header", 1, "payload"))
    ));
}

#[test]
fn frame_layout_aggregates() {
    let defs = vec![
        FieldDef { name: "message", width: 1, explicit_offset: None, kind: FieldKind::Fixed },
        FieldDef {
            name: "payload",
            width: 2,
            explicit_offset: None,
            kind: FieldKind::LengthPrefix { max_length: 1300 },
        },
    ];
    let layout = resolve_layout(&defs).unwrap();
    assert_eq!(layout.fixed_part_length, 3);
    assert_eq!(layout.max_length, 1303);
    assert_eq!(layout.fields[0].offset, 0);
    assert_eq!(layout.fields[1].offset, 1);
    assert_eq!(layout.fields[1].field_name, "payload");
}

#[test]
fn auth_layout_with_explicit_offsets() {
    let defs = vec![
        FieldDef { name: "timestamp", width: 8, explicit_offset: Some(0), kind: FieldKind::Fixed },
        FieldDef { name: "nonce", width: 16, explicit_offset: Some(8), kind: FieldKind::Fixed },
        FieldDef {
            name: "client_identifier",
            width: 1,
            explicit_offset: Some(56),
            kind: FieldKind::LengthPrefixString {
                max_length: 255,
                policy: WiredStringPolicyKind::AsciiHyphen,
            },
        },
    ];
    let layout = resolve_layout(&defs).unwrap();
    assert_eq!(layout.fields[0].offset, 0);
    assert_eq!(layout.fields[1].offset, 8);
    assert_eq!(layout.fields[2].offset, 56);
    assert_eq!(layout.fixed_part_length, 25);
    assert_eq!(layout.max_length, 280);
}

#[test]
fn implicit_offset_resumes_after_an_explicit_one() {
    let defs = vec![
        FieldDef { name: "a", width: 2, explicit_offset: None, kind: FieldKind::Fixed },
        FieldDef { name: "b", width: 4, explicit_offset: Some(10), kind: FieldKind::Fixed },
        FieldDef { name: "c", width: 1, explicit_offset: None, kind: FieldKind::Fixed },
    ];
    let layout = resolve_layout(&defs).unwrap();
    assert_eq!(layout.fields[0].offset, 0);
    assert_eq!(layout.fields[1].offset, 10);
    assert_eq!(layout.fields[2].offset, 14);
}

#[test]
fn unsupported_prefix_width_is_a_declaration_error() {
    let defs = vec![FieldDef {
        name: "odd",
        width: 3,
        explicit_offset: None,
        kind: FieldKind::LengthPrefix { max_length: 10 },
    }];
    assert_eq!(
        resolve_layout(&defs).unwrap_err(),
        LayoutError::UnsupportedPrefixWidth("odd", 3)
    );
}

#[test]
fn identifier_policy_validation() {
    assert!(WiredStringPolicyKind::AsciiHyphen.validate(b"Abc-123_z").is_ok());
    assert!(WiredStringPolicyKind::AsciiHyphen.validate(b"").is_ok());
    let err = WiredStringPolicyKind::AsciiHyphen.validate(b"ok!bad").unwrap_err();
    assert!(matches!(err.kind, MalformedStringKind::InvalidCharacter(b'!')));
    assert_eq!(err.field, None);
    assert!(WiredStringPolicyKind::Utf8.validate(&[0xff, 0x00]).is_ok());
}
