use kalico_motion::host_io::parser::{
    decode_vlq, encode_field_num, encode_field_str, encode_vlq, parse_hex_buffer, FieldType,
    ParseError,
};

#[test]
fn encodes_string_length_prefixed() {
    let mut buf = Vec::new();
    encode_field_str(&mut buf, FieldType::String, "hi").unwrap();
    assert_eq!(buf, vec![2, b'h', b'i']);
}

#[test]
fn encodes_byte_via_vlq() {
    let mut buf = Vec::new();
    encode_field_num(&mut buf, FieldType::Byte, 0xFF).unwrap();
    assert_eq!(buf, vec![0x81, 0x7F]);
}

#[test]
fn byte_field_accepts_signed_negative() {
    for v in &["-1", "-128", "0", "127", "255"] {
        let mut buf = Vec::new();
        encode_field_str(&mut buf, FieldType::Byte, v)
            .unwrap_or_else(|e| panic!("Byte should accept {v:?}: {e:?}"));
        assert_eq!(decode_vlq(&buf).unwrap(), (v.parse().unwrap(), buf.len()));
    }
}

#[test]
fn byte_field_still_rejects_truly_out_of_range() {
    for v in &["-129", "256", "1000", "-1000"] {
        let mut buf = Vec::new();
        let r = encode_field_str(&mut buf, FieldType::Byte, v);
        assert!(
            matches!(r, Err(ParseError::OutOfRange { .. })),
            "Byte should reject {v:?}, got {r:?}"
        );
    }
}

#[test]
fn parse_hex_buffer_round_trips() {
    assert_eq!(
        parse_hex_buffer("0123abcd").unwrap(),
        vec![0x01, 0x23, 0xAB, 0xCD]
    );
    assert_eq!(parse_hex_buffer("").unwrap(), Vec::<u8>::new());
    assert!(matches!(parse_hex_buffer("0z"), Err(ParseError::BadHex(_))));
    assert!(matches!(parse_hex_buffer("1"), Err(ParseError::BadHex(_))));
}

#[test]
fn every_width_of_quantity_is_read_back() {
    let values = [
        0, 95, 96, -32, -33, 12_287, 12_288, -4096, -4097, 1_572_863, 1_572_864, -524_288, -524_289,
        201_326_591, 201_326_592, -67_108_864, -67_108_865, i32::MAX, i32::MIN,
    ];
    for value in values {
        let mut buf = Vec::new();
        encode_vlq(&mut buf, value);
        let taken = buf.len();
        buf.extend([0x55, 0xAA]);
        assert_eq!(decode_vlq(&buf).unwrap(), (i64::from(value), taken));
    }
    let mut buf = Vec::new();
    encode_vlq(&mut buf, i32::MIN);
    assert_eq!(buf.len(), 5);
}

#[test]
fn unfinished_quantities_are_refused() {
    assert!(matches!(decode_vlq(&[]), Err(ParseError::Truncated)));
    assert!(matches!(decode_vlq(&[0x81]), Err(ParseError::Truncated)));
    assert!(matches!(
        decode_vlq(&[0x81, 0x81, 0x81, 0x81, 0x81, 0x01]),
        Err(ParseError::Overlong)
    ));
}

#[test]
fn fields_refuse_what_they_cannot_hold() {
    let mut buf = vec![9];
    assert!(matches!(
        encode_field_num(&mut buf, FieldType::String, 1),
        Err(ParseError::NotNumeric)
    ));
    assert!(matches!(
        encode_field_str(&mut buf, FieldType::Byte, "12x"),
        Err(ParseError::BadNumber(_))
    ));
    let long = "a".repeat(256);
    assert!(matches!(
        encode_field_str(&mut buf, FieldType::String, &long),
        Err(ParseError::TooLong { length: 256 })
    ));
    assert_eq!(buf, vec![9]);
}
