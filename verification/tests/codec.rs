use protobuf_codec::pair::{DomainPair, DomainText, RawPair};
use protobuf_codec::{Error, Message, Protobuf};

#[test]
fn test_round_trip_pair() {
    let d = DomainPair::new(5, "x".to_string()).unwrap();
    let bytes = d.encode_vec();
    let d2 = DomainPair::decode_vec(&bytes).unwrap();
    assert_eq!(d2.a(), 5);
    assert_eq!(d2.b().as_str(), "x");
}

#[test]
fn test_round_trip_length_delimited() {
    let d = DomainPair::new(5, "x".to_string()).unwrap();
    let bytes = d.encode_length_delimited_vec();
    let d2 = DomainPair::decode_length_delimited_vec(&bytes).unwrap();
    assert_eq!(d2.a(), 5);
    assert_eq!(d2.b().as_str(), "x");
}

#[test]
fn test_round_trip_varint_boundaries() {
    for a in [1u64, 127, 128, 300, u64::MAX] {
        let d = DomainPair::new(a, "hello".to_string()).unwrap();
        let bytes = d.encode_vec();
        let d2 = DomainPair::decode_vec(&bytes).unwrap();
        assert_eq!(d2.a(), a);
        assert_eq!(d2.b().as_str(), "hello");
    }
}

#[test]
fn test_round_trip_empty_text() {
    let d = DomainPair::new(7, String::new()).unwrap();
    let bytes = d.encode_vec();
    assert_eq!(bytes, vec![0x08, 0x07]);
    let d2 = DomainPair::decode_vec(&bytes).unwrap();
    assert_eq!(d2.a(), 7);
    assert_eq!(d2.b().as_str(), "");
}

#[test]
fn test_exact_wire_bytes() {
    let d = DomainPair::new(5, "x".to_string()).unwrap();
    assert_eq!(d.encode_vec(), vec![0x08, 0x05, 0x12, 0x01, 0x78]);
    assert_eq!(
        d.encode_length_delimited_vec(),
        vec![0x05, 0x08, 0x05, 0x12, 0x01, 0x78]
    );
}

#[test]
fn test_encode_appends_to_buffer() {
    let d = DomainPair::new(5, "x".to_string()).unwrap();
    let mut buf = vec![0xFF, 0xEE];
    d.encode(&mut buf).unwrap();
    assert_eq!(buf, vec![0xFF, 0xEE, 0x08, 0x05, 0x12, 0x01, 0x78]);
    let mut buf2 = vec![0xAA];
    d.encode_length_delimited(&mut buf2).unwrap();
    assert_eq!(buf2, vec![0xAA, 0x05, 0x08, 0x05, 0x12, 0x01, 0x78]);
}

#[test]
fn test_encoded_len_matches_encoding() {
    for (a, b) in [
        (1u64, ""),
        (5, "x"),
        (300, "hello"),
        (u64::MAX, "longer text value"),
    ] {
        let d = DomainPair::new(a, b.to_string()).unwrap();
        assert_eq!(d.encoded_len(), d.encode_vec().len());
    }
}

#[test]
fn test_hex_rendering() {
    let d = DomainPair::new(5, "x".to_string()).unwrap();
    assert_eq!(d.encode_to_hex_string(), "0805120178");
    let manual: String = d
        .encode_vec()
        .iter()
        .map(|byte| format!("{:02x}", byte))
        .collect();
    assert_eq!(d.encode_to_hex_string(), manual);
    assert_eq!(d.encode_to_hex_string(), d.encode_to_hex_string());
}

#[test]
fn test_validation_propagation() {
    // Encode a raw value that fails DomainPair's invariant check (a == 0)
    // at the raw level, bypassing domain construction.
    let raw = RawPair {
        a: 0,
        b: "x".to_string(),
    };
    let bytes = raw.encode_to_vec_msg();
    assert_eq!(bytes, vec![0x12, 0x01, 0x78]);
    match DomainPair::decode_vec(&bytes) {
        Err(Error::TryFromRaw {
            raw_type,
            domain_type,
            cause,
        }) => {
            assert_eq!(raw_type, "RawPair");
            assert_eq!(domain_type, "DomainPair");
            assert!(!cause.is_empty());
        }
        other => panic!("expected a try-from error, got {:?}", other),
    }
}

#[test]
fn test_malformed_bytes_propagation() {
    // A truncated varint field.
    assert!(matches!(
        DomainPair::decode_vec(&[0x08]),
        Err(Error::DecodeMessage { .. })
    ));
    // A string field whose length prefix overruns the buffer.
    assert!(matches!(
        DomainPair::decode_vec(&[0x12, 0x05, 0x78]),
        Err(Error::DecodeMessage { .. })
    ));
    // An unknown field key.
    assert!(matches!(
        DomainPair::decode_vec(&[0x1A, 0x01, 0x78]),
        Err(Error::DecodeMessage { .. })
    ));
    // A string field that is not well-formed UTF-8.
    assert!(matches!(
        DomainPair::decode_vec(&[0x12, 0x01, 0xFF]),
        Err(Error::DecodeMessage { .. })
    ));
    // A truncated length delimiter.
    assert!(matches!(
        DomainPair::decode_length_delimited_vec(&[0x09, 0x08, 0x05]),
        Err(Error::DecodeMessage { .. })
    ));
}

#[test]
fn test_length_prefix_governs_consumption() {
    // The length prefix says how much of the input belongs to the frame;
    // bytes after the frame are not the codec's business.
    let d = DomainPair::decode_length_delimited_vec(&[0x02, 0x08, 0x05, 0xFF]).unwrap();
    assert_eq!(d.a(), 5);
    assert_eq!(d.b().as_str(), "");
}

#[test]
fn test_empty_buffer_decodes_to_default_raw() {
    // Empty bytes parse as the default raw value {a: 0, b: ""}, which both
    // domain types reject.
    assert!(matches!(
        DomainPair::decode_vec(&[]),
        Err(Error::TryFromRaw { .. })
    ));
    assert!(matches!(
        DomainText::decode_vec(&[]),
        Err(Error::TryFromRaw { .. })
    ));
}

#[test]
fn test_domain_text_round_trip_and_validation() {
    let t = DomainText::new("hi".to_string()).unwrap();
    let bytes = t.encode_vec();
    assert_eq!(bytes, vec![0x12, 0x02, 0x68, 0x69]);
    let t2 = DomainText::decode_vec(&bytes).unwrap();
    assert_eq!(t2.text().as_str(), "hi");

    // A raw value with `a` set is rejected by DomainText.
    let raw = RawPair {
        a: 5,
        b: "x".to_string(),
    };
    let bytes = raw.encode_to_vec_msg();
    match DomainText::decode_vec(&bytes) {
        Err(Error::TryFromRaw {
            raw_type,
            domain_type,
            ..
        }) => {
            assert_eq!(raw_type, "RawPair");
            assert_eq!(domain_type, "DomainText");
        }
        other => panic!("expected a try-from error, got {:?}", other),
    }
}

#[test]
fn test_constructor_validation() {
    assert!(DomainPair::new(0, "x".to_string()).is_err());
    assert!(DomainPair::new(1, "x".to_string()).is_ok());
    assert!(DomainText::new(String::new()).is_err());
    assert!(DomainText::new("x".to_string()).is_ok());
}

#[test]
fn test_error_constructors_preserve_cause() {
    let e = Error::decode_message("bad bytes".to_string());
    assert!(matches!(e, Error::DecodeMessage { .. }));
    assert_eq!(e.cause().as_str(), "bad bytes");

    let e = Error::encode_message("no capacity".to_string());
    assert!(matches!(e, Error::EncodeMessage { .. }));
    assert_eq!(e.cause().as_str(), "no capacity");

    let e = Error::try_from_raw(
        "RawPair".to_string(),
        "DomainPair".to_string(),
        "a must be greater than 0".to_string(),
    );
    assert_eq!(e.cause().as_str(), "a must be greater than 0");
    match e {
        Error::TryFromRaw {
            raw_type,
            domain_type,
            ..
        } => {
            assert_eq!(raw_type, "RawPair");
            assert_eq!(domain_type, "DomainPair");
        }
        other => panic!("expected a try-from error, got {:?}", other),
    }
}

#[test]
fn test_raw_message_level_round_trip() {
    // The wire capability alone, on the raw type: non-default fields only.
    let raw = RawPair {
        a: 300,
        b: "ab".to_string(),
    };
    let mut buf = Vec::new();
    raw.encode_msg(&mut buf).unwrap();
    assert_eq!(buf, vec![0x08, 0xAC, 0x02, 0x12, 0x02, 0x61, 0x62]);
    assert_eq!(raw.encoded_len_msg(), buf.len());
    let back = RawPair::decode_msg(&buf).unwrap();
    assert_eq!(back.a, 300);
    assert_eq!(back.b.as_str(), "ab");

    let framed = raw.encode_length_delimited_to_vec_msg();
    let back = RawPair::decode_length_delimited_msg(&framed).unwrap();
    assert_eq!(back.a, 300);
    assert_eq!(back.b.as_str(), "ab");
}
