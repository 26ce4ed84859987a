use rustunnel::bytes_base64::{deserialize, serialize, Base64Error};

#[test]
fn payload_text_is_standard_base64() {
    assert_eq!(serialize(b"hello world~"), "aGVsbG8gd29ybGR+");
    assert_eq!(serialize(b""), "");
    assert_eq!(serialize(&[0xff, 0xfe]), "//4=");
}

#[test]
fn payload_text_decodes() {
    assert_eq!(deserialize("aGVsbG8gd29ybGR+Cg==").unwrap(), b"hello world~\n".to_vec());
    assert_eq!(deserialize("").unwrap(), Vec::<u8>::new());
}

#[test]
fn payload_roundtrip_on_samples() {
    for sample in [&b""[..], b"a", b"ab", b"abc", &[0u8, 1, 2, 250, 251, 252, 253]] {
        assert_eq!(deserialize(&serialize(sample)).unwrap(), sample.to_vec());
    }
}

#[test]
fn payload_text_errors() {
    assert!(matches!(deserialize("a!bc"), Err(Base64Error::InvalidByte { offset: 1, byte: b'!' })));
    assert!(matches!(deserialize("a"), Err(Base64Error::InvalidLength { .. })));
    assert!(matches!(deserialize("aGk"), Err(Base64Error::InvalidPadding)));
    assert!(matches!(deserialize("aGl="), Err(Base64Error::InvalidLastSymbol { .. })));
}

#[test]
fn payload_short_groups_are_padded() {
    assert_eq!(serialize(b"hi"), "aGk=");
    assert_eq!(serialize(b"h"), "aA==");
    assert_eq!(serialize(b"hi!"), "aGkh");
    assert_eq!(deserialize("aGk=").unwrap(), b"hi".to_vec());
    assert_eq!(deserialize("aA==").unwrap(), b"h".to_vec());
}

#[test]
fn payload_round_trip_on_all_single_bytes() {
    for b in 0u8..=255 {
        let text = serialize(&[b, b.wrapping_mul(7), b ^ 0x5a]);
        assert_eq!(deserialize(&text).unwrap(), vec![b, b.wrapping_mul(7), b ^ 0x5a]);
        let one = serialize(&[b]);
        assert_eq!(deserialize(&one).unwrap(), vec![b]);
    }
}
