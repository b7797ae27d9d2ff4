use slp_client::errors::CodecError;
use slp_client::varstring::VarString;

fn string_round_trip(s: &str) {
    let bytes = VarString(s.to_string()).to_bytes();
    let decoded = VarString::from_bytes(bytes.as_slice()).unwrap();
    assert_eq!(decoded.0, s);
}

#[test]
fn varstring_round_trip_ascii() {
    string_round_trip("");
    string_round_trip("A server");
    string_round_trip("example.com");
    string_round_trip("hello world");
}

#[test]
fn varstring_round_trip_multibyte() {
    string_round_trip("héllo wörld");
    string_round_trip("ログイン");
    string_round_trip("\u{200B}");
    string_round_trip("mixed ascii and ünïcode — ✓");
}

#[test]
fn varstring_exact_byte_layout() {
    let bytes = VarString("abc".to_string()).to_bytes();
    assert_eq!(bytes, vec![0x03, b'a', b'b', b'c']);
    let bytes = VarString(String::new()).to_bytes();
    assert_eq!(bytes, vec![0x00]);
}

#[test]
fn varstring_decode_ignores_trailing_bytes() {
    // Exactly the declared number of bytes is consumed.
    let bytes = [0x02, b'h', b'i', b'x', b'y'];
    let decoded = VarString::from_bytes(&bytes).unwrap();
    assert_eq!(decoded.0, "hi");
}

#[test]
fn varstring_decode_rejects_short_buffer() {
    // The prefix declares more bytes than the buffer holds.
    let bytes = [0x05, b'h', b'i'];
    assert!(matches!(VarString::from_bytes(&bytes), Err(CodecError::UnexpectedEnd)));
}

#[test]
fn varstring_decode_rejects_invalid_utf8() {
    // 0xc3 opens a two-byte sequence that 0x28 cannot continue.
    let bytes = [0x02, 0xc3, 0x28];
    assert!(matches!(VarString::from_bytes(&bytes), Err(CodecError::InvalidUtf8)));
    // A lone continuation byte.
    let bytes = [0x01, 0x80];
    assert!(matches!(VarString::from_bytes(&bytes), Err(CodecError::InvalidUtf8)));
}

#[test]
fn varstring_decode_rejects_negative_length() {
    // VarInt(-1) as the length prefix.
    let bytes = [0xff, 0xff, 0xff, 0xff, 0x0f, b'a'];
    assert!(matches!(VarString::from_bytes(&bytes), Err(CodecError::NegativeLength)));
}

#[test]
fn varstring_decode_rejects_malformed_prefix() {
    let empty: [u8; 0] = [];
    assert!(matches!(VarString::from_bytes(&empty), Err(CodecError::UnexpectedEnd)));
    let bytes = [0x80u8, 0x80, 0x80, 0x80, 0x80, 0x01];
    assert!(matches!(VarString::from_bytes(&bytes), Err(CodecError::VarIntTooLong)));
}
