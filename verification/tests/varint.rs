use slp_client::errors::CodecError;
use slp_client::varint::VarInt;

fn round_trip(v: i32) {
    let bytes = VarInt(v).to_bytes();
    let (decoded, consumed) = VarInt::from_bytes(bytes.as_slice()).unwrap();
    assert_eq!(decoded.0, v);
    assert_eq!(consumed, bytes.len());
}

#[test]
fn varint_round_trip_small_values() {
    round_trip(0);
    round_trip(1);
    round_trip(2);
    round_trip(127);
    round_trip(128);
    round_trip(255);
    round_trip(300);
    round_trip(25565);
}

#[test]
fn varint_round_trip_large_and_negative_values() {
    round_trip(2097151);
    round_trip(2147483647);
    round_trip(-1);
    round_trip(-2147483648);
    round_trip(763);
}

#[test]
fn varint_exact_byte_layouts() {
    assert_eq!(VarInt(0).to_bytes(), vec![0x00]);
    assert_eq!(VarInt(1).to_bytes(), vec![0x01]);
    assert_eq!(VarInt(127).to_bytes(), vec![0x7f]);
    assert_eq!(VarInt(128).to_bytes(), vec![0x80, 0x01]);
    assert_eq!(VarInt(255).to_bytes(), vec![0xff, 0x01]);
    assert_eq!(VarInt(300).to_bytes(), vec![0xac, 0x02]);
    assert_eq!(VarInt(25565).to_bytes(), vec![0xdd, 0xc7, 0x01]);
    assert_eq!(VarInt(2097151).to_bytes(), vec![0xff, 0xff, 0x7f]);
    assert_eq!(VarInt(2147483647).to_bytes(), vec![0xff, 0xff, 0xff, 0xff, 0x07]);
    assert_eq!(VarInt(-1).to_bytes(), vec![0xff, 0xff, 0xff, 0xff, 0x0f]);
    assert_eq!(VarInt(-2147483648).to_bytes(), vec![0x80, 0x80, 0x80, 0x80, 0x08]);
}

#[test]
fn varint_decode_stops_at_terminator() {
    // A terminated value followed by trailing bytes: the trailing bytes are
    // left alone and the consumed count says where they start.
    let bytes = [0xac, 0x02, 0x99, 0x99];
    let (decoded, consumed) = VarInt::from_bytes(&bytes).unwrap();
    assert_eq!(decoded.0, 300);
    assert_eq!(consumed, 2);
}

#[test]
fn varint_decode_rejects_overflow() {
    // Five continuation bytes: the value would pass bit 31.
    let bytes = [0x80u8, 0x80, 0x80, 0x80, 0x80, 0x01];
    assert_eq!(VarInt::from_bytes(&bytes), Err(CodecError::VarIntTooLong));
    let bytes = [0xffu8; 6];
    assert_eq!(VarInt::from_bytes(&bytes), Err(CodecError::VarIntTooLong));
    let bytes = [0xffu8; 10];
    assert_eq!(VarInt::from_bytes(&bytes), Err(CodecError::VarIntTooLong));
}

#[test]
fn varint_decode_rejects_truncated_input() {
    let empty: [u8; 0] = [];
    assert_eq!(VarInt::from_bytes(&empty), Err(CodecError::UnexpectedEnd));
    let bytes = [0x80u8];
    assert_eq!(VarInt::from_bytes(&bytes), Err(CodecError::UnexpectedEnd));
    let bytes = [0x80u8, 0x80, 0x80];
    assert_eq!(VarInt::from_bytes(&bytes), Err(CodecError::UnexpectedEnd));
    let bytes = [0xffu8, 0xff, 0xff, 0xff];
    assert_eq!(VarInt::from_bytes(&bytes), Err(CodecError::UnexpectedEnd));
}
