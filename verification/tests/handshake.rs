use slp_client::handshake::{Handshake, NEXT_STATE_STATUS, VERSION_UNSPECIFIED};
use slp_client::packet::PacketEncode;
use slp_client::varint::VarInt;
use slp_client::varstring::VarString;

fn example_handshake_frame() -> Vec<u8> {
    let packet = Handshake::new(
        VarInt(VERSION_UNSPECIFIED),
        "example.com".to_string(),
        25565,
        VarInt(NEXT_STATE_STATUS),
    );
    packet.encode()
}

#[test]
fn handshake_exact_byte_layout() {
    let frame = example_handshake_frame();
    let mut expected: Vec<u8> = Vec::new();
    // id + payload take 21 bytes: id 1, version 5, address 12, port 2, next 1.
    expected.push(21);
    expected.push(0x00);
    expected.extend_from_slice(&[0xff, 0xff, 0xff, 0xff, 0x0f]);
    expected.push(11);
    expected.extend_from_slice(b"example.com");
    expected.extend_from_slice(&[0x63, 0xdd]);
    expected.push(0x01);
    assert_eq!(frame, expected);
}

#[test]
fn handshake_fields_parse_back() {
    // Walk the encoded frame field by field and compare with the inputs.
    let frame = example_handshake_frame();

    let (length, k) = VarInt::from_bytes(frame.as_slice()).unwrap();
    let rest = &frame[k..];
    assert_eq!(length.0 as usize, rest.len());

    let (id, k) = VarInt::from_bytes(rest).unwrap();
    assert_eq!(id.0, 0x00);
    let rest = &rest[k..];

    let (version, k) = VarInt::from_bytes(rest).unwrap();
    assert_eq!(version.0, -1);
    let rest = &rest[k..];

    let address = VarString::from_bytes(rest).unwrap();
    assert_eq!(address.0, "example.com");
    let consumed = VarString(address.0.clone()).to_bytes().len();
    let rest = &rest[consumed..];

    assert_eq!(rest.len(), 3);
    let port = ((rest[0] as u16) << 8) | rest[1] as u16;
    assert_eq!(port, 25565);

    let (next_state, _) = VarInt::from_bytes(&rest[2..]).unwrap();
    assert_eq!(next_state.0, 1);
}

#[test]
fn handshake_new_keeps_fields() {
    let packet = Handshake::new(VarInt(763), "mc.example.net".to_string(), 1234, VarInt(1));
    assert_eq!(packet.protocol_version.0, 763);
    assert_eq!(packet.server_address.0, "mc.example.net");
    assert_eq!(packet.server_port, 1234);
    assert_eq!(packet.next_state.0, 1);
}
