use slp_client::client::{append_chunk, more_needed, packet_size_from_prefix, Client};
use slp_client::errors::CodecError;
use slp_client::packet::frame_bytes;
use slp_client::slp::SlpResponse;
use slp_client::varint::VarInt;
use slp_client::varstring::VarString;

const STATUS_JSON: &str = r#"{"version":{"name":"1.20","protocol":763},"players":{"max":20,"online":3},"description":"A server"}"#;

fn response_frame() -> Vec<u8> {
    let mut body = VarInt(0x00).to_bytes();
    body.extend_from_slice(&VarString(STATUS_JSON.to_string()).to_bytes());
    frame_bytes(body)
}

#[test]
fn client_new_keeps_target() {
    let client = Client::new("example.com".to_string(), 25565);
    assert_eq!(client.host, "example.com");
    assert_eq!(client.port, 25565);
}

#[test]
fn client_handshake_frame_targets_host() {
    let client = Client::new("example.com".to_string(), 25565);
    let frame = client.handshake_frame();
    // Length prefix, id, version -1, then the address with its own prefix.
    let mut expected: Vec<u8> = vec![21, 0x00, 0xff, 0xff, 0xff, 0xff, 0x0f, 11];
    expected.extend_from_slice(b"example.com");
    expected.extend_from_slice(&[0x63, 0xdd, 0x01]);
    assert_eq!(frame, expected);
}

#[test]
fn client_request_frame_bytes() {
    assert_eq!(Client::request_frame(), vec![0x01, 0x00]);
}

#[test]
fn packet_size_counts_prefix_itself() {
    // A frame of body length 300 carries a two-byte prefix.
    let head = [0xac, 0x02, 0x00, 0x00, 0x00];
    assert_eq!(packet_size_from_prefix(&head), Ok(302));
    let head = [0x05, 0x00, 0x00, 0x00, 0x00];
    assert_eq!(packet_size_from_prefix(&head), Ok(6));
}

#[test]
fn packet_size_rejects_bad_prefix() {
    let head = [0x80u8, 0x80, 0x80, 0x80, 0x80];
    assert_eq!(packet_size_from_prefix(&head), Err(CodecError::VarIntTooLong));
    let head = [0x80u8, 0x80];
    assert_eq!(packet_size_from_prefix(&head), Err(CodecError::UnexpectedEnd));
    // A negative announced length.
    let head = [0xff, 0xff, 0xff, 0xff, 0x0f];
    assert_eq!(packet_size_from_prefix(&head), Err(CodecError::NegativeLength));
}

#[test]
fn fragmented_delivery_assembles_identically() {
    // The reply arrives in three separate writes; the accumulation loop must
    // assemble the same bytes a single write would deliver.
    let frame = response_frame();
    let single_shot = SlpResponse::from_frame(frame.as_slice()).unwrap();

    // The initial read takes the first five bytes to learn the frame size.
    let mut data: Vec<u8> = Vec::new();
    append_chunk(&mut data, &frame[..5]);
    let packet_size = packet_size_from_prefix(data.as_slice()).unwrap();
    assert_eq!(packet_size, frame.len());

    // The rest arrives in three fragments of very different sizes.
    let rest = &frame[5..];
    let cuts = [rest.len() / 3, 2 * rest.len() / 3, rest.len()];
    let fragments = [
        &rest[..cuts[0]],
        &rest[cuts[0]..cuts[1]],
        &rest[cuts[1]..],
    ];
    let mut next = 0;
    while more_needed(data.len(), packet_size) {
        assert!(next < fragments.len(), "ran out of fragments before the frame was complete");
        append_chunk(&mut data, fragments[next]);
        next += 1;
    }

    let reassembled = SlpResponse::from_frame(data.as_slice()).unwrap();
    assert_eq!(reassembled.version.name, single_shot.version.name);
    assert_eq!(reassembled.version.protocol, single_shot.version.protocol);
    assert_eq!(reassembled.players.max, single_shot.players.max);
    assert_eq!(reassembled.players.online, single_shot.players.online);
}
