use slp_client::errors::{CodecError, DecodeError};
use slp_client::packet::{frame_bytes, PacketDecode, PacketEncode};
use slp_client::slp::{SlpRequest, SlpResponse, SlpServerDescription};
use slp_client::varint::VarInt;
use slp_client::varstring::VarString;

/// A complete status-response frame around the given JSON text.
fn frame_around(json: &str) -> Vec<u8> {
    let mut body = VarInt(0x00).to_bytes();
    body.extend_from_slice(&VarString(json.to_string()).to_bytes());
    frame_bytes(body)
}

const STATUS_JSON: &str = r#"{"version":{"name":"1.20","protocol":763},"players":{"max":20,"online":3},"description":"A server"}"#;

#[test]
fn request_frame_exact_bytes() {
    let frame = SlpRequest.encode();
    assert_eq!(frame, vec![0x01, 0x00]);
}

#[test]
fn status_response_decodes_synthetic_frame() {
    let frame = frame_around(STATUS_JSON);
    let response = SlpResponse::from_frame(frame.as_slice()).unwrap();
    assert_eq!(response.version.name, "1.20");
    assert_eq!(response.version.protocol, 763);
    assert_eq!(response.players.max, 20);
    assert_eq!(response.players.online, 3);
    assert!(response.players.sample.is_none());
    assert!(matches!(response.description, SlpServerDescription::Simple(ref s) if s == "A server"));
    assert!(response.favicon.is_none());
    assert!(response.modinfo.is_none());
}

#[test]
fn status_response_decode_trait_matches_from_frame() {
    let frame = frame_around(STATUS_JSON);
    let response = <SlpResponse as PacketDecode>::decode(frame.as_slice()).unwrap();
    assert_eq!(response.version.protocol, 763);
}

#[test]
fn status_response_reads_optional_fields() {
    let json = r#"{"version":{"name":"1.20.4","protocol":765},"players":{"max":100,"online":2,"sample":[{"name":"alice","id":"11-22"},{"name":"bob","id":"33-44"}]},"description":{"text":"Hi"},"favicon":"data:image/png;base64,AAAA","enforcesSecureChat":true,"previewsChat":false,"modinfo":{"type":"FML","mod_list":[{"modid":"forge","version":"47.2.0"}]}}"#;
    let response = SlpResponse::from_frame(frame_around(json).as_slice()).unwrap();
    let sample = response.players.sample.unwrap();
    assert_eq!(sample.len(), 2);
    assert_eq!(sample[0].name, "alice");
    assert_eq!(sample[0].id, "11-22");
    assert_eq!(sample[1].name, "bob");
    assert_eq!(response.favicon.as_deref(), Some("data:image/png;base64,AAAA"));
    assert_eq!(response.enforces_secure_chat, Some(true));
    assert_eq!(response.previews_chat, Some(false));
    assert_eq!(response.prevents_chat_reports, None);
    let modinfo = response.modinfo.unwrap();
    assert_eq!(modinfo.type_, "FML");
    assert_eq!(modinfo.mod_list.len(), 1);
    assert_eq!(modinfo.mod_list[0].modid, "forge");
    assert_eq!(modinfo.mod_list[0].version, "47.2.0");
    match response.description {
        SlpServerDescription::Complex(c) => assert_eq!(c.text, "Hi"),
        SlpServerDescription::Simple(_) => panic!("expected the rich-text form"),
    }
}

#[test]
fn status_response_description_tree() {
    let json = r#"{"version":{"name":"x","protocol":0},"players":{"max":1,"online":0},"description":{"text":"Top","bold":true,"extra":["tail",{"text":"!","italic":true}]}}"#;
    let response = SlpResponse::from_frame(frame_around(json).as_slice()).unwrap();
    match response.description {
        SlpServerDescription::Complex(c) => {
            assert_eq!(c.text, "Top");
            assert_eq!(c.bold, Some(true));
            let extra = c.extra.unwrap();
            assert_eq!(extra.len(), 2);
            assert!(matches!(extra[0], SlpServerDescription::Simple(ref s) if s == "tail"));
            match &extra[1] {
                SlpServerDescription::Complex(child) => {
                    assert_eq!(child.text, "!");
                    assert_eq!(child.italic, Some(true));
                }
                SlpServerDescription::Simple(_) => panic!("expected a nested node"),
            }
        }
        SlpServerDescription::Simple(_) => panic!("expected the rich-text form"),
    }
}

#[test]
fn status_response_rejects_invalid_json() {
    let frame = frame_around(r#"{"version":"#);
    assert!(matches!(
        SlpResponse::from_frame(frame.as_slice()),
        Err(DecodeError::Json)
    ));
}

#[test]
fn status_response_rejects_wrong_shape() {
    // Well-formed JSON, but not a status document.
    let frame = frame_around(r#"{"hello":"world"}"#);
    assert!(matches!(
        SlpResponse::from_frame(frame.as_slice()),
        Err(DecodeError::Schema)
    ));
    // A description that is neither string nor object.
    let json = r#"{"version":{"name":"x","protocol":0},"players":{"max":1,"online":0},"description":7}"#;
    let frame = frame_around(json);
    assert!(matches!(
        SlpResponse::from_frame(frame.as_slice()),
        Err(DecodeError::Schema)
    ));
    // A protocol number that cannot fit 32 bits.
    let json = r#"{"version":{"name":"x","protocol":99999999999},"players":{"max":1,"online":0},"description":"d"}"#;
    let frame = frame_around(json);
    assert!(matches!(
        SlpResponse::from_frame(frame.as_slice()),
        Err(DecodeError::Schema)
    ));
}

#[test]
fn status_response_rejects_truncated_frame() {
    let mut frame = frame_around(STATUS_JSON);
    frame.truncate(frame.len() - 10);
    assert!(matches!(
        SlpResponse::from_frame(frame.as_slice()),
        Err(DecodeError::Codec(CodecError::UnexpectedEnd))
    ));
    let empty: [u8; 0] = [];
    assert!(matches!(
        SlpResponse::from_frame(&empty),
        Err(DecodeError::Codec(CodecError::UnexpectedEnd))
    ));
}
