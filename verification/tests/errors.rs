use slp_client::errors::{CodecError, DecodeError};

#[test]
fn codec_error_descriptions() {
    assert_eq!(CodecError::VarIntTooLong.describe(), "VarInt is too big");
    assert_eq!(CodecError::UnexpectedEnd.describe(), "Invalid input buffer");
    assert_eq!(CodecError::NegativeLength.describe(), "String length is negative");
    assert_eq!(CodecError::InvalidUtf8.describe(), "String bytes are not valid UTF-8");
}

#[test]
fn decode_error_descriptions() {
    assert_eq!(
        DecodeError::Codec(CodecError::UnexpectedEnd).describe(),
        "Invalid input buffer"
    );
    assert_eq!(DecodeError::Json.describe(), "Payload is not valid JSON");
    assert_eq!(DecodeError::Schema.describe(), "Document is not a status response");
}
