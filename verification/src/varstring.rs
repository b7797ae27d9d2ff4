//! The protocol's length-prefixed string: a VarInt holding the UTF-8 byte
//! length, followed by the raw bytes, with no terminator. Decoding consumes
//! exactly the declared number of bytes and rejects a declared length that is
//! negative or runs past the buffer, and bytes that are not valid UTF-8.

use crate::errors::CodecError;
use crate::varint::{bits_i32, spec_varint_decode, spec_varint_encode, spec_varint_error, VarInt};
use vstd::prelude::*;
use vstd::utf8::{decode_utf8, encode_utf8, encode_utf8_decode_utf8, encode_utf8_valid_utf8, valid_utf8};

verus! {

/// A UTF-8 string carried on the wire behind a VarInt byte-length prefix.
#[derive(Debug)]
pub struct VarString(pub String);

/// The value of the length prefix: the UTF-8 byte length of the string, read
/// through a 32-bit signed cast (lengths at or below `i32::MAX` map to
/// themselves).
pub open spec fn varstring_len_prefix(s: Seq<char>) -> i32 {
    bits_i32(encode_utf8(s).len() as int % 0x1_0000_0000) as i32
}

/// The encoding: VarInt(UTF-8 byte length) followed by the UTF-8 bytes.
pub open spec fn spec_varstring_encode(s: Seq<char>) -> Seq<u8> {
    spec_varint_encode(varstring_len_prefix(s)) + encode_utf8(s)
}

/// Decodes a length-prefixed string from the front of `b`: reads the VarInt
/// prefix, takes exactly that many of the following bytes, and interprets
/// them as UTF-8. Each failure is classified.
pub open spec fn spec_varstring_decode(b: Seq<u8>) -> Result<Seq<char>, CodecError> {
    match spec_varint_decode(b) {
        Some((n, k)) => if n < 0 {
            Err(CodecError::NegativeLength)
        } else if k + n > b.len() {
            Err(CodecError::UnexpectedEnd)
        } else {
            let body = b.subrange(k, k + n);
            if valid_utf8(body) {
                Ok(decode_utf8(body))
            } else {
                Err(CodecError::InvalidUtf8)
            }
        },
        None => Err(spec_varint_error(b)),
    }
}

/// Relies on `String::from_utf8` (std): it succeeds exactly when the bytes
/// are valid UTF-8, and then returns the string those bytes encode.
#[verifier::external_body]
fn string_from_utf8(bytes: Vec<u8>) -> (r: Option<String>)
    ensures
        match r {
            Some(s) => valid_utf8(bytes@) && s@ == decode_utf8(bytes@),
            None => !valid_utf8(bytes@),
        },
{
    String::from_utf8(bytes).ok()
}

impl VarString {
    /// Encodes the string as its VarInt byte-length prefix followed by its
    /// UTF-8 bytes.
    pub fn to_bytes(&self) -> (r: Vec<u8>)
        ensures
            r@ == spec_varstring_encode(self.0@),
    {
        let bytes: &[u8] = self.0.as_str().as_bytes();
        let m: u64 = (bytes.len() as u64) % 0x1_0000_0000;
        let prefix: i32 = if m <= 0x7fff_ffff {
            m as i32
        } else {
            ((m as i64) - 0x1_0000_0000) as i32
        };
        assert(prefix == varstring_len_prefix(self.0@));
        let mut data = VarInt(prefix).to_bytes();
        data.extend_from_slice(bytes);
        assert(data@ =~= spec_varstring_encode(self.0@));
        data
    }

    /// Decodes a length-prefixed string from the front of `data`. Trailing
    /// bytes beyond the declared length are ignored.
    pub fn from_bytes(data: &[u8]) -> (r: Result<VarString, CodecError>)
        ensures
            match r {
                Ok(vs) => spec_varstring_decode(data@) == Ok::<Seq<char>, CodecError>(vs.0@),
                Err(e) => spec_varstring_decode(data@) == Err::<Seq<char>, CodecError>(e),
            },
    {
        let (prefix, k) = match VarInt::from_bytes(data) {
            Ok(x) => x,
            Err(e) => {
                proof {
                    crate::varint::lemma_varint_decode_malformed(data@);
                }
                return Err(e);
            },
        };
        if prefix.0 < 0 {
            return Err(CodecError::NegativeLength);
        }
        let n = prefix.0 as usize;
        if n > data.len() - k {
            return Err(CodecError::UnexpectedEnd);
        }
        let mut body: Vec<u8> = Vec::new();
        let end: usize = k + n;
        let mut idx: usize = k;
        while idx < end
            invariant
                k <= idx <= end,
                end == k + n,
                end <= data@.len(),
                body@ =~= data@.subrange(k as int, idx as int),
            decreases end - idx,
        {
            body.push(data[idx]);
            idx = idx + 1;
        }
        assert(body@ =~= data@.subrange(k as int, k as int + n as int));
        match string_from_utf8(body) {
            Some(s) => Ok(VarString(s)),
            None => Err(CodecError::InvalidUtf8),
        }
    }
}

/// Round trip: a string whose UTF-8 byte length fits the positive range of
/// the 32-bit prefix decodes from its own encoding, exactly.
pub proof fn lemma_varstring_round_trip(s: Seq<char>)
    requires
        encode_utf8(s).len() <= 0x7fff_ffff,
    ensures
        spec_varstring_decode(spec_varstring_encode(s)) == Ok::<Seq<char>, CodecError>(s),
{
    let bs = encode_utf8(s);
    let prefix = varstring_len_prefix(s);
    assert(prefix as int == bs.len() as int);
    crate::varint::lemma_varint_decode_prefix(prefix, bs);
    let enc = spec_varstring_encode(s);
    let k = spec_varint_encode(prefix).len() as int;
    assert(enc.subrange(k, k + bs.len() as int) =~= bs);
    encode_utf8_valid_utf8(s);
    encode_utf8_decode_utf8(s);
}

} // verus!
