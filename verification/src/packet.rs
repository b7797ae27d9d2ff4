//! Packet framing. A frame is a VarInt length prefix covering the packet id
//! and its payload, then the id (itself a VarInt), then the payload. The
//! encode and decode capabilities are separate traits, implemented only in
//! the direction each packet type supports.

use crate::errors::DecodeError;
use crate::varint::{bits_i32, spec_varint_encode, VarInt};
use vstd::prelude::*;

verus! {

/// The 32-bit value of a frame's length prefix for a body of `n` bytes,
/// read through a signed cast.
pub open spec fn frame_len_prefix(n: int) -> i32 {
    bits_i32(n % 0x1_0000_0000) as i32
}

/// The complete frame around the encoded id + payload: a VarInt holding
/// their byte length, then the bytes themselves.
pub open spec fn spec_frame_bytes(body: Seq<u8>) -> Seq<u8> {
    spec_varint_encode(frame_len_prefix(body.len() as int)) + body
}

/// Wraps the encoded id + payload of a packet into a complete frame.
pub fn frame_bytes(body: Vec<u8>) -> (r: Vec<u8>)
    ensures
        r@ == spec_frame_bytes(body@),
{
    let m: u64 = (body.len() as u64) % 0x1_0000_0000;
    let prefix: i32 = if m <= 0x7fff_ffff {
        m as i32
    } else {
        ((m as i64) - 0x1_0000_0000) as i32
    };
    assert(prefix == frame_len_prefix(body@.len() as int));
    let ghost body0 = body@;
    let mut out = VarInt(prefix).to_bytes();
    let mut rest = body;
    out.append(&mut rest);
    assert(out@ =~= spec_frame_bytes(body0));
    out
}

/// A message type bound to a constant packet identifier.
pub trait Packet {
    /// The packet identifier, as its contracts speak of it.
    spec fn spec_packet_id() -> i32;

    /// The packet identifier written inside the frame.
    fn packet_id() -> (r: VarInt)
        ensures
            r.0 == Self::spec_packet_id(),
    ;
}

/// A packet that can be written to the wire.
pub trait PacketEncode: Packet {
    /// The exact bytes of the packet's complete frame.
    spec fn spec_frame(&self) -> Seq<u8>;

    /// Encodes the complete frame: length prefix, id, payload.
    fn encode(&self) -> (r: Vec<u8>)
        ensures
            r@ == self.spec_frame(),
    ;
}

/// A packet that can be read back from the accumulated bytes of one frame.
pub trait PacketDecode: Packet + Sized {
    /// Decodes a packet from a complete frame, length prefix included.
    fn decode(data: &[u8]) -> Result<Self, DecodeError>;
}

} // verus!
