//! The handshake packet: the first packet of a query. Its payload carries
//! the protocol version, the target host and port, and the state the
//! connection moves to next (1 asks for a status exchange).

use crate::packet::{frame_bytes, spec_frame_bytes, Packet, PacketEncode};
use crate::varint::{spec_varint_encode, VarInt};
use crate::varstring::{spec_varstring_encode, VarString};
use vstd::prelude::*;

verus! {

/// The protocol version a client sends when it does not care which version
/// the server speaks.
pub const VERSION_UNSPECIFIED: i32 = -1;

/// The next-state value that asks for a status exchange.
pub const NEXT_STATE_STATUS: i32 = 1;

/// The handshake packet: protocol version, target address and port, and the
/// requested next state. Built once per query and consumed by encoding.
pub struct Handshake {
    pub protocol_version: VarInt,
    pub server_address: VarString,
    pub server_port: u16,
    pub next_state: VarInt,
}

impl Handshake {
    /// Builds a handshake for the given target.
    pub fn new(version: VarInt, server: String, port: u16, next: VarInt) -> (r: Handshake)
        ensures
            r.protocol_version == version,
            r.server_address.0@ == server@,
            r.server_port == port,
            r.next_state == next,
    {
        Handshake {
            protocol_version: version,
            server_address: VarString(server),
            server_port: port,
            next_state: next,
        }
    }

    /// The payload behind the id: version, address, port (big-endian),
    /// next state.
    pub open spec fn spec_payload(&self) -> Seq<u8> {
        spec_varint_encode(self.protocol_version.0) + spec_varstring_encode(
            self.server_address.0@,
        ) + seq![(self.server_port / 0x100) as u8, (self.server_port % 0x100) as u8]
            + spec_varint_encode(self.next_state.0)
    }
}

impl Packet for Handshake {
    open spec fn spec_packet_id() -> i32 {
        0x00
    }

    fn packet_id() -> (r: VarInt) {
        VarInt(0x00)
    }
}

impl PacketEncode for Handshake {
    open spec fn spec_frame(&self) -> Seq<u8> {
        spec_frame_bytes(spec_varint_encode(0x00) + self.spec_payload())
    }

    /// Encodes the complete frame: length prefix, id 0, then the payload
    /// fields in wire order.
    fn encode(&self) -> (r: Vec<u8>) {
        let mut body = Self::packet_id().to_bytes();
        let mut version = self.protocol_version.to_bytes();
        body.append(&mut version);
        let mut address = self.server_address.to_bytes();
        body.append(&mut address);
        body.push((self.server_port / 0x100) as u8);
        body.push((self.server_port % 0x100) as u8);
        let mut next = self.next_state.to_bytes();
        body.append(&mut next);
        assert(body@ =~= spec_varint_encode(0x00) + self.spec_payload());
        frame_bytes(body)
    }
}

} // verus!
