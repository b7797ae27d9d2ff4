//! The query client. One status query writes a handshake frame and a
//! status-request frame, then accumulates the reply until the frame the
//! length prefix announced is complete, and decodes it. The socket work —
//! resolution, connect, waiting for readability, the reads and writes
//! themselves — belongs to the caller that owns the connection; this module
//! supplies the exact bytes to write and the decisions the read loop takes.

use crate::errors::CodecError;
use crate::handshake::{Handshake, NEXT_STATE_STATUS, VERSION_UNSPECIFIED};
use crate::packet::PacketEncode;
use crate::slp::SlpRequest;
use crate::varint::{spec_varint_decode, spec_varint_error, VarInt};
use crate::varstring::VarString;
use vstd::prelude::*;

verus! {

/// A handle on one query target: the host name (or address text) and port.
pub struct Client {
    pub host: String,
    pub port: u16,
}

impl Client {
    /// A client for the given target. Whether the host resolves is the
    /// connection owner's to find out, here and again at every query.
    pub fn new(host: String, port: u16) -> (r: Client)
        ensures
            r.host@ == host@,
            r.port == port,
    {
        Client { host, port }
    }

    /// The handshake this client opens a status query with: protocol
    /// version unspecified, this client's host and port, next state asking
    /// for status.
    pub open spec fn spec_handshake(&self) -> Handshake {
        Handshake {
            protocol_version: VarInt(VERSION_UNSPECIFIED),
            server_address: VarString(self.host),
            server_port: self.port,
            next_state: VarInt(NEXT_STATE_STATUS),
        }
    }

    /// The first frame of a query: the encoded handshake.
    pub fn handshake_frame(&self) -> (r: Vec<u8>)
        ensures
            r@ == self.spec_handshake().spec_frame(),
    {
        let packet = Handshake::new(
            VarInt(VERSION_UNSPECIFIED),
            self.host.clone(),
            self.port,
            VarInt(NEXT_STATE_STATUS),
        );
        let bytes = packet.encode();
        assert(packet.spec_payload() == self.spec_handshake().spec_payload());
        bytes
    }

    /// The second frame of a query: the encoded status request.
    pub fn request_frame() -> (r: Vec<u8>)
        ensures
            r@ == (SlpRequest).spec_frame(),
    {
        let packet = SlpRequest;
        packet.encode()
    }
}

/// The total byte size of the frame whose first bytes sit in `buf`: the
/// value of the length prefix plus the prefix's own encoded length. Fails
/// when the prefix is malformed or announces a negative length.
pub fn packet_size_from_prefix(buf: &[u8]) -> (r: Result<usize, CodecError>)
    ensures
        match r {
            Ok(n) => {
                &&& spec_varint_decode(buf@) is Some
                &&& spec_varint_decode(buf@)->Some_0.0 >= 0
                &&& n == spec_varint_decode(buf@)->Some_0.0 + spec_varint_decode(buf@)->Some_0.1
                &&& n >= 1
            },
            Err(e) => match spec_varint_decode(buf@) {
                Some((v, _)) => v < 0 && e == CodecError::NegativeLength,
                None => e == spec_varint_error(buf@),
            },
        },
{
    let (prefix, k) = match VarInt::from_bytes(buf) {
        Ok(x) => x,
        Err(e) => {
            proof {
                crate::varint::lemma_varint_decode_malformed(buf@);
            }
            return Err(e);
        },
    };
    if prefix.0 < 0 {
        return Err(CodecError::NegativeLength);
    }
    Ok(prefix.0 as usize + k)
}

/// Whether the accumulation loop still wants bytes: it keeps reading while
/// the buffer holds fewer than `packet_size - 1` bytes.
pub fn more_needed(accumulated: usize, packet_size: usize) -> (r: bool)
    requires
        packet_size >= 1,
    ensures
        r == (accumulated < packet_size - 1),
{
    accumulated < packet_size - 1
}

/// Appends one chunk the socket delivered to the accumulated response.
pub fn append_chunk(data: &mut Vec<u8>, chunk: &[u8])
    ensures
        final(data)@ == old(data)@ + chunk@,
{
    data.extend_from_slice(chunk);
}

} // verus!
