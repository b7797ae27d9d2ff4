//! A minimal client library for the Minecraft Server List Ping protocol:
//! variable-length integer and string codecs, packet framing, the
//! handshake/status-request packets, a status-response decoder, and a
//! formatter that flattens the recursive rich-text server description.
//!
//! Connection handling (DNS resolution, TCP, non-blocking reads) lives with
//! the caller; the library supplies the byte-exact encoders and decoders and
//! the decisions the read loop needs.

pub mod chunks;
pub mod client;
pub mod errors;
pub mod handshake;
pub mod json;
pub mod packet;
pub mod slp;
pub mod text_component;
pub mod varint;
pub mod varstring;
