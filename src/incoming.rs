//! The frames that a client sends: one server-name frame, one login frame,
//! then encrypted subsequent frames, each read by its own parser.

use vstd::prelude::*;

use crate::adler32::Adler32Checksum;
use crate::packets::client::PacketKind;

pub mod login;
pub mod server_name;
pub mod subsequent;

verus! {

#[verifier::external_type_specification]
#[verifier::external_body]
pub struct ExInstant(std::time::Instant);

/// Number of bytes of a frame's length prefix.
pub const PACKET_HEADER_SIZE: usize = 2;

/// Number of bytes of a frame's checksum field.
pub const PACKET_CHECKSUM_SIZE: usize = 4;

/// Relies on `std::time::Instant::now`: the moment a packet was parsed. Nothing
/// is assumed of its value.
#[verifier::external_body]
pub(crate) fn capture_time() -> std::time::Instant {
    std::time::Instant::now()
}

/// A packet read from a client.
pub struct IncomingPacket {
    /// When the packet was parsed.
    pub timestamp: std::time::Instant,
    /// The checksum that the frame carried, where one was checked.
    pub checksum: Option<Adler32Checksum>,
    /// The packet's kind.
    pub kind: PacketKind,
    /// The packet's payload.
    pub buffer: bytes::Bytes,
}

} // verus!
