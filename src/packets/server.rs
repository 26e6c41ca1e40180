use vstd::prelude::*;

use crate::encoder::Encoder;
use crate::frozen::{bytes_content, thaw};

verus! {

/// Kinds of the packets that the server sends.
#[derive(Debug, Clone, Copy, PartialEq, Eq, Structural)]
pub enum PacketKind {
    /// Keeps the connection alive.
    KeepAlive,
    /// A latency probe.
    PingLatency,
}

/// The wire number of a server packet kind.
pub open spec fn server_kind_code(kind: PacketKind) -> u8 {
    match kind {
        PacketKind::KeepAlive => 29,
        PacketKind::PingLatency => 30,
    }
}

impl PacketKind {
    /// The wire number of this kind.
    pub fn code(self) -> (r: u8)
        ensures
            r == server_kind_code(self),
    {
        match self {
            PacketKind::KeepAlive => 29,
            PacketKind::PingLatency => 30,
        }
    }
}

/// The bytes of a packet of kind `code` with the payload `payload`: the kind
/// byte, then the payload if there is one.
pub open spec fn with_kind(code: u8, payload: Option<Seq<u8>>) -> Seq<u8> {
    match payload {
        Some(p) => seq![code] + p,
        None => seq![code],
    }
}

/// The bytes of an encoded payload, if there is one.
pub open spec fn payload_of(encoded: Option<bytes::Bytes>) -> Option<Seq<u8>> {
    match encoded {
        Some(b) => Some(bytes_content(b)),
        None => None,
    }
}

/// Prefixes `payload` (none: an empty payload) with the kind byte `code`.
pub fn frame_with_kind(code: u8, payload: Option<bytes::Bytes>) -> (r: bytes::Bytes)
    ensures
        bytes_content(r) == with_kind(
            code,
            match payload {
                Some(b) => Some(bytes_content(b)),
                None => None,
            },
        ),
{
    match payload {
        Some(bytes) => {
            let n = thaw(&bytes).len();
            let mut encoder = Encoder::with_capacity(if n < usize::MAX { n + 1 } else { n });
            encoder.put_u8(code).put_bytes(bytes);
            let r = encoder.finalize();
            assert(bytes_content(r) =~= with_kind(code, Some(bytes_content(bytes))));
            r
        },
        None => {
            let mut encoder = Encoder::with_capacity(1);
            encoder.put_u8(code);
            let r = encoder.finalize();
            assert(bytes_content(r) =~= with_kind(code, None));
            r
        },
    }
}

/// A server packet that can be written as bytes.
pub trait Encodable: Sized {
    /// The kind of this packet.
    const KIND: PacketKind;

    /// The payload bytes of this packet; `None` for a packet without one.
    /// A type whose `encode` hands out a payload states it here.
    open spec fn payload(&self) -> Option<Seq<u8>> {
        None
    }

    /// The payload of this packet; `None` for a packet without one.
    fn encode(self) -> (r: Option<bytes::Bytes>)
        ensures
            payload_of(r) == self.payload(),
    ;

    /// The kind byte followed by the payload.
    fn encode_with_kind(self) -> (r: bytes::Bytes)
        ensures
            bytes_content(r) == with_kind(server_kind_code(Self::KIND), self.payload()),
    {
        let code = Self::KIND.code();
        frame_with_kind(code, self.encode())
    }
}

/// A keep-alive packet; it has no payload.
pub struct KeepAlivePacket;

impl Encodable for KeepAlivePacket {
    const KIND: PacketKind = PacketKind::KeepAlive;

    fn encode(self) -> (r: Option<bytes::Bytes>) {
        None
    }
}

/// A latency probe; it has no payload.
pub struct PingLatencyPacket;

impl Encodable for PingLatencyPacket {
    const KIND: PacketKind = PacketKind::PingLatency;

    fn encode(self) -> (r: Option<bytes::Bytes>) {
        None
    }
}

/// A handshake challenge: the time it was made and one random byte.
pub struct ChallengePacket {
    /// When the challenge was made, in seconds since the Unix epoch.
    pub timestamp: u64,
    /// A random byte that adds entropy to the handshake.
    pub random_number: u8,
}

impl ChallengePacket {
    /// The payload: the timestamp's low 32 bits little-endian, then the
    /// random byte.
    pub fn encode(self) -> (r: Option<bytes::Bytes>)
        ensures
            r matches Some(b) && bytes_content(b) == crate::le_bytes::u32_le_bytes(
                self.timestamp as u32,
            ).push(self.random_number),
    {
        let mut encoder = Encoder::new();
        encoder.put_u32(self.timestamp as u32);
        encoder.put_u8(self.random_number);
        Some(encoder.finalize())
    }
}

} // verus!
