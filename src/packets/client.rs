use vstd::prelude::*;

use crate::decoder::DecoderError;

verus! {

/// Kinds of the packets that a client sends.
#[derive(Debug, Clone, Copy, PartialEq, Eq, Structural, Hash)]
pub enum PacketKind {
    /// The first packet of a connection, naming the server.
    ServerName,
    /// A login attempt.
    Login,
    /// A logout.
    Logout,
    /// A latency probe.
    PingLatency,
    /// Keeps the connection alive.
    KeepAlive,
}

/// The wire number of a client packet kind.
pub open spec fn client_kind_code(kind: PacketKind) -> u8 {
    match kind {
        PacketKind::ServerName => 0,
        PacketKind::Login => 10,
        PacketKind::Logout => 20,
        PacketKind::PingLatency => 29,
        PacketKind::KeepAlive => 30,
    }
}

/// The client packet kind with wire number `code`, if any.
pub open spec fn client_kind_of(code: u8) -> Option<PacketKind> {
    if code == 0 {
        Some(PacketKind::ServerName)
    } else if code == 10 {
        Some(PacketKind::Login)
    } else if code == 20 {
        Some(PacketKind::Logout)
    } else if code == 29 {
        Some(PacketKind::PingLatency)
    } else if code == 30 {
        Some(PacketKind::KeepAlive)
    } else {
        None
    }
}

impl PacketKind {
    /// The wire number of this kind.
    pub fn code(self) -> (r: u8)
        ensures
            r == client_kind_code(self),
    {
        match self {
            PacketKind::ServerName => 0,
            PacketKind::Login => 10,
            PacketKind::Logout => 20,
            PacketKind::PingLatency => 29,
            PacketKind::KeepAlive => 30,
        }
    }
}

impl TryFrom<u8> for PacketKind {
    type Error = u8;

    fn try_from(value: u8) -> (r: Result<Self, u8>)
        ensures
            r == (match client_kind_of(value) {
                Some(k) => Ok::<PacketKind, u8>(k),
                None => Err(value),
            }),
    {
        match value {
            0 => Ok(PacketKind::ServerName),
            10 => Ok(PacketKind::Login),
            20 => Ok(PacketKind::Logout),
            29 => Ok(PacketKind::PingLatency),
            30 => Ok(PacketKind::KeepAlive),
            _ => Err(value),
        }
    }
}

impl vstd::std_specs::convert::TryFromSpecImpl<u8> for PacketKind {
    open spec fn obeys_try_from_spec() -> bool {
        true
    }

    open spec fn try_from_spec(value: u8) -> Result<Self, u8> {
        match client_kind_of(value) {
            Some(k) => Ok(k),
            None => Err(value),
        }
    }
}

/// Errors of [`Decodable::decode`].
#[derive(Debug)]
pub enum DecodableError {
    /// A read of the payload failed.
    Decoder(DecoderError),
}

impl From<DecoderError> for DecodableError {
    fn from(e: DecoderError) -> (r: Self)
        ensures
            r == DecodableError::Decoder(e),
    {
        DecodableError::Decoder(e)
    }
}

impl vstd::std_specs::convert::FromSpecImpl<DecoderError> for DecodableError {
    open spec fn obeys_from_spec() -> bool {
        true
    }

    open spec fn from_spec(e: DecoderError) -> Self {
        DecodableError::Decoder(e)
    }
}

/// A client packet whose payload can be read from bytes.
pub trait Decodable: Sized {
    /// The kind of this packet.
    const KIND: PacketKind;

    /// Reads the payload from the front of `bytes`, consuming what it reads.
    fn decode(bytes: &mut &[u8]) -> (r: Result<Self, DecodableError>)
        ensures
            exists|k: int| 0 <= k <= old(bytes)@.len() && final(bytes)@ == old(bytes)@.skip(k),
    ;
}

/// A keep-alive packet; it has no payload.
pub struct KeepAlivePacket;

impl Decodable for KeepAlivePacket {
    const KIND: PacketKind = PacketKind::KeepAlive;

    fn decode(bytes: &mut &[u8]) -> (r: Result<Self, DecodableError>) {
        assert(bytes@ == bytes@.skip(0));
        Ok(KeepAlivePacket)
    }
}

/// A latency probe; it has no payload.
pub struct PingLatencyPacket;

impl Decodable for PingLatencyPacket {
    const KIND: PacketKind = PacketKind::PingLatency;

    fn decode(bytes: &mut &[u8]) -> (r: Result<Self, DecodableError>) {
        assert(bytes@ == bytes@.skip(0));
        Ok(PingLatencyPacket)
    }
}

} // verus!
