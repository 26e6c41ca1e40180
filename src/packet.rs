use vstd::prelude::*;

use crate::adler32::Adler32Checksum;
use crate::frozen::{bytes_content, thaw};
use crate::incoming::IncomingPacket;
use crate::packets::client::{Decodable, DecodableError, PacketKind};

verus! {

/// Why a packet could not be decoded as the requested type.
#[derive(Debug)]
pub enum DecodeError {
    /// The packet is of another kind.
    KindMismatch { expected: PacketKind, found: PacketKind },
    /// The payload could not be read.
    Decodable(DecodableError),
    /// The payload has this many bytes left after the packet was read.
    ExtraBytes(usize),
}

/// The outcome of decoding a payload once the packet type's reader returned
/// `res` and left `rest` unread: its error, an error naming the leftover
/// bytes, or the packet when nothing is left.
pub open spec fn decode_outcome<P>(res: Result<P, DecodableError>, rest: Seq<u8>) -> Result<
    P,
    DecodeError,
> {
    match res {
        Err(e) => Err(DecodeError::Decodable(e)),
        Ok(p) => if rest.len() > 0 {
            Err(DecodeError::ExtraBytes(rest.len() as usize))
        } else {
            Ok(p)
        },
    }
}

/// Maps what a packet type's reader returned, and the bytes it left unread,
/// to the result of a decode.
pub fn finish_decode<P>(res: Result<P, DecodableError>, rest: &[u8]) -> (r: Result<P, DecodeError>)
    ensures
        r == decode_outcome(res, rest@),
{
    match res {
        Err(e) => Err(DecodeError::Decodable(e)),
        Ok(p) => if rest.len() > 0 {
            Err(DecodeError::ExtraBytes(rest.len()))
        } else {
            Ok(p)
        },
    }
}

/// A packet from a client, as handed to the application.
pub struct Packet {
    client: u64,
    timestamp: std::time::Instant,
    checksum: Option<Adler32Checksum>,
    kind: PacketKind,
    buffer: bytes::Bytes,
}

impl Packet {
    /// The client handle of the packet.
    pub closed spec fn spec_client(&self) -> u64 {
        self.client
    }

    /// The checksum the frame carried, if one was checked.
    pub closed spec fn spec_checksum(&self) -> Option<Adler32Checksum> {
        self.checksum
    }

    /// The packet's kind.
    pub closed spec fn spec_kind(&self) -> PacketKind {
        self.kind
    }

    /// The packet's payload.
    pub closed spec fn payload(&self) -> Seq<u8> {
        bytes_content(self.buffer)
    }

    /// The packet that `incoming` becomes once it is attributed to `client`.
    pub fn new(client: u64, incoming: IncomingPacket) -> (r: Self)
        ensures
            r.spec_client() == client,
            r.spec_checksum() == incoming.checksum,
            r.spec_kind() == incoming.kind,
            r.payload() == bytes_content(incoming.buffer),
    {
        Packet {
            client,
            timestamp: incoming.timestamp,
            checksum: incoming.checksum,
            kind: incoming.kind,
            buffer: incoming.buffer,
        }
    }

    /// The client handle of the packet.
    pub fn client(&self) -> (r: u64)
        ensures
            r == self.spec_client(),
    {
        self.client
    }

    /// When the packet was parsed.
    pub fn timestamp(&self) -> std::time::Instant {
        self.timestamp
    }

    /// The checksum the frame carried, if one was checked.
    pub fn checksum(&self) -> (r: Option<Adler32Checksum>)
        ensures
            r == self.spec_checksum(),
    {
        self.checksum
    }

    /// The packet's kind.
    pub fn kind(&self) -> (r: PacketKind)
        ensures
            r == self.spec_kind(),
    {
        self.kind
    }

    /// Decodes the payload as a `P`, which must be of this packet's kind and
    /// read the whole payload.
    pub fn decode<P: Decodable>(&self) -> (r: Result<P, DecodeError>)
        ensures
            self.spec_kind() != P::KIND ==> r == Err::<P, DecodeError>(
                DecodeError::KindMismatch { expected: P::KIND, found: self.spec_kind() },
            ),
            self.spec_kind() == P::KIND ==> exists|res: Result<P, DecodableError>, k: int|
                0 <= k <= self.payload().len() && r == decode_outcome(res, self.payload().skip(k)),
    {
        if self.kind != P::KIND {
            return Err(DecodeError::KindMismatch { expected: P::KIND, found: self.kind });
        }
        let payload = thaw(&self.buffer);
        let mut bytes: &[u8] = payload.as_slice();
        let ghost whole = bytes@;
        let res = P::decode(&mut bytes);
        let ghost returned = res;
        let ghost consumed = choose|k: int| 0 <= k <= whole.len() && bytes@ == whole.skip(k);
        let r = finish_decode(res, bytes);
        assert(r == decode_outcome(returned, self.payload().skip(consumed)));
        r
    }
}

} // verus!
