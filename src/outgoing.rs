use vstd::prelude::*;
use vstd::slice::slice_subrange;

use crate::adler32::{adler32, Adler32Checksum};
use crate::frozen::{bytes_content, freeze, thaw};
use crate::incoming::{PACKET_CHECKSUM_SIZE, PACKET_HEADER_SIZE};
use crate::le_bytes::{
    lemma_u16_le_round_trip, u16_le_at, u16_le_bytes, u32_le_bytes, write_u16_le_at,
    write_u32_le_at,
};
use crate::xtea::{encrypt, lemma_encrypt_alignment, xtea_encrypt, XTEAKey};

verus! {

/// How the server checksums the frames it sends.
#[derive(Debug, Clone, Copy, PartialEq, Eq, Structural)]
pub enum ChecksumMode {
    /// Adler-32 over the frame after its checksum field.
    Adler32,
    /// A sequence number. This mode has no defined encoding: frames are not
    /// encoded in it.
    Sequence(usize),
}

/// The body that a frame carries for `payload`: its ciphertext under `key`,
/// or the payload itself without a key.
pub open spec fn outgoing_body(payload: Seq<u8>, key: Option<XTEAKey>) -> Seq<u8> {
    match key {
        Some(k) => xtea_encrypt(payload, k),
        None => payload,
    }
}

/// The server-to-client frame of `payload`: the total length after the
/// prefix, the Adler-32 checksum of what follows it, the body length, then
/// the body; each length as its low 16 bits, all little-endian.
pub open spec fn outgoing_frame(payload: Seq<u8>, key: Option<XTEAKey>) -> Seq<u8> {
    let body = outgoing_body(payload, key);
    let region = u16_le_bytes(body.len() as u16) + body;
    u16_le_bytes((region.len() + 4) as u16) + u32_le_bytes(adler32(region)) + region
}

/// A sent frame spans its two-byte length prefix and the length that prefix
/// gives (modulo 2^16): the four-byte checksum, the two-byte body length and
/// the body, whose length the body length field gives (modulo 2^16).
pub proof fn lemma_outgoing_frame_conservation(payload: Seq<u8>, key: Option<XTEAKey>)
    ensures
        ({
            let frame = outgoing_frame(payload, key);
            let body = outgoing_body(payload, key);
            &&& frame.len() == 2 + 4 + 2 + body.len()
            &&& u16_le_at(frame, 0) == (4 + 2 + body.len()) as u16
            &&& u16_le_at(frame, 6) == body.len() as u16
            &&& frame.skip(8) == body
        }),
{
    let body = outgoing_body(payload, key);
    let region = u16_le_bytes(body.len() as u16) + body;
    let frame = outgoing_frame(payload, key);
    lemma_u16_le_round_trip((region.len() + 4) as u16);
    lemma_u16_le_round_trip(body.len() as u16);
    assert(frame.subrange(0, 2) =~= u16_le_bytes((region.len() + 4) as u16));
    assert(u16_le_at(frame, 0) == u16_le_at(u16_le_bytes((region.len() + 4) as u16), 0));
    assert(u16_le_at(frame, 6) == u16_le_at(u16_le_bytes(body.len() as u16), 0));
    assert(frame.skip(8) =~= body);
}

/// A batch of packet bytes on its way to a client, with the key and checksum
/// mode it is to be sent under.
pub struct OutgoingPacket {
    xtea_key: Option<XTEAKey>,
    checksum_mode: ChecksumMode,
    bytes: bytes::Bytes,
}

impl OutgoingPacket {
    /// The key the batch is encrypted with, if any.
    pub closed spec fn key(&self) -> Option<XTEAKey> {
        self.xtea_key
    }

    /// The checksum mode of the batch.
    pub closed spec fn mode(&self) -> ChecksumMode {
        self.checksum_mode
    }

    /// The bytes of the batch.
    pub closed spec fn content(&self) -> Seq<u8> {
        bytes_content(self.bytes)
    }

    /// A batch of `bytes`, unencrypted, checksummed with Adler-32.
    pub fn new(bytes: bytes::Bytes) -> (r: Self)
        ensures
            r.key() is None,
            r.mode() == ChecksumMode::Adler32,
            r.content() == bytes_content(bytes),
    {
        OutgoingPacket { xtea_key: None, checksum_mode: ChecksumMode::Adler32, bytes }
    }

    /// Sets the key the batch is encrypted with.
    pub fn xtea_key(&mut self, keys: XTEAKey) -> (r: &mut Self)
        ensures
            r.key() == Some(keys),
            r.mode() == old(self).mode(),
            r.content() == old(self).content(),
            *final(self) == *final(r),
    {
        self.xtea_key = Some(keys);
        self
    }

    /// Sets the checksum mode of the batch.
    pub fn checksum_mode(&mut self, mode: ChecksumMode) -> (r: &mut Self)
        ensures
            r.key() == old(self).key(),
            r.mode() == mode,
            r.content() == old(self).content(),
            *final(self) == *final(r),
    {
        self.checksum_mode = mode;
        self
    }

    /// The frame that carries the batch; `None` in the sequence checksum
    /// mode, which has no defined encoding.
    pub fn encode(self) -> (r: Option<bytes::Bytes>)
        requires
            self.content().len() + 16 <= usize::MAX,
        ensures
            self.mode() is Sequence ==> r is None,
            self.mode() is Adler32 ==> (r matches Some(frame) && bytes_content(frame)
                == outgoing_frame(self.content(), self.key())),
    {
        if let ChecksumMode::Sequence(_) = self.checksum_mode {
            return None;
        }
        let payload = thaw(&self.bytes);
        let header_len = PACKET_HEADER_SIZE + PACKET_CHECKSUM_SIZE + PACKET_HEADER_SIZE;
        let mut buffer: Vec<u8> = Vec::with_capacity(header_len + payload.len());
        let mut i: usize = 0;
        while i < header_len
            invariant
                i <= header_len,
                header_len == 8,
                buffer@.len() == i,
            decreases header_len - i,
        {
            buffer.push(0u8);
            i += 1;
        }
        let body = match self.xtea_key {
            Some(key) => {
                let encrypted = encrypt(payload.as_slice(), &key);
                proof {
                    lemma_encrypt_alignment(payload@, key);
                }
                thaw(&encrypted)
            },
            None => payload,
        };
        assert(body@ == outgoing_body(self.content(), self.key()));
        let ghost zeros = buffer@;
        write_u16_le_at(&mut buffer, 6, body.len() as u16);
        buffer.extend_from_slice(body.as_slice());
        let ghost region = u16_le_bytes(body.len() as u16) + body@;
        assert(buffer@.skip(6) =~= region);
        let checksum = Adler32Checksum::calculate(slice_subrange(buffer.as_slice(), 6, buffer.len()));
        write_u32_le_at(&mut buffer, PACKET_HEADER_SIZE, *checksum);
        let total_len = buffer.len() - PACKET_HEADER_SIZE;
        write_u16_le_at(&mut buffer, 0, total_len as u16);
        assert(buffer@ =~= outgoing_frame(self.content(), self.key()));
        Some(freeze(buffer))
    }
}

} // verus!
