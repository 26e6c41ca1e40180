use vstd::prelude::*;
use vstd::slice::{slice_subrange, slice_to_vec};

use crate::adler32::{adler32, Adler32Checksum};
use crate::frozen::{bytes_content, freeze, thaw};
use crate::incoming::login::{declared_body_len, delivered, frame_body, holds_frame};
use crate::incoming::{capture_time, IncomingPacket, PACKET_CHECKSUM_SIZE, PACKET_HEADER_SIZE};
use crate::le_bytes::{read_u16_le, read_u32_le, u32_le_at};
use crate::packets::client::{client_kind_of, PacketKind};
use crate::packets::PACKET_KIND_SIZE;
use crate::xtea::{decrypt, xtea_decrypt, XTEADecryptError, XTEAKey};

verus! {

/// Errors of a subsequent frame.
#[derive(Debug, Clone, Copy, PartialEq, Eq, Structural)]
pub enum PacketReadError {
    /// The client closed the connection before sending the frame.
    ConnectionClosed,
    /// Fewer bytes than the length prefix arrived.
    IncompletePrefix { available: usize, required: usize },
    /// Fewer bytes than the declared frame arrived.
    IncompletePacket { required: usize, available: usize },
    /// The body cannot hold a checksum and a kind byte, or the decrypted
    /// message a kind byte.
    TooShort { actual: usize, min: usize },
    /// The declared body length is zero.
    EmptyLength,
    /// The declared frame is longer than allowed.
    LengthOutOfBounds { declared: usize, max: usize },
    /// The checksum field does not match the payload.
    ChecksumMismatch { expected: u32, actual: u32 },
    /// The kind byte names no client packet.
    UnknownId(u8),
    /// The encrypted region could not be decrypted.
    XteaDecryption(XTEADecryptError),
}

/// The outcome of parsing a subsequent frame from `buf` under the length
/// ceiling `max_length` with `key`: the packet's kind and payload, or the
/// error. The checksum field covers the ciphertext; the decrypted message
/// is the inner length header, the kind byte and the payload.
pub open spec fn subsequent_frame(buf: Seq<u8>, max_length: nat, key: XTEAKey) -> Result<
    (PacketKind, Seq<u8>),
    PacketReadError,
> {
    if buf.len() < 2 {
        Err(PacketReadError::IncompletePrefix { available: buf.len() as usize, required: 2 })
    } else if declared_body_len(buf) == 0 {
        Err(PacketReadError::EmptyLength)
    } else if 2 + declared_body_len(buf) > max_length {
        Err(
            PacketReadError::LengthOutOfBounds {
                declared: (2 + declared_body_len(buf)) as usize,
                max: max_length as usize,
            },
        )
    } else if buf.len() < 2 + declared_body_len(buf) {
        Err(
            PacketReadError::IncompletePacket {
                required: (2 + declared_body_len(buf)) as usize,
                available: buf.len() as usize,
            },
        )
    } else {
        let body = frame_body(buf);
        let ciphertext = body.skip(4);
        if body.len() < 5 {
            Err(PacketReadError::TooShort { actual: body.len() as usize, min: 5 })
        } else if u32_le_at(body, 0) > 0 && u32_le_at(body, 0) != adler32(ciphertext) {
            Err(
                PacketReadError::ChecksumMismatch {
                    expected: u32_le_at(body, 0),
                    actual: adler32(ciphertext),
                },
            )
        } else {
            match xtea_decrypt(ciphertext, key) {
                Err(e) => Err(PacketReadError::XteaDecryption(e)),
                Ok(plain) => {
                    let message = plain.skip(2);
                    if message.len() < 1 {
                        Err(PacketReadError::TooShort { actual: message.len() as usize, min: 1 })
                    } else {
                        match client_kind_of(message[0]) {
                            Some(kind) => Ok((kind, message.skip(1))),
                            None => Err(PacketReadError::UnknownId(message[0])),
                        }
                    }
                },
            }
        }
    }
}

/// The checksum field of the frame at the start of `buf`, where it is not
/// zero.
pub open spec fn carried_checksum(buf: Seq<u8>) -> Option<u32> {
    if u32_le_at(frame_body(buf), 0) > 0 {
        Some(u32_le_at(frame_body(buf), 0))
    } else {
        None
    }
}

/// Every accepted subsequent frame spans its two-byte length prefix and the
/// body that prefix declares, and that body is the four-byte checksum field,
/// then the ciphertext.
pub proof fn lemma_subsequent_frame_conservation(buf: Seq<u8>, max_length: nat, key: XTEAKey)
    requires
        subsequent_frame(buf, max_length, key) is Ok,
    ensures
        holds_frame(buf, max_length),
        declared_body_len(buf) == 4 + frame_body(buf).skip(4).len(),
        frame_body(buf) == buf.subrange(2, 6) + frame_body(buf).skip(4),
{
    assert(frame_body(buf) =~= buf.subrange(2, 6) + frame_body(buf).skip(4));
}

/// Whether `packet` is the subsequent packet of kind `kind` carrying
/// `payload` and the checksum field `checksum`.
pub open spec fn is_subsequent_packet(
    packet: IncomingPacket,
    kind: PacketKind,
    payload: Seq<u8>,
    checksum: Option<u32>,
) -> bool {
    &&& packet.kind == kind
    &&& match (packet.checksum, checksum) {
        (Some(c), Some(d)) => c@ == d,
        (None, None) => true,
        _ => false,
    }
    &&& bytes_content(packet.buffer) == payload
}

/// Accumulates the bytes of a subsequent frame.
pub struct PacketBuffer {
    inner: Vec<u8>,
}

impl View for PacketBuffer {
    type V = Seq<u8>;

    closed spec fn view(&self) -> Seq<u8> {
        self.inner@
    }
}

impl PacketBuffer {
    /// A buffer of `capacity` zero bytes.
    pub fn with_capacity(capacity: usize) -> (r: Self)
        ensures
            r@ == Seq::new(capacity as nat, |i: int| 0u8),
    {
        let mut inner: Vec<u8> = Vec::with_capacity(capacity);
        let mut i: usize = 0;
        while i < capacity
            invariant
                i <= capacity,
                inner@ == Seq::new(i as nat, |j: int| 0u8),
            decreases capacity - i,
        {
            inner.push(0u8);
            i += 1;
            assert(inner@ =~= Seq::new(i as nat, |j: int| 0u8));
        }
        PacketBuffer { inner }
    }

    /// Takes the frame at the start of the buffer out and parses it.
    pub fn take_packet(&mut self, xtea_key: XTEAKey, max_length: usize) -> (r: Result<
        IncomingPacket,
        PacketReadError,
    >)
        ensures
            match (r, subsequent_frame(old(self)@, max_length as nat, xtea_key)) {
                (Ok(packet), Ok((kind, payload))) => is_subsequent_packet(
                    packet,
                    kind,
                    payload,
                    carried_checksum(old(self)@),
                ),
                (Err(e), Err(f)) => e == f,
                _ => false,
            },
            final(self)@ == if holds_frame(old(self)@, max_length as nat) {
                old(self)@.skip(2 + declared_body_len(old(self)@))
            } else {
                old(self)@
            },
    {
        let buffer_length = self.inner.len();
        if buffer_length < PACKET_HEADER_SIZE {
            return Err(
                PacketReadError::IncompletePrefix {
                    available: buffer_length,
                    required: PACKET_HEADER_SIZE,
                },
            );
        }
        let declared_body_len = read_u16_le(self.inner.as_slice(), 0) as usize;
        if declared_body_len == 0 {
            return Err(PacketReadError::EmptyLength);
        }
        let total_len = PACKET_HEADER_SIZE + declared_body_len;
        if total_len > max_length {
            return Err(PacketReadError::LengthOutOfBounds { declared: total_len, max: max_length });
        }
        if buffer_length < total_len {
            return Err(
                PacketReadError::IncompletePacket { required: total_len, available: buffer_length },
            );
        }
        let rest = self.inner.split_off(total_len);
        let frame = self.inner.split_off(0);
        self.inner = rest;
        let ghost body = frame_body(old(self)@);
        assert(frame@.skip(2) =~= body);
        let min_body_len = PACKET_CHECKSUM_SIZE + PACKET_KIND_SIZE;
        if declared_body_len < min_body_len {
            return Err(PacketReadError::TooShort { actual: declared_body_len, min: min_body_len });
        }
        let expected = read_u32_le(frame.as_slice(), PACKET_HEADER_SIZE);
        assert(u32_le_at(body, 0) == expected);
        let ciphertext = slice_subrange(
            frame.as_slice(),
            PACKET_HEADER_SIZE + PACKET_CHECKSUM_SIZE,
            total_len,
        );
        assert(ciphertext@ =~= body.skip(4));
        if expected > 0 {
            let actual = Adler32Checksum::calculate(ciphertext);
            if expected != *actual {
                return Err(PacketReadError::ChecksumMismatch { expected, actual: *actual });
            }
        }
        let decrypted = match decrypt(ciphertext, &xtea_key) {
            Ok(d) => thaw(&d),
            Err(e) => return Err(PacketReadError::XteaDecryption(e)),
        };
        let message = slice_subrange(decrypted.as_slice(), 2, decrypted.len());
        if message.len() < PACKET_KIND_SIZE {
            return Err(PacketReadError::TooShort { actual: message.len(), min: PACKET_KIND_SIZE });
        }
        let raw_kind = message[0];
        let kind = match PacketKind::try_from(raw_kind) {
            Ok(k) => k,
            Err(id) => return Err(PacketReadError::UnknownId(id)),
        };
        let payload = slice_subrange(message, PACKET_KIND_SIZE, message.len());
        assert(payload@ =~= message@.skip(1));
        Ok(
            IncomingPacket {
                timestamp: capture_time(),
                checksum: if expected > 0 {
                    Some(Adler32Checksum::from(expected))
                } else {
                    None
                },
                kind,
                buffer: freeze(slice_to_vec(payload)),
            },
        )
    }

    /// The buffer's bytes, to read into.
    pub fn payload_mut(&mut self) -> (r: &mut [u8])
        ensures
            r@ == old(self)@,
            final(self)@ == final(r)@,
    {
        self.inner.as_mut_slice()
    }

    /// Keeps the first `n` bytes.
    pub fn truncate(&mut self, n: usize)
        ensures
            final(self)@ == if n < old(self)@.len() {
                old(self)@.take(n as int)
            } else {
                old(self)@
            },
    {
        self.inner.truncate(n);
    }

    /// The number of bytes held.
    pub fn payload_len(&self) -> (r: usize)
        ensures
            r == self@.len(),
    {
        self.inner.len()
    }
}

/// Parses the bytes that one read of a subsequent frame delivered (none: the
/// client closed the connection) under the length ceiling `max_length`, with
/// the connection's current key; a read asks for at most `max_length` bytes.
pub fn read_subsequent_packet(received: &[u8], xtea_key: XTEAKey, max_length: usize) -> (r: Result<
    IncomingPacket,
    PacketReadError,
>)
    ensures
        received@.len() == 0 ==> r == Err::<IncomingPacket, PacketReadError>(
            PacketReadError::ConnectionClosed,
        ),
        received@.len() > 0 ==> match (
            r,
            subsequent_frame(delivered(received@, max_length as nat), max_length as nat, xtea_key),
        ) {
            (Ok(packet), Ok((kind, payload))) => is_subsequent_packet(
                packet,
                kind,
                payload,
                carried_checksum(delivered(received@, max_length as nat)),
            ),
            (Err(e), Err(f)) => e == f,
            _ => false,
        },
{
    if received.len() == 0 {
        return Err(PacketReadError::ConnectionClosed);
    }
    let mut buffer = PacketBuffer::with_capacity(max_length);
    let n = if received.len() < max_length {
        received.len()
    } else {
        max_length
    };
    let target = buffer.payload_mut();
    let mut i: usize = 0;
    while i < n
        invariant
            i <= n,
            n <= received@.len(),
            n <= max_length,
            target@.len() == max_length,
            forall|j: int| 0 <= j < i ==> target@[j] == received@[j],
        decreases n - i,
    {
        target[i] = received[i];
        i += 1;
    }
    buffer.truncate(n);
    assert(buffer@ =~= delivered(received@, max_length as nat));
    buffer.take_packet(xtea_key, max_length)
}

} // verus!
