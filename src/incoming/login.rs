use vstd::prelude::*;
use vstd::slice::{slice_subrange, slice_to_vec};

use crate::adler32::{adler32, Adler32Checksum};
use crate::frozen::{bytes_content, freeze};
use crate::incoming::{capture_time, IncomingPacket, PACKET_CHECKSUM_SIZE, PACKET_HEADER_SIZE};
use crate::le_bytes::{read_u16_le, read_u32_le, u16_le_at, u32_le_at};
use crate::packets::client::PacketKind;
use crate::packets::PACKET_KIND_SIZE;

verus! {

/// Errors of the login frame.
#[derive(Debug, Clone, Copy, PartialEq, Eq, Structural)]
pub enum PacketReadError {
    /// The client closed the connection before sending the frame.
    ConnectionClosed,
    /// Fewer bytes than the length prefix arrived.
    IncompletePrefix { available: usize, required: usize },
    /// Fewer bytes than the declared frame arrived.
    IncompletePacket { required: usize, available: usize },
    /// The body cannot hold a checksum and a kind byte.
    TooShort { actual: usize, min: usize },
    /// The declared body length is zero.
    EmptyLength,
    /// The declared frame is longer than allowed.
    LengthOutOfBounds { declared: usize, max: usize },
    /// The checksum field does not match the payload.
    ChecksumMismatch { expected: u32, actual: u32 },
    /// The kind byte is not that of a login packet.
    UnknownId(u8),
}

/// The declared body length of the frame at the start of `buf`.
pub open spec fn declared_body_len(buf: Seq<u8>) -> int {
    u16_le_at(buf, 0) as int
}

/// Whether `buf` holds a whole frame of declared length within `max_length`:
/// the frame that a parse takes out of the buffer.
pub open spec fn holds_frame(buf: Seq<u8>, max_length: nat) -> bool {
    &&& buf.len() >= 2
    &&& declared_body_len(buf) != 0
    &&& 2 + declared_body_len(buf) <= max_length
    &&& buf.len() >= 2 + declared_body_len(buf)
}

/// The body of the frame at the start of `buf`.
pub open spec fn frame_body(buf: Seq<u8>) -> Seq<u8> {
    buf.subrange(2, 2 + declared_body_len(buf))
}

/// The outcome of parsing a login frame from `buf` under the length ceiling
/// `max_length`: the payload after the checksum and kind byte, or the error.
pub open spec fn login_frame(buf: Seq<u8>, max_length: nat) -> Result<Seq<u8>, PacketReadError> {
    if buf.len() < 2 {
        Err(PacketReadError::IncompletePrefix { available: buf.len() as usize, required: 2 })
    } else if declared_body_len(buf) == 0 {
        Err(PacketReadError::EmptyLength)
    } else if 2 + declared_body_len(buf) > max_length {
        Err(
            PacketReadError::LengthOutOfBounds {
                declared: (2 + declared_body_len(buf)) as usize,
                max: max_length as usize,
            },
        )
    } else if buf.len() < 2 + declared_body_len(buf) {
        Err(
            PacketReadError::IncompletePacket {
                required: (2 + declared_body_len(buf)) as usize,
                available: buf.len() as usize,
            },
        )
    } else {
        let body = frame_body(buf);
        let payload = body.skip(5);
        if body.len() < 5 {
            Err(PacketReadError::TooShort { actual: body.len() as usize, min: 5 })
        } else if u32_le_at(body, 0) > 0 && u32_le_at(body, 0) != adler32(payload) {
            Err(
                PacketReadError::ChecksumMismatch {
                    expected: u32_le_at(body, 0),
                    actual: adler32(payload),
                },
            )
        } else if body[4] != 10 {
            Err(PacketReadError::UnknownId(body[4]))
        } else {
            Ok(payload)
        }
    }
}

/// Every accepted login frame spans its two-byte length prefix and the body
/// that prefix declares, and that body is the four-byte checksum field and the
/// kind byte, then the payload.
pub proof fn lemma_login_frame_conservation(buf: Seq<u8>, max_length: nat)
    requires
        login_frame(buf, max_length) is Ok,
    ensures
        holds_frame(buf, max_length),
        declared_body_len(buf) == 4 + 1 + login_frame(buf, max_length)->Ok_0.len(),
        frame_body(buf) == buf.subrange(2, 7) + login_frame(buf, max_length)->Ok_0,
{
    assert(frame_body(buf) =~= buf.subrange(2, 7) + login_frame(buf, max_length)->Ok_0);
}

/// Whether `packet` is the login packet carrying `payload`.
pub open spec fn is_login_packet(packet: IncomingPacket, payload: Seq<u8>) -> bool {
    &&& packet.kind == PacketKind::Login
    &&& packet.checksum is None
    &&& bytes_content(packet.buffer) == payload
}

/// Accumulates the bytes of a login frame.
pub struct PacketBuffer {
    inner: Vec<u8>,
}

impl View for PacketBuffer {
    type V = Seq<u8>;

    closed spec fn view(&self) -> Seq<u8> {
        self.inner@
    }
}

impl PacketBuffer {
    /// A buffer of `capacity` zero bytes.
    pub fn with_capacity(capacity: usize) -> (r: Self)
        ensures
            r@ == Seq::new(capacity as nat, |i: int| 0u8),
    {
        let mut inner: Vec<u8> = Vec::with_capacity(capacity);
        let mut i: usize = 0;
        while i < capacity
            invariant
                i <= capacity,
                inner@ == Seq::new(i as nat, |j: int| 0u8),
            decreases capacity - i,
        {
            inner.push(0u8);
            i += 1;
            assert(inner@ =~= Seq::new(i as nat, |j: int| 0u8));
        }
        PacketBuffer { inner }
    }

    /// Takes the frame at the start of the buffer out and parses it.
    pub fn take_packet(&mut self, max_length: usize) -> (r: Result<IncomingPacket, PacketReadError>)
        ensures
            match (r, login_frame(old(self)@, max_length as nat)) {
                (Ok(packet), Ok(payload)) => is_login_packet(packet, payload),
                (Err(e), Err(f)) => e == f,
                _ => false,
            },
            final(self)@ == if holds_frame(old(self)@, max_length as nat) {
                old(self)@.skip(2 + declared_body_len(old(self)@))
            } else {
                old(self)@
            },
    {
        let buffer_length = self.inner.len();
        if buffer_length < PACKET_HEADER_SIZE {
            return Err(
                PacketReadError::IncompletePrefix {
                    available: buffer_length,
                    required: PACKET_HEADER_SIZE,
                },
            );
        }
        let declared_body_len = read_u16_le(self.inner.as_slice(), 0) as usize;
        if declared_body_len == 0 {
            return Err(PacketReadError::EmptyLength);
        }
        let total_len = PACKET_HEADER_SIZE + declared_body_len;
        if total_len > max_length {
            return Err(PacketReadError::LengthOutOfBounds { declared: total_len, max: max_length });
        }
        if buffer_length < total_len {
            return Err(
                PacketReadError::IncompletePacket { required: total_len, available: buffer_length },
            );
        }
        let rest = self.inner.split_off(total_len);
        let frame = self.inner.split_off(0);
        self.inner = rest;
        let ghost body = frame_body(old(self)@);
        assert(frame@.skip(2) =~= body);
        let min_body_len = PACKET_CHECKSUM_SIZE + PACKET_KIND_SIZE;
        if declared_body_len < min_body_len {
            return Err(PacketReadError::TooShort { actual: declared_body_len, min: min_body_len });
        }
        let expected = read_u32_le(frame.as_slice(), PACKET_HEADER_SIZE);
        assert(u32_le_at(body, 0) == expected);
        let payload = slice_subrange(frame.as_slice(), PACKET_HEADER_SIZE + min_body_len, total_len);
        assert(payload@ =~= body.skip(5));
        if expected > 0 {
            let actual = Adler32Checksum::calculate(payload);
            if expected != *actual {
                return Err(PacketReadError::ChecksumMismatch { expected, actual: *actual });
            }
        }
        let raw_kind = frame[PACKET_HEADER_SIZE + PACKET_CHECKSUM_SIZE];
        let kind = match PacketKind::try_from(raw_kind) {
            Ok(k) => k,
            Err(_) => return Err(PacketReadError::UnknownId(raw_kind)),
        };
        if kind != PacketKind::Login {
            return Err(PacketReadError::UnknownId(raw_kind));
        }
        Ok(
            IncomingPacket {
                timestamp: capture_time(),
                checksum: None,
                kind,
                buffer: freeze(slice_to_vec(payload)),
            },
        )
    }

    /// The buffer's bytes, to read into.
    pub fn payload_mut(&mut self) -> (r: &mut [u8])
        ensures
            r@ == old(self)@,
            final(self)@ == final(r)@,
    {
        self.inner.as_mut_slice()
    }

    /// Keeps the first `n` bytes.
    pub fn truncate(&mut self, n: usize)
        ensures
            final(self)@ == if n < old(self)@.len() {
                old(self)@.take(n as int)
            } else {
                old(self)@
            },
    {
        self.inner.truncate(n);
    }

    /// The number of bytes held.
    pub fn payload_len(&self) -> (r: usize)
        ensures
            r == self@.len(),
    {
        self.inner.len()
    }
}

/// The bytes that one read of the login frame delivers, when at most
/// `max_length` bytes are asked for.
pub open spec fn delivered(received: Seq<u8>, max_length: nat) -> Seq<u8> {
    if received.len() > max_length {
        received.take(max_length as int)
    } else {
        received
    }
}

/// Parses the bytes that one read of the second frame delivered (none: the
/// client closed the connection) under the length ceiling `max_length`; a
/// read asks for at most `max_length` bytes.
pub fn read_login_packet(received: &[u8], max_length: usize) -> (r: Result<
    IncomingPacket,
    PacketReadError,
>)
    ensures
        received@.len() == 0 ==> r == Err::<IncomingPacket, PacketReadError>(
            PacketReadError::ConnectionClosed,
        ),
        received@.len() > 0 ==> match (r, login_frame(delivered(received@, max_length as nat), max_length as nat)) {
            (Ok(packet), Ok(payload)) => is_login_packet(packet, payload),
            (Err(e), Err(f)) => e == f,
            _ => false,
        },
{
    if received.len() == 0 {
        return Err(PacketReadError::ConnectionClosed);
    }
    let mut buffer = PacketBuffer::with_capacity(max_length);
    let n = if received.len() < max_length {
        received.len()
    } else {
        max_length
    };
    let target = buffer.payload_mut();
    let mut i: usize = 0;
    while i < n
        invariant
            i <= n,
            n <= received@.len(),
            n <= max_length,
            target@.len() == max_length,
            forall|j: int| 0 <= j < i ==> target@[j] == received@[j],
        decreases n - i,
    {
        target[i] = received[i];
        i += 1;
    }
    buffer.truncate(n);
    assert(buffer@ =~= delivered(received@, max_length as nat));
    buffer.take_packet(max_length)
}

} // verus!
