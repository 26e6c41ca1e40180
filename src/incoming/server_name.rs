use vstd::prelude::*;

use crate::frozen::{bytes_content, freeze};
use crate::incoming::{capture_time, IncomingPacket, PACKET_HEADER_SIZE};
use crate::le_bytes::{u16_le_bytes, write_u16_le_at};
use crate::packets::client::PacketKind;

verus! {

/// Errors of the server-name frame.
#[derive(Debug, Clone, Copy, PartialEq, Eq, Structural)]
pub enum PacketReadError {
    /// The client closed the connection before sending the frame.
    ConnectionClosed,
    /// More bytes arrived than the frame may hold.
    LengthOutOfBounds { max: usize, buffer_len: usize },
    /// The frame ended without its newline terminator.
    MissingTerminator,
}

/// The terminator of a regular server-name frame.
pub const NEWLINE_TERMINATOR: u8 = 0x0A;

/// Accumulates a server-name frame behind a two-byte prefix that receives the
/// payload length once the frame is complete.
pub struct PacketBuffer {
    inner: Vec<u8>,
    empty_packet_checked: bool,
}

/// Whether `payload` is the special empty server-name frame: a zero at its
/// second byte.
pub open spec fn is_empty_probe(payload: Seq<u8>) -> bool {
    payload.len() > 1 && payload[1] == 0
}

/// The bytes a finished server-name packet carries: the little-endian 16-bit
/// payload length (its low 16 bits), then the payload.
pub open spec fn server_name_packet_bytes(payload: Seq<u8>) -> Seq<u8> {
    u16_le_bytes(payload.len() as u16) + payload
}

/// The payload of the server-name packet that the received bytes form, if
/// any: the empty probe as it is, otherwise a frame ending in a newline
/// without its terminator.
pub open spec fn server_name_payload(received: Seq<u8>) -> Option<Seq<u8>> {
    if is_empty_probe(received) {
        Some(received)
    } else if received.len() > 0 && received.last() == NEWLINE_TERMINATOR {
        Some(received.drop_last())
    } else {
        None
    }
}

/// The outcome of a read of `received` bytes into a server-name frame of at
/// most `max_length` payload bytes: the packet's bytes, or the error.
pub open spec fn server_name_frame(received: Seq<u8>, max_length: nat) -> Result<Seq<u8>, PacketReadError> {
    if received.len() == 0 {
        Err(PacketReadError::ConnectionClosed)
    } else if received.len() > max_length {
        Err(PacketReadError::LengthOutOfBounds { max: max_length as usize, buffer_len: received.len() as usize })
    } else {
        match server_name_payload(received) {
            Some(p) => Ok(server_name_packet_bytes(p)),
            None => Err(PacketReadError::MissingTerminator),
        }
    }
}

/// Whether `packet` is the server-name packet carrying `bytes`.
pub open spec fn is_server_name_packet(packet: IncomingPacket, bytes: Seq<u8>) -> bool {
    &&& packet.kind == PacketKind::ServerName
    &&& packet.checksum is None
    &&& bytes_content(packet.buffer) == bytes
}

impl PacketBuffer {
    /// The bytes after the length prefix.
    pub closed spec fn payload(&self) -> Seq<u8> {
        if self.inner@.len() >= 2 {
            self.inner@.skip(2)
        } else {
            Seq::empty()
        }
    }

    /// Whether the empty-probe check has been made.
    pub closed spec fn checked(&self) -> bool {
        self.empty_packet_checked
    }

    /// Whether a packet has been taken out, leaving nothing behind.
    pub closed spec fn spent(&self) -> bool {
        self.inner@.len() == 0
    }

    /// The length prefix is in place and still zero, unless a packet has been
    /// taken out.
    pub closed spec fn wf(&self) -> bool {
        self.inner@.len() == 0 || (self.inner@.len() >= 2 && self.inner@[0] == 0 && self.inner@[1]
            == 0)
    }

    /// A buffer with `capacity` zeroed payload bytes after the prefix.
    pub fn with_capacity(capacity: usize) -> (r: Self)
        requires
            capacity + 2 <= usize::MAX,
        ensures
            r.wf(),
            !r.spent(),
            r.payload() == Seq::new(capacity as nat, |i: int| 0u8),
            !r.checked(),
    {
        let total = capacity + PACKET_HEADER_SIZE;
        let mut inner: Vec<u8> = Vec::with_capacity(total);
        let mut i: usize = 0;
        while i < total
            invariant
                i <= total,
                inner@ == Seq::new(i as nat, |j: int| 0u8),
            decreases total - i,
        {
            inner.push(0u8);
            i += 1;
            assert(inner@ =~= Seq::new(i as nat, |j: int| 0u8));
        }
        let r = PacketBuffer { inner, empty_packet_checked: false };
        assert(r.payload() =~= Seq::new(capacity as nat, |i: int| 0u8));
        r
    }

    /// The payload region, to read bytes into.
    pub fn payload_mut(&mut self) -> (r: &mut [u8])
        requires
            old(self).wf(),
            !old(self).spent(),
        ensures
            r@ == old(self).payload(),
            final(self).wf(),
            !final(self).spent(),
            final(self).payload() == final(r)@,
            final(self).checked() == old(self).checked(),
    {
        let (_, payload) = self.inner.as_mut_slice().split_at_mut(PACKET_HEADER_SIZE);
        assert(payload@ =~= old(self).payload());
        payload
    }

    /// Keeps the first `n` payload bytes.
    pub fn truncate(&mut self, n: usize)
        requires
            old(self).wf(),
        ensures
            final(self).wf(),
            final(self).spent() == old(self).spent(),
            final(self).checked() == old(self).checked(),
            final(self).payload() == if n < old(self).payload().len() {
                old(self).payload().take(n as int)
            } else {
                old(self).payload()
            },
    {
        let n = n.saturating_add(PACKET_HEADER_SIZE);
        self.inner.truncate(n);
        assert(final(self).payload() =~= if n - 2 < old(self).payload().len() {
            old(self).payload().take(n - 2)
        } else {
            old(self).payload()
        });
    }

    /// The number of payload bytes.
    pub fn payload_len(&self) -> (r: usize)
        ensures
            r == self.payload().len(),
    {
        self.inner.len().saturating_sub(PACKET_HEADER_SIZE)
    }

    /// Writes the payload length into the prefix and hands out the whole
    /// buffer as a server-name packet.
    fn build_packet(&mut self) -> (r: IncomingPacket)
        requires
            old(self).wf(),
            !old(self).spent(),
        ensures
            is_server_name_packet(r, server_name_packet_bytes(old(self).payload())),
            final(self).spent(),
            final(self).checked() == old(self).checked(),
    {
        let payload_length = self.payload_len() as u16;
        write_u16_le_at(&mut self.inner, 0, payload_length);
        let bytes = self.inner.split_off(0);
        assert(bytes@ =~= server_name_packet_bytes(old(self).payload()));
        IncomingPacket {
            timestamp: capture_time(),
            checksum: None,
            kind: PacketKind::ServerName,
            buffer: freeze(bytes),
        }
    }

    /// Takes out the finished frame, if there is one: the empty probe (looked
    /// for once), or a frame that ends in a newline, without its terminator.
    pub fn take_packet(&mut self) -> (r: Option<IncomingPacket>)
        requires
            old(self).wf(),
        ensures
            final(self).wf(),
            final(self).checked(),
            ({
                let p = old(self).payload();
                if old(self).spent() {
                    r is None && final(self).spent()
                } else if !old(self).checked() && is_empty_probe(p) {
                    r matches Some(packet) && is_server_name_packet(
                        packet,
                        server_name_packet_bytes(p),
                    ) && final(self).spent()
                } else if p.len() > 0 && p.last() == NEWLINE_TERMINATOR {
                    r matches Some(packet) && is_server_name_packet(
                        packet,
                        server_name_packet_bytes(p.drop_last()),
                    ) && final(self).spent()
                } else {
                    r is None && !final(self).spent() && final(self).payload() == p
                }
            }),
    {
        let buffer_length = self.inner.len();
        if !self.empty_packet_checked {
            self.empty_packet_checked = true;
            if self.payload_len() > 1 && self.inner[PACKET_HEADER_SIZE + 1] == 0 {
                return Some(self.build_packet());
            }
        }
        if buffer_length == 0 {
            return None;
        }
        if self.inner[buffer_length - 1] != NEWLINE_TERMINATOR {
            return None;
        }
        assert(buffer_length >= 3);
        self.inner.truncate(buffer_length - 1);
        assert(self.payload() =~= old(self).payload().drop_last());
        Some(self.build_packet())
    }
}

/// Parses the bytes that one read of the first frame delivered (none: the
/// client closed the connection), for a frame of at most `max_length`
/// payload bytes.
pub fn read_server_name_packet(received: &[u8], max_length: usize) -> (r: Result<
    IncomingPacket,
    PacketReadError,
>)
    requires
        max_length + 2 <= usize::MAX,
    ensures
        match (r, server_name_frame(received@, max_length as nat)) {
            (Ok(packet), Ok(bytes)) => is_server_name_packet(packet, bytes),
            (Err(e), Err(f)) => e == f,
            _ => false,
        },
{
    let n = received.len();
    if n == 0 {
        return Err(PacketReadError::ConnectionClosed);
    }
    if n > max_length {
        return Err(PacketReadError::LengthOutOfBounds { max: max_length, buffer_len: n });
    }
    let mut buffer = PacketBuffer::with_capacity(max_length);
    let payload = buffer.payload_mut();
    let mut i: usize = 0;
    while i < n
        invariant
            i <= n,
            n == received@.len(),
            n <= max_length,
            payload@.len() == max_length,
            forall|j: int| 0 <= j < i ==> payload@[j] == received@[j],
        decreases n - i,
    {
        payload[i] = received[i];
        i += 1;
    }
    buffer.truncate(n);
    assert(buffer.payload() =~= received@);
    match buffer.take_packet() {
        Some(packet) => Ok(packet),
        None => Err(PacketReadError::MissingTerminator),
    }
}

} // verus!
