use vstd::prelude::*;

use crate::frozen::{bytes_content, freeze, thaw};
use crate::outgoing::{ChecksumMode, OutgoingPacket};
use crate::packets::server::{server_kind_code, with_kind, Encodable};
use crate::peer::PeerAddr;
use crate::settings::PacketPolicy;
use crate::xtea::XTEAKey;

verus! {

/// Why a packet could not be queued.
#[derive(Debug, Clone, Copy, PartialEq, Eq, Structural)]
pub enum WriteError {
    /// The packet alone is longer than a batch may be.
    Exceed { packet_len: usize },
    /// The lock around the connection could not be taken (raised by callers
    /// that share a connection between threads).
    LockFailed,
}

/// The server's side of one client connection: the batch of packets written
/// since the last flush, the key and checksum mode replies go out under, and
/// the finished batches waiting to be sent.
pub struct Connection {
    addr: PeerAddr,
    buffer: Vec<u8>,
    xtea_key: Option<XTEAKey>,
    checksum_mode: Option<ChecksumMode>,
    packet_policy: PacketPolicy,
    outbox: Vec<OutgoingPacket>,
}

/// Whether `p` is the batch that a flush of `c` hands out.
pub open spec fn is_batch_of(p: OutgoingPacket, c: Connection) -> bool {
    &&& p.content() == c.buffered()
    &&& p.key() == c.key()
    &&& p.mode() == match c.mode() {
        Some(m) => m,
        None => ChecksumMode::Adler32,
    }
}

/// Whether `after` is `before` once the encoded packet `e` has been written,
/// with outcome `r`: a packet longer than a batch is refused; one that does
/// not fit after the pending bytes first flushes them.
pub open spec fn write_effect(
    before: Connection,
    after: Connection,
    e: Seq<u8>,
    r: Result<usize, WriteError>,
) -> bool {
    let max = before.policy().outgoing.max_length;
    &&& after.policy() == before.policy()
    &&& after.key() == before.key()
    &&& after.mode() == before.mode()
    &&& after.spec_addr() == before.spec_addr()
    &&& if e.len() > max {
        &&& r == Err::<usize, WriteError>(WriteError::Exceed { packet_len: e.len() as usize })
        &&& after.buffered() == before.buffered()
        &&& after.sent() == before.sent()
    } else if before.buffered().len() + e.len() > max && before.buffered().len() > 0 {
        &&& r == Ok::<usize, WriteError>(e.len() as usize)
        &&& after.buffered() == e
        &&& after.sent().len() == before.sent().len() + 1
        &&& after.sent().drop_last() == before.sent()
        &&& is_batch_of(after.sent().last(), before)
    } else {
        &&& r == Ok::<usize, WriteError>(e.len() as usize)
        &&& after.buffered() == before.buffered() + e
        &&& after.sent() == before.sent()
    }
}

impl Connection {
    /// The bytes written since the last flush.
    pub closed spec fn buffered(&self) -> Seq<u8> {
        self.buffer@
    }

    /// The batches flushed and not yet taken out, oldest first.
    pub closed spec fn sent(&self) -> Seq<OutgoingPacket> {
        self.outbox@
    }

    /// The key replies are encrypted with, once set.
    pub closed spec fn key(&self) -> Option<XTEAKey> {
        self.xtea_key
    }

    /// The checksum mode replies are sent under, once set.
    pub closed spec fn mode(&self) -> Option<ChecksumMode> {
        self.checksum_mode
    }

    /// The packet limits of the connection.
    pub closed spec fn policy(&self) -> PacketPolicy {
        self.packet_policy
    }

    /// The client's address.
    pub closed spec fn spec_addr(&self) -> PeerAddr {
        self.addr
    }

    /// A connection to `addr` with nothing written, no key and no checksum
    /// mode.
    pub fn new(addr: PeerAddr, packet_policy: PacketPolicy) -> (r: Self)
        ensures
            r.spec_addr() == addr,
            r.policy() == packet_policy,
            r.buffered().len() == 0,
            r.sent().len() == 0,
            r.key() is None,
            r.mode() is None,
    {
        Connection {
            addr,
            buffer: Vec::new(),
            xtea_key: None,
            checksum_mode: None,
            packet_policy,
            outbox: Vec::new(),
        }
    }

    /// Encodes `packet` with its kind byte and adds it to the pending batch.
    pub fn write<P: Encodable>(&mut self, packet: P) -> (r: Result<usize, WriteError>)
        ensures
            write_effect(
                *old(self),
                *final(self),
                with_kind(server_kind_code(P::KIND), packet.payload()),
                r,
            ),
    {
        let encoded = packet.encode_with_kind();
        let r = self.write_bytes(encoded);
        assert(write_effect(*old(self), *self, bytes_content(encoded), r));
        r
    }

    /// Adds the encoded packet `encoded` (kind byte, then payload) to the
    /// pending batch, flushing the batch first where the packet would not fit
    /// after it.
    pub fn write_bytes(&mut self, encoded: bytes::Bytes) -> (r: Result<usize, WriteError>)
        ensures
            write_effect(*old(self), *final(self), bytes_content(encoded), r),
    {
        let encoded = thaw(&encoded);
        let encoded_len = encoded.len();
        let max_length = self.packet_policy.outgoing.max_length;
        if encoded_len > max_length {
            return Err(WriteError::Exceed { packet_len: encoded_len });
        }
        if self.buffer.len() > max_length - encoded_len {
            self.flush_buffer();
        }
        let ghost flushed = self.buffer@;
        self.buffer.extend_from_slice(encoded.as_slice());
        assert(self.buffer@ == flushed + encoded@);
        Ok(encoded_len)
    }

    /// Sets the key that later batches are encrypted with.
    pub fn set_xtea_key(&mut self, key: XTEAKey)
        ensures
            final(self).key() == Some(key),
            final(self).mode() == old(self).mode(),
            final(self).buffered() == old(self).buffered(),
            final(self).sent() == old(self).sent(),
            final(self).policy() == old(self).policy(),
            final(self).spec_addr() == old(self).spec_addr(),
    {
        self.xtea_key = Some(key);
    }

    /// Sets the checksum mode that later batches are sent under.
    pub fn set_checksum_mode(&mut self, mode: ChecksumMode)
        ensures
            final(self).mode() == Some(mode),
            final(self).key() == old(self).key(),
            final(self).buffered() == old(self).buffered(),
            final(self).sent() == old(self).sent(),
            final(self).policy() == old(self).policy(),
            final(self).spec_addr() == old(self).spec_addr(),
    {
        self.checksum_mode = Some(mode);
    }

    /// The client's address.
    pub fn addr(&self) -> (r: PeerAddr)
        ensures
            r == self.spec_addr(),
    {
        self.addr
    }

    /// Hands the pending batch out for sending: the number of its bytes, or
    /// `None` where nothing is pending.
    pub fn flush(&mut self) -> (r: Option<usize>)
        ensures
            final(self).key() == old(self).key(),
            final(self).mode() == old(self).mode(),
            final(self).policy() == old(self).policy(),
            final(self).spec_addr() == old(self).spec_addr(),
            final(self).buffered().len() == 0,
            old(self).buffered().len() == 0 ==> r is None && final(self).sent() == old(self).sent(),
            old(self).buffered().len() > 0 ==> {
                &&& r == Some(old(self).buffered().len() as usize)
                &&& final(self).sent().len() == old(self).sent().len() + 1
                &&& final(self).sent().drop_last() == old(self).sent()
                &&& is_batch_of(final(self).sent().last(), *old(self))
            },
    {
        self.flush_buffer()
    }

    fn flush_buffer(&mut self) -> (r: Option<usize>)
        ensures
            final(self).key() == old(self).key(),
            final(self).mode() == old(self).mode(),
            final(self).policy() == old(self).policy(),
            final(self).spec_addr() == old(self).spec_addr(),
            final(self).buffered().len() == 0,
            old(self).buffered().len() == 0 ==> r is None && final(self).sent() == old(self).sent(),
            old(self).buffered().len() > 0 ==> {
                &&& r == Some(old(self).buffered().len() as usize)
                &&& final(self).sent().len() == old(self).sent().len() + 1
                &&& final(self).sent().drop_last() == old(self).sent()
                &&& is_batch_of(final(self).sent().last(), *old(self))
            },
    {
        if self.buffer.len() == 0 {
            return None;
        }
        let bytes = self.buffer.split_off(0);
        let bytes_len = bytes.len();
        let mut packet = OutgoingPacket::new(freeze(bytes));
        assert(packet.content() == old(self).buffered());
        if let Some(xtea_key) = self.xtea_key {
            packet.xtea_key(xtea_key);
        }
        assert(packet.key() == old(self).key());
        assert(packet.content() == old(self).buffered());
        if let Some(checksum_mode) = self.checksum_mode {
            packet.checksum_mode(checksum_mode);
        }
        assert(is_batch_of(packet, *old(self)));
        self.outbox.push(packet);
        proof {
            assert(self.outbox@.drop_last() =~= old(self).outbox@);
        }
        Some(bytes_len)
    }

    /// Takes out the flushed batches, oldest first, for sending.
    pub fn take_outgoing(&mut self) -> (r: Vec<OutgoingPacket>)
        ensures
            r@ == old(self).sent(),
            final(self).sent().len() == 0,
            final(self).buffered() == old(self).buffered(),
            final(self).key() == old(self).key(),
            final(self).mode() == old(self).mode(),
            final(self).policy() == old(self).policy(),
            final(self).spec_addr() == old(self).spec_addr(),
    {
        self.outbox.split_off(0)
    }
}

} // verus!
