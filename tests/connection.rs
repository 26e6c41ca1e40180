use suon_network::adler32::Adler32Checksum;
use suon_network::connection::{Connection, WriteError};
use suon_network::outgoing::{ChecksumMode, OutgoingPacket};
use suon_network::packets::server::{Encodable, KeepAlivePacket, PacketKind, PingLatencyPacket};
use suon_network::peer::PeerAddr;
use suon_network::settings::PacketPolicy;
use suon_network::xtea::{decrypt, XTEAKey};

const ADDRESS: PeerAddr = PeerAddr::V4 { ip: 0x0A00_0001, port: 7000 };
const KEY: XTEAKey = [1, 2, 3, 4];

fn small_policy(max_length: usize) -> PacketPolicy {
    let mut policy = PacketPolicy::default();
    policy.outgoing.max_length = max_length;
    policy
}

#[test]
fn writes_are_coalesced_until_flush() {
    let mut connection = Connection::new(ADDRESS, PacketPolicy::default());
    assert_eq!(connection.write(KeepAlivePacket), Ok(1));
    assert_eq!(connection.write(PingLatencyPacket), Ok(1));
    assert!(connection.take_outgoing().is_empty());
    assert_eq!(connection.flush(), Some(2));
    assert_eq!(connection.flush(), None);
    let batches = connection.take_outgoing();
    assert_eq!(batches.len(), 1);
    let frame = batches.into_iter().next().unwrap().encode().unwrap();
    assert_eq!(&frame[8..], &[29, 30]);
}

#[test]
fn write_flushes_when_the_batch_would_overflow() {
    let mut connection = Connection::new(ADDRESS, small_policy(3));
    assert_eq!(connection.write_bytes(bytes::Bytes::from_static(&[1, 2])), Ok(2));
    assert_eq!(connection.write_bytes(bytes::Bytes::from_static(&[3, 4])), Ok(2));
    let batches = connection.take_outgoing();
    assert_eq!(batches.len(), 1);
    assert_eq!(connection.flush(), Some(2));
}

#[test]
fn oversized_packet_is_refused() {
    let mut connection = Connection::new(ADDRESS, small_policy(3));
    assert_eq!(
        connection.write_bytes(bytes::Bytes::from_static(&[1, 2, 3, 4])),
        Err(WriteError::Exceed { packet_len: 4 })
    );
    assert_eq!(connection.flush(), None);
}

#[test]
fn flushed_batch_carries_key_and_is_encrypted() {
    let mut connection = Connection::new(ADDRESS, PacketPolicy::default());
    connection.set_xtea_key(KEY);
    assert_eq!(connection.addr(), ADDRESS);
    connection.write(KeepAlivePacket).unwrap();
    connection.flush();
    let frame = connection.take_outgoing().pop().unwrap().encode().unwrap();
    assert_eq!(frame.len(), 2 + 4 + 2 + 8);
    assert_eq!(u16::from_le_bytes([frame[0], frame[1]]), 14);
    assert_eq!(u16::from_le_bytes([frame[6], frame[7]]), 8);
    assert_ne!(&frame[8..9], &[29]);
}

#[test]
fn outgoing_frame_layout_without_key() {
    let frame = OutgoingPacket::new(bytes::Bytes::from_static(&[29, 5, 6])).encode().unwrap();
    let sum = *Adler32Checksum::calculate(&[3, 0, 29, 5, 6]);
    let mut expected = 9u16.to_le_bytes().to_vec();
    expected.extend_from_slice(&sum.to_le_bytes());
    expected.extend_from_slice(&[3, 0, 29, 5, 6]);
    assert_eq!(frame.as_ref(), &expected[..]);
}

#[test]
fn outgoing_frame_with_key_encrypts_payload() {
    let mut packet = OutgoingPacket::new(bytes::Bytes::from_static(&[2, 0, 29, 7]));
    packet.xtea_key(KEY);
    let frame = packet.encode().unwrap();
    assert_eq!(frame.len(), 16);
    let plain = decrypt(&frame[8..], &KEY).unwrap();
    assert_eq!(plain.as_ref(), &[2, 0, 29, 7]);
}

#[test]
fn sequence_checksum_mode_is_not_encoded() {
    let mut packet = OutgoingPacket::new(bytes::Bytes::from_static(&[29]));
    packet.checksum_mode(ChecksumMode::Sequence(3));
    assert!(packet.encode().is_none());
}

#[test]
fn checksum_mode_travels_with_the_batch() {
    let mut connection = Connection::new(ADDRESS, PacketPolicy::default());
    connection.set_checksum_mode(ChecksumMode::Sequence(0));
    connection.write(KeepAlivePacket).unwrap();
    connection.flush();
    assert!(connection.take_outgoing().pop().unwrap().encode().is_none());
}

struct Greeting;

impl Encodable for Greeting {
    const KIND: PacketKind = PacketKind::PingLatency;

    fn encode(self) -> Option<bytes::Bytes> {
        Some(bytes::Bytes::from_static(&[7, 8]))
    }
}

#[test]
fn write_queues_kind_byte_and_payload() {
    let mut connection = Connection::new(ADDRESS, PacketPolicy::default());
    assert_eq!(connection.write(Greeting), Ok(3));
    assert_eq!(connection.write(KeepAlivePacket), Ok(1));
    assert_eq!(connection.flush(), Some(4));
    let frame = connection.take_outgoing().pop().unwrap().encode().unwrap();
    assert_eq!(&frame[6..], &[4, 0, 30, 7, 8, 29]);
}
