use suon_network::packets::client::{Decodable, DecodableError, PacketKind};
use suon_network::incoming::IncomingPacket;
use suon_network::packet::{DecodeError, Packet as ClientPacket};
use suon_network::packets::client::{KeepAlivePacket, PingLatencyPacket};

#[derive(Debug)]
struct Packet;

impl Decodable for Packet {
    const KIND: PacketKind = PacketKind::PingLatency;

    fn decode(bytes: &mut &[u8]) -> Result<Self, DecodableError> {
        if bytes.is_empty() {
            Err(DecodableError::Decoder(
                suon_network::decoder::DecoderError::Incomplete {
                    expected: 1,
                    available: 0,
                },
            ))
        } else {
            Ok(Packet)
        }
    }
}

#[test]
fn decode_packet_returns_error_on_empty_buffer() {
    let mut buffer: &[u8] = &[];

    let error = Packet::decode(&mut buffer)
        .expect_err("Expected DecoderError::Incomplete for empty buffer");

    match error {
        DecodableError::Decoder(suon_network::decoder::DecoderError::Incomplete {
            expected,
            available,
        }) => {
            assert!(
                expected == 1,
                "Expected 1 byte to be required, got {}",
                expected
            );
            assert!(
                available == 0,
                "Expected 0 bytes available, got {}",
                available
            );
        }
        other => {
            panic!("Unexpected error variant: {:?}", other);
        }
    }
}

#[test]
fn decode_packet_succeeds_with_non_empty_buffer() {
    const PAYLOAD: &[u8] = &[42];

    let mut buffer: &[u8] = PAYLOAD;

    let packet_result = Packet::decode(&mut buffer);
    assert!(
        packet_result.is_ok(),
        "Decoding should succeed with non-empty buffer"
    );

    let packet = packet_result.unwrap();
    assert!(
        matches!(packet, Packet),
        "Decoded packet should be of type Packet"
    );
}

#[test]
fn client_kind_codes_round_trip() {
    for (code, kind) in [
        (0u8, PacketKind::ServerName),
        (10, PacketKind::Login),
        (20, PacketKind::Logout),
        (29, PacketKind::PingLatency),
        (30, PacketKind::KeepAlive),
    ] {
        assert_eq!(PacketKind::try_from(code), Ok(kind));
        assert_eq!(kind.code(), code);
    }
}

#[test]
fn unknown_client_kind_is_rejected() {
    assert_eq!(PacketKind::try_from(11u8), Err(11));
    assert_eq!(PacketKind::try_from(255u8), Err(255));
}

#[test]
fn payloadless_client_packets_decode_without_reading() {
    let data = [1u8, 2];
    let mut buffer: &[u8] = &data;
    assert!(KeepAlivePacket::decode(&mut buffer).is_ok());
    assert!(PingLatencyPacket::decode(&mut buffer).is_ok());
    assert_eq!(buffer.len(), 2);
}

fn incoming(kind: PacketKind, payload: &'static [u8]) -> ClientPacket {
    ClientPacket::new(
        3,
        IncomingPacket {
            timestamp: std::time::Instant::now(),
            checksum: None,
            kind,
            buffer: bytes::Bytes::from_static(payload),
        },
    )
}

#[test]
fn packet_decode_checks_kind() {
    let packet = incoming(PacketKind::KeepAlive, &[]);
    assert!(matches!(
        packet.decode::<Packet>(),
        Err(DecodeError::KindMismatch { expected: PacketKind::PingLatency, found: PacketKind::KeepAlive })
    ));
    assert_eq!(packet.client(), 3);
}

#[test]
fn packet_decode_passes_on_reader_errors() {
    let packet = incoming(PacketKind::PingLatency, &[]);
    assert!(matches!(packet.decode::<Packet>(), Err(DecodeError::Decodable(_))));
}

#[test]
fn packet_decode_refuses_leftover_bytes() {
    let packet = incoming(PacketKind::PingLatency, &[1, 2]);
    assert!(matches!(packet.decode::<Packet>(), Err(DecodeError::ExtraBytes(2))));
    let empty = incoming(PacketKind::KeepAlive, &[]);
    assert!(empty.decode::<KeepAlivePacket>().is_ok());
}
