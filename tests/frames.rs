use suon_network::adler32::Adler32Checksum;
use suon_network::incoming::{login, server_name, subsequent};
use suon_network::packets::client::PacketKind;
use suon_network::xtea::{encrypt, XTEADecryptError, XTEAKey};
use suon_network::reader::{FrameError, FrameReader, ReaderAction, ReaderStage};
use suon_network::settings::IncomingPacketPolicy;

const KEY: XTEAKey = [0xA56BABCD, 0x00000000, 0xFFFFFFFF, 0x12345678];

fn frame(checksum: u32, rest: &[u8]) -> Vec<u8> {
    let mut body = checksum.to_le_bytes().to_vec();
    body.extend_from_slice(rest);
    let mut wire = (body.len() as u16).to_le_bytes().to_vec();
    wire.extend_from_slice(&body);
    wire
}

#[test]
fn server_name_frame_strips_terminator_and_prefixes_length() {
    let packet = server_name::read_server_name_packet(b"Hello Server\n", 256).unwrap();
    assert_eq!(packet.kind, PacketKind::ServerName);
    assert!(packet.checksum.is_none());
    let mut expected = 12u16.to_le_bytes().to_vec();
    expected.extend_from_slice(b"Hello Server");
    assert_eq!(packet.buffer.as_ref(), &expected[..]);
}

#[test]
fn server_name_empty_probe_needs_no_terminator() {
    let packet = server_name::read_server_name_packet(&[0x41, 0x00, 0x17], 256).unwrap();
    assert_eq!(packet.kind, PacketKind::ServerName);
    assert_eq!(packet.buffer.as_ref(), &[3, 0, 0x41, 0x00, 0x17]);
}

#[test]
fn server_name_without_terminator_is_rejected() {
    assert_eq!(
        server_name::read_server_name_packet(b"Hello", 256).err(),
        Some(server_name::PacketReadError::MissingTerminator)
    );
}

#[test]
fn server_name_closed_connection() {
    assert_eq!(
        server_name::read_server_name_packet(&[], 256).err(),
        Some(server_name::PacketReadError::ConnectionClosed)
    );
}

#[test]
fn server_name_too_long() {
    assert_eq!(
        server_name::read_server_name_packet(b"abcdef\n", 4).err(),
        Some(server_name::PacketReadError::LengthOutOfBounds { max: 4, buffer_len: 7 })
    );
}

#[test]
fn server_name_buffer_probe_is_checked_once() {
    let mut buffer = server_name::PacketBuffer::with_capacity(8);
    buffer.payload_mut()[..3].copy_from_slice(b"ab\n");
    buffer.truncate(3);
    assert_eq!(buffer.payload_len(), 3);
    let packet = buffer.take_packet().unwrap();
    assert_eq!(packet.buffer.as_ref(), &[2, 0, b'a', b'b']);
    assert!(buffer.take_packet().is_none());
}

#[test]
fn login_happy_path() {
    let mut rest = vec![10u8];
    rest.extend_from_slice(b"account");
    let wire = frame(0, &rest);
    let packet = login::read_login_packet(&wire, 5120).unwrap();
    assert_eq!(packet.kind, PacketKind::Login);
    assert!(packet.checksum.is_none());
    assert_eq!(packet.buffer.as_ref(), b"account");
}

#[test]
fn login_with_correct_checksum() {
    let sum = *Adler32Checksum::calculate(b"account");
    let mut rest = vec![10u8];
    rest.extend_from_slice(b"account");
    let wire = frame(sum, &rest);
    let packet = login::read_login_packet(&wire, 5120).unwrap();
    assert_eq!(packet.buffer.as_ref(), b"account");
    assert!(packet.checksum.is_none());
}

#[test]
fn login_checksum_mismatch() {
    let mut rest = vec![10u8];
    rest.extend_from_slice(b"account");
    let wire = frame(1, &rest);
    assert_eq!(
        login::read_login_packet(&wire, 5120).err(),
        Some(login::PacketReadError::ChecksumMismatch {
            expected: 1,
            actual: *Adler32Checksum::calculate(b"account"),
        })
    );
}

#[test]
fn login_rejects_other_kinds() {
    let wire = frame(0, &[30u8, 1, 2]);
    assert_eq!(
        login::read_login_packet(&wire, 5120).err(),
        Some(login::PacketReadError::UnknownId(30))
    );
}

#[test]
fn login_framing_errors() {
    assert_eq!(
        login::read_login_packet(&[], 5120).err(),
        Some(login::PacketReadError::ConnectionClosed)
    );
    assert_eq!(
        login::read_login_packet(&[5], 5120).err(),
        Some(login::PacketReadError::IncompletePrefix { available: 1, required: 2 })
    );
    assert_eq!(
        login::read_login_packet(&[0, 0, 1], 5120).err(),
        Some(login::PacketReadError::EmptyLength)
    );
    assert_eq!(
        login::read_login_packet(&[100, 0, 1], 50).err(),
        Some(login::PacketReadError::LengthOutOfBounds { declared: 102, max: 50 })
    );
    assert_eq!(
        login::read_login_packet(&[10, 0, 1, 2], 5120).err(),
        Some(login::PacketReadError::IncompletePacket { required: 12, available: 4 })
    );
    assert_eq!(
        login::read_login_packet(&[3, 0, 0, 0, 0], 5120).err(),
        Some(login::PacketReadError::TooShort { actual: 3, min: 5 })
    );
}

#[test]
fn login_buffer_keeps_bytes_after_the_frame() {
    let mut wire = frame(0, &[10u8, 7]);
    wire.extend_from_slice(&[9, 9]);
    let mut buffer = login::PacketBuffer::with_capacity(wire.len());
    buffer.payload_mut().copy_from_slice(&wire);
    let packet = buffer.take_packet(5120).unwrap();
    assert_eq!(packet.buffer.as_ref(), &[7]);
    assert_eq!(buffer.payload_len(), 2);
}

fn keep_alive_plaintext() -> Vec<u8> {
    let mut plain = 9u16.to_le_bytes().to_vec();
    plain.push(0x1E);
    plain.extend_from_slice(&[0u8; 8]);
    plain
}

#[test]
fn subsequent_round_trip() {
    let cipher = encrypt(&keep_alive_plaintext(), &KEY);
    assert_eq!(cipher.len(), 16);
    let sum = *Adler32Checksum::calculate(&cipher);
    let wire = frame(sum, &cipher);
    let packet = subsequent::read_subsequent_packet(&wire, KEY, 20480).unwrap();
    assert_eq!(packet.kind, PacketKind::KeepAlive);
    assert_eq!(packet.checksum.map(|c| *c), Some(sum));
    assert_eq!(packet.buffer.as_ref(), &[0u8; 8]);
}

#[test]
fn subsequent_without_checksum() {
    let cipher = encrypt(&keep_alive_plaintext(), &KEY);
    let wire = frame(0, &cipher);
    let packet = subsequent::read_subsequent_packet(&wire, KEY, 20480).unwrap();
    assert!(packet.checksum.is_none());
    assert_eq!(packet.kind, PacketKind::KeepAlive);
}

#[test]
fn subsequent_checksum_mismatch() {
    let cipher = encrypt(&keep_alive_plaintext(), &KEY);
    let wire = frame(1, &cipher);
    assert!(matches!(
        subsequent::read_subsequent_packet(&wire, KEY, 20480),
        Err(subsequent::PacketReadError::ChecksumMismatch { expected: 1, .. })
    ));
}

#[test]
fn subsequent_propagates_cipher_errors() {
    let wire = frame(0, &[1, 2, 3]);
    assert!(matches!(
        subsequent::read_subsequent_packet(&wire, KEY, 20480),
        Err(subsequent::PacketReadError::XteaDecryption(XTEADecryptError::InvalidBlockSize))
    ));
}

#[test]
fn subsequent_rejects_unknown_kind() {
    let mut plain = 1u16.to_le_bytes().to_vec();
    plain.push(99);
    let cipher = encrypt(&plain, &KEY);
    let wire = frame(0, &cipher);
    assert!(matches!(
        subsequent::read_subsequent_packet(&wire, KEY, 20480),
        Err(subsequent::PacketReadError::UnknownId(99))
    ));
}

#[test]
fn subsequent_empty_message_is_too_short() {
    let plain = 0u16.to_le_bytes().to_vec();
    let cipher = encrypt(&plain, &KEY);
    let wire = frame(0, &cipher);
    assert!(matches!(
        subsequent::read_subsequent_packet(&wire, KEY, 20480),
        Err(subsequent::PacketReadError::TooShort { actual: 0, min: 1 })
    ));
}

#[test]
fn subsequent_body_shorter_than_checksum() {
    assert!(matches!(
        subsequent::read_subsequent_packet(&[2, 0, 1, 2], KEY, 20480),
        Err(subsequent::PacketReadError::TooShort { actual: 2, min: 5 })
    ));
}

#[test]
fn reader_walks_the_stages() {
    let policy = IncomingPacketPolicy::default();
    let mut reader = FrameReader::new(policy);
    assert_eq!(reader.next_action(), ReaderAction::Read { max_length: 256 });
    assert!(reader.on_bytes(b"World\n").is_ok());
    assert_eq!(reader.next_action(), ReaderAction::Read { max_length: 5120 });
    assert!(reader.on_bytes(&frame(0, &[10u8, 1, 2])).is_ok());
    assert_eq!(reader.next_action(), ReaderAction::AwaitKey);
    reader.on_key(Some(KEY));
    assert_eq!(reader.stage(), ReaderStage::ExpectSubsequent(KEY));
    let cipher = encrypt(&keep_alive_plaintext(), &KEY);
    let packet = reader.on_bytes(&frame(0, &cipher)).unwrap();
    assert_eq!(packet.kind, PacketKind::KeepAlive);
    assert_eq!(reader.next_action(), ReaderAction::AwaitKey);
    reader.on_key(None);
    assert_eq!(reader.next_action(), ReaderAction::Close);
}

#[test]
fn reader_stops_on_a_bad_frame() {
    let mut reader = FrameReader::new(IncomingPacketPolicy::default());
    assert_eq!(
        reader.on_bytes(b"no terminator").err(),
        Some(FrameError::ServerName(server_name::PacketReadError::MissingTerminator))
    );
    assert_eq!(reader.next_action(), ReaderAction::Close);
    assert_eq!(reader.on_bytes(b"x\n").err(), Some(FrameError::Unexpected));
}

#[test]
fn reader_stops_on_timeout() {
    let mut reader = FrameReader::new(IncomingPacketPolicy::default());
    reader.on_timeout();
    assert_eq!(reader.next_action(), ReaderAction::Close);
}

#[test]
fn subsequent_body_of_checksum_only_is_too_short() {
    assert!(matches!(
        subsequent::read_subsequent_packet(&[4, 0, 0, 0, 0, 0], KEY, 20480),
        Err(subsequent::PacketReadError::TooShort { actual: 4, min: 5 })
    ));
}
