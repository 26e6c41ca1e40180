use suon_network::xtea::{decrypt, encrypt, expand_key, XTEADecryptError, XTEAKey, XTEA_NUM_ROUNDS};

const SAMPLE_KEY: XTEAKey = [0xA56BABCD, 0x00000000, 0xFFFFFFFF, 0x12345678];

fn get_expanded_keys() -> Vec<u32> {
    expand_key(&SAMPLE_KEY).to_vec()
}

#[test]
fn test_expand_key_produces_valid_round_keys() {
    let round_keys = get_expanded_keys();
    assert_eq!(
        round_keys.len(),
        XTEA_NUM_ROUNDS * 2,
        "Incorrect number of round keys generated"
    );
    assert!(
        round_keys.iter().any(|&k| k != 0),
        "Expanded keys should contain non-zero values"
    );
}

#[test]
fn test_encrypt_decrypt_roundtrip() {
    const MESSAGE: &[u8] = b"Sample Message";
    let length_prefix = (MESSAGE.len() as u16).to_le_bytes();
    let mut data = length_prefix.to_vec();
    data.extend_from_slice(MESSAGE);
    let ciphertext = encrypt(&data, &SAMPLE_KEY);
    let decrypted = decrypt(&ciphertext, &SAMPLE_KEY)
        .expect("Decryption should succeed for valid ciphertext");
    assert_eq!(decrypted, bytes::Bytes::from(data));
}

#[test]
fn test_decrypt_rejects_invalid_block_size() {
    const INVALID_DATA: &[u8] = &[1, 2, 3, 4, 5];
    let result = decrypt(INVALID_DATA, &SAMPLE_KEY);
    assert!(
        matches!(result, Err(XTEADecryptError::InvalidBlockSize)),
        "Expected InvalidBlockSize error for misaligned input"
    );
}

#[test]
fn test_decrypt_rejects_inner_length_exceeds_payload() {
    const DECLARED_LENGTH: u16 = 10;
    let mut data = DECLARED_LENGTH.to_le_bytes().to_vec();
    data.extend_from_slice(&[0u8; 2]);
    let padding = (8 - (data.len() % 8)) % 8;
    data.extend(vec![0u8; padding]);
    let ciphertext = encrypt(&data, &SAMPLE_KEY);
    let err = decrypt(&ciphertext, &SAMPLE_KEY).expect_err("Expected InnerLengthTooLarge error");
    if let XTEADecryptError::InnerLengthTooLarge { inner_length, .. } = err {
        assert_eq!(inner_length, DECLARED_LENGTH as usize);
    } else {
        panic!("Unexpected error variant: {:?}", err);
    }
}

#[test]
fn test_encrypt_adds_padding_for_unaligned_input() {
    const MESSAGE: &[u8] = b"1234567";
    let ciphertext = encrypt(MESSAGE, &SAMPLE_KEY);
    assert_eq!(
        ciphertext.len() % 8,
        0,
        "Ciphertext should be aligned to 8 bytes"
    );
}

#[test]
fn test_decrypt_rejects_too_short_payload_for_declared_length() {
    const DECLARED_LENGTH: u16 = 20;
    let mut data = DECLARED_LENGTH.to_le_bytes().to_vec();
    data.extend_from_slice(&[0u8; 5]);
    let padding = (8 - (data.len() % 8)) % 8;
    data.extend(vec![0u8; padding]);
    let ciphertext = encrypt(&data, &SAMPLE_KEY);
    let err = decrypt(&ciphertext, &SAMPLE_KEY).expect_err("Expected InnerLengthTooLarge error");
    if let XTEADecryptError::InnerLengthTooLarge { inner_length, .. } = err {
        assert_eq!(inner_length, DECLARED_LENGTH as usize);
    } else {
        panic!("Unexpected error variant: {:?}", err);
    }
}

#[test]
fn test_decrypt_valid_exact_inner_length() {
    const MESSAGE: &[u8] = b"ABCDEFGH";
    let inner_length = MESSAGE.len() as u16;
    let mut data = inner_length.to_le_bytes().to_vec();
    data.extend_from_slice(MESSAGE);
    let ciphertext = encrypt(&data, &SAMPLE_KEY);
    let decrypted = decrypt(&ciphertext, &SAMPLE_KEY)
        .expect("Decryption should succeed with exact inner length");
    assert_eq!(decrypted, bytes::Bytes::from(data));
}

#[test]
fn test_encrypt_and_decrypt_aligned_input() {
    const PAYLOAD: &[u8] = b"12345678";
    let inner_len = PAYLOAD.len() as u16;
    let mut data = inner_len.to_le_bytes().to_vec();
    data.extend_from_slice(PAYLOAD);
    let ciphertext = encrypt(&data, &SAMPLE_KEY);
    let decrypted = decrypt(&ciphertext, &SAMPLE_KEY).expect("Decryption should succeed");
    assert_eq!(decrypted, bytes::Bytes::from(data));
    assert_eq!(
        ciphertext.len() % 8,
        0,
        "Ciphertext should be aligned to 8 bytes"
    );
}

#[test]
fn test_decrypt_fails_on_too_small_input() {
    const INVALID_INPUT: &[u8] = &[1, 2, 3, 4];
    let result = decrypt(INVALID_INPUT, &SAMPLE_KEY);
    assert!(
        matches!(result, Err(XTEADecryptError::InvalidBlockSize)),
        "Expected InvalidBlockSize error for too small input"
    );
}

#[test]
fn xtea_known_block_vector() {
    // Reference XTEA vector: key 000102..0F, plaintext 4142434445464748
    // (big-endian words), ciphertext 497df3d072612cb5.
    let key: XTEAKey = [0x00010203, 0x04050607, 0x08090A0B, 0x0C0D0E0F];
    let mut plain = Vec::new();
    plain.extend_from_slice(&0x41424344u32.to_le_bytes());
    plain.extend_from_slice(&0x45464748u32.to_le_bytes());
    let cipher = encrypt(&plain, &key);
    let v0 = u32::from_le_bytes(cipher[0..4].try_into().unwrap());
    let v1 = u32::from_le_bytes(cipher[4..8].try_into().unwrap());
    assert_eq!((v0, v1), (0x497DF3D0, 0x72612CB5));
}

#[test]
fn xtea_ciphertext_differs_from_plaintext() {
    let data = [0u8; 8];
    let cipher = encrypt(&data, &SAMPLE_KEY);
    assert_ne!(&cipher[..], &data[..]);
}

#[test]
fn xtea_empty_plaintext_gives_empty_ciphertext() {
    assert_eq!(encrypt(&[], &SAMPLE_KEY).len(), 0);
    assert!(matches!(
        decrypt(&[], &SAMPLE_KEY),
        Err(XTEADecryptError::InnerLengthTooLarge { inner_length: 0, buffer_length: 0 })
    ));
}

#[test]
fn xtea_round_trip_with_unaligned_message() {
    let mut data = 5u16.to_le_bytes().to_vec();
    data.extend_from_slice(b"hello");
    let cipher = encrypt(&data, &SAMPLE_KEY);
    assert_eq!(cipher.len(), 8);
    assert_eq!(&decrypt(&cipher, &SAMPLE_KEY).unwrap()[..], &data[..]);
}

#[test]
fn expand_key_first_round_keys() {
    let keys = expand_key(&SAMPLE_KEY);
    assert_eq!(keys[0], SAMPLE_KEY[0]);
    let sum1 = 0x9E3779B9u32;
    assert_eq!(keys[1], sum1.wrapping_add(SAMPLE_KEY[((sum1 >> 11) & 3) as usize]));
}
