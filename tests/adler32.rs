use suon_network::adler32::Adler32Checksum;

#[test]
fn test_adler32_checksum_computation_with_sample_data() {
    const TEST_DATA: &[u8] = b"Hello Checksum!";
    let checksum = Adler32Checksum::calculate(TEST_DATA);
    let checksum_value: u32 = *checksum;
    assert_ne!(
        checksum_value,
        Adler32Checksum::INITIAL,
        "Checksum should be different from the initial value for non-empty data"
    );
    let (low_16_bits, high_16_bits) = checksum.components();
    let recombined_checksum = ((high_16_bits as u32) << 16) | (low_16_bits as u32);
    assert_eq!(
        recombined_checksum, checksum_value,
        "Recombined value should match the original checksum"
    );
}

#[test]
fn test_adler32_checksum_with_empty_data_returns_initial() {
    const EMPTY_DATA: &[u8] = b"";
    let checksum = Adler32Checksum::calculate(EMPTY_DATA);
    assert_eq!(
        *checksum,
        Adler32Checksum::INITIAL,
        "Checksum for empty data should be the initial value"
    );
    assert!(
        checksum.is_initial(),
        "is_initial() should return true for the initial checksum"
    );
}

#[test]
fn test_checksum_from_slice_trait() {
    const INPUT_SLICE: &[u8] = b"Hello Checksum!";
    let checksum_from_slice = Adler32Checksum::from(INPUT_SLICE);
    let expected_checksum = Adler32Checksum::calculate(INPUT_SLICE);
    assert_eq!(
        checksum_from_slice, expected_checksum,
        "Checksum from slice should match direct calculation"
    );
}

#[test]
fn test_checksum_from_vec_trait() {
    const INPUT_DATA: &[u8] = b"Hello Checksum!";
    let data_vec: Vec<u8> = INPUT_DATA.to_vec();
    let checksum_from_vec = Adler32Checksum::from(data_vec);
    let expected_checksum = Adler32Checksum::calculate(INPUT_DATA);
    assert_eq!(
        checksum_from_vec, expected_checksum,
        "Checksum from Vec should match direct calculation"
    );
}

#[test]
fn test_checksum_from_array_trait() {
    const ARRAY_DATA: &[u8; 15] = b"Hello Checksum!";
    let checksum_from_array = Adler32Checksum::from(ARRAY_DATA);
    let expected_checksum = Adler32Checksum::calculate(ARRAY_DATA);
    assert_eq!(
        checksum_from_array, expected_checksum,
        "Checksum from array should match direct calculation"
    );
}

#[test]
fn test_display_trait_formats_checksum_as_uppercase_hex() {
    const SAMPLE_DATA: &[u8] = b"Hello Checksum!";
    let checksum = Adler32Checksum::calculate(SAMPLE_DATA);
    let formatted_checksum = checksum.to_hex_string();
    assert_eq!(
        formatted_checksum.len(),
        8,
        "Formatted checksum should be 8 characters long"
    );
    assert_eq!(
        formatted_checksum,
        formatted_checksum.to_uppercase(),
        "Formatted checksum should be uppercase"
    );
}

#[test]
fn test_components_and_recombine() {
    const SAMPLE_DATA: &[u8] = b"Hello Checksum!";
    let checksum = Adler32Checksum::calculate(SAMPLE_DATA);
    let (low_16_bits, high_16_bits) = checksum.components();
    let recombined_checksum = ((high_16_bits as u32) << 16) | (low_16_bits as u32);
    assert_eq!(
        recombined_checksum, *checksum,
        "Recombined value should match the original checksum"
    );
}

#[test]
fn adler32_of_hello_is_known_vector() {
    assert_eq!(*Adler32Checksum::calculate(b"hello"), 0x062C_0215);
}

#[test]
fn adler32_of_empty_input_is_one() {
    assert_eq!(*Adler32Checksum::calculate(&[]), 1);
}

#[test]
fn adler32_hex_string_is_zero_padded() {
    assert_eq!(Adler32Checksum::calculate(b"hello").to_hex_string(), "062C0215");
    assert_eq!(Adler32Checksum::from(1u32).to_hex_string(), "00000001");
}

#[test]
fn adler32_is_deterministic_and_prefix_sensitive() {
    let a = Adler32Checksum::calculate(b"Hello Checksum!");
    let b = Adler32Checksum::calculate(b"Hello Checksum!");
    assert_eq!(a, b);
    assert_ne!(a, Adler32Checksum::calculate(b"Hello Checksum?"));
}

#[test]
fn adler32_components_split_the_sums() {
    let (low, high) = Adler32Checksum::calculate(b"hello").components();
    assert_eq!(low, 0x0215);
    assert_eq!(high, 0x062C);
}
