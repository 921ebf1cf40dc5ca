use synapse::crc::{crc16, crc32, crc8};

#[test]
fn test_crc8_empty() {
    assert_eq!(crc8(&[]), 0);
}

#[test]
fn test_crc8_basic() {
    // Test with Synapse magic bytes "SN"
    let data = [0x53, 0x4E];
    let result = crc8(&data);
    // Result should be deterministic (u8 is always < 256)
    assert!(result == crc8(&data)); // Verify determinism
}

#[test]
fn test_crc16_empty() {
    let result = crc16(&[]);
    assert!(result != 0); // CRC16 should not be zero for empty data
}

#[test]
fn test_crc16_basic() {
    let data = b"123456789";
    let result = crc16(data);
    // CRC16-CCITT test vector
    assert_eq!(result, 0x29B1);
}

#[test]
fn test_crc32_empty() {
    // Empty input: crc starts at 0xFFFFFFFF, no iterations, final XOR gives 0
    assert_eq!(crc32(&[]), 0);
}

#[test]
fn test_crc32_basic() {
    let data = b"123456789";
    let result = crc32(data);
    // Standard CRC32 test vector
    assert_eq!(result, 0xCBF43926);
}

#[test]
fn crc8_check_value() {
    // CRC-8 (poly 0x07, init 0) check value
    assert_eq!(crc8(b"123456789"), 0xF4);
}

#[test]
fn crc16_empty_is_initial_value() {
    assert_eq!(crc16(&[]), 0xFFFF);
}

#[test]
fn crc_single_bytes() {
    assert_eq!(crc8(&[0x01]), 0x07);
    assert_eq!(crc32(&[0x00]), 0xD202EF8D);
}

#[test]
fn test_crc8_appended_residue_is_zero() {
    let data = b"Synapse header";
    let mut with_crc = data.to_vec();
    with_crc.push(crc8(data));
    assert_eq!(crc8(&with_crc), 0);
}

#[test]
fn test_crc8_zero_bytes() {
    assert_eq!(crc8(&[0u8; 1]), 0);
    assert_eq!(crc8(&[0u8; 17]), 0);
}

#[test]
fn test_crc8_linear_under_xor() {
    let a = [0x12u8, 0x34, 0x56, 0x78, 0x9A];
    let b = [0xFFu8, 0x00, 0x5A, 0xA5, 0x01];
    let x: Vec<u8> = a.iter().zip(b.iter()).map(|(p, q)| p ^ q).collect();
    assert_eq!(crc8(&x), crc8(&a) ^ crc8(&b));
}
