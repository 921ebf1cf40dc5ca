use synapse::cobs::{decode, encode, CobsError};

#[test]
fn test_empty() {
    let encoded = encode(&[]);
    assert_eq!(encoded, vec![0x01, 0x00]);
}

#[test]
fn test_no_zeros() {
    let data = vec![0x01, 0x02, 0x03];
    let encoded = encode(&data);
    let decoded = decode(&encoded).unwrap();
    // COBS adds trailing zero on decode
    assert_eq!(&decoded[..3], &data[..]);
}

#[test]
fn test_with_zeros() {
    let data = vec![0x00, 0x01, 0x00, 0x02];
    let encoded = encode(&data);
    let decoded = decode(&encoded).unwrap();
    assert_eq!(&decoded[..4], &data[..]);
}

#[test]
fn test_roundtrip() {
    let data = vec![0x11, 0x22, 0x00, 0x33];
    let encoded = encode(&data);
    let decoded = decode(&encoded).unwrap();
    assert_eq!(&decoded[..4], &data[..]);
}

#[test]
fn encode_exact_bytes() {
    assert_eq!(encode(&[0x11, 0x22, 0x00, 0x33]), vec![0x03, 0x11, 0x22, 0x02, 0x33, 0x00]);
    assert_eq!(encode(&[0x00]), vec![0x01, 0x01, 0x00]);
    assert_eq!(encode(&[0x00, 0x00]), vec![0x01, 0x01, 0x01, 0x00]);
}

#[test]
fn decode_appends_one_zero() {
    let data = vec![0x05, 0x00, 0x07];
    let mut expected = data.clone();
    expected.push(0);
    assert_eq!(decode(&encode(&data)), Ok(expected));
    assert_eq!(decode(&encode(&[])), Ok(vec![0x00]));
}

#[test]
fn long_run_uses_full_blocks() {
    let data: Vec<u8> = (0..254u32).map(|i| (i % 255 + 1) as u8).collect();
    let encoded = encode(&data);
    assert_eq!(encoded.len(), 254 + 3);
    assert_eq!(encoded[0], 0xFF);
    assert_eq!(encoded[255], 0x01);
    assert_eq!(*encoded.last().unwrap(), 0);
    assert!(encoded[..encoded.len() - 1].iter().all(|&b| b != 0));
    let mut expected = data.clone();
    expected.push(0);
    assert_eq!(decode(&encoded), Ok(expected));
}

#[test]
fn long_data_roundtrips() {
    let data: Vec<u8> = (0..1000u32).map(|i| if i % 300 == 7 { 0 } else { (i % 251 + 1) as u8 }).collect();
    let encoded = encode(&data);
    assert!(encoded[..encoded.len() - 1].iter().all(|&b| b != 0));
    let mut expected = data.clone();
    expected.push(0);
    assert_eq!(decode(&encoded), Ok(expected));
}

#[test]
fn decode_errors() {
    assert_eq!(decode(&[]), Err(CobsError::EmptyInput));
    assert_eq!(decode(&[0x01, 0x02]), Err(CobsError::MissingDelimiter));
    assert_eq!(decode(&[0x00, 0x00]), Err(CobsError::InvalidCode));
    assert_eq!(decode(&[0x05, 0x01, 0x00]), Err(CobsError::BlockOverrun));
    assert_eq!(decode(&[0x03, 0x01, 0x00, 0x00]), Err(CobsError::ZeroInPayload));
}
