use synapse::cobs;
use synapse::crc::{crc16, crc8};
use synapse::frame::{
    FrameError, SynapseFrame, FLAG_ACK_REQ, FLAG_PAYLOAD_CRC, HEADER_SIZE, SYNAPSE_MAGIC,
    SYNAPSE_VERSION,
};

#[test]
fn test_encode_decode_v2() {
    let payload = vec![0x01, 0x02, 0x03];
    let frame = SynapseFrame::new(0x0400, payload.clone()).with_routing(0x0002, 0x0001);

    let encoded = frame.encode();
    let decoded = SynapseFrame::parse(&encoded).unwrap();

    assert_eq!(decoded.magic, SYNAPSE_MAGIC);
    assert_eq!(decoded.version, SYNAPSE_VERSION);
    assert_eq!(decoded.msg_id, 0x0400);
    assert_eq!(decoded.payload, payload);
    assert_eq!(decoded.src_endpoint, Some(0x0002));
    assert_eq!(decoded.dst_endpoint, Some(0x0001));
}

#[test]
fn test_cobs_roundtrip_v2() {
    let payload = vec![0x00, 0x01, 0x00, 0x02];
    let frame = SynapseFrame::new(0x0613, payload.clone());

    let cobs_encoded = frame.encode_with_cobs();
    let decoded = SynapseFrame::parse_cobs(&cobs_encoded).unwrap();

    assert_eq!(decoded.version, SYNAPSE_VERSION);
    assert_eq!(decoded.msg_id, 0x0613);
    assert_eq!(decoded.payload, payload);
}

#[test]
fn test_v2_header_size() {
    assert_eq!(HEADER_SIZE, 15, "V2 header must be 15 bytes");
}

#[test]
fn test_no_routing() {
    let payload = vec![0x01, 0x02];
    let frame = SynapseFrame::new(0x0001, payload.clone());

    let encoded = frame.encode();
    let decoded = SynapseFrame::parse(&encoded).unwrap();

    assert_eq!(decoded.src_endpoint, None);
    assert_eq!(decoded.dst_endpoint, None);
    assert_eq!(decoded.payload, payload);
}

#[test]
fn encode_exact_layout() {
    let frame = SynapseFrame::new_at(0x0102, vec![0xAA], 0x0403_0201)
        .with_sequence(0x0605)
        .with_routing(0x0807, 0x0A09);
    let bytes = frame.encode();
    let header: Vec<u8> = vec![0x4E, 0x53, 0x02, 0x20, 0x02, 0x01, 0x05, 0x06, 0x01, 0x02, 0x03, 0x04, 6, 1];
    assert_eq!(&bytes[..14], &header[..]);
    assert_eq!(bytes[14], crc8(&header));
    assert_eq!(&bytes[15..21], &[0x01, 0x04, 0x07, 0x08, 0x09, 0x0A]);
    assert_eq!(bytes[21], 0xAA);
    let crc = crc16(&[0xAA]);
    assert_eq!(&bytes[22..24], &[(crc & 0xFF) as u8, (crc >> 8) as u8]);
    assert_eq!(bytes.len(), 24);
}

#[test]
fn roundtrip_keeps_fields_and_reports_crc() {
    let frame = SynapseFrame::new_at(0x0801, vec![9, 8, 7], 123_456)
        .with_sequence(42)
        .with_flags(FLAG_PAYLOAD_CRC | FLAG_ACK_REQ);
    let decoded = SynapseFrame::parse_cobs(&frame.encode_with_cobs()).unwrap();
    assert_eq!(decoded.timestamp_ms, 123_456);
    assert_eq!(decoded.sequence, 42);
    assert_eq!(decoded.flags, FLAG_PAYLOAD_CRC | FLAG_ACK_REQ);
    assert_eq!(decoded.payload_len, 3);
    assert_eq!(decoded.hdr_ext_len, 0);
    assert_eq!(decoded.payload_crc, Some(crc16(&[9, 8, 7])));
}

#[test]
fn frame_without_payload_crc() {
    let frame = SynapseFrame::new_at(0x0005, vec![1, 2, 3], 7).with_flags(0);
    let bytes = frame.encode();
    assert_eq!(bytes.len(), HEADER_SIZE + 3);
    let decoded = SynapseFrame::parse(&bytes).unwrap();
    assert_eq!(decoded.payload_crc, None);
    assert_eq!(decoded.payload, vec![1, 2, 3]);
}

#[test]
fn new_truncates_payload_length_field() {
    let frame = SynapseFrame::new_at(1, vec![0u8; 300], 0);
    assert_eq!(frame.payload_len, 44);
}

#[test]
fn parse_errors() {
    assert_eq!(SynapseFrame::parse(&[0u8; 10]).unwrap_err(), FrameError::TooShort { len: 10 });

    let good = SynapseFrame::new_at(0x0001, vec![1, 2], 5).encode();

    let mut bad_magic = good.clone();
    bad_magic[0] = 0x00;
    assert_eq!(SynapseFrame::parse(&bad_magic).unwrap_err(), FrameError::InvalidMagic { magic: 0x5300 });

    let mut bad_version = good.clone();
    bad_version[2] = 0x01;
    assert_eq!(SynapseFrame::parse(&bad_version).unwrap_err(), FrameError::UnsupportedVersion { version: 1 });

    let mut bad_header_crc = good.clone();
    bad_header_crc[14] ^= 0xFF;
    assert!(matches!(
        SynapseFrame::parse(&bad_header_crc).unwrap_err(),
        FrameError::HeaderCrcMismatch { .. }
    ));

    let truncated = &good[..good.len() - 1];
    assert_eq!(
        SynapseFrame::parse(truncated).unwrap_err(),
        FrameError::LengthMismatch { expected: 19, got: 18 }
    );

    let mut bad_payload_crc = good.clone();
    bad_payload_crc[15] ^= 0x01;
    assert!(matches!(
        SynapseFrame::parse(&bad_payload_crc).unwrap_err(),
        FrameError::PayloadCrcMismatch { .. }
    ));

    assert_eq!(
        SynapseFrame::parse_cobs(&[0x01, 0x02]).unwrap_err(),
        FrameError::Cobs { error: cobs::CobsError::MissingDelimiter }
    );
}

fn with_extensions(ext: &[u8]) -> Vec<u8> {
    let mut header: Vec<u8> = vec![0x4E, 0x53, 0x02, 0x00, 0x01, 0x00, 0x00, 0x00, 0, 0, 0, 0, ext.len() as u8, 0];
    let crc = crc8(&header);
    header.push(crc);
    header.extend_from_slice(ext);
    header
}

#[test]
fn extension_parsing() {
    // An unknown extension is skipped; a later routing extension is read.
    let bytes = with_extensions(&[0x03, 0x02, 0xAA, 0xBB, 0x01, 0x04, 0x11, 0x22, 0x33, 0x44]);
    let frame = SynapseFrame::parse(&bytes).unwrap();
    assert_eq!(frame.src_endpoint, Some(0x2211));
    assert_eq!(frame.dst_endpoint, Some(0x4433));

    let incomplete = with_extensions(&[0x01]);
    assert_eq!(SynapseFrame::parse(&incomplete).unwrap_err(), FrameError::IncompleteTlv { offset: 15 });

    let overrun = with_extensions(&[0x01, 0x04, 0x00]);
    assert_eq!(
        SynapseFrame::parse(&overrun).unwrap_err(),
        FrameError::TlvOverrun { ext_type: 0x01, len: 4 }
    );
}

#[test]
fn trailing_bytes_are_ignored() {
    let mut bytes = SynapseFrame::new_at(0x0002, vec![4, 5], 9).encode();
    bytes.extend_from_slice(&[0xDE, 0xAD]);
    let frame = SynapseFrame::parse(&bytes).unwrap();
    assert_eq!(frame.payload, vec![4, 5]);
}
