//! The Synapse V2 transport envelope.
//!
//! Wire layout (all integers little-endian):
//!
//! | bytes     | field                                     |
//! |-----------|-------------------------------------------|
//! | 0-1       | magic `0x534E` ("SN")                     |
//! | 2         | version (2)                               |
//! | 3         | flags                                     |
//! | 4-5       | message id                                |
//! | 6-7       | sequence                                  |
//! | 8-11      | timestamp in milliseconds                 |
//! | 12        | length of the header extensions           |
//! | 13        | payload length                            |
//! | 14        | CRC-8 of bytes 0-13                       |
//! | ...       | header extensions (type, length, value)   |
//! | ...       | payload                                   |
//! | optional  | CRC-16 of the payload (flag `PAYLOAD_CRC`) |
use crate::clock::current_timestamp_ms;
use crate::cobs;
use crate::cobs::{spec_decode, spec_encode, CobsError};
use crate::crc::{crc16, crc8, spec_crc16, spec_crc8};
use crate::endpoint::EndpointId;
use crate::wire::{le16, le32, lemma_le16_roundtrip, lemma_le32_roundtrip, push_bytes, push_u16_le, push_u32_le, read_u16_le, read_u32_le, u16_at, u32_at};
use vstd::prelude::*;

verus! {

/// "SN"
pub const SYNAPSE_MAGIC: u16 = 0x534E;

/// V2 protocol.
pub const SYNAPSE_VERSION: u8 = 0x02;

/// The V2 header is 15 bytes.
pub const HEADER_SIZE: usize = 15;

// Synapse V2 flag bit layout (wire format; do not change).
pub const FLAG_ACK_REQ: u8 = 0x01;

pub const FLAG_IS_ACK: u8 = 0x02;

pub const FLAG_DUP: u8 = 0x04;

pub const FLAG_ENCRYPTED: u8 = 0x08;

pub const FLAG_CHUNKED: u8 = 0x10;

pub const FLAG_PAYLOAD_CRC: u8 = 0x20;

/// Header extension: routing, source and destination endpoints (4 bytes).
pub const EXT_ROUTING: u8 = 0x01;

/// Header extension: fragment information (6 bytes).
pub const EXT_FRAGMENT: u8 = 0x03;

/// Synapse V2 frame.
#[derive(Debug, Clone)]
pub struct SynapseFrame {
    pub magic: u16,
    pub version: u8,
    pub flags: u8,
    pub msg_id: u16,
    pub sequence: u16,
    /// 32-bit milliseconds.
    pub timestamp_ms: u32,
    /// Length of the header extensions.
    pub hdr_ext_len: u8,
    /// 8-bit payload length (at most 255 bytes).
    pub payload_len: u8,
    /// Routing extension, when present.
    pub src_endpoint: Option<u16>,
    pub dst_endpoint: Option<u16>,
    pub payload: Vec<u8>,
    /// CRC-16 of the payload, when the frame carried one.
    pub payload_crc: Option<u16>,
}

/// The abstract content of a frame: its fields, the payload as a sequence.
pub struct FrameModel {
    pub magic: u16,
    pub version: u8,
    pub flags: u8,
    pub msg_id: u16,
    pub sequence: u16,
    pub timestamp_ms: u32,
    pub hdr_ext_len: u8,
    pub payload_len: u8,
    pub src_endpoint: Option<u16>,
    pub dst_endpoint: Option<u16>,
    pub payload: Seq<u8>,
    pub payload_crc: Option<u16>,
}

impl View for SynapseFrame {
    type V = FrameModel;

    open spec fn view(&self) -> FrameModel {
        FrameModel {
            magic: self.magic,
            version: self.version,
            flags: self.flags,
            msg_id: self.msg_id,
            sequence: self.sequence,
            timestamp_ms: self.timestamp_ms,
            hdr_ext_len: self.hdr_ext_len,
            payload_len: self.payload_len,
            src_endpoint: self.src_endpoint,
            dst_endpoint: self.dst_endpoint,
            payload: self.payload@,
            payload_crc: self.payload_crc,
        }
    }
}

/// Why a byte sequence is not a valid frame.
#[derive(Debug, Clone, Copy, PartialEq, Eq)]
pub enum FrameError {
    /// Fewer bytes than a header.
    TooShort { len: usize },
    /// The first two bytes are not the magic number.
    InvalidMagic { magic: u16 },
    /// The version byte is not V2.
    UnsupportedVersion { version: u8 },
    /// The header CRC-8 does not match the header.
    HeaderCrcMismatch { expected: u8, got: u8 },
    /// Fewer bytes than the header announces.
    LengthMismatch { expected: usize, got: usize },
    /// A header extension starts too close to the end of the extensions.
    IncompleteTlv { offset: usize },
    /// A header extension's value runs past the end of the extensions.
    TlvOverrun { ext_type: u8, len: usize },
    /// The payload CRC-16 is missing. Parsing checks the frame's length
    /// against the announced one first, so a frame that gets this far always
    /// holds its CRC and this error is never returned.
    MissingPayloadCrc,
    /// The payload CRC-16 does not match the payload.
    PayloadCrcMismatch { expected: u16, got: u16 },
    /// The COBS framing around the frame is invalid.
    Cobs { error: CobsError },
}

/// A new frame: V2 header, payload CRC enabled, no routing, sequence 0.
/// Its payload length field keeps the low 8 bits of the payload's length.
pub open spec fn new_frame(msg_id: u16, payload: Seq<u8>, timestamp_ms: u32) -> FrameModel {
    FrameModel {
        magic: SYNAPSE_MAGIC,
        version: SYNAPSE_VERSION,
        flags: FLAG_PAYLOAD_CRC,
        msg_id,
        sequence: 0,
        timestamp_ms,
        hdr_ext_len: 0,
        payload_len: (payload.len() % 256) as u8,
        src_endpoint: None,
        dst_endpoint: None,
        payload,
        payload_crc: None,
    }
}

/// Whether the frame carries the routing extension.
pub open spec fn has_routing(f: FrameModel) -> bool {
    f.src_endpoint is Some || f.dst_endpoint is Some
}

/// Whether the frame carries a payload CRC-16.
pub open spec fn has_payload_crc(flags: u8) -> bool {
    flags & FLAG_PAYLOAD_CRC != 0
}

/// The extension length that encoding writes: 6 with routing, else 0.
pub open spec fn encoded_ext_len(f: FrameModel) -> u8 {
    if has_routing(f) {
        6
    } else {
        0
    }
}

/// The first 14 header bytes, which the header CRC-8 covers.
pub open spec fn header_fields(f: FrameModel) -> Seq<u8> {
    le16(f.magic) + seq![f.version, f.flags] + le16(f.msg_id) + le16(f.sequence) + le32(
        f.timestamp_ms,
    ) + seq![encoded_ext_len(f), f.payload_len]
}

/// The routing extension, an absent endpoint written as 0.
pub open spec fn routing_extension(f: FrameModel) -> Seq<u8> {
    if has_routing(f) {
        seq![EXT_ROUTING, 4u8] + le16(f.src_endpoint.unwrap_or(0)) + le16(
            f.dst_endpoint.unwrap_or(0),
        )
    } else {
        Seq::empty()
    }
}

/// The payload CRC-16 trailer, if the flags ask for one.
pub open spec fn payload_trailer(f: FrameModel) -> Seq<u8> {
    if has_payload_crc(f.flags) {
        le16(spec_crc16(f.payload))
    } else {
        Seq::empty()
    }
}

/// The bytes of a frame before COBS encoding.
pub open spec fn spec_encode_frame(f: FrameModel) -> Seq<u8> {
    header_fields(f) + seq![spec_crc8(header_fields(f))] + routing_extension(f) + f.payload
        + payload_trailer(f)
}

/// Walks the header extensions in `d[off..end]`, keeping the last routing
/// extension's endpoints; other extensions are skipped.
pub open spec fn parse_extensions(
    d: Seq<u8>,
    off: int,
    end: int,
    src: Option<u16>,
    dst: Option<u16>,
) -> Result<(Option<u16>, Option<u16>), FrameError>
    decreases end - off,
{
    if off >= end {
        Ok((src, dst))
    } else if off + 2 > end {
        Err(FrameError::IncompleteTlv { offset: off as usize })
    } else {
        let ext_type = d[off];
        let ext_len = d[off + 1];
        let value = off + 2;
        if value + ext_len > end {
            Err(FrameError::TlvOverrun { ext_type, len: ext_len as usize })
        } else if ext_type == EXT_ROUTING && ext_len == 4 {
            parse_extensions(
                d,
                value + ext_len,
                end,
                Some(u16_at(d, value)),
                Some(u16_at(d, value + 2)),
            )
        } else {
            parse_extensions(d, value + ext_len, end, src, dst)
        }
    }
}

/// Parsing of a frame from its raw bytes (after COBS decoding). Bytes
/// after the frame are ignored.
pub open spec fn spec_parse(d: Seq<u8>) -> Result<FrameModel, FrameError> {
    if d.len() < HEADER_SIZE {
        Err(FrameError::TooShort { len: d.len() as usize })
    } else if u16_at(d, 0) != SYNAPSE_MAGIC {
        Err(FrameError::InvalidMagic { magic: u16_at(d, 0) })
    } else if d[2] != SYNAPSE_VERSION {
        Err(FrameError::UnsupportedVersion { version: d[2] })
    } else if spec_crc8(d.take(14)) != d[14] {
        Err(FrameError::HeaderCrcMismatch { expected: spec_crc8(d.take(14)), got: d[14] })
    } else {
        let flags = d[3];
        let ext_len = d[12] as int;
        let payload_len = d[13] as int;
        let crc_size: int = if has_payload_crc(flags) {
            2
        } else {
            0
        };
        let min_len = HEADER_SIZE + ext_len + payload_len + crc_size;
        if d.len() < min_len {
            Err(FrameError::LengthMismatch { expected: min_len as usize, got: d.len() as usize })
        } else {
            match parse_extensions(d, HEADER_SIZE as int, HEADER_SIZE + ext_len, None, None) {
                Err(e) => Err(e),
                Ok((src, dst)) => {
                    let payload_offset = HEADER_SIZE + ext_len;
                    let payload = d.subrange(payload_offset, payload_offset + payload_len);
                    let received = u16_at(d, payload_offset + payload_len);
                    if has_payload_crc(flags) && spec_crc16(payload) != received {
                        Err(
                            FrameError::PayloadCrcMismatch {
                                expected: spec_crc16(payload),
                                got: received,
                            },
                        )
                    } else {
                        Ok(
                            FrameModel {
                                magic: SYNAPSE_MAGIC,
                                version: SYNAPSE_VERSION,
                                flags,
                                msg_id: u16_at(d, 4),
                                sequence: u16_at(d, 6),
                                timestamp_ms: u32_at(d, 8),
                                hdr_ext_len: d[12],
                                payload_len: d[13],
                                src_endpoint: src,
                                dst_endpoint: dst,
                                payload,
                                payload_crc: if has_payload_crc(flags) {
                                    Some(received)
                                } else {
                                    None
                                },
                            },
                        )
                    }
                },
            }
        }
    }
}

/// Parsing of a COBS-encoded frame.
pub open spec fn spec_parse_cobs(d: Seq<u8>) -> Result<FrameModel, FrameError> {
    match spec_decode(d) {
        Err(error) => Err(FrameError::Cobs { error }),
        Ok(raw) => spec_parse(raw),
    }
}

/// The view of a parsing result.
pub open spec fn parsed_view(r: Result<SynapseFrame, FrameError>) -> Result<FrameModel, FrameError> {
    match r {
        Ok(f) => Ok(f@),
        Err(e) => Err(e),
    }
}

/// Whether a frame can be written out and read back: V2 magic and version,
/// and a payload length field that matches the payload.
pub open spec fn is_encodable(f: FrameModel) -> bool {
    &&& f.magic == SYNAPSE_MAGIC
    &&& f.version == SYNAPSE_VERSION
    &&& f.payload.len() == f.payload_len
}

/// What reading back an encoded frame yields: the same fields, with the
/// extension length that encoding wrote, both endpoints present (an absent
/// one as 0) if either was, and the payload CRC-16 if the flags ask for it.
pub open spec fn wire_normalized(f: FrameModel) -> FrameModel {
    FrameModel {
        hdr_ext_len: encoded_ext_len(f),
        src_endpoint: if has_routing(f) {
            Some(f.src_endpoint.unwrap_or(0))
        } else {
            None
        },
        dst_endpoint: if has_routing(f) {
            Some(f.dst_endpoint.unwrap_or(0))
        } else {
            None
        },
        payload_crc: if has_payload_crc(f.flags) {
            Some(spec_crc16(f.payload))
        } else {
            None
        },
        ..f
    }
}

proof fn lemma_u16_in(d: Seq<u8>, i: int, x: u16)
    requires
        0 <= i,
        i + 2 <= d.len(),
        d.subrange(i, i + 2) == le16(x),
    ensures
        u16_at(d, i) == x,
{
    lemma_le16_roundtrip(x);
    assert(d[i] == d.subrange(i, i + 2)[0]);
    assert(d[i + 1] == d.subrange(i, i + 2)[1]);
}

proof fn lemma_u32_in(d: Seq<u8>, i: int, x: u32)
    requires
        0 <= i,
        i + 4 <= d.len(),
        d.subrange(i, i + 4) == le32(x),
    ensures
        u32_at(d, i) == x,
{
    lemma_le32_roundtrip(x);
    assert(d[i] == d.subrange(i, i + 4)[0]);
    assert(d[i + 1] == d.subrange(i, i + 4)[1]);
    assert(d[i + 2] == d.subrange(i, i + 4)[2]);
    assert(d[i + 3] == d.subrange(i, i + 4)[3]);
}

/// The byte layout of an encoded frame: magic 0x534E (little-endian: 0x4E,
/// 0x53), version 2, flags, message id, sequence number (little-endian
/// 16-bit each), time (little-endian 32-bit), extension length (6 with
/// routing, else 0), payload length, then the CRC-8 of those fourteen bytes;
/// with routing, the extension type 0x01, its length 4, and the source and
/// destination endpoints (little-endian 16-bit, an absent one as 0); then the
/// payload; then, if the flags ask for it, the payload's CRC-16
/// (little-endian).
pub proof fn lemma_frame_layout(f: FrameModel)
    requires
        is_encodable(f),
    ensures
        ({
            let d = spec_encode_frame(f);
            let ext: int = if f.src_endpoint is Some || f.dst_endpoint is Some {
                6
            } else {
                0
            };
            let crc: int = if f.flags & 0x20 != 0 {
                2
            } else {
                0
            };
            let end = 15 + ext + f.payload.len();
            &&& d.len() == end + crc
            &&& d[0] == 0x4E && d[1] == 0x53 && d[2] == 2 && d[3] == f.flags
            &&& d.subrange(4, 6) == le16(f.msg_id)
            &&& d.subrange(6, 8) == le16(f.sequence)
            &&& d.subrange(8, 12) == le32(f.timestamp_ms)
            &&& d[12] == ext && d[13] == f.payload_len
            &&& d[14] == spec_crc8(d.take(14))
            &&& ext == 6 ==> d.subrange(15, 21) == seq![0x01u8, 4u8] + le16(
                f.src_endpoint.unwrap_or(0),
            ) + le16(f.dst_endpoint.unwrap_or(0))
            &&& d.subrange(15 + ext, end) == f.payload
            &&& crc == 2 ==> d.subrange(end, end + 2) == le16(spec_crc16(f.payload))
        }),
{
    let h = header_fields(f);
    let d = spec_encode_frame(f);
    let ext = routing_extension(f);
    let pl = f.payload.len() as int;
    let el = ext.len() as int;
    assert(h.len() == 14);
    assert(d.take(14) =~= h);
    assert(d.subrange(4, 6) =~= le16(f.msg_id));
    assert(d.subrange(6, 8) =~= le16(f.sequence));
    assert(d.subrange(8, 12) =~= le32(f.timestamp_ms));
    if has_routing(f) {
        assert(d.subrange(15, 21) =~= ext);
    }
    assert(d.subrange(15 + el, 15 + el + pl) =~= f.payload);
    if has_payload_crc(f.flags) {
        assert(d.subrange(15 + el + pl, 15 + el + pl + 2) =~= payload_trailer(f));
    }
}

/// Parsing undoes encoding: the bytes of an encodable frame, followed by
/// anything at all, parse back to the frame (as `wire_normalized` says).
pub proof fn lemma_parse_encode(f: FrameModel, tail: Seq<u8>)
    requires
        is_encodable(f),
    ensures
        spec_parse(spec_encode_frame(f) + tail) == Ok::<FrameModel, FrameError>(wire_normalized(f)),
{
    let h = header_fields(f);
    let ext = routing_extension(f);
    let trailer = payload_trailer(f);
    let d = spec_encode_frame(f) + tail;
    let el = encoded_ext_len(f) as int;
    let pl = f.payload.len() as int;
    assert(h.len() == 14);
    assert(ext.len() == el);
    assert(d.take(14) =~= h);
    assert(d[14] == spec_crc8(h));
    assert(d.subrange(0, 2) =~= le16(f.magic));
    lemma_u16_in(d, 0, f.magic);
    assert(d[2] == f.version);
    assert(d[3] == f.flags);
    assert(d.subrange(4, 6) =~= le16(f.msg_id));
    lemma_u16_in(d, 4, f.msg_id);
    assert(d.subrange(6, 8) =~= le16(f.sequence));
    lemma_u16_in(d, 6, f.sequence);
    assert(d.subrange(8, 12) =~= le32(f.timestamp_ms));
    lemma_u32_in(d, 8, f.timestamp_ms);
    assert(d[12] == encoded_ext_len(f));
    assert(d[13] == f.payload_len);
    assert(d.subrange(15, 15 + el) =~= ext);
    if has_routing(f) {
        assert(d[15] == EXT_ROUTING);
        assert(d[16] == 4);
        assert(d.subrange(17, 19) =~= le16(f.src_endpoint.unwrap_or(0)));
        lemma_u16_in(d, 17, f.src_endpoint.unwrap_or(0));
        assert(d.subrange(19, 21) =~= le16(f.dst_endpoint.unwrap_or(0)));
        lemma_u16_in(d, 19, f.dst_endpoint.unwrap_or(0));
        assert(parse_extensions(d, 21, 21, Some(u16_at(d, 17)), Some(u16_at(d, 19))) == Ok::<
            (Option<u16>, Option<u16>),
            FrameError,
        >((Some(u16_at(d, 17)), Some(u16_at(d, 19)))));
    }
    assert(d.subrange(15 + el, 15 + el + pl) =~= f.payload);
    if has_payload_crc(f.flags) {
        assert(d.subrange(15 + el + pl, 15 + el + pl + 2) =~= le16(spec_crc16(f.payload)));
        lemma_u16_in(d, 15 + el + pl, spec_crc16(f.payload));
    }
    assert(spec_parse(d) =~= Ok::<FrameModel, FrameError>(wire_normalized(f)));
}

/// The whole wire path round-trips: COBS-framing the bytes of an encodable
/// frame and parsing them back yields the frame (as `wire_normalized` says).
pub proof fn lemma_parse_cobs_encode(f: FrameModel)
    requires
        is_encodable(f),
    ensures
        spec_parse_cobs(spec_encode(spec_encode_frame(f))) == Ok::<FrameModel, FrameError>(
            wire_normalized(f),
        ),
{
    crate::cobs::lemma_decode_encode(spec_encode_frame(f));
    lemma_parse_encode(f, seq![0u8]);
    assert(spec_encode_frame(f).push(0) =~= spec_encode_frame(f) + seq![0u8]);
}

impl SynapseFrame {
    /// Create a new Synapse V2 frame, stamped with the current time.
    pub fn new(msg_id: u16, payload: Vec<u8>) -> (f: Self)
        ensures
            f@ == new_frame(msg_id, payload@, f.timestamp_ms),
    {
        let timestamp_ms = current_timestamp_ms();
        Self::new_at(msg_id, payload, timestamp_ms)
    }

    /// Create a new Synapse V2 frame stamped with `timestamp_ms`.
    pub fn new_at(msg_id: u16, payload: Vec<u8>, timestamp_ms: u32) -> (f: Self)
        ensures
            f@ == new_frame(msg_id, payload@, timestamp_ms),
    {
        let payload_len = (payload.len() % 256) as u8;
        SynapseFrame {
            magic: SYNAPSE_MAGIC,
            version: SYNAPSE_VERSION,
            flags: FLAG_PAYLOAD_CRC,
            msg_id,
            sequence: 0,
            timestamp_ms,
            hdr_ext_len: 0,
            payload_len,
            src_endpoint: None,
            dst_endpoint: None,
            payload,
            payload_crc: None,
        }
    }

    /// A copy of the frame.
    pub fn duplicate(&self) -> (f: Self)
        ensures
            f@ == self@,
    {
        SynapseFrame {
            magic: self.magic,
            version: self.version,
            flags: self.flags,
            msg_id: self.msg_id,
            sequence: self.sequence,
            timestamp_ms: self.timestamp_ms,
            hdr_ext_len: self.hdr_ext_len,
            payload_len: self.payload_len,
            src_endpoint: self.src_endpoint,
            dst_endpoint: self.dst_endpoint,
            payload: vstd::slice::slice_to_vec(self.payload.as_slice()),
            payload_crc: self.payload_crc,
        }
    }

    /// Set the sequence number.
    pub fn with_sequence(self, seq: u16) -> (f: Self)
        ensures
            f@ == (FrameModel { sequence: seq, ..self@ }),
    {
        let mut f = self;
        f.sequence = seq;
        f
    }

    /// Set the routing endpoints.
    pub fn with_routing(self, src: u16, dst: u16) -> (f: Self)
        ensures
            f@ == (FrameModel { src_endpoint: Some(src), dst_endpoint: Some(dst), ..self@ }),
    {
        let mut f = self;
        f.src_endpoint = Some(src);
        f.dst_endpoint = Some(dst);
        f
    }

    /// Set the routing endpoints from endpoint identifiers.
    pub fn with_endpoint_ids(self, src: EndpointId, dst: EndpointId) -> (f: Self)
        ensures
            f@ == (FrameModel { src_endpoint: Some(src.0), dst_endpoint: Some(dst.0), ..self@ }),
    {
        self.with_routing(src.raw(), dst.raw())
    }

    /// Set the flags.
    pub fn with_flags(self, flags: u8) -> (f: Self)
        ensures
            f@ == (FrameModel { flags, ..self@ }),
    {
        let mut f = self;
        f.flags = flags;
        f
    }

    /// Encode the frame to bytes (before COBS encoding).
    pub fn encode(&self) -> (out: Vec<u8>)
        ensures
            out@ == spec_encode_frame(self@),
    {
        let has_routing = self.src_endpoint.is_some() || self.dst_endpoint.is_some();
        let hdr_ext_len: u8 = if has_routing {
            6
        } else {
            0
        };
        let has_payload_crc = (self.flags & FLAG_PAYLOAD_CRC) != 0;
        let mut frame: Vec<u8> = Vec::new();
        push_u16_le(&mut frame, self.magic);
        frame.push(self.version);
        frame.push(self.flags);
        push_u16_le(&mut frame, self.msg_id);
        push_u16_le(&mut frame, self.sequence);
        push_u32_le(&mut frame, self.timestamp_ms);
        frame.push(hdr_ext_len);
        frame.push(self.payload_len);
        assert(frame@ =~= header_fields(self@));
        let header_crc = crc8(frame.as_slice());
        frame.push(header_crc);
        let ghost with_header = frame@;
        if has_routing {
            frame.push(EXT_ROUTING);
            frame.push(4);
            let src = match self.src_endpoint {
                Some(v) => v,
                None => 0,
            };
            let dst = match self.dst_endpoint {
                Some(v) => v,
                None => 0,
            };
            push_u16_le(&mut frame, src);
            push_u16_le(&mut frame, dst);
        }
        assert(frame@ =~= with_header + routing_extension(self@));
        push_bytes(&mut frame, self.payload.as_slice());
        if has_payload_crc {
            let payload_crc = crc16(self.payload.as_slice());
            push_u16_le(&mut frame, payload_crc);
        }
        assert(frame@ =~= spec_encode_frame(self@));
        frame
    }

    /// Encode the frame and apply COBS framing.
    pub fn encode_with_cobs(&self) -> (out: Vec<u8>)
        ensures
            out@ == spec_encode(spec_encode_frame(self@)),
    {
        let raw_frame = self.encode();
        cobs::encode(raw_frame.as_slice())
    }
    /// Parse a Synapse V2 frame from raw bytes (after COBS decoding).
    #[verifier::loop_isolation(false)]
    pub fn parse(data: &[u8]) -> (r: Result<Self, FrameError>)
        ensures
            parsed_view(r) == spec_parse(data@),
    {
        let len = data.len();
        if len < HEADER_SIZE {
            return Err(FrameError::TooShort { len });
        }
        let magic = read_u16_le(data, 0);
        if magic != SYNAPSE_MAGIC {
            return Err(FrameError::InvalidMagic { magic });
        }
        let version = data[2];
        if version != SYNAPSE_VERSION {
            return Err(FrameError::UnsupportedVersion { version });
        }
        let flags = data[3];
        let msg_id = read_u16_le(data, 4);
        let sequence = read_u16_le(data, 6);
        let timestamp_ms = read_u32_le(data, 8);
        let hdr_ext_len = data[12] as usize;
        let payload_len = data[13] as usize;
        let header_crc = data[14];

        // Validate the header CRC-8.
        let calculated_header_crc = crc8(vstd::slice::slice_subrange(data, 0, 14));
        if calculated_header_crc != header_crc {
            return Err(
                FrameError::HeaderCrcMismatch { expected: calculated_header_crc, got: header_crc },
            );
        }

        // Check the minimum frame length.
        let has_payload_crc = (flags & FLAG_PAYLOAD_CRC) != 0;
        let crc_size: usize = if has_payload_crc {
            2
        } else {
            0
        };
        let min_len = HEADER_SIZE + hdr_ext_len + payload_len + crc_size;
        if len < min_len {
            return Err(FrameError::LengthMismatch { expected: min_len, got: len });
        }

        // Walk the header extensions (type, length, value).
        let mut src_endpoint: Option<u16> = None;
        let mut dst_endpoint: Option<u16> = None;
        let mut ext_offset = HEADER_SIZE;
        let ext_end = ext_offset + hdr_ext_len;
        while ext_offset < ext_end
            invariant
                HEADER_SIZE <= ext_offset <= ext_end,
                ext_end == HEADER_SIZE + hdr_ext_len,
                hdr_ext_len <= 255,
                ext_end <= len,
                len == data@.len(),
                parse_extensions(data@, HEADER_SIZE as int, ext_end as int, None, None)
                    == parse_extensions(
                    data@,
                    ext_offset as int,
                    ext_end as int,
                    src_endpoint,
                    dst_endpoint,
                ),
            decreases ext_end - ext_offset,
        {
            if ext_offset + 2 > ext_end {
                return Err(FrameError::IncompleteTlv { offset: ext_offset });
            }
            let ext_type = data[ext_offset];
            let ext_len = data[ext_offset + 1] as usize;
            ext_offset = ext_offset + 2;
            if ext_offset + ext_len > ext_end {
                return Err(FrameError::TlvOverrun { ext_type, len: ext_len });
            }
            if ext_type == EXT_ROUTING && ext_len == 4 {
                src_endpoint = Some(read_u16_le(data, ext_offset));
                dst_endpoint = Some(read_u16_le(data, ext_offset + 2));
            }
            // Unknown or unsupported extensions are skipped.
            ext_offset = ext_offset + ext_len;
        }

        // Extract the payload.
        let payload_offset = HEADER_SIZE + hdr_ext_len;
        let payload = vstd::slice::slice_to_vec(
            vstd::slice::slice_subrange(data, payload_offset, payload_offset + payload_len),
        );

        // Validate the optional payload CRC-16.
        let payload_crc = if has_payload_crc {
            let crc_offset = payload_offset + payload_len;
            if len < crc_offset + 2 {
                return Err(FrameError::MissingPayloadCrc);
            }
            let received_crc = read_u16_le(data, crc_offset);
            let calculated_crc = crc16(payload.as_slice());
            if calculated_crc != received_crc {
                return Err(
                    FrameError::PayloadCrcMismatch { expected: calculated_crc, got: received_crc },
                );
            }
            Some(received_crc)
        } else {
            None
        };

        Ok(
            SynapseFrame {
                magic,
                version,
                flags,
                msg_id,
                sequence,
                timestamp_ms,
                hdr_ext_len: hdr_ext_len as u8,
                payload_len: payload_len as u8,
                src_endpoint,
                dst_endpoint,
                payload,
                payload_crc,
            },
        )
    }

    /// Parse a COBS-encoded frame.
    pub fn parse_cobs(cobs_data: &[u8]) -> (r: Result<Self, FrameError>)
        ensures
            parsed_view(r) == spec_parse_cobs(cobs_data@),
    {
        match cobs::decode(cobs_data) {
            Err(error) => Err(FrameError::Cobs { error }),
            Ok(raw_frame) => Self::parse(raw_frame.as_slice()),
        }
    }
}

} // verus!
