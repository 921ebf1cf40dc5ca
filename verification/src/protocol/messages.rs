//! Typed Synapse messages: message identifiers, fixed-size ROUGE mission
//! payloads with their byte layouts, and dispatch between frames and
//! messages.
use crate::endpoint::NodeId;
use crate::frame::{
    is_encodable, lemma_parse_cobs_encode, new_frame, spec_encode_frame, spec_parse_cobs,
    FrameModel, SynapseFrame,
};
use crate::cobs::spec_encode;
use crate::text::{
    lemma_text_roundtrip, lemma_trailing_text, lossy_text, optional_text_bytes, push_optional_text,
    push_text, read_trailing_text, string_from_utf8_lossy, text_view, trailing_text,
};
use crate::wire::{
    le16, le32, le64, lemma_le16_roundtrip, lemma_le32_roundtrip, lemma_le64_roundtrip,
    lemma_i16_bits_roundtrip, lemma_i8_bits_roundtrip, lemma_u16_at_bytes, lemma_u32_at_bytes,
    lemma_u16_in, lemma_u32_in, lemma_u64_at_in,
    i16_bits, i16_from_bits, i16_of_bits, i16_to_bits, i8_bits, i8_from_bits, i8_of_bits,
    i8_to_bits, push_bytes, push_u32_le, push_u64_le, read_u16_le, read_u32_le, read_u64_le,
    u16_at, u16_le_bytes, u32_at, u32_le_bytes, u64_at, F32Bits,
};
use vstd::utf8::encode_utf8;
use vstd::prelude::*;

verus! {

// ============================================================================
// Message IDs
// ============================================================================
// System Messages (0x0001 - 0x00FF)
pub const MSG_HEARTBEAT: u16 = 0x0001;

pub const MSG_TIME_SYNC: u16 = 0x0002;

pub const MSG_PING: u16 = 0x0003;

pub const MSG_PONG: u16 = 0x0004;

// ROUGE Mission / Network Messages (0x0800 - 0x08FF)
pub const MSG_NODE_HEARTBEAT: u16 = 0x0801;

pub const MSG_LINK_STATUS: u16 = 0x0802;

pub const MSG_MISSION_ROLE: u16 = 0x0803;

pub const MSG_TARGET_CUE: u16 = 0x0810;

pub const MSG_HANDOFF_REQUEST: u16 = 0x0811;

pub const MSG_HANDOFF_ACCEPT: u16 = 0x0812;

pub const MSG_HANDOFF_REJECT: u16 = 0x0813;

pub const MSG_ACK_RECEIVED: u16 = 0x08F0;

pub const MSG_ACK_ACCEPTED: u16 = 0x08F1;

pub const MSG_ACK_REJECTED: u16 = 0x08F2;

// Optional Supervisor / Service Messages (0x0700 - 0x07FF)
pub const MSG_REGISTER: u16 = 0x0700;

pub const MSG_SERVICE_HEARTBEAT: u16 = 0x0701;

pub const MSG_SUPERVISOR_CMD: u16 = 0x0702;

pub const MSG_SUPERVISOR_CMD_ACK: u16 = 0x0703;

pub const MSG_SUPERVISOR_STATE: u16 = 0x0704;

pub const MSG_SERVICE_STATUS: u16 = 0x0705;

// ============================================================================
// Optional Supervisor Constants
// ============================================================================
pub const SERVICE_VIO: u8 = 0;

pub const SERVICE_PERCEPTION: u8 = 1;

pub const SERVICE_PLANNER: u8 = 2;

pub const SERVICE_SYNAPSE: u8 = 3;

pub const SERVICE_CAMERA: u8 = 4;

pub const STATUS_STARTING: u8 = 0;

pub const STATUS_RUNNING: u8 = 1;

pub const STATUS_DEGRADED: u8 = 2;

pub const STATUS_ERROR: u8 = 3;

pub const CMD_SHUTDOWN: u8 = 0;

pub const CMD_RESTART: u8 = 1;

pub const CMD_PAUSE: u8 = 2;

pub const CMD_RESUME: u8 = 3;

// ============================================================================
// Common Types
// ============================================================================
/// The kind of airframe or station a node is (wire codes 1-4).
#[derive(Debug, Clone, Copy, PartialEq, Eq, Structural)]
pub enum NodeRole {
    FixedWing,
    Fpv,
    Gcs,
    Relay,
}

impl NodeRole {
    /// The wire code of the role.
    pub open spec fn code(self) -> u8 {
        match self {
            NodeRole::FixedWing => 1,
            NodeRole::Fpv => 2,
            NodeRole::Gcs => 3,
            NodeRole::Relay => 4,
        }
    }

    /// The role with wire code `role`, if any.
    pub open spec fn from_code(role: u8) -> Option<NodeRole> {
        if role == 1 {
            Some(NodeRole::FixedWing)
        } else if role == 2 {
            Some(NodeRole::Fpv)
        } else if role == 3 {
            Some(NodeRole::Gcs)
        } else if role == 4 {
            Some(NodeRole::Relay)
        } else {
            None
        }
    }

    pub fn as_u8(self) -> (v: u8)
        ensures
            v == self.code(),
    {
        match self {
            NodeRole::FixedWing => 1,
            NodeRole::Fpv => 2,
            NodeRole::Gcs => 3,
            NodeRole::Relay => 4,
        }
    }

    pub fn from_u8(role: u8) -> (r: Option<Self>)
        ensures
            r == Self::from_code(role),
    {
        match role {
            1 => Some(Self::FixedWing),
            2 => Some(Self::Fpv),
            3 => Some(Self::Gcs),
            4 => Some(Self::Relay),
            _ => None,
        }
    }
}

/// A role's wire code reads back as that role; a code that reads as a
/// role is that role's code.
pub proof fn lemma_node_role_code(role: NodeRole, v: u8)
    ensures
        NodeRole::from_code(role.code()) == Some(role),
        NodeRole::from_code(v) matches Some(r) ==> r.code() == v,
        role.code() == match role {
            NodeRole::FixedWing => 1u8,
            NodeRole::Fpv => 2u8,
            NodeRole::Gcs => 3u8,
            NodeRole::Relay => 4u8,
        },
        NodeRole::from_code(v) is Some <==> 1 <= v <= 4,
{
}

/// The part a node plays in the mission (wire codes 1-5).
#[derive(Debug, Clone, Copy, PartialEq, Eq, Structural)]
pub enum MissionRole {
    Scout,
    Interceptor,
    Relay,
    Overwatch,
    GroundControl,
}

impl MissionRole {
    /// The wire code of the role.
    pub open spec fn code(self) -> u8 {
        match self {
            MissionRole::Scout => 1,
            MissionRole::Interceptor => 2,
            MissionRole::Relay => 3,
            MissionRole::Overwatch => 4,
            MissionRole::GroundControl => 5,
        }
    }

    /// The role with wire code `role`, if any.
    pub open spec fn from_code(role: u8) -> Option<MissionRole> {
        if role == 1 {
            Some(MissionRole::Scout)
        } else if role == 2 {
            Some(MissionRole::Interceptor)
        } else if role == 3 {
            Some(MissionRole::Relay)
        } else if role == 4 {
            Some(MissionRole::Overwatch)
        } else if role == 5 {
            Some(MissionRole::GroundControl)
        } else {
            None
        }
    }

    pub fn as_u8(self) -> (v: u8)
        ensures
            v == self.code(),
    {
        match self {
            MissionRole::Scout => 1,
            MissionRole::Interceptor => 2,
            MissionRole::Relay => 3,
            MissionRole::Overwatch => 4,
            MissionRole::GroundControl => 5,
        }
    }

    pub fn from_u8(role: u8) -> (r: Option<Self>)
        ensures
            r == Self::from_code(role),
    {
        match role {
            1 => Some(Self::Scout),
            2 => Some(Self::Interceptor),
            3 => Some(Self::Relay),
            4 => Some(Self::Overwatch),
            5 => Some(Self::GroundControl),
            _ => None,
        }
    }
}

/// A mission role's wire code reads back as that role; a code that reads
/// as a role is that role's code.
pub proof fn lemma_mission_role_code(role: MissionRole, v: u8)
    ensures
        MissionRole::from_code(role.code()) == Some(role),
        MissionRole::from_code(v) matches Some(r) ==> r.code() == v,
        role.code() == match role {
            MissionRole::Scout => 1u8,
            MissionRole::Interceptor => 2u8,
            MissionRole::Relay => 3u8,
            MissionRole::Overwatch => 4u8,
            MissionRole::GroundControl => 5u8,
        },
        MissionRole::from_code(v) is Some <==> 1 <= v <= 5,
{
}

/// Why a message was accepted or refused (wire codes 0-4).
#[derive(Debug, Clone, Copy, PartialEq, Eq, Structural)]
pub enum AckReason {
    Accepted,
    Busy,
    Invalid,
    Unauthorized,
    Unsupported,
}

impl AckReason {
    /// The wire code of the reason.
    pub open spec fn code(self) -> u8 {
        match self {
            AckReason::Accepted => 0,
            AckReason::Busy => 1,
            AckReason::Invalid => 2,
            AckReason::Unauthorized => 3,
            AckReason::Unsupported => 4,
        }
    }

    /// The reason with wire code `value`, if any.
    pub open spec fn from_code(value: u8) -> Option<AckReason> {
        if value == 0 {
            Some(AckReason::Accepted)
        } else if value == 1 {
            Some(AckReason::Busy)
        } else if value == 2 {
            Some(AckReason::Invalid)
        } else if value == 3 {
            Some(AckReason::Unauthorized)
        } else if value == 4 {
            Some(AckReason::Unsupported)
        } else {
            None
        }
    }

    pub fn as_u8(self) -> (v: u8)
        ensures
            v == self.code(),
    {
        match self {
            AckReason::Accepted => 0,
            AckReason::Busy => 1,
            AckReason::Invalid => 2,
            AckReason::Unauthorized => 3,
            AckReason::Unsupported => 4,
        }
    }

    pub fn from_u8(value: u8) -> (r: Option<Self>)
        ensures
            r == Self::from_code(value),
    {
        match value {
            0 => Some(Self::Accepted),
            1 => Some(Self::Busy),
            2 => Some(Self::Invalid),
            3 => Some(Self::Unauthorized),
            4 => Some(Self::Unsupported),
            _ => None,
        }
    }
}

/// A reason's wire code reads back as that reason; a code that reads as a
/// reason is that reason's code.
pub proof fn lemma_ack_reason_code(reason: AckReason, v: u8)
    ensures
        AckReason::from_code(reason.code()) == Some(reason),
        AckReason::from_code(v) matches Some(r) ==> r.code() == v,
        reason.code() == match reason {
            AckReason::Accepted => 0u8,
            AckReason::Busy => 1u8,
            AckReason::Invalid => 2u8,
            AckReason::Unauthorized => 3u8,
            AckReason::Unsupported => 4u8,
        },
        AckReason::from_code(v) is Some <==> v <= 4,
{
}

// ============================================================================
// System Messages
// ============================================================================
#[derive(Debug, Clone, Copy, PartialEq, Eq, Structural)]
pub enum SystemMessage {
    Heartbeat,
    TimeSync { time_ms: u64 },
    Ping,
    Pong,
}

// ============================================================================
// ROUGE Messages
// ============================================================================
/// Periodic liveness report of a node.
#[derive(Debug, Clone, Copy, PartialEq, Eq, Structural)]
pub struct NodeHeartbeat {
    pub node: NodeId,
    pub role: NodeRole,
    pub uptime_ms: u32,
    pub health: u8,
    pub capabilities: u16,
}

impl NodeHeartbeat {
    pub const PAYLOAD_LEN: usize = 9;

    /// Payload layout: node, role code, uptime (4), health, capabilities (2).
    pub open spec fn spec_payload(self) -> Seq<u8> {
        seq![self.node.0, self.role.code()] + le32(self.uptime_ms) + seq![self.health] + le16(
            self.capabilities,
        )
    }

    /// Decoding: exactly 9 bytes with a valid role code.
    pub open spec fn spec_decode(b: Seq<u8>) -> Option<NodeHeartbeat> {
        if b.len() != 9 {
            None
        } else {
            match NodeRole::from_code(b[1]) {
                None => None,
                Some(role) => Some(
                    NodeHeartbeat {
                        node: NodeId(b[0]),
                        role,
                        uptime_ms: u32_at(b, 2),
                        health: b[6],
                        capabilities: u16_at(b, 7),
                    },
                ),
            }
        }
    }

    pub fn new(node: NodeId, role: NodeRole, uptime_ms: u32, health: u8, capabilities: u16) -> (m:
        Self)
        ensures
            m == (NodeHeartbeat { node, role, uptime_ms, health, capabilities }),
    {
        Self { node, role, uptime_ms, health, capabilities }
    }

    pub fn to_payload_bytes(&self) -> (b: [u8; 9])
        ensures
            b@ == self.spec_payload(),
    {
        let up = u32_le_bytes(self.uptime_ms);
        let caps = u16_le_bytes(self.capabilities);
        let b = [
            self.node.0,
            self.role.as_u8(),
            up[0],
            up[1],
            up[2],
            up[3],
            self.health,
            caps[0],
            caps[1],
        ];
        assert(b@ =~= self.spec_payload());
        b
    }

    pub fn from_payload_bytes(bytes: &[u8]) -> (r: Option<Self>)
        ensures
            r == Self::spec_decode(bytes@),
    {
        if bytes.len() != Self::PAYLOAD_LEN {
            return None;
        }
        let role = match NodeRole::from_u8(bytes[1]) {
            Some(role) => role,
            None => return None,
        };
        Some(
            Self {
                node: NodeId(bytes[0]),
                role,
                uptime_ms: read_u32_le(bytes, 2),
                health: bytes[6],
                capabilities: read_u16_le(bytes, 7),
            },
        )
    }
}

/// Node heartbeat payloads round-trip, in both directions.
pub proof fn lemma_node_heartbeat_payload(m: NodeHeartbeat, b: Seq<u8>)
    ensures
        NodeHeartbeat::spec_decode(m.spec_payload()) == Some(m),
        NodeHeartbeat::spec_decode(b) matches Some(d) ==> d.spec_payload() == b,
{
    let p = m.spec_payload();
    lemma_node_role_code(m.role, 0);
    lemma_le32_roundtrip(m.uptime_ms);
    lemma_le16_roundtrip(m.capabilities);
    assert(p.subrange(2, 6) =~= le32(m.uptime_ms));
    assert(p.subrange(7, 9) =~= le16(m.capabilities));
    assert(u32_at(p, 2) == u32_at(le32(m.uptime_ms), 0));
    assert(u16_at(p, 7) == u16_at(le16(m.capabilities), 0));
    if b.len() == 9 {
        lemma_node_role_code(m.role, b[1]);
        lemma_u32_at_bytes(b, 2);
        lemma_u16_at_bytes(b, 7);
        if let Some(d) = NodeHeartbeat::spec_decode(b) {
            assert(d.spec_payload() =~= b);
        }
    }
}

/// Radio link quality as seen by a node.
#[derive(Debug, Clone, Copy, PartialEq, Eq, Structural)]
pub struct LinkStatus {
    pub node: NodeId,
    pub rssi_dbm: i16,
    pub lq_percent: u8,
    pub snr_db: i8,
    pub timestamp_ms: u32,
}

impl LinkStatus {
    pub const PAYLOAD_LEN: usize = 9;

    /// Payload layout: node, RSSI (2, two's complement), link quality,
    /// SNR (two's complement), timestamp (4).
    pub open spec fn spec_payload(self) -> Seq<u8> {
        seq![self.node.0] + le16(i16_bits(self.rssi_dbm)) + seq![
            self.lq_percent,
            i8_bits(self.snr_db),
        ] + le32(self.timestamp_ms)
    }

    /// Decoding: exactly 9 bytes.
    pub open spec fn spec_decode(b: Seq<u8>) -> Option<LinkStatus> {
        if b.len() != 9 {
            None
        } else {
            Some(
                LinkStatus {
                    node: NodeId(b[0]),
                    rssi_dbm: i16_from_bits(u16_at(b, 1)),
                    lq_percent: b[3],
                    snr_db: i8_from_bits(b[4]),
                    timestamp_ms: u32_at(b, 5),
                },
            )
        }
    }

    pub fn new(node: NodeId, rssi_dbm: i16, lq_percent: u8, snr_db: i8, timestamp_ms: u32) -> (m:
        Self)
        ensures
            m == (LinkStatus { node, rssi_dbm, lq_percent, snr_db, timestamp_ms }),
    {
        Self { node, rssi_dbm, lq_percent, snr_db, timestamp_ms }
    }

    pub fn to_payload_bytes(&self) -> (b: [u8; 9])
        ensures
            b@ == self.spec_payload(),
    {
        let rssi = u16_le_bytes(i16_to_bits(self.rssi_dbm));
        let ts = u32_le_bytes(self.timestamp_ms);
        let b = [
            self.node.0,
            rssi[0],
            rssi[1],
            self.lq_percent,
            i8_to_bits(self.snr_db),
            ts[0],
            ts[1],
            ts[2],
            ts[3],
        ];
        assert(b@ =~= self.spec_payload());
        b
    }

    pub fn from_payload_bytes(bytes: &[u8]) -> (r: Option<Self>)
        ensures
            r == Self::spec_decode(bytes@),
    {
        if bytes.len() != Self::PAYLOAD_LEN {
            return None;
        }
        Some(
            Self {
                node: NodeId(bytes[0]),
                rssi_dbm: i16_of_bits(read_u16_le(bytes, 1)),
                lq_percent: bytes[3],
                snr_db: i8_of_bits(bytes[4]),
                timestamp_ms: read_u32_le(bytes, 5),
            },
        )
    }
}

/// Link status payloads round-trip, in both directions.
pub proof fn lemma_link_status_payload(m: LinkStatus, b: Seq<u8>)
    ensures
        LinkStatus::spec_decode(m.spec_payload()) == Some(m),
        LinkStatus::spec_decode(b) matches Some(d) ==> d.spec_payload() == b,
{
    let p = m.spec_payload();
    lemma_le16_roundtrip(i16_bits(m.rssi_dbm));
    lemma_le32_roundtrip(m.timestamp_ms);
    lemma_i16_bits_roundtrip(m.rssi_dbm, 0);
    lemma_i8_bits_roundtrip(m.snr_db, 0);
    assert(p.subrange(1, 3) =~= le16(i16_bits(m.rssi_dbm)));
    assert(p.subrange(5, 9) =~= le32(m.timestamp_ms));
    assert(u16_at(p, 1) == u16_at(le16(i16_bits(m.rssi_dbm)), 0));
    assert(u32_at(p, 5) == u32_at(le32(m.timestamp_ms), 0));
    if b.len() == 9 {
        lemma_u16_at_bytes(b, 1);
        lemma_u32_at_bytes(b, 5);
        lemma_i16_bits_roundtrip(0, u16_at(b, 1));
        lemma_i8_bits_roundtrip(0, b[4]);
        let d = LinkStatus::spec_decode(b).unwrap();
        assert(d.spec_payload() =~= b);
    }
}

/// The mission role a node has taken.
#[derive(Debug, Clone, Copy, PartialEq, Eq, Structural)]
pub struct MissionRoleState {
    pub node: NodeId,
    pub role: MissionRole,
}

impl MissionRoleState {
    pub const PAYLOAD_LEN: usize = 2;

    /// Payload layout: node, role code.
    pub open spec fn spec_payload(self) -> Seq<u8> {
        seq![self.node.0, self.role.code()]
    }

    /// Decoding: exactly 2 bytes with a valid role code.
    pub open spec fn spec_decode(b: Seq<u8>) -> Option<MissionRoleState> {
        if b.len() != 2 {
            None
        } else {
            match MissionRole::from_code(b[1]) {
                None => None,
                Some(role) => Some(MissionRoleState { node: NodeId(b[0]), role }),
            }
        }
    }

    pub fn to_payload_bytes(&self) -> (b: [u8; 2])
        ensures
            b@ == self.spec_payload(),
    {
        let b = [self.node.0, self.role.as_u8()];
        assert(b@ =~= self.spec_payload());
        b
    }

    pub fn from_payload_bytes(bytes: &[u8]) -> (r: Option<Self>)
        ensures
            r == Self::spec_decode(bytes@),
    {
        if bytes.len() != Self::PAYLOAD_LEN {
            return None;
        }
        let role = match MissionRole::from_u8(bytes[1]) {
            Some(role) => role,
            None => return None,
        };
        Some(Self { node: NodeId(bytes[0]), role })
    }
}

/// Mission role payloads round-trip, in both directions.
pub proof fn lemma_mission_role_payload(m: MissionRoleState, b: Seq<u8>)
    ensures
        MissionRoleState::spec_decode(m.spec_payload()) == Some(m),
        MissionRoleState::spec_decode(b) matches Some(d) ==> d.spec_payload() == b,
{
    lemma_mission_role_code(m.role, 0);
    if b.len() == 2 {
        lemma_mission_role_code(m.role, b[1]);
        if let Some(d) = MissionRoleState::spec_decode(b) {
            assert(d.spec_payload() =~= b);
        }
    }
}

/// A target sighting handed to other nodes. Coordinates are IEEE-754
/// single-precision numbers, held as their bit patterns.
#[derive(Debug, Clone, Copy, PartialEq)]
pub struct TargetCue {
    pub source_node: NodeId,
    pub target_id: u16,
    pub x_m: F32Bits,
    pub y_m: F32Bits,
    pub z_m: F32Bits,
    pub confidence: u8,
    pub urgency: u8,
    pub timestamp_ms: u32,
}

impl TargetCue {
    pub const PAYLOAD_LEN: usize = 21;

    /// Payload layout: source node, target id (2), x (4), y (4), z (4),
    /// confidence, urgency, timestamp (4).
    pub open spec fn spec_payload(self) -> Seq<u8> {
        seq![self.source_node.0] + le16(self.target_id) + le32(self.x_m.0) + le32(self.y_m.0)
            + le32(self.z_m.0) + seq![self.confidence, self.urgency] + le32(self.timestamp_ms)
    }

    /// Decoding: exactly 21 bytes.
    pub open spec fn spec_decode(b: Seq<u8>) -> Option<TargetCue> {
        if b.len() != 21 {
            None
        } else {
            Some(
                TargetCue {
                    source_node: NodeId(b[0]),
                    target_id: u16_at(b, 1),
                    x_m: F32Bits(u32_at(b, 3)),
                    y_m: F32Bits(u32_at(b, 7)),
                    z_m: F32Bits(u32_at(b, 11)),
                    confidence: b[15],
                    urgency: b[16],
                    timestamp_ms: u32_at(b, 17),
                },
            )
        }
    }

    pub fn new(
        source_node: NodeId,
        target_id: u16,
        x_m: F32Bits,
        y_m: F32Bits,
        z_m: F32Bits,
        confidence: u8,
        urgency: u8,
        timestamp_ms: u32,
    ) -> (m: Self)
        ensures
            m == (TargetCue {
                source_node,
                target_id,
                x_m,
                y_m,
                z_m,
                confidence,
                urgency,
                timestamp_ms,
            }),
    {
        Self { source_node, target_id, x_m, y_m, z_m, confidence, urgency, timestamp_ms }
    }

    pub fn to_payload_bytes(&self) -> (b: [u8; 21])
        ensures
            b@ == self.spec_payload(),
    {
        let id = u16_le_bytes(self.target_id);
        let x = u32_le_bytes(self.x_m.0);
        let y = u32_le_bytes(self.y_m.0);
        let z = u32_le_bytes(self.z_m.0);
        let ts = u32_le_bytes(self.timestamp_ms);
        let b = [
            self.source_node.0,
            id[0],
            id[1],
            x[0],
            x[1],
            x[2],
            x[3],
            y[0],
            y[1],
            y[2],
            y[3],
            z[0],
            z[1],
            z[2],
            z[3],
            self.confidence,
            self.urgency,
            ts[0],
            ts[1],
            ts[2],
            ts[3],
        ];
        assert(b@ =~= self.spec_payload());
        b
    }

    pub fn from_payload_bytes(bytes: &[u8]) -> (r: Option<Self>)
        ensures
            r == Self::spec_decode(bytes@),
    {
        if bytes.len() != Self::PAYLOAD_LEN {
            return None;
        }
        Some(
            Self {
                source_node: NodeId(bytes[0]),
                target_id: read_u16_le(bytes, 1),
                x_m: F32Bits(read_u32_le(bytes, 3)),
                y_m: F32Bits(read_u32_le(bytes, 7)),
                z_m: F32Bits(read_u32_le(bytes, 11)),
                confidence: bytes[15],
                urgency: bytes[16],
                timestamp_ms: read_u32_le(bytes, 17),
            },
        )
    }
}

/// Target cue payloads round-trip, in both directions.
pub proof fn lemma_target_cue_payload(m: TargetCue, b: Seq<u8>)
    ensures
        TargetCue::spec_decode(m.spec_payload()) == Some(m),
        TargetCue::spec_decode(b) matches Some(d) ==> d.spec_payload() == b,
{
    let p = m.spec_payload();
    lemma_le16_roundtrip(m.target_id);
    lemma_le32_roundtrip(m.x_m.0);
    lemma_le32_roundtrip(m.y_m.0);
    lemma_le32_roundtrip(m.z_m.0);
    lemma_le32_roundtrip(m.timestamp_ms);
    assert(p.subrange(1, 3) =~= le16(m.target_id));
    assert(p.subrange(3, 7) =~= le32(m.x_m.0));
    assert(p.subrange(7, 11) =~= le32(m.y_m.0));
    assert(p.subrange(11, 15) =~= le32(m.z_m.0));
    assert(p.subrange(17, 21) =~= le32(m.timestamp_ms));
    assert(u16_at(p, 1) == u16_at(le16(m.target_id), 0));
    assert(u32_at(p, 3) == u32_at(le32(m.x_m.0), 0));
    assert(u32_at(p, 7) == u32_at(le32(m.y_m.0), 0));
    assert(u32_at(p, 11) == u32_at(le32(m.z_m.0), 0));
    assert(u32_at(p, 17) == u32_at(le32(m.timestamp_ms), 0));
    if b.len() == 21 {
        lemma_u16_at_bytes(b, 1);
        lemma_u32_at_bytes(b, 3);
        lemma_u32_at_bytes(b, 7);
        lemma_u32_at_bytes(b, 11);
        lemma_u32_at_bytes(b, 17);
        let d = TargetCue::spec_decode(b).unwrap();
        assert(d.spec_payload() =~= b);
    }
}

/// Receipt acknowledgment: the frame `original_msg_id`/`original_seq`
/// arrived at `from_node` and parsed.
#[derive(Debug, Clone, Copy, PartialEq, Eq, Structural)]
pub struct AckReceipt {
    pub original_msg_id: u16,
    pub original_seq: u16,
    pub from_node: NodeId,
}

impl AckReceipt {
    pub const PAYLOAD_LEN: usize = 5;

    /// Payload layout: original message id (2), original sequence (2), node.
    pub open spec fn spec_payload(self) -> Seq<u8> {
        le16(self.original_msg_id) + le16(self.original_seq) + seq![self.from_node.0]
    }

    /// Decoding: exactly 5 bytes.
    pub open spec fn spec_decode(b: Seq<u8>) -> Option<AckReceipt> {
        if b.len() != 5 {
            None
        } else {
            Some(
                AckReceipt {
                    original_msg_id: u16_at(b, 0),
                    original_seq: u16_at(b, 2),
                    from_node: NodeId(b[4]),
                },
            )
        }
    }

    pub fn to_payload_bytes(&self) -> (b: [u8; 5])
        ensures
            b@ == self.spec_payload(),
    {
        let id = u16_le_bytes(self.original_msg_id);
        let seq = u16_le_bytes(self.original_seq);
        let b = [id[0], id[1], seq[0], seq[1], self.from_node.0];
        assert(b@ =~= self.spec_payload());
        b
    }

    pub fn from_payload_bytes(bytes: &[u8]) -> (r: Option<Self>)
        ensures
            r == Self::spec_decode(bytes@),
    {
        if bytes.len() != Self::PAYLOAD_LEN {
            return None;
        }
        Some(
            Self {
                original_msg_id: read_u16_le(bytes, 0),
                original_seq: read_u16_le(bytes, 2),
                from_node: NodeId(bytes[4]),
            },
        )
    }

    /// The receipt, sent by `from_node`, for `frame`.
    pub fn for_frame(frame: &SynapseFrame, from_node: NodeId) -> (m: Self)
        ensures
            m == (AckReceipt {
                original_msg_id: frame.msg_id,
                original_seq: frame.sequence,
                from_node,
            }),
    {
        Self { original_msg_id: frame.msg_id, original_seq: frame.sequence, from_node }
    }
}

/// Receipt payloads round-trip, in both directions.
pub proof fn lemma_ack_receipt_payload(m: AckReceipt, b: Seq<u8>)
    ensures
        AckReceipt::spec_decode(m.spec_payload()) == Some(m),
        AckReceipt::spec_decode(b) matches Some(d) ==> d.spec_payload() == b,
{
    let p = m.spec_payload();
    lemma_le16_roundtrip(m.original_msg_id);
    lemma_le16_roundtrip(m.original_seq);
    assert(p.subrange(0, 2) =~= le16(m.original_msg_id));
    assert(p.subrange(2, 4) =~= le16(m.original_seq));
    assert(u16_at(p, 0) == u16_at(le16(m.original_msg_id), 0));
    assert(u16_at(p, 2) == u16_at(le16(m.original_seq), 0));
    if b.len() == 5 {
        lemma_u16_at_bytes(b, 0);
        lemma_u16_at_bytes(b, 2);
        let d = AckReceipt::spec_decode(b).unwrap();
        assert(d.spec_payload() =~= b);
    }
}

/// Decision acknowledgment: `from_node` accepted or refused the frame
/// `original_msg_id`/`original_seq`, for `reason`.
#[derive(Debug, Clone, Copy, PartialEq, Eq, Structural)]
pub struct AckDecision {
    pub original_msg_id: u16,
    pub original_seq: u16,
    pub from_node: NodeId,
    pub reason: AckReason,
}

impl AckDecision {
    pub const PAYLOAD_LEN: usize = 6;

    /// Payload layout: original message id (2), original sequence (2),
    /// node, reason code.
    pub open spec fn spec_payload(self) -> Seq<u8> {
        le16(self.original_msg_id) + le16(self.original_seq) + seq![
            self.from_node.0,
            self.reason.code(),
        ]
    }

    /// Decoding: exactly 6 bytes with a valid reason code.
    pub open spec fn spec_decode(b: Seq<u8>) -> Option<AckDecision> {
        if b.len() != 6 {
            None
        } else {
            match AckReason::from_code(b[5]) {
                None => None,
                Some(reason) => Some(
                    AckDecision {
                        original_msg_id: u16_at(b, 0),
                        original_seq: u16_at(b, 2),
                        from_node: NodeId(b[4]),
                        reason,
                    },
                ),
            }
        }
    }

    pub fn to_payload_bytes(&self) -> (b: [u8; 6])
        ensures
            b@ == self.spec_payload(),
    {
        let id = u16_le_bytes(self.original_msg_id);
        let seq = u16_le_bytes(self.original_seq);
        let b = [id[0], id[1], seq[0], seq[1], self.from_node.0, self.reason.as_u8()];
        assert(b@ =~= self.spec_payload());
        b
    }

    pub fn from_payload_bytes(bytes: &[u8]) -> (r: Option<Self>)
        ensures
            r == Self::spec_decode(bytes@),
    {
        if bytes.len() != Self::PAYLOAD_LEN {
            return None;
        }
        let reason = match AckReason::from_u8(bytes[5]) {
            Some(reason) => reason,
            None => return None,
        };
        Some(
            Self {
                original_msg_id: read_u16_le(bytes, 0),
                original_seq: read_u16_le(bytes, 2),
                from_node: NodeId(bytes[4]),
                reason,
            },
        )
    }

    /// The acceptance, by `from_node`, of `frame`.
    pub fn accept_for_frame(frame: &SynapseFrame, from_node: NodeId) -> (m: Self)
        ensures
            m == (AckDecision {
                original_msg_id: frame.msg_id,
                original_seq: frame.sequence,
                from_node,
                reason: AckReason::Accepted,
            }),
    {
        Self {
            original_msg_id: frame.msg_id,
            original_seq: frame.sequence,
            from_node,
            reason: AckReason::Accepted,
        }
    }

    /// The refusal, by `from_node`, of `frame`, for `reason`.
    pub fn reject_for_frame(frame: &SynapseFrame, from_node: NodeId, reason: AckReason) -> (m:
        Self)
        ensures
            m == (AckDecision {
                original_msg_id: frame.msg_id,
                original_seq: frame.sequence,
                from_node,
                reason,
            }),
    {
        Self { original_msg_id: frame.msg_id, original_seq: frame.sequence, from_node, reason }
    }
}

/// Decision payloads round-trip, in both directions.
pub proof fn lemma_ack_decision_payload(m: AckDecision, b: Seq<u8>)
    ensures
        AckDecision::spec_decode(m.spec_payload()) == Some(m),
        AckDecision::spec_decode(b) matches Some(d) ==> d.spec_payload() == b,
{
    let p = m.spec_payload();
    lemma_ack_reason_code(m.reason, 0);
    lemma_le16_roundtrip(m.original_msg_id);
    lemma_le16_roundtrip(m.original_seq);
    assert(p.subrange(0, 2) =~= le16(m.original_msg_id));
    assert(p.subrange(2, 4) =~= le16(m.original_seq));
    assert(u16_at(p, 0) == u16_at(le16(m.original_msg_id), 0));
    assert(u16_at(p, 2) == u16_at(le16(m.original_seq), 0));
    if b.len() == 6 {
        lemma_ack_reason_code(m.reason, b[5]);
        lemma_u16_at_bytes(b, 0);
        lemma_u16_at_bytes(b, 2);
        if let Some(d) = AckDecision::spec_decode(b) {
            assert(d.spec_payload() =~= b);
        }
    }
}

/// A request that `target_node` take over tracking of `target_id`.
#[derive(Debug, Clone, Copy, PartialEq, Eq, Structural)]
pub struct HandoffRequest {
    pub source_node: NodeId,
    pub target_node: NodeId,
    pub target_id: u16,
    pub reason: u8,
    pub timestamp_ms: u32,
}

impl HandoffRequest {
    pub const PAYLOAD_LEN: usize = 9;

    /// Payload layout: source node, target node, target id (2), reason,
    /// timestamp (4).
    pub open spec fn spec_payload(self) -> Seq<u8> {
        seq![self.source_node.0, self.target_node.0] + le16(self.target_id) + seq![self.reason]
            + le32(self.timestamp_ms)
    }

    /// Decoding: exactly 9 bytes.
    pub open spec fn spec_decode(b: Seq<u8>) -> Option<HandoffRequest> {
        if b.len() != 9 {
            None
        } else {
            Some(
                HandoffRequest {
                    source_node: NodeId(b[0]),
                    target_node: NodeId(b[1]),
                    target_id: u16_at(b, 2),
                    reason: b[4],
                    timestamp_ms: u32_at(b, 5),
                },
            )
        }
    }

    pub fn new(
        source_node: NodeId,
        target_node: NodeId,
        target_id: u16,
        reason: u8,
        timestamp_ms: u32,
    ) -> (m: Self)
        ensures
            m == (HandoffRequest { source_node, target_node, target_id, reason, timestamp_ms }),
    {
        Self { source_node, target_node, target_id, reason, timestamp_ms }
    }

    pub fn to_payload_bytes(&self) -> (b: [u8; 9])
        ensures
            b@ == self.spec_payload(),
    {
        let id = u16_le_bytes(self.target_id);
        let ts = u32_le_bytes(self.timestamp_ms);
        let b = [
            self.source_node.0,
            self.target_node.0,
            id[0],
            id[1],
            self.reason,
            ts[0],
            ts[1],
            ts[2],
            ts[3],
        ];
        assert(b@ =~= self.spec_payload());
        b
    }

    pub fn from_payload_bytes(bytes: &[u8]) -> (r: Option<Self>)
        ensures
            r == Self::spec_decode(bytes@),
    {
        if bytes.len() != Self::PAYLOAD_LEN {
            return None;
        }
        Some(
            Self {
                source_node: NodeId(bytes[0]),
                target_node: NodeId(bytes[1]),
                target_id: read_u16_le(bytes, 2),
                reason: bytes[4],
                timestamp_ms: read_u32_le(bytes, 5),
            },
        )
    }
}

/// Handoff request payloads round-trip, in both directions.
pub proof fn lemma_handoff_request_payload(m: HandoffRequest, b: Seq<u8>)
    ensures
        HandoffRequest::spec_decode(m.spec_payload()) == Some(m),
        HandoffRequest::spec_decode(b) matches Some(d) ==> d.spec_payload() == b,
{
    let p = m.spec_payload();
    lemma_le16_roundtrip(m.target_id);
    lemma_le32_roundtrip(m.timestamp_ms);
    assert(p.subrange(2, 4) =~= le16(m.target_id));
    assert(p.subrange(5, 9) =~= le32(m.timestamp_ms));
    assert(u16_at(p, 2) == u16_at(le16(m.target_id), 0));
    assert(u32_at(p, 5) == u32_at(le32(m.timestamp_ms), 0));
    if b.len() == 9 {
        lemma_u16_at_bytes(b, 2);
        lemma_u32_at_bytes(b, 5);
        let d = HandoffRequest::spec_decode(b).unwrap();
        assert(d.spec_payload() =~= b);
    }
}

/// `source_node` takes over tracking of `target_id`.
#[derive(Debug, Clone, Copy, PartialEq, Eq, Structural)]
pub struct HandoffAccept {
    pub source_node: NodeId,
    pub target_node: NodeId,
    pub target_id: u16,
    pub timestamp_ms: u32,
}

impl HandoffAccept {
    pub const PAYLOAD_LEN: usize = 8;

    /// Payload layout: source node, target node, target id (2), timestamp (4).
    pub open spec fn spec_payload(self) -> Seq<u8> {
        seq![self.source_node.0, self.target_node.0] + le16(self.target_id) + le32(
            self.timestamp_ms,
        )
    }

    /// Decoding: exactly 8 bytes.
    pub open spec fn spec_decode(b: Seq<u8>) -> Option<HandoffAccept> {
        if b.len() != 8 {
            None
        } else {
            Some(
                HandoffAccept {
                    source_node: NodeId(b[0]),
                    target_node: NodeId(b[1]),
                    target_id: u16_at(b, 2),
                    timestamp_ms: u32_at(b, 4),
                },
            )
        }
    }

    pub fn new(source_node: NodeId, target_node: NodeId, target_id: u16, timestamp_ms: u32) -> (m:
        Self)
        ensures
            m == (HandoffAccept { source_node, target_node, target_id, timestamp_ms }),
    {
        Self { source_node, target_node, target_id, timestamp_ms }
    }

    pub fn to_payload_bytes(&self) -> (b: [u8; 8])
        ensures
            b@ == self.spec_payload(),
    {
        let id = u16_le_bytes(self.target_id);
        let ts = u32_le_bytes(self.timestamp_ms);
        let b = [self.source_node.0, self.target_node.0, id[0], id[1], ts[0], ts[1], ts[2], ts[3]];
        assert(b@ =~= self.spec_payload());
        b
    }

    pub fn from_payload_bytes(bytes: &[u8]) -> (r: Option<Self>)
        ensures
            r == Self::spec_decode(bytes@),
    {
        if bytes.len() != Self::PAYLOAD_LEN {
            return None;
        }
        Some(
            Self {
                source_node: NodeId(bytes[0]),
                target_node: NodeId(bytes[1]),
                target_id: read_u16_le(bytes, 2),
                timestamp_ms: read_u32_le(bytes, 4),
            },
        )
    }
}

/// Handoff accept payloads round-trip, in both directions.
pub proof fn lemma_handoff_accept_payload(m: HandoffAccept, b: Seq<u8>)
    ensures
        HandoffAccept::spec_decode(m.spec_payload()) == Some(m),
        HandoffAccept::spec_decode(b) matches Some(d) ==> d.spec_payload() == b,
{
    let p = m.spec_payload();
    lemma_le16_roundtrip(m.target_id);
    lemma_le32_roundtrip(m.timestamp_ms);
    assert(p.subrange(2, 4) =~= le16(m.target_id));
    assert(p.subrange(4, 8) =~= le32(m.timestamp_ms));
    assert(u16_at(p, 2) == u16_at(le16(m.target_id), 0));
    assert(u32_at(p, 4) == u32_at(le32(m.timestamp_ms), 0));
    if b.len() == 8 {
        lemma_u16_at_bytes(b, 2);
        lemma_u32_at_bytes(b, 4);
        let d = HandoffAccept::spec_decode(b).unwrap();
        assert(d.spec_payload() =~= b);
    }
}

/// `source_node` declines tracking of `target_id`, for `reason`.
#[derive(Debug, Clone, Copy, PartialEq, Eq, Structural)]
pub struct HandoffReject {
    pub source_node: NodeId,
    pub target_node: NodeId,
    pub target_id: u16,
    pub reason: AckReason,
    pub timestamp_ms: u32,
}

impl HandoffReject {
    pub const PAYLOAD_LEN: usize = 9;

    /// Payload layout: source node, target node, target id (2), reason
    /// code, timestamp (4).
    pub open spec fn spec_payload(self) -> Seq<u8> {
        seq![self.source_node.0, self.target_node.0] + le16(self.target_id) + seq![
            self.reason.code(),
        ] + le32(self.timestamp_ms)
    }

    /// Decoding: exactly 9 bytes with a valid reason code.
    pub open spec fn spec_decode(b: Seq<u8>) -> Option<HandoffReject> {
        if b.len() != 9 {
            None
        } else {
            match AckReason::from_code(b[4]) {
                None => None,
                Some(reason) => Some(
                    HandoffReject {
                        source_node: NodeId(b[0]),
                        target_node: NodeId(b[1]),
                        target_id: u16_at(b, 2),
                        reason,
                        timestamp_ms: u32_at(b, 5),
                    },
                ),
            }
        }
    }

    pub fn new(
        source_node: NodeId,
        target_node: NodeId,
        target_id: u16,
        reason: AckReason,
        timestamp_ms: u32,
    ) -> (m: Self)
        ensures
            m == (HandoffReject { source_node, target_node, target_id, reason, timestamp_ms }),
    {
        Self { source_node, target_node, target_id, reason, timestamp_ms }
    }

    pub fn to_payload_bytes(&self) -> (b: [u8; 9])
        ensures
            b@ == self.spec_payload(),
    {
        let id = u16_le_bytes(self.target_id);
        let ts = u32_le_bytes(self.timestamp_ms);
        let b = [
            self.source_node.0,
            self.target_node.0,
            id[0],
            id[1],
            self.reason.as_u8(),
            ts[0],
            ts[1],
            ts[2],
            ts[3],
        ];
        assert(b@ =~= self.spec_payload());
        b
    }

    pub fn from_payload_bytes(bytes: &[u8]) -> (r: Option<Self>)
        ensures
            r == Self::spec_decode(bytes@),
    {
        if bytes.len() != Self::PAYLOAD_LEN {
            return None;
        }
        let reason = match AckReason::from_u8(bytes[4]) {
            Some(reason) => reason,
            None => return None,
        };
        Some(
            Self {
                source_node: NodeId(bytes[0]),
                target_node: NodeId(bytes[1]),
                target_id: read_u16_le(bytes, 2),
                reason,
                timestamp_ms: read_u32_le(bytes, 5),
            },
        )
    }
}

/// Handoff reject payloads round-trip, in both directions.
pub proof fn lemma_handoff_reject_payload(m: HandoffReject, b: Seq<u8>)
    ensures
        HandoffReject::spec_decode(m.spec_payload()) == Some(m),
        HandoffReject::spec_decode(b) matches Some(d) ==> d.spec_payload() == b,
{
    let p = m.spec_payload();
    lemma_ack_reason_code(m.reason, 0);
    lemma_le16_roundtrip(m.target_id);
    lemma_le32_roundtrip(m.timestamp_ms);
    assert(p.subrange(2, 4) =~= le16(m.target_id));
    assert(p.subrange(5, 9) =~= le32(m.timestamp_ms));
    assert(u16_at(p, 2) == u16_at(le16(m.target_id), 0));
    assert(u32_at(p, 5) == u32_at(le32(m.timestamp_ms), 0));
    if b.len() == 9 {
        lemma_ack_reason_code(m.reason, b[4]);
        lemma_u16_at_bytes(b, 2);
        lemma_u32_at_bytes(b, 5);
        if let Some(d) = HandoffReject::spec_decode(b) {
            assert(d.spec_payload() =~= b);
        }
    }
}

// ============================================================================
// Message families
// ============================================================================
/// ROUGE mission / network messages.
#[derive(Debug, Clone, Copy, PartialEq)]
pub enum RougeMessage {
    NodeHeartbeat(NodeHeartbeat),
    LinkStatus(LinkStatus),
    MissionRole(MissionRoleState),
    TargetCue(TargetCue),
    HandoffRequest(HandoffRequest),
    HandoffAccept(HandoffAccept),
    HandoffReject(HandoffReject),
    AckReceived(AckReceipt),
    AckAccepted(AckDecision),
    AckRejected(AckDecision),
}

/// Optional supervisor / service messages. CPU load is an IEEE-754
/// single-precision number, held as its bit pattern.
#[derive(Debug, Clone)]
pub enum SupervisorMessage {
    Register { service_id: u8, pid: u32, version: String },
    ServiceHeartbeat { service_id: u8, status: u8, timestamp: u64, error_msg: Option<String> },
    SupervisorCmd { command_id: u32, command_type: u8, target_service: u8 },
    SupervisorCmdAck { command_id: u32, success: bool, error_msg: Option<String> },
    SupervisorState { state_id: u8, services_up: u8, services_healthy: u8, timestamp: u64 },
    ServiceStatusReport {
        service_id: u8,
        status: u8,
        cpu_percent: F32Bits,
        memory_bytes: u64,
        timestamp: u64,
    },
}

/// Top-level message type.
#[derive(Debug, Clone)]
pub enum SynapseMessage {
    System(SystemMessage),
    Rouge(RougeMessage),
    Supervisor(SupervisorMessage),
}

/// A supervisor message with its texts as character sequences.
pub enum SupervisorView {
    Register { service_id: u8, pid: u32, version: Seq<char> },
    ServiceHeartbeat {
        service_id: u8,
        status: u8,
        timestamp: u64,
        error_msg: Option<Seq<char>>,
    },
    SupervisorCmd { command_id: u32, command_type: u8, target_service: u8 },
    SupervisorCmdAck { command_id: u32, success: bool, error_msg: Option<Seq<char>> },
    SupervisorState { state_id: u8, services_up: u8, services_healthy: u8, timestamp: u64 },
    ServiceStatusReport {
        service_id: u8,
        status: u8,
        cpu_percent: F32Bits,
        memory_bytes: u64,
        timestamp: u64,
    },
}

/// A message with its texts as character sequences.
pub enum MessageView {
    System(SystemMessage),
    Rouge(RougeMessage),
    Supervisor(SupervisorView),
}

impl View for SupervisorMessage {
    type V = SupervisorView;

    open spec fn view(&self) -> SupervisorView {
        match *self {
            SupervisorMessage::Register { service_id, pid, version } => SupervisorView::Register {
                service_id,
                pid,
                version: version@,
            },
            SupervisorMessage::ServiceHeartbeat {
                service_id,
                status,
                timestamp,
                error_msg,
            } => SupervisorView::ServiceHeartbeat {
                service_id,
                status,
                timestamp,
                error_msg: text_view(error_msg),
            },
            SupervisorMessage::SupervisorCmd {
                command_id,
                command_type,
                target_service,
            } => SupervisorView::SupervisorCmd { command_id, command_type, target_service },
            SupervisorMessage::SupervisorCmdAck {
                command_id,
                success,
                error_msg,
            } => SupervisorView::SupervisorCmdAck {
                command_id,
                success,
                error_msg: text_view(error_msg),
            },
            SupervisorMessage::SupervisorState {
                state_id,
                services_up,
                services_healthy,
                timestamp,
            } => SupervisorView::SupervisorState {
                state_id,
                services_up,
                services_healthy,
                timestamp,
            },
            SupervisorMessage::ServiceStatusReport {
                service_id,
                status,
                cpu_percent,
                memory_bytes,
                timestamp,
            } => SupervisorView::ServiceStatusReport {
                service_id,
                status,
                cpu_percent,
                memory_bytes,
                timestamp,
            },
        }
    }
}

impl View for SynapseMessage {
    type V = MessageView;

    open spec fn view(&self) -> MessageView {
        match *self {
            SynapseMessage::System(m) => MessageView::System(m),
            SynapseMessage::Rouge(m) => MessageView::Rouge(m),
            SynapseMessage::Supervisor(m) => MessageView::Supervisor(m@),
        }
    }
}

/// Why a frame's payload is not a message.
#[derive(Debug, Clone, Copy, PartialEq, Eq)]
pub enum MessageError {
    /// The payload is shorter than the message needs.
    PayloadTooShort { msg_id: u16 },
    /// The payload does not decode as the message (wrong length or code).
    InvalidPayload { msg_id: u16 },
    /// No message has this identifier.
    UnknownMessageId { msg_id: u16 },
}

/// The message identifier of a message.
pub open spec fn spec_msg_id(m: MessageView) -> u16 {
    match m {
        MessageView::System(SystemMessage::Heartbeat) => MSG_HEARTBEAT,
        MessageView::System(SystemMessage::TimeSync { .. }) => MSG_TIME_SYNC,
        MessageView::System(SystemMessage::Ping) => MSG_PING,
        MessageView::System(SystemMessage::Pong) => MSG_PONG,
        MessageView::Rouge(RougeMessage::NodeHeartbeat(_)) => MSG_NODE_HEARTBEAT,
        MessageView::Rouge(RougeMessage::LinkStatus(_)) => MSG_LINK_STATUS,
        MessageView::Rouge(RougeMessage::MissionRole(_)) => MSG_MISSION_ROLE,
        MessageView::Rouge(RougeMessage::TargetCue(_)) => MSG_TARGET_CUE,
        MessageView::Rouge(RougeMessage::HandoffRequest(_)) => MSG_HANDOFF_REQUEST,
        MessageView::Rouge(RougeMessage::HandoffAccept(_)) => MSG_HANDOFF_ACCEPT,
        MessageView::Rouge(RougeMessage::HandoffReject(_)) => MSG_HANDOFF_REJECT,
        MessageView::Rouge(RougeMessage::AckReceived(_)) => MSG_ACK_RECEIVED,
        MessageView::Rouge(RougeMessage::AckAccepted(_)) => MSG_ACK_ACCEPTED,
        MessageView::Rouge(RougeMessage::AckRejected(_)) => MSG_ACK_REJECTED,
        MessageView::Supervisor(SupervisorView::Register { .. }) => MSG_REGISTER,
        MessageView::Supervisor(SupervisorView::ServiceHeartbeat { .. }) => MSG_SERVICE_HEARTBEAT,
        MessageView::Supervisor(SupervisorView::SupervisorCmd { .. }) => MSG_SUPERVISOR_CMD,
        MessageView::Supervisor(SupervisorView::SupervisorCmdAck { .. }) => MSG_SUPERVISOR_CMD_ACK,
        MessageView::Supervisor(SupervisorView::SupervisorState { .. }) => MSG_SUPERVISOR_STATE,
        MessageView::Supervisor(SupervisorView::ServiceStatusReport { .. }) => MSG_SERVICE_STATUS,
    }
}

/// The payload of a ROUGE message.
pub open spec fn rouge_payload(m: RougeMessage) -> Seq<u8> {
    match m {
        RougeMessage::NodeHeartbeat(x) => x.spec_payload(),
        RougeMessage::LinkStatus(x) => x.spec_payload(),
        RougeMessage::MissionRole(x) => x.spec_payload(),
        RougeMessage::TargetCue(x) => x.spec_payload(),
        RougeMessage::HandoffRequest(x) => x.spec_payload(),
        RougeMessage::HandoffAccept(x) => x.spec_payload(),
        RougeMessage::HandoffReject(x) => x.spec_payload(),
        RougeMessage::AckReceived(x) => x.spec_payload(),
        RougeMessage::AckAccepted(x) => x.spec_payload(),
        RougeMessage::AckRejected(x) => x.spec_payload(),
    }
}

/// The payload of a message. Timestamps of supervisor messages are not
/// carried in the payload (the frame's timestamp stands for them).
pub open spec fn spec_payload(m: MessageView) -> Seq<u8> {
    match m {
        MessageView::System(SystemMessage::TimeSync { time_ms }) => le64(time_ms),
        MessageView::System(_) => Seq::empty(),
        MessageView::Rouge(r) => rouge_payload(r),
        MessageView::Supervisor(SupervisorView::Register { service_id, pid, version }) => seq![
            service_id,
        ] + le32(pid) + encode_utf8(version),
        MessageView::Supervisor(
            SupervisorView::ServiceHeartbeat { service_id, status, error_msg, .. },
        ) => seq![service_id, status] + optional_text_bytes(error_msg),
        MessageView::Supervisor(
            SupervisorView::SupervisorCmd { command_id, command_type, target_service },
        ) => le32(command_id) + seq![command_type, target_service],
        MessageView::Supervisor(SupervisorView::SupervisorCmdAck { command_id, success, error_msg }) => le32(
            command_id,
        ) + seq![if success { 1u8 } else { 0u8 }] + optional_text_bytes(error_msg),
        MessageView::Supervisor(
            SupervisorView::SupervisorState { state_id, services_up, services_healthy, .. },
        ) => seq![state_id, services_up, services_healthy],
        MessageView::Supervisor(
            SupervisorView::ServiceStatusReport { service_id, status, cpu_percent, memory_bytes, .. },
        ) => seq![service_id, status] + le32(cpu_percent.0) + le64(memory_bytes),
    }
}

/// A ROUGE message decoded from a payload, or the error for `msg_id`.
pub open spec fn rouge_or_invalid(msg_id: u16, m: Option<RougeMessage>) -> Result<
    MessageView,
    MessageError,
> {
    match m {
        Some(r) => Ok(MessageView::Rouge(r)),
        None => Err(MessageError::InvalidPayload { msg_id }),
    }
}

/// Wraps a decoded ROUGE payload in its message variant.
pub open spec fn lift<T>(d: Option<T>, wrap: spec_fn(T) -> RougeMessage) -> Option<RougeMessage> {
    match d {
        Some(x) => Some(wrap(x)),
        None => None,
    }
}

/// Decoding of a frame into a message, by its message identifier. Supervisor
/// messages that carry a timestamp take the frame's.
pub open spec fn spec_from_frame(f: FrameModel) -> Result<MessageView, MessageError> {
    let p = f.payload;
    let id = f.msg_id;
    let timestamp = f.timestamp_ms as u64;
    if id == MSG_HEARTBEAT {
        Ok(MessageView::System(SystemMessage::Heartbeat))
    } else if id == MSG_TIME_SYNC {
        if p.len() < 8 {
            Err(MessageError::PayloadTooShort { msg_id: id })
        } else {
            Ok(MessageView::System(SystemMessage::TimeSync { time_ms: u64_at(p, 0) }))
        }
    } else if id == MSG_PING {
        Ok(MessageView::System(SystemMessage::Ping))
    } else if id == MSG_PONG {
        Ok(MessageView::System(SystemMessage::Pong))
    } else if id == MSG_NODE_HEARTBEAT {
        rouge_or_invalid(id, lift(NodeHeartbeat::spec_decode(p), |x| RougeMessage::NodeHeartbeat(x)))
    } else if id == MSG_LINK_STATUS {
        rouge_or_invalid(id, lift(LinkStatus::spec_decode(p), |x| RougeMessage::LinkStatus(x)))
    } else if id == MSG_MISSION_ROLE {
        rouge_or_invalid(id, lift(MissionRoleState::spec_decode(p), |x| RougeMessage::MissionRole(x)))
    } else if id == MSG_TARGET_CUE {
        rouge_or_invalid(id, lift(TargetCue::spec_decode(p), |x| RougeMessage::TargetCue(x)))
    } else if id == MSG_HANDOFF_REQUEST {
        rouge_or_invalid(
            id,
            lift(HandoffRequest::spec_decode(p), |x| RougeMessage::HandoffRequest(x)),
        )
    } else if id == MSG_HANDOFF_ACCEPT {
        rouge_or_invalid(id, lift(HandoffAccept::spec_decode(p), |x| RougeMessage::HandoffAccept(x)))
    } else if id == MSG_HANDOFF_REJECT {
        rouge_or_invalid(id, lift(HandoffReject::spec_decode(p), |x| RougeMessage::HandoffReject(x)))
    } else if id == MSG_ACK_RECEIVED {
        rouge_or_invalid(id, lift(AckReceipt::spec_decode(p), |x| RougeMessage::AckReceived(x)))
    } else if id == MSG_ACK_ACCEPTED {
        rouge_or_invalid(id, lift(AckDecision::spec_decode(p), |x| RougeMessage::AckAccepted(x)))
    } else if id == MSG_ACK_REJECTED {
        rouge_or_invalid(id, lift(AckDecision::spec_decode(p), |x| RougeMessage::AckRejected(x)))
    } else if id == MSG_REGISTER {
        if p.len() < 5 {
            Err(MessageError::PayloadTooShort { msg_id: id })
        } else {
            Ok(
                MessageView::Supervisor(
                    SupervisorView::Register {
                        service_id: p[0],
                        pid: u32_at(p, 1),
                        version: if p.len() > 5 {
                            lossy_text(p.skip(5))
                        } else {
                            Seq::empty()
                        },
                    },
                ),
            )
        }
    } else if id == MSG_SERVICE_HEARTBEAT {
        if p.len() < 2 {
            Err(MessageError::PayloadTooShort { msg_id: id })
        } else {
            Ok(
                MessageView::Supervisor(
                    SupervisorView::ServiceHeartbeat {
                        service_id: p[0],
                        status: p[1],
                        timestamp,
                        error_msg: trailing_text(p, 2),
                    },
                ),
            )
        }
    } else if id == MSG_SUPERVISOR_CMD {
        if p.len() < 6 {
            Err(MessageError::PayloadTooShort { msg_id: id })
        } else {
            Ok(
                MessageView::Supervisor(
                    SupervisorView::SupervisorCmd {
                        command_id: u32_at(p, 0),
                        command_type: p[4],
                        target_service: p[5],
                    },
                ),
            )
        }
    } else if id == MSG_SUPERVISOR_CMD_ACK {
        if p.len() < 5 {
            Err(MessageError::PayloadTooShort { msg_id: id })
        } else {
            Ok(
                MessageView::Supervisor(
                    SupervisorView::SupervisorCmdAck {
                        command_id: u32_at(p, 0),
                        success: p[4] != 0,
                        error_msg: trailing_text(p, 5),
                    },
                ),
            )
        }
    } else if id == MSG_SUPERVISOR_STATE {
        if p.len() < 3 {
            Err(MessageError::PayloadTooShort { msg_id: id })
        } else {
            Ok(
                MessageView::Supervisor(
                    SupervisorView::SupervisorState {
                        state_id: p[0],
                        services_up: p[1],
                        services_healthy: p[2],
                        timestamp,
                    },
                ),
            )
        }
    } else if id == MSG_SERVICE_STATUS {
        if p.len() < 14 {
            Err(MessageError::PayloadTooShort { msg_id: id })
        } else {
            Ok(
                MessageView::Supervisor(
                    SupervisorView::ServiceStatusReport {
                        service_id: p[0],
                        status: p[1],
                        cpu_percent: F32Bits(u32_at(p, 2)),
                        memory_bytes: u64_at(p, 6),
                        timestamp,
                    },
                ),
            )
        }
    } else {
        Err(MessageError::UnknownMessageId { msg_id: id })
    }
}

/// The view of a decoding result.
pub open spec fn message_result_view(r: Result<SynapseMessage, MessageError>) -> Result<
    MessageView,
    MessageError,
> {
    match r {
        Ok(m) => Ok(m@),
        Err(e) => Err(e),
    }
}

/// Append the bytes of a fixed-size payload.
fn push_array<const N: usize>(out: &mut Vec<u8>, bytes: [u8; N])
    ensures
        final(out)@ == old(out)@ + bytes@,
{
    push_bytes(out, bytes.as_slice());
}

/// Whether a message reads back as itself from its own payload: a
/// present error text is not empty (an empty one reads back as absent).
pub open spec fn survives_payload(m: MessageView) -> bool {
    match m {
        MessageView::Supervisor(SupervisorView::ServiceHeartbeat { error_msg, .. }) => error_msg
            matches Some(e) ==> e.len() > 0,
        MessageView::Supervisor(SupervisorView::SupervisorCmdAck { error_msg, .. }) => error_msg
            matches Some(e) ==> e.len() > 0,
        _ => true,
    }
}

/// The message with its timestamps replaced by a frame's timestamp.
pub open spec fn with_frame_timestamp(m: MessageView, timestamp_ms: u32) -> MessageView {
    let t = timestamp_ms as u64;
    match m {
        MessageView::Supervisor(
            SupervisorView::ServiceHeartbeat { service_id, status, error_msg, .. },
        ) => MessageView::Supervisor(
            SupervisorView::ServiceHeartbeat { service_id, status, timestamp: t, error_msg },
        ),
        MessageView::Supervisor(
            SupervisorView::SupervisorState { state_id, services_up, services_healthy, .. },
        ) => MessageView::Supervisor(
            SupervisorView::SupervisorState { state_id, services_up, services_healthy, timestamp: t },
        ),
        MessageView::Supervisor(
            SupervisorView::ServiceStatusReport { service_id, status, cpu_percent, memory_bytes, .. },
        ) => MessageView::Supervisor(
            SupervisorView::ServiceStatusReport {
                service_id,
                status,
                cpu_percent,
                memory_bytes,
                timestamp: t,
            },
        ),
        _ => m,
    }
}

/// Decoding reads back what encoding wrote: a frame carrying a message's
/// identifier and payload decodes to that message, its timestamps taken from
/// the frame (for every message whose error text, if any, is not empty).
pub proof fn lemma_from_frame_to_payload(m: MessageView, f: FrameModel)
    requires
        f.msg_id == spec_msg_id(m),
        f.payload == spec_payload(m),
        survives_payload(m),
    ensures
        spec_from_frame(f) == Ok::<MessageView, MessageError>(with_frame_timestamp(m, f.timestamp_ms)),
{
    let p = f.payload;
    match m {
        MessageView::System(SystemMessage::TimeSync { time_ms }) => {
            lemma_le64_roundtrip(time_ms);
        },
        MessageView::System(_) => {},
        MessageView::Rouge(r) => {
            match r {
                RougeMessage::NodeHeartbeat(x) => lemma_node_heartbeat_payload(x, p),
                RougeMessage::LinkStatus(x) => lemma_link_status_payload(x, p),
                RougeMessage::MissionRole(x) => lemma_mission_role_payload(x, p),
                RougeMessage::TargetCue(x) => lemma_target_cue_payload(x, p),
                RougeMessage::HandoffRequest(x) => lemma_handoff_request_payload(x, p),
                RougeMessage::HandoffAccept(x) => lemma_handoff_accept_payload(x, p),
                RougeMessage::HandoffReject(x) => lemma_handoff_reject_payload(x, p),
                RougeMessage::AckReceived(x) => lemma_ack_receipt_payload(x, p),
                RougeMessage::AckAccepted(x) => lemma_ack_decision_payload(x, p),
                RougeMessage::AckRejected(x) => lemma_ack_decision_payload(x, p),
            }
        },
        MessageView::Supervisor(v) => {
            match v {
                SupervisorView::Register { service_id, pid, version } => {
                    lemma_le32_roundtrip(pid);
                    lemma_text_roundtrip(version);
                    assert(p.subrange(1, 5) =~= le32(pid));
                    assert(u32_at(p, 1) == u32_at(le32(pid), 0));
                    assert(p.skip(5) =~= encode_utf8(version));
                    if p.len() <= 5 {
                        assert(version =~= Seq::<char>::empty());
                    }
                },
                SupervisorView::ServiceHeartbeat { service_id, status, error_msg, .. } => {
                    lemma_trailing_text(p, 2, seq![service_id, status], error_msg);
                },
                SupervisorView::SupervisorCmd { command_id, .. } => {
                    lemma_le32_roundtrip(command_id);
                    assert(p.subrange(0, 4) =~= le32(command_id));
                    assert(u32_at(p, 0) == u32_at(le32(command_id), 0));
                },
                SupervisorView::SupervisorCmdAck { command_id, success, error_msg } => {
                    lemma_le32_roundtrip(command_id);
                    assert(p.subrange(0, 4) =~= le32(command_id));
                    assert(u32_at(p, 0) == u32_at(le32(command_id), 0));
                    lemma_trailing_text(
                        p,
                        5,
                        le32(command_id) + seq![if success { 1u8 } else { 0u8 }],
                        error_msg,
                    );
                },
                SupervisorView::SupervisorState { .. } => {},
                SupervisorView::ServiceStatusReport { cpu_percent, memory_bytes, .. } => {
                    lemma_le32_roundtrip(cpu_percent.0);
                    lemma_le64_roundtrip(memory_bytes);
                    assert(p.subrange(2, 6) =~= le32(cpu_percent.0));
                    assert(u32_at(p, 2) == u32_at(le32(cpu_percent.0), 0));
                    assert(p.subrange(6, 14) =~= le64(memory_bytes));
                    assert(u64_at(p, 6) == u64_at(le64(memory_bytes), 0));
                },
            }
        },
    }
}

/// Node-heartbeat layout: node, role code, uptime (little-endian 32-bit),
/// health, capabilities (little-endian 16-bit); exactly nine bytes.
pub proof fn lemma_node_heartbeat_layout(
    node: u8,
    role: NodeRole,
    uptime_ms: u32,
    health: u8,
    capabilities: u16,
)
    ensures
        NodeHeartbeat::spec_decode(
            seq![node, role.code()] + le32(uptime_ms) + seq![health] + le16(capabilities),
        ) == Some(NodeHeartbeat { node: NodeId(node), role, uptime_ms, health, capabilities }),
{
    let b = seq![node, role.code()] + le32(uptime_ms) + seq![health] + le16(capabilities);
    assert(b.subrange(2, 6) =~= le32(uptime_ms));
    assert(b.subrange(7, 9) =~= le16(capabilities));
    lemma_u32_in(b, 2, uptime_ms);
    lemma_u16_in(b, 7, capabilities);
}

/// Link-status layout: node, RSSI (two's complement, little-endian 16-bit),
/// link quality, SNR (two's complement byte), time (little-endian 32-bit);
/// exactly nine bytes.
pub proof fn lemma_link_status_layout(
    node: u8,
    rssi_bits: u16,
    lq_percent: u8,
    snr_bits: u8,
    timestamp_ms: u32,
)
    ensures
        LinkStatus::spec_decode(
            seq![node] + le16(rssi_bits) + seq![lq_percent, snr_bits] + le32(timestamp_ms),
        ) == Some(
            LinkStatus {
                node: NodeId(node),
                rssi_dbm: i16_from_bits(rssi_bits),
                lq_percent,
                snr_db: i8_from_bits(snr_bits),
                timestamp_ms,
            },
        ),
{
    let b = seq![node] + le16(rssi_bits) + seq![lq_percent, snr_bits] + le32(timestamp_ms);
    assert(b.subrange(1, 3) =~= le16(rssi_bits));
    assert(b.subrange(5, 9) =~= le32(timestamp_ms));
    lemma_u16_in(b, 1, rssi_bits);
    lemma_u32_in(b, 5, timestamp_ms);
}

/// Mission-role layout: node, role code; exactly two bytes.
pub proof fn lemma_mission_role_layout(node: u8, role: MissionRole)
    ensures
        MissionRoleState::spec_decode(seq![node, role.code()]) == Some(
            MissionRoleState { node: NodeId(node), role },
        ),
{
}

/// Target-cue layout: source node, target id (little-endian 16-bit), x, y, z
/// (little-endian single-precision), confidence, urgency, time
/// (little-endian 32-bit); exactly 21 bytes.
pub proof fn lemma_target_cue_layout(
    source_node: u8,
    target_id: u16,
    x: u32,
    y: u32,
    z: u32,
    confidence: u8,
    urgency: u8,
    timestamp_ms: u32,
)
    ensures
        TargetCue::spec_decode(
            seq![source_node] + le16(target_id) + le32(x) + le32(y) + le32(z) + seq![
                confidence,
                urgency,
            ] + le32(timestamp_ms),
        ) == Some(
            TargetCue {
                source_node: NodeId(source_node),
                target_id,
                x_m: F32Bits(x),
                y_m: F32Bits(y),
                z_m: F32Bits(z),
                confidence,
                urgency,
                timestamp_ms,
            },
        ),
{
    let b = seq![source_node] + le16(target_id) + le32(x) + le32(y) + le32(z) + seq![
        confidence,
        urgency,
    ] + le32(timestamp_ms);
    assert(b.subrange(1, 3) =~= le16(target_id));
    assert(b.subrange(3, 7) =~= le32(x));
    assert(b.subrange(7, 11) =~= le32(y));
    assert(b.subrange(11, 15) =~= le32(z));
    assert(b.subrange(17, 21) =~= le32(timestamp_ms));
    lemma_u16_in(b, 1, target_id);
    lemma_u32_in(b, 3, x);
    lemma_u32_in(b, 7, y);
    lemma_u32_in(b, 11, z);
    lemma_u32_in(b, 17, timestamp_ms);
}

/// Acknowledgment layouts: the acknowledged message id and sequence number
/// (little-endian 16-bit each), the acknowledging node; a receipt is exactly
/// these five bytes, a decision has the reason code as a sixth byte.
pub proof fn lemma_ack_layouts(original_msg_id: u16, original_seq: u16, from_node: u8, reason: AckReason)
    ensures
        AckReceipt::spec_decode(le16(original_msg_id) + le16(original_seq) + seq![from_node])
            == Some(AckReceipt { original_msg_id, original_seq, from_node: NodeId(from_node) }),
        AckDecision::spec_decode(
            le16(original_msg_id) + le16(original_seq) + seq![from_node, reason.code()],
        ) == Some(
            AckDecision { original_msg_id, original_seq, from_node: NodeId(from_node), reason },
        ),
{
    let r = le16(original_msg_id) + le16(original_seq) + seq![from_node];
    assert(r.subrange(0, 2) =~= le16(original_msg_id));
    assert(r.subrange(2, 4) =~= le16(original_seq));
    lemma_u16_in(r, 0, original_msg_id);
    lemma_u16_in(r, 2, original_seq);
    let d = le16(original_msg_id) + le16(original_seq) + seq![from_node, reason.code()];
    assert(d.subrange(0, 2) =~= le16(original_msg_id));
    assert(d.subrange(2, 4) =~= le16(original_seq));
    lemma_u16_in(d, 0, original_msg_id);
    lemma_u16_in(d, 2, original_seq);
}

/// Handoff layouts: source node, target node, target id (little-endian
/// 16-bit); a request then has its reason byte and time (little-endian
/// 32-bit), nine bytes; an acceptance the time, eight bytes; a refusal the
/// reason code and time, nine bytes.
pub proof fn lemma_handoff_layouts(
    source_node: u8,
    target_node: u8,
    target_id: u16,
    reason_byte: u8,
    reason: AckReason,
    timestamp_ms: u32,
)
    ensures
        HandoffRequest::spec_decode(
            seq![source_node, target_node] + le16(target_id) + seq![reason_byte] + le32(timestamp_ms),
        ) == Some(
            HandoffRequest {
                source_node: NodeId(source_node),
                target_node: NodeId(target_node),
                target_id,
                reason: reason_byte,
                timestamp_ms,
            },
        ),
        HandoffAccept::spec_decode(
            seq![source_node, target_node] + le16(target_id) + le32(timestamp_ms),
        ) == Some(
            HandoffAccept {
                source_node: NodeId(source_node),
                target_node: NodeId(target_node),
                target_id,
                timestamp_ms,
            },
        ),
        HandoffReject::spec_decode(
            seq![source_node, target_node] + le16(target_id) + seq![reason.code()] + le32(
                timestamp_ms,
            ),
        ) == Some(
            HandoffReject {
                source_node: NodeId(source_node),
                target_node: NodeId(target_node),
                target_id,
                reason,
                timestamp_ms,
            },
        ),
{
    let q = seq![source_node, target_node] + le16(target_id) + seq![reason_byte] + le32(timestamp_ms);
    assert(q.subrange(2, 4) =~= le16(target_id));
    assert(q.subrange(5, 9) =~= le32(timestamp_ms));
    lemma_u16_in(q, 2, target_id);
    lemma_u32_in(q, 5, timestamp_ms);
    let a = seq![source_node, target_node] + le16(target_id) + le32(timestamp_ms);
    assert(a.subrange(2, 4) =~= le16(target_id));
    assert(a.subrange(4, 8) =~= le32(timestamp_ms));
    lemma_u16_in(a, 2, target_id);
    lemma_u32_in(a, 4, timestamp_ms);
    let j = seq![source_node, target_node] + le16(target_id) + seq![reason.code()] + le32(
        timestamp_ms,
    );
    assert(j.subrange(2, 4) =~= le16(target_id));
    assert(j.subrange(5, 9) =~= le32(timestamp_ms));
    lemma_u16_in(j, 2, target_id);
    lemma_u32_in(j, 5, timestamp_ms);
}

/// Supervisor layouts, each read from the frame's payload (the frame's time
/// standing for the message's where it has one):
/// register: service id, process id (little-endian 32-bit), version text
/// (UTF-8, to the end); service heartbeat: service id, status, then an
/// optional error text to the end (absent when the payload ends there);
/// command: command id (little-endian 32-bit), command type, target service;
/// command acknowledgment: command id, success byte (nonzero for success),
/// optional error text; state: state id, services up, services healthy;
/// service status: service id, status, CPU load (little-endian
/// single-precision), memory in bytes (little-endian 64-bit).
pub proof fn lemma_supervisor_layouts(
    f: FrameModel,
    service_id: u8,
    status: u8,
    third: u8,
    word: u32,
    memory_bytes: u64,
    text: Seq<char>,
    tail: Seq<u8>,
)
    ensures
        f.msg_id == 0x0700 && f.payload == seq![service_id] + le32(word) + encode_utf8(text)
            ==> spec_from_frame(f) == Ok::<MessageView, MessageError>(
            MessageView::Supervisor(SupervisorView::Register { service_id, pid: word, version: text }),
        ),
        f.msg_id == 0x0701 && f.payload == seq![service_id, status] ==> spec_from_frame(f) == Ok::<
            MessageView,
            MessageError,
        >(
            MessageView::Supervisor(SupervisorView::ServiceHeartbeat {
                service_id,
                status,
                timestamp: f.timestamp_ms as u64,
                error_msg: None,
            }),
        ),
        f.msg_id == 0x0701 && text.len() > 0 && f.payload == seq![service_id, status] + encode_utf8(
            text,
        ) ==> spec_from_frame(f) == Ok::<MessageView, MessageError>(
            MessageView::Supervisor(SupervisorView::ServiceHeartbeat {
                service_id,
                status,
                timestamp: f.timestamp_ms as u64,
                error_msg: Some(text),
            }),
        ),
        f.msg_id == 0x0702 && f.payload == le32(word) + seq![status, third] + tail
            ==> spec_from_frame(f) == Ok::<MessageView, MessageError>(
            MessageView::Supervisor(SupervisorView::SupervisorCmd { command_id: word, command_type: status, target_service: third }),
        ),
        f.msg_id == 0x0703 && f.payload == le32(word) + seq![status] ==> spec_from_frame(f) == Ok::<
            MessageView,
            MessageError,
        >(MessageView::Supervisor(SupervisorView::SupervisorCmdAck { command_id: word, success: status != 0, error_msg: None })),
        f.msg_id == 0x0703 && text.len() > 0 && f.payload == le32(word) + seq![status] + encode_utf8(
            text,
        ) ==> spec_from_frame(f) == Ok::<MessageView, MessageError>(
            MessageView::Supervisor(SupervisorView::SupervisorCmdAck {
                command_id: word,
                success: status != 0,
                error_msg: Some(text),
            }),
        ),
        f.msg_id == 0x0704 && f.payload == seq![service_id, status, third] + tail
            ==> spec_from_frame(f) == Ok::<MessageView, MessageError>(
            MessageView::Supervisor(SupervisorView::SupervisorState {
                state_id: service_id,
                services_up: status,
                services_healthy: third,
                timestamp: f.timestamp_ms as u64,
            }),
        ),
        f.msg_id == 0x0705 && f.payload == seq![service_id, status] + le32(word) + le64(memory_bytes)
            + tail ==> spec_from_frame(f) == Ok::<MessageView, MessageError>(
            MessageView::Supervisor(SupervisorView::ServiceStatusReport {
                service_id,
                status,
                cpu_percent: F32Bits(word),
                memory_bytes,
                timestamp: f.timestamp_ms as u64,
            }),
        ),
{
    let p = f.payload;
    lemma_text_roundtrip(text);
    if f.msg_id == 0x0700 && p == seq![service_id] + le32(word) + encode_utf8(text) {
        assert(p.subrange(1, 5) =~= le32(word));
        lemma_u32_in(p, 1, word);
        assert(p.skip(5) =~= encode_utf8(text));
        if p.len() <= 5 {
            assert(text =~= Seq::<char>::empty());
        }
    }
    if f.msg_id == 0x0701 && p == seq![service_id, status] {
        lemma_trailing_text(p, 2, seq![service_id, status], None);
    }
    if f.msg_id == 0x0701 && text.len() > 0 && p == seq![service_id, status] + encode_utf8(text) {
        lemma_trailing_text(p, 2, seq![service_id, status], Some(text));
    }
    if f.msg_id == 0x0702 && p == le32(word) + seq![status, third] + tail {
        assert(p.subrange(0, 4) =~= le32(word));
        lemma_u32_in(p, 0, word);
    }
    if f.msg_id == 0x0703 && p == le32(word) + seq![status] {
        assert(p.subrange(0, 4) =~= le32(word));
        lemma_u32_in(p, 0, word);
        lemma_trailing_text(p, 5, le32(word) + seq![status], None);
    }
    if f.msg_id == 0x0703 && text.len() > 0 && p == le32(word) + seq![status] + encode_utf8(text) {
        assert(p.subrange(0, 4) =~= le32(word));
        lemma_u32_in(p, 0, word);
        lemma_trailing_text(p, 5, le32(word) + seq![status], Some(text));
    }
    if f.msg_id == 0x0705 && p == seq![service_id, status] + le32(word) + le64(memory_bytes) + tail {
        assert(p.subrange(2, 6) =~= le32(word));
        assert(p.subrange(6, 14) =~= le64(memory_bytes));
        lemma_u32_in(p, 2, word);
        lemma_u64_at_in(p, 6, memory_bytes);
    }
}

/// Each message kind travels under its own fixed identifier on the wire:
/// heartbeat 0x0001, time sync 0x0002, ping 0x0003, pong 0x0004; node
/// heartbeat 0x0801, link status 0x0802, mission role 0x0803, target cue
/// 0x0810, handoff request, accept and reject 0x0811 to 0x0813, receipt,
/// acceptance and rejection acknowledgments 0x08F0 to 0x08F2; supervisor
/// register, service heartbeat, command, command acknowledgment, state and
/// service status 0x0700 to 0x0705.
pub proof fn lemma_message_ids(m: MessageView)
    ensures
        spec_msg_id(m) == match m {
            MessageView::System(SystemMessage::Heartbeat) => 0x0001u16,
            MessageView::System(SystemMessage::TimeSync { .. }) => 0x0002u16,
            MessageView::System(SystemMessage::Ping) => 0x0003u16,
            MessageView::System(SystemMessage::Pong) => 0x0004u16,
            MessageView::Rouge(RougeMessage::NodeHeartbeat(_)) => 0x0801u16,
            MessageView::Rouge(RougeMessage::LinkStatus(_)) => 0x0802u16,
            MessageView::Rouge(RougeMessage::MissionRole(_)) => 0x0803u16,
            MessageView::Rouge(RougeMessage::TargetCue(_)) => 0x0810u16,
            MessageView::Rouge(RougeMessage::HandoffRequest(_)) => 0x0811u16,
            MessageView::Rouge(RougeMessage::HandoffAccept(_)) => 0x0812u16,
            MessageView::Rouge(RougeMessage::HandoffReject(_)) => 0x0813u16,
            MessageView::Rouge(RougeMessage::AckReceived(_)) => 0x08F0u16,
            MessageView::Rouge(RougeMessage::AckAccepted(_)) => 0x08F1u16,
            MessageView::Rouge(RougeMessage::AckRejected(_)) => 0x08F2u16,
            MessageView::Supervisor(SupervisorView::Register { .. }) => 0x0700u16,
            MessageView::Supervisor(SupervisorView::ServiceHeartbeat { .. }) => 0x0701u16,
            MessageView::Supervisor(SupervisorView::SupervisorCmd { .. }) => 0x0702u16,
            MessageView::Supervisor(SupervisorView::SupervisorCmdAck { .. }) => 0x0703u16,
            MessageView::Supervisor(SupervisorView::SupervisorState { .. }) => 0x0704u16,
            MessageView::Supervisor(SupervisorView::ServiceStatusReport { .. }) => 0x0705u16,
        },
{
}

/// Decoding picks the message kind by the frame's identifier: whatever a
/// frame decodes to travels under that frame's identifier, and a decoding
/// error names it. Heartbeat, ping and pong frames decode to those messages
/// whatever their payload; a time-sync frame decodes to the time stored
/// little-endian in its first eight bytes.
pub proof fn lemma_decode_by_id(f: FrameModel)
    ensures
        spec_from_frame(f) matches Ok(m) ==> spec_msg_id(m) == f.msg_id,
        spec_from_frame(f) matches Err(e) ==> match e {
            MessageError::PayloadTooShort { msg_id } => msg_id == f.msg_id,
            MessageError::InvalidPayload { msg_id } => msg_id == f.msg_id,
            MessageError::UnknownMessageId { msg_id } => msg_id == f.msg_id,
        },
        f.msg_id == 0x0001 ==> spec_from_frame(f) == Ok::<MessageView, MessageError>(
            MessageView::System(SystemMessage::Heartbeat),
        ),
        f.msg_id == 0x0003 ==> spec_from_frame(f) == Ok::<MessageView, MessageError>(
            MessageView::System(SystemMessage::Ping),
        ),
        f.msg_id == 0x0004 ==> spec_from_frame(f) == Ok::<MessageView, MessageError>(
            MessageView::System(SystemMessage::Pong),
        ),
        forall|t: u64, tail: Seq<u8>|
            f.msg_id == 0x0002 && f.payload == #[trigger] (le64(t) + tail) ==> spec_from_frame(f)
                == Ok::<MessageView, MessageError>(
                MessageView::System(SystemMessage::TimeSync { time_ms: t }),
            ),
{
    assert forall|t: u64, tail: Seq<u8>|
        f.msg_id == 0x0002 && f.payload == #[trigger] (le64(t) + tail) implies spec_from_frame(f)
            == Ok::<MessageView, MessageError>(
            MessageView::System(SystemMessage::TimeSync { time_ms: t }),
        ) by {
        lemma_le64_roundtrip(t);
        let p = f.payload;
        let b = le64(t);
        assert(p[0] == b[0] && p[1] == b[1] && p[2] == b[2] && p[3] == b[3]);
        assert(p[4] == b[4] && p[5] == b[5] && p[6] == b[6] && p[7] == b[7]);
        assert(u64_at(p, 0) == u64_at(b, 0));
    }
}

/// A message survives the whole wire path: a frame carrying the message's
/// identifier and payload (whatever its sequence, flags, routing and
/// timestamp), encoded, COBS-framed, parsed back and decoded, yields the
/// message, its timestamps taken from the frame.
pub proof fn lemma_message_wire_roundtrip(m: MessageView, f: FrameModel)
    requires
        f.msg_id == spec_msg_id(m),
        f.payload == spec_payload(m),
        is_encodable(f),
        survives_payload(m),
    ensures
        spec_parse_cobs(spec_encode(spec_encode_frame(f))) matches Ok(g) && spec_from_frame(g)
            == Ok::<MessageView, MessageError>(with_frame_timestamp(m, f.timestamp_ms)),
{
    lemma_parse_cobs_encode(f);
    let g = spec_parse_cobs(spec_encode(spec_encode_frame(f))).unwrap();
    lemma_from_frame_to_payload(m, g);
}

impl SynapseMessage {
    /// Decode a frame into a message, by its message identifier.
    pub fn from_frame(frame: &SynapseFrame) -> (r: Result<Self, MessageError>)
        ensures
            message_result_view(r) == spec_from_frame(frame@),
    {
        let payload = frame.payload.as_slice();
        let timestamp = frame.timestamp_ms as u64;
        let id = frame.msg_id;
        if id == MSG_HEARTBEAT {
            Ok(Self::System(SystemMessage::Heartbeat))
        } else if id == MSG_TIME_SYNC {
            if payload.len() < 8 {
                return Err(MessageError::PayloadTooShort { msg_id: id });
            }
            Ok(Self::System(SystemMessage::TimeSync { time_ms: read_u64_le(payload, 0) }))
        } else if id == MSG_PING {
            Ok(Self::System(SystemMessage::Ping))
        } else if id == MSG_PONG {
            Ok(Self::System(SystemMessage::Pong))
        } else if id == MSG_NODE_HEARTBEAT {
            match NodeHeartbeat::from_payload_bytes(payload) {
                Some(m) => Ok(Self::Rouge(RougeMessage::NodeHeartbeat(m))),
                None => Err(MessageError::InvalidPayload { msg_id: id }),
            }
        } else if id == MSG_LINK_STATUS {
            match LinkStatus::from_payload_bytes(payload) {
                Some(m) => Ok(Self::Rouge(RougeMessage::LinkStatus(m))),
                None => Err(MessageError::InvalidPayload { msg_id: id }),
            }
        } else if id == MSG_MISSION_ROLE {
            match MissionRoleState::from_payload_bytes(payload) {
                Some(m) => Ok(Self::Rouge(RougeMessage::MissionRole(m))),
                None => Err(MessageError::InvalidPayload { msg_id: id }),
            }
        } else if id == MSG_TARGET_CUE {
            match TargetCue::from_payload_bytes(payload) {
                Some(m) => Ok(Self::Rouge(RougeMessage::TargetCue(m))),
                None => Err(MessageError::InvalidPayload { msg_id: id }),
            }
        } else if id == MSG_HANDOFF_REQUEST {
            match HandoffRequest::from_payload_bytes(payload) {
                Some(m) => Ok(Self::Rouge(RougeMessage::HandoffRequest(m))),
                None => Err(MessageError::InvalidPayload { msg_id: id }),
            }
        } else if id == MSG_HANDOFF_ACCEPT {
            match HandoffAccept::from_payload_bytes(payload) {
                Some(m) => Ok(Self::Rouge(RougeMessage::HandoffAccept(m))),
                None => Err(MessageError::InvalidPayload { msg_id: id }),
            }
        } else if id == MSG_HANDOFF_REJECT {
            match HandoffReject::from_payload_bytes(payload) {
                Some(m) => Ok(Self::Rouge(RougeMessage::HandoffReject(m))),
                None => Err(MessageError::InvalidPayload { msg_id: id }),
            }
        } else if id == MSG_ACK_RECEIVED {
            match AckReceipt::from_payload_bytes(payload) {
                Some(m) => Ok(Self::Rouge(RougeMessage::AckReceived(m))),
                None => Err(MessageError::InvalidPayload { msg_id: id }),
            }
        } else if id == MSG_ACK_ACCEPTED {
            match AckDecision::from_payload_bytes(payload) {
                Some(m) => Ok(Self::Rouge(RougeMessage::AckAccepted(m))),
                None => Err(MessageError::InvalidPayload { msg_id: id }),
            }
        } else if id == MSG_ACK_REJECTED {
            match AckDecision::from_payload_bytes(payload) {
                Some(m) => Ok(Self::Rouge(RougeMessage::AckRejected(m))),
                None => Err(MessageError::InvalidPayload { msg_id: id }),
            }
        } else if id == MSG_REGISTER {
            if payload.len() < 5 {
                return Err(MessageError::PayloadTooShort { msg_id: id });
            }
            let service_id = payload[0];
            let pid = read_u32_le(payload, 1);
            let version = if payload.len() > 5 {
                let rest = vstd::slice::slice_subrange(payload, 5, payload.len());
                assert(rest@ =~= payload@.skip(5));
                string_from_utf8_lossy(rest)
            } else {
                String::new()
            };
            Ok(Self::Supervisor(SupervisorMessage::Register { service_id, pid, version }))
        } else if id == MSG_SERVICE_HEARTBEAT {
            if payload.len() < 2 {
                return Err(MessageError::PayloadTooShort { msg_id: id });
            }
            let service_id = payload[0];
            let status = payload[1];
            let error_msg = read_trailing_text(payload, 2);
            Ok(
                Self::Supervisor(
                    SupervisorMessage::ServiceHeartbeat { service_id, status, timestamp, error_msg },
                ),
            )
        } else if id == MSG_SUPERVISOR_CMD {
            if payload.len() < 6 {
                return Err(MessageError::PayloadTooShort { msg_id: id });
            }
            Ok(
                Self::Supervisor(
                    SupervisorMessage::SupervisorCmd {
                        command_id: read_u32_le(payload, 0),
                        command_type: payload[4],
                        target_service: payload[5],
                    },
                ),
            )
        } else if id == MSG_SUPERVISOR_CMD_ACK {
            if payload.len() < 5 {
                return Err(MessageError::PayloadTooShort { msg_id: id });
            }
            let command_id = read_u32_le(payload, 0);
            let success = payload[4] != 0;
            let error_msg = read_trailing_text(payload, 5);
            Ok(
                Self::Supervisor(
                    SupervisorMessage::SupervisorCmdAck { command_id, success, error_msg },
                ),
            )
        } else if id == MSG_SUPERVISOR_STATE {
            if payload.len() < 3 {
                return Err(MessageError::PayloadTooShort { msg_id: id });
            }
            Ok(
                Self::Supervisor(
                    SupervisorMessage::SupervisorState {
                        state_id: payload[0],
                        services_up: payload[1],
                        services_healthy: payload[2],
                        timestamp,
                    },
                ),
            )
        } else if id == MSG_SERVICE_STATUS {
            if payload.len() < 14 {
                return Err(MessageError::PayloadTooShort { msg_id: id });
            }
            Ok(
                Self::Supervisor(
                    SupervisorMessage::ServiceStatusReport {
                        service_id: payload[0],
                        status: payload[1],
                        cpu_percent: F32Bits(read_u32_le(payload, 2)),
                        memory_bytes: read_u64_le(payload, 6),
                        timestamp,
                    },
                ),
            )
        } else {
            Err(MessageError::UnknownMessageId { msg_id: id })
        }
    }

    /// Encode the message to a payload.
    pub fn to_payload(&self) -> (payload: Vec<u8>)
        ensures
            payload@ == spec_payload(self@),
    {
        let mut payload: Vec<u8> = Vec::new();
        match self {
            Self::System(SystemMessage::TimeSync { time_ms }) => push_u64_le(&mut payload, *time_ms),
            Self::System(_) => {},
            Self::Rouge(RougeMessage::NodeHeartbeat(m)) => push_array(&mut payload, m.to_payload_bytes()),
            Self::Rouge(RougeMessage::LinkStatus(m)) => push_array(&mut payload, m.to_payload_bytes()),
            Self::Rouge(RougeMessage::MissionRole(m)) => push_array(&mut payload, m.to_payload_bytes()),
            Self::Rouge(RougeMessage::TargetCue(m)) => push_array(&mut payload, m.to_payload_bytes()),
            Self::Rouge(RougeMessage::HandoffRequest(m)) => push_array(&mut payload, m.to_payload_bytes()),
            Self::Rouge(RougeMessage::HandoffAccept(m)) => push_array(&mut payload, m.to_payload_bytes()),
            Self::Rouge(RougeMessage::HandoffReject(m)) => push_array(&mut payload, m.to_payload_bytes()),
            Self::Rouge(RougeMessage::AckReceived(m)) => push_array(&mut payload, m.to_payload_bytes()),
            Self::Rouge(RougeMessage::AckAccepted(m)) => push_array(&mut payload, m.to_payload_bytes()),
            Self::Rouge(RougeMessage::AckRejected(m)) => push_array(&mut payload, m.to_payload_bytes()),
            Self::Supervisor(SupervisorMessage::Register { service_id, pid, version }) => {
                payload.push(*service_id);
                push_u32_le(&mut payload, *pid);
                push_text(&mut payload, version);
            },
            Self::Supervisor(SupervisorMessage::ServiceHeartbeat { service_id, status, error_msg, .. }) => {
                payload.push(*service_id);
                payload.push(*status);
                push_optional_text(&mut payload, error_msg);
            },
            Self::Supervisor(
                SupervisorMessage::SupervisorCmd { command_id, command_type, target_service },
            ) => {
                push_u32_le(&mut payload, *command_id);
                payload.push(*command_type);
                payload.push(*target_service);
            },
            Self::Supervisor(SupervisorMessage::SupervisorCmdAck { command_id, success, error_msg }) => {
                push_u32_le(&mut payload, *command_id);
                payload.push(
                    if *success {
                        1
                    } else {
                        0
                    },
                );
                push_optional_text(&mut payload, error_msg);
            },
            Self::Supervisor(
                SupervisorMessage::SupervisorState { state_id, services_up, services_healthy, .. },
            ) => {
                payload.push(*state_id);
                payload.push(*services_up);
                payload.push(*services_healthy);
            },
            Self::Supervisor(
                SupervisorMessage::ServiceStatusReport {
                    service_id,
                    status,
                    cpu_percent,
                    memory_bytes,
                    ..
                },
            ) => {
                payload.push(*service_id);
                payload.push(*status);
                push_u32_le(&mut payload, cpu_percent.0);
                push_u64_le(&mut payload, *memory_bytes);
            },
        }
        assert(payload@ =~= spec_payload(self@));
        payload
    }

    /// The message identifier of this message.
    pub fn msg_id(&self) -> (id: u16)
        ensures
            id == spec_msg_id(self@),
    {
        match self {
            Self::System(SystemMessage::Heartbeat) => MSG_HEARTBEAT,
            Self::System(SystemMessage::TimeSync { .. }) => MSG_TIME_SYNC,
            Self::System(SystemMessage::Ping) => MSG_PING,
            Self::System(SystemMessage::Pong) => MSG_PONG,
            Self::Rouge(RougeMessage::NodeHeartbeat(_)) => MSG_NODE_HEARTBEAT,
            Self::Rouge(RougeMessage::LinkStatus(_)) => MSG_LINK_STATUS,
            Self::Rouge(RougeMessage::MissionRole(_)) => MSG_MISSION_ROLE,
            Self::Rouge(RougeMessage::TargetCue(_)) => MSG_TARGET_CUE,
            Self::Rouge(RougeMessage::HandoffRequest(_)) => MSG_HANDOFF_REQUEST,
            Self::Rouge(RougeMessage::HandoffAccept(_)) => MSG_HANDOFF_ACCEPT,
            Self::Rouge(RougeMessage::HandoffReject(_)) => MSG_HANDOFF_REJECT,
            Self::Rouge(RougeMessage::AckReceived(_)) => MSG_ACK_RECEIVED,
            Self::Rouge(RougeMessage::AckAccepted(_)) => MSG_ACK_ACCEPTED,
            Self::Rouge(RougeMessage::AckRejected(_)) => MSG_ACK_REJECTED,
            Self::Supervisor(SupervisorMessage::Register { .. }) => MSG_REGISTER,
            Self::Supervisor(SupervisorMessage::ServiceHeartbeat { .. }) => MSG_SERVICE_HEARTBEAT,
            Self::Supervisor(SupervisorMessage::SupervisorCmd { .. }) => MSG_SUPERVISOR_CMD,
            Self::Supervisor(SupervisorMessage::SupervisorCmdAck { .. }) => MSG_SUPERVISOR_CMD_ACK,
            Self::Supervisor(SupervisorMessage::SupervisorState { .. }) => MSG_SUPERVISOR_STATE,
            Self::Supervisor(SupervisorMessage::ServiceStatusReport { .. }) => MSG_SERVICE_STATUS,
        }
    }

    /// Convert the message to a frame stamped with the current time.
    pub fn to_frame(&self) -> (f: SynapseFrame)
        ensures
            f@ == new_frame(spec_msg_id(self@), spec_payload(self@), f.timestamp_ms),
    {
        SynapseFrame::new(self.msg_id(), self.to_payload())
    }

    /// Convert the message to a frame stamped with `timestamp_ms`.
    pub fn to_frame_at(&self, timestamp_ms: u32) -> (f: SynapseFrame)
        ensures
            f@ == new_frame(spec_msg_id(self@), spec_payload(self@), timestamp_ms),
    {
        SynapseFrame::new_at(self.msg_id(), self.to_payload(), timestamp_ms)
    }
}

} // verus!
