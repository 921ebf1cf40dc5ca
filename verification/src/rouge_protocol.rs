//! The first ROUGE message definitions: node roles and the node heartbeat,
//! with the same wire layout as in `protocol::messages`.
use crate::endpoint::NodeId;
use crate::wire::{
    le16, le32, lemma_le16_roundtrip, lemma_le32_roundtrip, lemma_u16_at_bytes,
    lemma_u16_in, lemma_u32_in, lemma_u32_at_bytes, read_u16_le, read_u32_le, u16_at, u16_le_bytes, u32_at, u32_le_bytes,
};
use vstd::prelude::*;

verus! {

pub const MSG_NODE_HEARTBEAT: u16 = 0x0801;

pub const MSG_LINK_STATUS: u16 = 0x0802;

/// The kind of airframe or station a node is (wire codes 1-4).
#[derive(Debug, Clone, Copy, PartialEq, Eq, Structural)]
pub enum NodeRole {
    FixedWing,
    Fpv,
    Gcs,
    Relay,
}

impl NodeRole {
    /// The wire code of the role.
    pub open spec fn code(self) -> u8 {
        match self {
            NodeRole::FixedWing => 1,
            NodeRole::Fpv => 2,
            NodeRole::Gcs => 3,
            NodeRole::Relay => 4,
        }
    }

    /// The role with wire code `role`, if any.
    pub open spec fn from_code(role: u8) -> Option<NodeRole> {
        if role == 1 {
            Some(NodeRole::FixedWing)
        } else if role == 2 {
            Some(NodeRole::Fpv)
        } else if role == 3 {
            Some(NodeRole::Gcs)
        } else if role == 4 {
            Some(NodeRole::Relay)
        } else {
            None
        }
    }

    pub fn as_u8(self) -> (v: u8)
        ensures
            v == self.code(),
    {
        match self {
            NodeRole::FixedWing => 1,
            NodeRole::Fpv => 2,
            NodeRole::Gcs => 3,
            NodeRole::Relay => 4,
        }
    }

    pub fn from_u8(role: u8) -> (r: Option<Self>)
        ensures
            r == Self::from_code(role),
    {
        match role {
            1 => Some(Self::FixedWing),
            2 => Some(Self::Fpv),
            3 => Some(Self::Gcs),
            4 => Some(Self::Relay),
            _ => None,
        }
    }
}

/// A role's wire code reads back as that role; a code that reads as a
/// role is that role's code.
pub proof fn lemma_node_role_code(role: NodeRole, v: u8)
    ensures
        NodeRole::from_code(role.code()) == Some(role),
        NodeRole::from_code(v) matches Some(r) ==> r.code() == v,
        role.code() == match role {
            NodeRole::FixedWing => 1u8,
            NodeRole::Fpv => 2u8,
            NodeRole::Gcs => 3u8,
            NodeRole::Relay => 4u8,
        },
        NodeRole::from_code(v) is Some <==> 1 <= v <= 4,
{
}

/// Periodic liveness report of a node.
#[derive(Debug, Clone, Copy)]
pub struct NodeHeartbeat {
    pub node: NodeId,
    pub role: NodeRole,
    pub uptime_ms: u32,
    pub health: u8,
    pub capabilities: u16,
}

impl NodeHeartbeat {
    pub const PAYLOAD_LEN: usize = 9;

    /// Payload layout: node, role code, uptime (4), health, capabilities (2).
    pub open spec fn spec_payload(self) -> Seq<u8> {
        seq![self.node.0, self.role.code()] + le32(self.uptime_ms) + seq![self.health] + le16(
            self.capabilities,
        )
    }

    /// Decoding: exactly 9 bytes with a valid role code.
    pub open spec fn spec_decode(b: Seq<u8>) -> Option<NodeHeartbeat> {
        if b.len() != 9 {
            None
        } else {
            match NodeRole::from_code(b[1]) {
                None => None,
                Some(role) => Some(
                    NodeHeartbeat {
                        node: NodeId(b[0]),
                        role,
                        uptime_ms: u32_at(b, 2),
                        health: b[6],
                        capabilities: u16_at(b, 7),
                    },
                ),
            }
        }
    }

    pub fn new(node: NodeId, role: NodeRole, uptime_ms: u32, health: u8, capabilities: u16) -> (m:
        Self)
        ensures
            m == (NodeHeartbeat { node, role, uptime_ms, health, capabilities }),
    {
        Self { node, role, uptime_ms, health, capabilities }
    }

    pub fn to_payload_bytes(&self) -> (b: [u8; 9])
        ensures
            b@ == self.spec_payload(),
    {
        let up = u32_le_bytes(self.uptime_ms);
        let caps = u16_le_bytes(self.capabilities);
        let b = [
            self.node.0,
            self.role.as_u8(),
            up[0],
            up[1],
            up[2],
            up[3],
            self.health,
            caps[0],
            caps[1],
        ];
        assert(b@ =~= self.spec_payload());
        b
    }

    pub fn from_payload_bytes(bytes: &[u8]) -> (r: Option<Self>)
        ensures
            r == Self::spec_decode(bytes@),
    {
        if bytes.len() != Self::PAYLOAD_LEN {
            return None;
        }
        let role = match NodeRole::from_u8(bytes[1]) {
            Some(role) => role,
            None => return None,
        };
        Some(
            Self {
                node: NodeId(bytes[0]),
                role,
                uptime_ms: read_u32_le(bytes, 2),
                health: bytes[6],
                capabilities: read_u16_le(bytes, 7),
            },
        )
    }
}

/// Node heartbeat payloads round-trip, in both directions.
pub proof fn lemma_node_heartbeat_payload(m: NodeHeartbeat, b: Seq<u8>)
    ensures
        NodeHeartbeat::spec_decode(m.spec_payload()) == Some(m),
        NodeHeartbeat::spec_decode(b) matches Some(d) ==> d.spec_payload() == b,
{
    let p = m.spec_payload();
    lemma_node_role_code(m.role, 0);
    lemma_le32_roundtrip(m.uptime_ms);
    lemma_le16_roundtrip(m.capabilities);
    assert(p.subrange(2, 6) =~= le32(m.uptime_ms));
    assert(p.subrange(7, 9) =~= le16(m.capabilities));
    assert(u32_at(p, 2) == u32_at(le32(m.uptime_ms), 0));
    assert(u16_at(p, 7) == u16_at(le16(m.capabilities), 0));
    if b.len() == 9 {
        lemma_node_role_code(m.role, b[1]);
        lemma_u32_at_bytes(b, 2);
        lemma_u16_at_bytes(b, 7);
        if let Some(d) = NodeHeartbeat::spec_decode(b) {
            assert(d.spec_payload() =~= b);
        }
    }
}

/// Node-heartbeat layout: node, role code, uptime (little-endian 32-bit),
/// health, capabilities (little-endian 16-bit); exactly nine bytes.
pub proof fn lemma_node_heartbeat_layout(
    node: u8,
    role: NodeRole,
    uptime_ms: u32,
    health: u8,
    capabilities: u16,
)
    ensures
        NodeHeartbeat::spec_decode(
            seq![node, role.code()] + le32(uptime_ms) + seq![health] + le16(capabilities),
        ) == Some(NodeHeartbeat { node: NodeId(node), role, uptime_ms, health, capabilities }),
{
    let b = seq![node, role.code()] + le32(uptime_ms) + seq![health] + le16(capabilities);
    assert(b.subrange(2, 6) =~= le32(uptime_ms));
    assert(b.subrange(7, 9) =~= le16(capabilities));
    lemma_u32_in(b, 2, uptime_ms);
    lemma_u16_in(b, 7, capabilities);
}

} // verus!
