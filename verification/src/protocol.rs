//! Protocol core: the transport frame and the typed messages it carries.

pub mod messages;

pub use crate::frame::{
    SynapseFrame, FLAG_ACK_REQ, FLAG_CHUNKED, FLAG_DUP, FLAG_ENCRYPTED, FLAG_IS_ACK,
    FLAG_PAYLOAD_CRC,
};
pub use messages::{
    AckDecision, AckReason, AckReceipt, HandoffAccept, HandoffReject, HandoffRequest, LinkStatus,
    MessageError, MissionRole, MissionRoleState, NodeHeartbeat, NodeRole, RougeMessage,
    SupervisorMessage, SynapseMessage, SystemMessage, TargetCue,
};
