//! Synapse: a compact, manually encoded binary protocol for routed mission
//! messages, with COBS framing, CRC integrity checks and a small session layer.

pub mod clock;
pub mod cobs;
pub mod crc;
pub mod endpoint;
pub mod float_bits;
pub mod frame;
pub mod messages;
pub mod protocol;
pub mod rouge_protocol;
pub mod runtime;
pub mod text;
pub mod wire;

pub use frame::SynapseFrame;
pub use frame::{FLAG_ACK_REQ, FLAG_CHUNKED, FLAG_DUP, FLAG_ENCRYPTED, FLAG_IS_ACK, FLAG_PAYLOAD_CRC};
pub use messages::{EulerAngles, SynapseMessage, Vector3};
