//! Flight-controller telemetry, supervisor and VIO messages of the first
//! message set, decoded from and encoded to frame payloads.
//!
//! Floating-point fields are IEEE-754 numbers held as their bit patterns
//! (`F32Bits`, `F64Bits`): the wire carries exactly those bits, little-endian.
use crate::frame::{new_frame, FrameModel, SynapseFrame};
use crate::text::{
    lemma_text_roundtrip, lemma_trailing_text, lossy_text, optional_text_bytes, push_optional_text,
    push_text, read_trailing_text, string_from_utf8_lossy, text_view, trailing_text,
};
use crate::wire::{
    f32_at, f64_at, le16, le32, le64, lemma_le32_roundtrip, lemma_le64_roundtrip, lemma_u16_in,
    lemma_u32_in, lemma_u64_at_in, push_u32_le,
    push_u64_le, read_f32_le, read_f64_le, read_u16_le, read_u32_le, read_u64_le, u16_at, u32_at,
    u64_at, F32Bits, F64Bits,
};
use vstd::prelude::*;
use vstd::utf8::encode_utf8;

verus! {

// ============================================================================
// Message IDs
// ============================================================================
// System Messages (0x0001 - 0x00FF)
pub const MSG_HEARTBEAT: u16 = 0x0001;

pub const MSG_TIME_SYNC: u16 = 0x0002;

pub const MSG_PING: u16 = 0x0003;

pub const MSG_PONG: u16 = 0x0004;

pub const MSG_ACK: u16 = 0x0005;

// Sensor Data Messages (0x0100 - 0x01FF)
pub const MSG_IMU_DATA: u16 = 0x0100;

pub const MSG_GPS_DATA: u16 = 0x0101;

pub const MSG_TOF_DATA: u16 = 0x0102;

// State Estimation Messages (0x0200 - 0x02FF)
pub const MSG_FUSED_STATE: u16 = 0x0200;

// System Status Messages (0x0300 - 0x03FF)
pub const MSG_SYSTEM_STATUS: u16 = 0x0301;

// Command Messages (0x0400 - 0x04FF)
pub const MSG_ARM_DISARM: u16 = 0x0400;

pub const MSG_SET_MODE: u16 = 0x0401;

// Telemetry/Config (0x0500 - 0x05FF)
pub const MSG_CONFIG_PARAM: u16 = 0x0500;

pub const MSG_PARAMETER_ACK: u16 = 0x0501;

pub const MSG_REQUEST_PARAM: u16 = 0x0502;

pub const MSG_REQUEST_PARAM_LIST: u16 = 0x0503;

pub const MSG_SAVE_PARAMS: u16 = 0x0504;

// HIL Messages (0x0600 - 0x06FF)
pub const MSG_EMERGENCY_STOP: u16 = 0x0613;

// Cortex Supervisor Messages (0x0700 - 0x07FF)
/// Service registration with supervisor.
pub const MSG_REGISTER: u16 = 0x0700;

/// Service heartbeat to supervisor.
pub const MSG_SERVICE_HEARTBEAT: u16 = 0x0701;

/// Supervisor command to service.
pub const MSG_SUPERVISOR_CMD: u16 = 0x0702;

/// Service acknowledgment of command.
pub const MSG_SUPERVISOR_CMD_ACK: u16 = 0x0703;

/// Supervisor state broadcast.
pub const MSG_SUPERVISOR_STATE: u16 = 0x0704;

/// Service status report.
pub const MSG_SERVICE_STATUS: u16 = 0x0705;

// VIO Messages (0x0710 - 0x071F)
/// VIO pose output (position, orientation, velocity).
pub const MSG_VIO_POSE: u16 = 0x0710;

// Cortex Service IDs
pub const SERVICE_VIO: u8 = 0;

pub const SERVICE_PERCEPTION: u8 = 1;

pub const SERVICE_PLANNER: u8 = 2;

pub const SERVICE_SYNAPSE: u8 = 3;

pub const SERVICE_CAMERA: u8 = 4;

// Cortex Service Status
pub const STATUS_STARTING: u8 = 0;

pub const STATUS_RUNNING: u8 = 1;

pub const STATUS_DEGRADED: u8 = 2;

pub const STATUS_ERROR: u8 = 3;

// Cortex Supervisor Commands
pub const CMD_SHUTDOWN: u8 = 0;

pub const CMD_RESTART: u8 = 1;

pub const CMD_PAUSE: u8 = 2;

pub const CMD_RESUME: u8 = 3;

// ============================================================================
// Common Data Structures
// ============================================================================
#[derive(Debug, Clone, Copy, PartialEq)]
pub struct Vector3 {
    pub x: F32Bits,
    pub y: F32Bits,
    pub z: F32Bits,
}

#[derive(Debug, Clone, Copy, PartialEq)]
pub struct EulerAngles {
    pub roll: F32Bits,
    pub pitch: F32Bits,
    pub yaw: F32Bits,
}

/// The vector stored at `p[i..i + 12]`.
pub open spec fn vector3_at(p: Seq<u8>, i: int) -> Vector3 {
    Vector3 { x: f32_at(p, i), y: f32_at(p, i + 4), z: f32_at(p, i + 8) }
}

fn read_vector3(p: &[u8], i: usize) -> (v: Vector3)
    requires
        i + 12 <= p@.len(),
    ensures
        v == vector3_at(p@, i as int),
{
    let n = p.len();
    assert(n == p@.len());
    Vector3 { x: read_f32_le(p, i), y: read_f32_le(p, i + 4), z: read_f32_le(p, i + 8) }
}

// ============================================================================
// Synapse Message Types
// ============================================================================
/// Synapse message types.
#[derive(Debug, Clone)]
pub enum SynapseMessage {
    // ---- Flight Controller Messages ----
    ImuData { gyro: Vector3, accel: Vector3, mag: Vector3, timestamp: u64 },
    GpsData {
        lat: F64Bits,
        lon: F64Bits,
        altitude: F32Bits,
        speed: F32Bits,
        heading: F32Bits,
        satellites: u8,
        timestamp: u64,
    },
    ToFData {
        sensor_id: u8,
        resolution: u8,
        min_distance: u16,
        avg_distance: u16,
        max_distance: u16,
        timestamp: u64,
    },
    FusedState { euler: EulerAngles, timestamp: u64 },
    SystemStatus {
        armed: u8,
        system_state: u8,
        battery_voltage: F32Bits,
        loop_rate: u16,
        timestamp: u64,
    },
    ParameterValue { param_id: u16, value: F32Bits, timestamp: u64 },
    ParameterAck { param_id: u16, success: bool, timestamp: u64 },
    SaveParamsAck { success: bool, timestamp: u64 },
    // ---- Cortex Supervisor Messages ----
    Register { service_id: u8, pid: u32, version: String },
    ServiceHeartbeat { service_id: u8, status: u8, timestamp: u64, error_msg: Option<String> },
    SupervisorCmd { command_id: u32, command_type: u8, target_service: u8 },
    SupervisorCmdAck { command_id: u32, success: bool, error_msg: Option<String> },
    SupervisorState { state_id: u8, services_up: u8, services_healthy: u8, timestamp: u64 },
    ServiceStatusReport {
        service_id: u8,
        status: u8,
        cpu_percent: F32Bits,
        memory_bytes: u64,
        timestamp: u64,
    },
    // ---- VIO Messages ----
    VioPose {
        timestamp_ns: u64,
        /// x, y, z in meters.
        position: [F64Bits; 3],
        /// w, x, y, z.
        quaternion: [F64Bits; 4],
        /// vx, vy, vz in m/s.
        velocity: [F64Bits; 3],
        initialized: bool,
    },
}

/// A message with its texts as character sequences and its arrays as
/// sequences.
pub enum TelemetryView {
    ImuData { gyro: Vector3, accel: Vector3, mag: Vector3, timestamp: u64 },
    GpsData {
        lat: F64Bits,
        lon: F64Bits,
        altitude: F32Bits,
        speed: F32Bits,
        heading: F32Bits,
        satellites: u8,
        timestamp: u64,
    },
    ToFData {
        sensor_id: u8,
        resolution: u8,
        min_distance: u16,
        avg_distance: u16,
        max_distance: u16,
        timestamp: u64,
    },
    FusedState { euler: EulerAngles, timestamp: u64 },
    SystemStatus {
        armed: u8,
        system_state: u8,
        battery_voltage: F32Bits,
        loop_rate: u16,
        timestamp: u64,
    },
    ParameterValue { param_id: u16, value: F32Bits, timestamp: u64 },
    ParameterAck { param_id: u16, success: bool, timestamp: u64 },
    SaveParamsAck { success: bool, timestamp: u64 },
    Register { service_id: u8, pid: u32, version: Seq<char> },
    ServiceHeartbeat {
        service_id: u8,
        status: u8,
        timestamp: u64,
        error_msg: Option<Seq<char>>,
    },
    SupervisorCmd { command_id: u32, command_type: u8, target_service: u8 },
    SupervisorCmdAck { command_id: u32, success: bool, error_msg: Option<Seq<char>> },
    SupervisorState { state_id: u8, services_up: u8, services_healthy: u8, timestamp: u64 },
    ServiceStatusReport {
        service_id: u8,
        status: u8,
        cpu_percent: F32Bits,
        memory_bytes: u64,
        timestamp: u64,
    },
    VioPose {
        timestamp_ns: u64,
        position: Seq<F64Bits>,
        quaternion: Seq<F64Bits>,
        velocity: Seq<F64Bits>,
        initialized: bool,
    },
}

impl View for SynapseMessage {
    type V = TelemetryView;

    open spec fn view(&self) -> TelemetryView {
        match *self {
            SynapseMessage::ImuData { gyro, accel, mag, timestamp } => TelemetryView::ImuData {
                gyro,
                accel,
                mag,
                timestamp,
            },
            SynapseMessage::GpsData {
                lat,
                lon,
                altitude,
                speed,
                heading,
                satellites,
                timestamp,
            } => TelemetryView::GpsData {
                lat,
                lon,
                altitude,
                speed,
                heading,
                satellites,
                timestamp,
            },
            SynapseMessage::ToFData {
                sensor_id,
                resolution,
                min_distance,
                avg_distance,
                max_distance,
                timestamp,
            } => TelemetryView::ToFData {
                sensor_id,
                resolution,
                min_distance,
                avg_distance,
                max_distance,
                timestamp,
            },
            SynapseMessage::FusedState { euler, timestamp } => TelemetryView::FusedState {
                euler,
                timestamp,
            },
            SynapseMessage::SystemStatus {
                armed,
                system_state,
                battery_voltage,
                loop_rate,
                timestamp,
            } => TelemetryView::SystemStatus {
                armed,
                system_state,
                battery_voltage,
                loop_rate,
                timestamp,
            },
            SynapseMessage::ParameterValue { param_id, value, timestamp } => TelemetryView::ParameterValue {
                param_id,
                value,
                timestamp,
            },
            SynapseMessage::ParameterAck { param_id, success, timestamp } => TelemetryView::ParameterAck {
                param_id,
                success,
                timestamp,
            },
            SynapseMessage::SaveParamsAck { success, timestamp } => TelemetryView::SaveParamsAck {
                success,
                timestamp,
            },
            SynapseMessage::Register { service_id, pid, version } => TelemetryView::Register {
                service_id,
                pid,
                version: version@,
            },
            SynapseMessage::ServiceHeartbeat {
                service_id,
                status,
                timestamp,
                error_msg,
            } => TelemetryView::ServiceHeartbeat {
                service_id,
                status,
                timestamp,
                error_msg: text_view(error_msg),
            },
            SynapseMessage::SupervisorCmd {
                command_id,
                command_type,
                target_service,
            } => TelemetryView::SupervisorCmd { command_id, command_type, target_service },
            SynapseMessage::SupervisorCmdAck {
                command_id,
                success,
                error_msg,
            } => TelemetryView::SupervisorCmdAck {
                command_id,
                success,
                error_msg: text_view(error_msg),
            },
            SynapseMessage::SupervisorState {
                state_id,
                services_up,
                services_healthy,
                timestamp,
            } => TelemetryView::SupervisorState {
                state_id,
                services_up,
                services_healthy,
                timestamp,
            },
            SynapseMessage::ServiceStatusReport {
                service_id,
                status,
                cpu_percent,
                memory_bytes,
                timestamp,
            } => TelemetryView::ServiceStatusReport {
                service_id,
                status,
                cpu_percent,
                memory_bytes,
                timestamp,
            },
            SynapseMessage::VioPose {
                timestamp_ns,
                position,
                quaternion,
                velocity,
                initialized,
            } => TelemetryView::VioPose {
                timestamp_ns,
                position: position@,
                quaternion: quaternion@,
                velocity: velocity@,
                initialized,
            },
        }
    }
}

/// Why a frame's payload is not a message of this set.
#[derive(Debug, Clone, Copy, PartialEq, Eq)]
pub enum TelemetryError {
    /// A system message, which carries no telemetry.
    SystemMessage { msg_id: u16 },
    /// The payload is shorter than the message needs.
    PayloadTooShort { msg_id: u16 },
    /// The payload length fits no form of the message.
    InvalidLength { msg_id: u16 },
    /// No message has this identifier.
    UnknownMessageId { msg_id: u16 },
}

/// The doubles stored at `p[i..]`, `n` of them.
pub open spec fn f64s_at(p: Seq<u8>, i: int, n: nat) -> Seq<F64Bits> {
    Seq::new(n, |k: int| f64_at(p, i + 8 * k))
}

/// Decoding of a frame into a message, by its message identifier. Messages
/// that carry a timestamp take the frame's.
pub open spec fn spec_from_frame(f: FrameModel) -> Result<TelemetryView, TelemetryError> {
    let p = f.payload;
    let id = f.msg_id;
    let timestamp = f.timestamp_ms as u64;
    if id == MSG_HEARTBEAT || id == MSG_TIME_SYNC || id == MSG_PING || id == MSG_PONG || id
        == MSG_ACK {
        Err(TelemetryError::SystemMessage { msg_id: id })
    } else if id == MSG_IMU_DATA {
        if p.len() < 36 {
            Err(TelemetryError::PayloadTooShort { msg_id: id })
        } else {
            Ok(
                TelemetryView::ImuData {
                    gyro: vector3_at(p, 0),
                    accel: vector3_at(p, 12),
                    mag: vector3_at(p, 24),
                    timestamp,
                },
            )
        }
    } else if id == MSG_GPS_DATA {
        if p.len() < 29 {
            Err(TelemetryError::PayloadTooShort { msg_id: id })
        } else {
            Ok(
                TelemetryView::GpsData {
                    lat: f64_at(p, 0),
                    lon: f64_at(p, 8),
                    altitude: f32_at(p, 16),
                    speed: f32_at(p, 20),
                    heading: f32_at(p, 24),
                    satellites: p[28],
                    timestamp,
                },
            )
        }
    } else if id == MSG_TOF_DATA {
        if p.len() < 8 {
            Err(TelemetryError::PayloadTooShort { msg_id: id })
        } else {
            Ok(
                TelemetryView::ToFData {
                    sensor_id: p[0],
                    resolution: p[1],
                    min_distance: u16_at(p, 2),
                    avg_distance: u16_at(p, 4),
                    max_distance: u16_at(p, 6),
                    timestamp,
                },
            )
        }
    } else if id == MSG_FUSED_STATE {
        if p.len() < 12 {
            Err(TelemetryError::PayloadTooShort { msg_id: id })
        } else {
            Ok(
                TelemetryView::FusedState {
                    euler: EulerAngles {
                        roll: f32_at(p, 0),
                        pitch: f32_at(p, 4),
                        yaw: f32_at(p, 8),
                    },
                    timestamp,
                },
            )
        }
    } else if id == MSG_SYSTEM_STATUS {
        if p.len() < 8 {
            Err(TelemetryError::PayloadTooShort { msg_id: id })
        } else {
            Ok(
                TelemetryView::SystemStatus {
                    armed: p[0],
                    system_state: p[1],
                    battery_voltage: f32_at(p, 2),
                    loop_rate: u16_at(p, 6),
                    timestamp,
                },
            )
        }
    } else if id == MSG_CONFIG_PARAM {
        if p.len() < 6 {
            Err(TelemetryError::PayloadTooShort { msg_id: id })
        } else {
            Ok(
                TelemetryView::ParameterValue {
                    param_id: u16_at(p, 0),
                    value: f32_at(p, 2),
                    timestamp,
                },
            )
        }
    } else if id == MSG_PARAMETER_ACK {
        if p.len() >= 3 {
            Ok(TelemetryView::ParameterAck { param_id: u16_at(p, 0), success: p[2] != 0, timestamp })
        } else if p.len() == 1 {
            Ok(TelemetryView::SaveParamsAck { success: p[0] != 0, timestamp })
        } else {
            Err(TelemetryError::InvalidLength { msg_id: id })
        }
    } else if id == MSG_REGISTER {
        if p.len() < 5 {
            Err(TelemetryError::PayloadTooShort { msg_id: id })
        } else {
            Ok(
                TelemetryView::Register {
                    service_id: p[0],
                    pid: u32_at(p, 1),
                    version: if p.len() > 5 {
                        lossy_text(p.skip(5))
                    } else {
                        Seq::empty()
                    },
                },
            )
        }
    } else if id == MSG_SERVICE_HEARTBEAT {
        if p.len() < 2 {
            Err(TelemetryError::PayloadTooShort { msg_id: id })
        } else {
            Ok(
                TelemetryView::ServiceHeartbeat {
                    service_id: p[0],
                    status: p[1],
                    timestamp,
                    error_msg: trailing_text(p, 2),
                },
            )
        }
    } else if id == MSG_SUPERVISOR_CMD {
        if p.len() < 6 {
            Err(TelemetryError::PayloadTooShort { msg_id: id })
        } else {
            Ok(
                TelemetryView::SupervisorCmd {
                    command_id: u32_at(p, 0),
                    command_type: p[4],
                    target_service: p[5],
                },
            )
        }
    } else if id == MSG_SUPERVISOR_CMD_ACK {
        if p.len() < 5 {
            Err(TelemetryError::PayloadTooShort { msg_id: id })
        } else {
            Ok(
                TelemetryView::SupervisorCmdAck {
                    command_id: u32_at(p, 0),
                    success: p[4] != 0,
                    error_msg: trailing_text(p, 5),
                },
            )
        }
    } else if id == MSG_SUPERVISOR_STATE {
        if p.len() < 3 {
            Err(TelemetryError::PayloadTooShort { msg_id: id })
        } else {
            Ok(
                TelemetryView::SupervisorState {
                    state_id: p[0],
                    services_up: p[1],
                    services_healthy: p[2],
                    timestamp,
                },
            )
        }
    } else if id == MSG_SERVICE_STATUS {
        if p.len() < 14 {
            Err(TelemetryError::PayloadTooShort { msg_id: id })
        } else {
            Ok(
                TelemetryView::ServiceStatusReport {
                    service_id: p[0],
                    status: p[1],
                    cpu_percent: f32_at(p, 2),
                    memory_bytes: u64_at(p, 6),
                    timestamp,
                },
            )
        }
    } else if id == MSG_VIO_POSE {
        // 8 (timestamp) + 3*8 (position) + 4*8 (quaternion) + 3*8 (velocity) + 1 = 89 bytes
        if p.len() < 89 {
            Err(TelemetryError::PayloadTooShort { msg_id: id })
        } else {
            Ok(
                TelemetryView::VioPose {
                    timestamp_ns: u64_at(p, 0),
                    position: f64s_at(p, 8, 3),
                    quaternion: f64s_at(p, 32, 4),
                    velocity: f64s_at(p, 64, 3),
                    initialized: p[88] != 0,
                },
            )
        }
    } else {
        Err(TelemetryError::UnknownMessageId { msg_id: id })
    }
}

/// The bytes of a sequence of doubles.
pub open spec fn f64s_bytes(v: Seq<F64Bits>) -> Seq<u8>
    decreases v.len(),
{
    if v.len() == 0 {
        Seq::empty()
    } else {
        le64(v[0].0) + f64s_bytes(v.drop_first())
    }
}

/// The payload of a message. Only supervisor and VIO messages are encoded;
/// the others have an empty payload.
pub open spec fn spec_payload(m: TelemetryView) -> Seq<u8> {
    match m {
        TelemetryView::Register { service_id, pid, version } => seq![service_id] + le32(pid)
            + encode_utf8(version),
        TelemetryView::ServiceHeartbeat { service_id, status, error_msg, .. } => seq![
            service_id,
            status,
        ] + optional_text_bytes(error_msg),
        TelemetryView::SupervisorCmd { command_id, command_type, target_service } => le32(
            command_id,
        ) + seq![command_type, target_service],
        TelemetryView::SupervisorCmdAck { command_id, success, error_msg } => le32(command_id)
            + seq![if success { 1u8 } else { 0u8 }] + optional_text_bytes(error_msg),
        TelemetryView::SupervisorState { state_id, services_up, services_healthy, .. } => seq![
            state_id,
            services_up,
            services_healthy,
        ],
        TelemetryView::ServiceStatusReport { service_id, status, cpu_percent, memory_bytes, .. } =>
            seq![service_id, status] + le32(cpu_percent.0) + le64(memory_bytes),
        TelemetryView::VioPose { timestamp_ns, position, quaternion, velocity, initialized } =>
            le64(timestamp_ns) + f64s_bytes(position) + f64s_bytes(quaternion) + f64s_bytes(
            velocity,
        ) + seq![if initialized { 1u8 } else { 0u8 }],
        _ => Seq::empty(),
    }
}

/// The message identifier of a message.
pub open spec fn spec_msg_id(m: TelemetryView) -> u16 {
    match m {
        TelemetryView::ImuData { .. } => MSG_IMU_DATA,
        TelemetryView::GpsData { .. } => MSG_GPS_DATA,
        TelemetryView::ToFData { .. } => MSG_TOF_DATA,
        TelemetryView::FusedState { .. } => MSG_FUSED_STATE,
        TelemetryView::SystemStatus { .. } => MSG_SYSTEM_STATUS,
        TelemetryView::ParameterValue { .. } => MSG_CONFIG_PARAM,
        TelemetryView::ParameterAck { .. } => MSG_PARAMETER_ACK,
        TelemetryView::SaveParamsAck { .. } => MSG_PARAMETER_ACK,
        TelemetryView::Register { .. } => MSG_REGISTER,
        TelemetryView::ServiceHeartbeat { .. } => MSG_SERVICE_HEARTBEAT,
        TelemetryView::SupervisorCmd { .. } => MSG_SUPERVISOR_CMD,
        TelemetryView::SupervisorCmdAck { .. } => MSG_SUPERVISOR_CMD_ACK,
        TelemetryView::SupervisorState { .. } => MSG_SUPERVISOR_STATE,
        TelemetryView::ServiceStatusReport { .. } => MSG_SERVICE_STATUS,
        TelemetryView::VioPose { .. } => MSG_VIO_POSE,
    }
}

/// The view of a decoding result.
pub open spec fn telemetry_result_view(r: Result<SynapseMessage, TelemetryError>) -> Result<
    TelemetryView,
    TelemetryError,
> {
    match r {
        Ok(m) => Ok(m@),
        Err(e) => Err(e),
    }
}

/// Append the bytes of a sequence of doubles.
fn push_f64s(out: &mut Vec<u8>, v: &[F64Bits])
    ensures
        final(out)@ == old(out)@ + f64s_bytes(v@),
{
    let mut k: usize = 0;
    assert(v@.skip(0) =~= v@);
    while k < v.len()
        invariant
            k <= v@.len(),
            out@ + f64s_bytes(v@.skip(k as int)) == old(out)@ + f64s_bytes(v@),
        decreases v@.len() - k,
    {
        let ghost before = out@;
        assert(v@.skip(k as int).drop_first() =~= v@.skip(k + 1));
        push_u64_le(out, v[k].0);
        k = k + 1;
        assert(before + f64s_bytes(v@.skip(k - 1)) =~= out@ + f64s_bytes(v@.skip(k as int)));
    }
    assert(v@.skip(k as int) =~= Seq::<F64Bits>::empty());
    assert(out@ + Seq::<u8>::empty() =~= out@);
}

proof fn lemma_u64_in(d: Seq<u8>, i: int, x: u64)
    requires
        0 <= i,
        i + 8 <= d.len(),
        d.subrange(i, i + 8) == le64(x),
    ensures
        u64_at(d, i) == x,
{
    lemma_le64_roundtrip(x);
    let b = le64(x);
    assert forall|k: int| 0 <= k < 8 implies d[i + k] == b[k] by {
        assert(d[i + k] == d.subrange(i, i + 8)[k]);
    }
}

/// The doubles written by `f64s_bytes` read back at their position.
pub proof fn lemma_f64s_roundtrip(v: Seq<F64Bits>, pre: Seq<u8>, post: Seq<u8>)
    ensures
        f64s_bytes(v).len() == 8 * v.len(),
        f64s_at(pre + f64s_bytes(v) + post, pre.len() as int, v.len()) == v,
    decreases v.len(),
{
    if v.len() > 0 {
        let first = le64(v[0].0);
        let rest = v.drop_first();
        lemma_le64_roundtrip(v[0].0);
        lemma_f64s_roundtrip(rest, pre + first, post);
        let d = pre + f64s_bytes(v) + post;
        assert(d =~= (pre + first) + f64s_bytes(rest) + post);
        assert(d.subrange(pre.len() as int, pre.len() + 8int) =~= first);
        lemma_u64_in(d, pre.len() as int, v[0].0);
        let got = f64s_at(d, pre.len() as int, v.len());
        let got_rest = f64s_at(d, pre.len() + 8int, rest.len());
        assert forall|k: int| 1 <= k < v.len() implies got[k] == v[k] by {
            assert(got[k] == got_rest[k - 1]);
        }
        assert(got =~= v);
    } else {
        assert(f64s_at(pre + f64s_bytes(v) + post, pre.len() as int, 0) =~= v);
    }
}

/// Whether a message is of a kind that encoding writes out and that reads
/// back as itself: a supervisor or VIO message with arrays of the right
/// length and, where present, non-empty error texts.
pub open spec fn survives_payload(m: TelemetryView) -> bool {
    match m {
        TelemetryView::Register { .. } => true,
        TelemetryView::ServiceHeartbeat { error_msg, .. } => error_msg matches Some(e) ==> e.len()
            > 0,
        TelemetryView::SupervisorCmd { .. } => true,
        TelemetryView::SupervisorCmdAck { error_msg, .. } => error_msg matches Some(e) ==> e.len()
            > 0,
        TelemetryView::SupervisorState { .. } => true,
        TelemetryView::ServiceStatusReport { .. } => true,
        TelemetryView::VioPose { position, quaternion, velocity, .. } => position.len() == 3
            && quaternion.len() == 4 && velocity.len() == 3,
        _ => false,
    }
}

/// The message with its timestamps replaced by a frame's timestamp.
pub open spec fn with_frame_timestamp(m: TelemetryView, timestamp_ms: u32) -> TelemetryView {
    let t = timestamp_ms as u64;
    match m {
        TelemetryView::ServiceHeartbeat { service_id, status, error_msg, .. } =>
            TelemetryView::ServiceHeartbeat { service_id, status, timestamp: t, error_msg },
        TelemetryView::SupervisorState { state_id, services_up, services_healthy, .. } =>
            TelemetryView::SupervisorState { state_id, services_up, services_healthy, timestamp: t },
        TelemetryView::ServiceStatusReport { service_id, status, cpu_percent, memory_bytes, .. } =>
            TelemetryView::ServiceStatusReport {
            service_id,
            status,
            cpu_percent,
            memory_bytes,
            timestamp: t,
        },
        _ => m,
    }
}

/// Decoding reads back what encoding wrote, for every message kind that
/// encoding writes out: the frame's timestamp stands for the message's.
#[verifier::spinoff_prover]
#[verifier::rlimit(60)]
pub proof fn lemma_from_frame_to_payload(m: TelemetryView, f: FrameModel)
    requires
        f.msg_id == spec_msg_id(m),
        f.payload == spec_payload(m),
        survives_payload(m),
    ensures
        spec_from_frame(f) == Ok::<TelemetryView, TelemetryError>(with_frame_timestamp(m, f.timestamp_ms)),
{
    let p = f.payload;
    match m {
        TelemetryView::Register { service_id, pid, version } => {
            lemma_le32_roundtrip(pid);
            lemma_text_roundtrip(version);
            assert(p.subrange(1, 5) =~= le32(pid));
            assert(u32_at(p, 1) == u32_at(le32(pid), 0));
            assert(p.skip(5) =~= encode_utf8(version));
            if p.len() <= 5 {
                assert(version =~= Seq::<char>::empty());
            }
        },
        TelemetryView::ServiceHeartbeat { service_id, status, error_msg, .. } => {
            lemma_trailing_text(p, 2, seq![service_id, status], error_msg);
        },
        TelemetryView::SupervisorCmd { command_id, .. } => {
            lemma_le32_roundtrip(command_id);
            assert(p.subrange(0, 4) =~= le32(command_id));
            assert(u32_at(p, 0) == u32_at(le32(command_id), 0));
        },
        TelemetryView::SupervisorCmdAck { command_id, success, error_msg } => {
            lemma_le32_roundtrip(command_id);
            assert(p.subrange(0, 4) =~= le32(command_id));
            assert(u32_at(p, 0) == u32_at(le32(command_id), 0));
            lemma_trailing_text(
                p,
                5,
                le32(command_id) + seq![if success { 1u8 } else { 0u8 }],
                error_msg,
            );
        },
        TelemetryView::SupervisorState { .. } => {},
        TelemetryView::ServiceStatusReport { cpu_percent, memory_bytes, .. } => {
            lemma_le32_roundtrip(cpu_percent.0);
            assert(p.subrange(2, 6) =~= le32(cpu_percent.0));
            assert(u32_at(p, 2) == u32_at(le32(cpu_percent.0), 0));
            assert(p.subrange(6, 14) =~= le64(memory_bytes));
            lemma_u64_in(p, 6, memory_bytes);
        },
        TelemetryView::VioPose { timestamp_ns, position, quaternion, velocity, initialized } => {
            let flag = seq![if initialized { 1u8 } else { 0u8 }];
            let ts = le64(timestamp_ns);
            let pb = f64s_bytes(position);
            let qb = f64s_bytes(quaternion);
            let vb = f64s_bytes(velocity);
            lemma_f64s_roundtrip(position, ts, qb + vb + flag);
            lemma_f64s_roundtrip(quaternion, ts + pb, vb + flag);
            lemma_f64s_roundtrip(velocity, ts + pb + qb, flag);
            assert(p =~= ts + pb + (qb + vb + flag));
            assert(p =~= (ts + pb) + qb + (vb + flag));
            assert(p =~= (ts + pb + qb) + vb + flag);
            assert(p.subrange(0, 8) =~= ts);
            lemma_u64_in(p, 0, timestamp_ns);
            assert(p[88] == flag[0]);
        },
        _ => {},
    }
}

/// Supervisor layouts, each read from the frame's payload (the frame's time
/// standing for the message's where it has one):
/// register: service id, process id (little-endian 32-bit), version text
/// (UTF-8, to the end); service heartbeat: service id, status, then an
/// optional error text to the end (absent when the payload ends there);
/// command: command id (little-endian 32-bit), command type, target service;
/// command acknowledgment: command id, success byte (nonzero for success),
/// optional error text; state: state id, services up, services healthy;
/// service status: service id, status, CPU load (little-endian
/// single-precision), memory in bytes (little-endian 64-bit).
pub proof fn lemma_supervisor_layouts(
    f: FrameModel,
    service_id: u8,
    status: u8,
    third: u8,
    word: u32,
    memory_bytes: u64,
    text: Seq<char>,
    tail: Seq<u8>,
)
    ensures
        f.msg_id == 0x0700 && f.payload == seq![service_id] + le32(word) + encode_utf8(text)
            ==> spec_from_frame(f) == Ok::<TelemetryView, TelemetryError>(
            TelemetryView::Register { service_id, pid: word, version: text },
        ),
        f.msg_id == 0x0701 && f.payload == seq![service_id, status] ==> spec_from_frame(f) == Ok::<
            TelemetryView,
            TelemetryError,
        >(
            TelemetryView::ServiceHeartbeat {
                service_id,
                status,
                timestamp: f.timestamp_ms as u64,
                error_msg: None,
            },
        ),
        f.msg_id == 0x0701 && text.len() > 0 && f.payload == seq![service_id, status] + encode_utf8(
            text,
        ) ==> spec_from_frame(f) == Ok::<TelemetryView, TelemetryError>(
            TelemetryView::ServiceHeartbeat {
                service_id,
                status,
                timestamp: f.timestamp_ms as u64,
                error_msg: Some(text),
            },
        ),
        f.msg_id == 0x0702 && f.payload == le32(word) + seq![status, third] + tail
            ==> spec_from_frame(f) == Ok::<TelemetryView, TelemetryError>(
            TelemetryView::SupervisorCmd { command_id: word, command_type: status, target_service: third },
        ),
        f.msg_id == 0x0703 && f.payload == le32(word) + seq![status] ==> spec_from_frame(f) == Ok::<
            TelemetryView,
            TelemetryError,
        >(TelemetryView::SupervisorCmdAck { command_id: word, success: status != 0, error_msg: None }),
        f.msg_id == 0x0703 && text.len() > 0 && f.payload == le32(word) + seq![status] + encode_utf8(
            text,
        ) ==> spec_from_frame(f) == Ok::<TelemetryView, TelemetryError>(
            TelemetryView::SupervisorCmdAck {
                command_id: word,
                success: status != 0,
                error_msg: Some(text),
            },
        ),
        f.msg_id == 0x0704 && f.payload == seq![service_id, status, third] + tail
            ==> spec_from_frame(f) == Ok::<TelemetryView, TelemetryError>(
            TelemetryView::SupervisorState {
                state_id: service_id,
                services_up: status,
                services_healthy: third,
                timestamp: f.timestamp_ms as u64,
            },
        ),
        f.msg_id == 0x0705 && f.payload == seq![service_id, status] + le32(word) + le64(memory_bytes)
            + tail ==> spec_from_frame(f) == Ok::<TelemetryView, TelemetryError>(
            TelemetryView::ServiceStatusReport {
                service_id,
                status,
                cpu_percent: F32Bits(word),
                memory_bytes,
                timestamp: f.timestamp_ms as u64,
            },
        ),
{
    let p = f.payload;
    lemma_text_roundtrip(text);
    if f.msg_id == 0x0700 && p == seq![service_id] + le32(word) + encode_utf8(text) {
        assert(p.subrange(1, 5) =~= le32(word));
        lemma_u32_in(p, 1, word);
        assert(p.skip(5) =~= encode_utf8(text));
        if p.len() <= 5 {
            assert(text =~= Seq::<char>::empty());
        }
    }
    if f.msg_id == 0x0701 && p == seq![service_id, status] {
        lemma_trailing_text(p, 2, seq![service_id, status], None);
    }
    if f.msg_id == 0x0701 && text.len() > 0 && p == seq![service_id, status] + encode_utf8(text) {
        lemma_trailing_text(p, 2, seq![service_id, status], Some(text));
    }
    if f.msg_id == 0x0702 && p == le32(word) + seq![status, third] + tail {
        assert(p.subrange(0, 4) =~= le32(word));
        lemma_u32_in(p, 0, word);
    }
    if f.msg_id == 0x0703 && p == le32(word) + seq![status] {
        assert(p.subrange(0, 4) =~= le32(word));
        lemma_u32_in(p, 0, word);
        lemma_trailing_text(p, 5, le32(word) + seq![status], None);
    }
    if f.msg_id == 0x0703 && text.len() > 0 && p == le32(word) + seq![status] + encode_utf8(text) {
        assert(p.subrange(0, 4) =~= le32(word));
        lemma_u32_in(p, 0, word);
        lemma_trailing_text(p, 5, le32(word) + seq![status], Some(text));
    }
    if f.msg_id == 0x0705 && p == seq![service_id, status] + le32(word) + le64(memory_bytes) + tail {
        assert(p.subrange(2, 6) =~= le32(word));
        assert(p.subrange(6, 14) =~= le64(memory_bytes));
        lemma_u32_in(p, 2, word);
        lemma_u64_at_in(p, 6, memory_bytes);
    }
}

/// VIO-pose layout: time in nanoseconds (little-endian 64-bit), then the
/// position (x, y, z), the quaternion (w, x, y, z) and the velocity (x, y,
/// z) as little-endian double-precision numbers in that order, then the
/// initialized flag (nonzero when initialized); bytes after it are ignored.
#[verifier::spinoff_prover]
#[verifier::rlimit(60)]
pub proof fn lemma_vio_pose_layout(
    f: FrameModel,
    timestamp_ns: u64,
    position: Seq<F64Bits>,
    quaternion: Seq<F64Bits>,
    velocity: Seq<F64Bits>,
    initialized: u8,
    tail: Seq<u8>,
)
    requires
        f.msg_id == 0x0710,
        position.len() == 3,
        quaternion.len() == 4,
        velocity.len() == 3,
        f.payload == le64(timestamp_ns) + f64s_bytes(position) + f64s_bytes(quaternion) + f64s_bytes(
            velocity,
        ) + seq![initialized] + tail,
    ensures
        spec_from_frame(f) == Ok::<TelemetryView, TelemetryError>(
            TelemetryView::VioPose {
                timestamp_ns,
                position,
                quaternion,
                velocity,
                initialized: initialized != 0,
            },
        ),
{
    let p = f.payload;
    let rest = seq![initialized] + tail;
    let ts = le64(timestamp_ns);
    let pb = f64s_bytes(position);
    let qb = f64s_bytes(quaternion);
    let vb = f64s_bytes(velocity);
    lemma_f64s_roundtrip(position, ts, qb + vb + rest);
    lemma_f64s_roundtrip(quaternion, ts + pb, vb + rest);
    lemma_f64s_roundtrip(velocity, ts + pb + qb, rest);
    lemma_le64_roundtrip(timestamp_ns);
    assert(p =~= ts + pb + (qb + vb + rest));
    assert(p =~= (ts + pb) + qb + (vb + rest));
    assert(p =~= (ts + pb + qb) + vb + rest);
    assert(p.subrange(0, 8) =~= ts);
    lemma_u64_in(p, 0, timestamp_ns);
    assert(p[88] == initialized);
}

/// Each telemetry message kind travels under its own fixed identifier: IMU
/// 0x0100, GPS 0x0101, time-of-flight 0x0102, fused state 0x0200, system
/// status 0x0301, parameter value 0x0500, parameter and save acknowledgments
/// both 0x0501; supervisor register, service heartbeat, command, command
/// acknowledgment, state and service status 0x0700 to 0x0705; VIO pose 0x0710.
pub proof fn lemma_telemetry_ids(m: TelemetryView)
    ensures
        spec_msg_id(m) == match m {
            TelemetryView::ImuData { .. } => 0x0100u16,
            TelemetryView::GpsData { .. } => 0x0101u16,
            TelemetryView::ToFData { .. } => 0x0102u16,
            TelemetryView::FusedState { .. } => 0x0200u16,
            TelemetryView::SystemStatus { .. } => 0x0301u16,
            TelemetryView::ParameterValue { .. } => 0x0500u16,
            TelemetryView::ParameterAck { .. } => 0x0501u16,
            TelemetryView::SaveParamsAck { .. } => 0x0501u16,
            TelemetryView::Register { .. } => 0x0700u16,
            TelemetryView::ServiceHeartbeat { .. } => 0x0701u16,
            TelemetryView::SupervisorCmd { .. } => 0x0702u16,
            TelemetryView::SupervisorCmdAck { .. } => 0x0703u16,
            TelemetryView::SupervisorState { .. } => 0x0704u16,
            TelemetryView::ServiceStatusReport { .. } => 0x0705u16,
            TelemetryView::VioPose { .. } => 0x0710u16,
        },
{
}

/// Decoding picks the message kind by the frame's identifier: whatever a
/// frame decodes to travels under that identifier, and a decoding error
/// names it. System frames (identifiers 0x0001 to 0x0005) carry no
/// telemetry and are refused as such.
pub proof fn lemma_telemetry_decode_by_id(f: FrameModel)
    ensures
        spec_from_frame(f) matches Ok(m) ==> spec_msg_id(m) == f.msg_id,
        spec_from_frame(f) matches Err(e) ==> match e {
            TelemetryError::SystemMessage { msg_id } => msg_id == f.msg_id,
            TelemetryError::PayloadTooShort { msg_id } => msg_id == f.msg_id,
            TelemetryError::InvalidLength { msg_id } => msg_id == f.msg_id,
            TelemetryError::UnknownMessageId { msg_id } => msg_id == f.msg_id,
        },
        1 <= f.msg_id <= 5 ==> spec_from_frame(f) == Err::<TelemetryView, TelemetryError>(
            TelemetryError::SystemMessage { msg_id: f.msg_id },
        ),
{
}

/// IMU layout: gyro, accelerometer and magnetometer vectors, each three
/// single-precision numbers (x, y, z) little-endian, in that order; the
/// frame's time stands for the message's.
pub proof fn lemma_imu_layout(f: FrameModel, v: Seq<u32>, tail: Seq<u8>)
    requires
        f.msg_id == 0x0100,
        v.len() == 9,
        f.payload == le32(v[0]) + le32(v[1]) + le32(v[2]) + le32(v[3]) + le32(v[4]) + le32(v[5])
            + le32(v[6]) + le32(v[7]) + le32(v[8]) + tail,
    ensures
        spec_from_frame(f) == Ok::<TelemetryView, TelemetryError>(
            TelemetryView::ImuData {
                gyro: Vector3 { x: F32Bits(v[0]), y: F32Bits(v[1]), z: F32Bits(v[2]) },
                accel: Vector3 { x: F32Bits(v[3]), y: F32Bits(v[4]), z: F32Bits(v[5]) },
                mag: Vector3 { x: F32Bits(v[6]), y: F32Bits(v[7]), z: F32Bits(v[8]) },
                timestamp: f.timestamp_ms as u64,
            },
        ),
{
    let p = f.payload;
    assert(p.subrange(0, 4) =~= le32(v[0]));
    assert(p.subrange(4, 8) =~= le32(v[1]));
    assert(p.subrange(8, 12) =~= le32(v[2]));
    assert(p.subrange(12, 16) =~= le32(v[3]));
    assert(p.subrange(16, 20) =~= le32(v[4]));
    assert(p.subrange(20, 24) =~= le32(v[5]));
    assert(p.subrange(24, 28) =~= le32(v[6]));
    assert(p.subrange(28, 32) =~= le32(v[7]));
    assert(p.subrange(32, 36) =~= le32(v[8]));
    lemma_u32_in(p, 0, v[0]);
    lemma_u32_in(p, 4, v[1]);
    lemma_u32_in(p, 8, v[2]);
    lemma_u32_in(p, 12, v[3]);
    lemma_u32_in(p, 16, v[4]);
    lemma_u32_in(p, 20, v[5]);
    lemma_u32_in(p, 24, v[6]);
    lemma_u32_in(p, 28, v[7]);
    lemma_u32_in(p, 32, v[8]);
}

/// GPS layout: latitude and longitude as double-precision numbers, then
/// altitude, speed and heading as single-precision numbers, all
/// little-endian, then the satellite count; the frame's time stands for the
/// message's.
pub proof fn lemma_gps_layout(
    f: FrameModel,
    lat: u64,
    lon: u64,
    altitude: u32,
    speed: u32,
    heading: u32,
    satellites: u8,
    tail: Seq<u8>,
)
    requires
        f.msg_id == 0x0101,
        f.payload == le64(lat) + le64(lon) + le32(altitude) + le32(speed) + le32(heading) + seq![
            satellites,
        ] + tail,
    ensures
        spec_from_frame(f) == Ok::<TelemetryView, TelemetryError>(
            TelemetryView::GpsData {
                lat: F64Bits(lat),
                lon: F64Bits(lon),
                altitude: F32Bits(altitude),
                speed: F32Bits(speed),
                heading: F32Bits(heading),
                satellites,
                timestamp: f.timestamp_ms as u64,
            },
        ),
{
    let p = f.payload;
    assert(p.subrange(0, 8) =~= le64(lat));
    assert(p.subrange(8, 16) =~= le64(lon));
    assert(p.subrange(16, 20) =~= le32(altitude));
    assert(p.subrange(20, 24) =~= le32(speed));
    assert(p.subrange(24, 28) =~= le32(heading));
    lemma_u64_at_in(p, 0, lat);
    lemma_u64_at_in(p, 8, lon);
    lemma_u32_in(p, 16, altitude);
    lemma_u32_in(p, 20, speed);
    lemma_u32_in(p, 24, heading);
    assert(p[28] == satellites);
}

/// Time-of-flight layout: sensor id, resolution, then minimum, average and
/// maximum distance as little-endian 16-bit values; the frame's time stands
/// for the message's.
pub proof fn lemma_tof_layout(
    f: FrameModel,
    sensor_id: u8,
    resolution: u8,
    min_distance: u16,
    avg_distance: u16,
    max_distance: u16,
    tail: Seq<u8>,
)
    requires
        f.msg_id == 0x0102,
        f.payload == seq![sensor_id, resolution] + le16(min_distance) + le16(avg_distance) + le16(
            max_distance,
        ) + tail,
    ensures
        spec_from_frame(f) == Ok::<TelemetryView, TelemetryError>(
            TelemetryView::ToFData {
                sensor_id,
                resolution,
                min_distance,
                avg_distance,
                max_distance,
                timestamp: f.timestamp_ms as u64,
            },
        ),
{
    let p = f.payload;
    assert(p.subrange(2, 4) =~= le16(min_distance));
    assert(p.subrange(4, 6) =~= le16(avg_distance));
    assert(p.subrange(6, 8) =~= le16(max_distance));
    lemma_u16_in(p, 2, min_distance);
    lemma_u16_in(p, 4, avg_distance);
    lemma_u16_in(p, 6, max_distance);
}

/// Fused-state layout: roll, pitch and yaw as little-endian single-precision
/// numbers; the frame's time stands for the message's.
pub proof fn lemma_fused_state_layout(f: FrameModel, roll: u32, pitch: u32, yaw: u32, tail: Seq<u8>)
    requires
        f.msg_id == 0x0200,
        f.payload == le32(roll) + le32(pitch) + le32(yaw) + tail,
    ensures
        spec_from_frame(f) == Ok::<TelemetryView, TelemetryError>(
            TelemetryView::FusedState {
                euler: EulerAngles { roll: F32Bits(roll), pitch: F32Bits(pitch), yaw: F32Bits(yaw) },
                timestamp: f.timestamp_ms as u64,
            },
        ),
{
    let p = f.payload;
    assert(p.subrange(0, 4) =~= le32(roll));
    assert(p.subrange(4, 8) =~= le32(pitch));
    assert(p.subrange(8, 12) =~= le32(yaw));
    lemma_u32_in(p, 0, roll);
    lemma_u32_in(p, 4, pitch);
    lemma_u32_in(p, 8, yaw);
}

/// System-status layout: armed flag, system state, battery voltage as a
/// little-endian single-precision number, loop rate as a little-endian 16-bit
/// value; the frame's time stands for the message's.
pub proof fn lemma_system_status_layout(
    f: FrameModel,
    armed: u8,
    system_state: u8,
    battery_voltage: u32,
    loop_rate: u16,
    tail: Seq<u8>,
)
    requires
        f.msg_id == 0x0301,
        f.payload == seq![armed, system_state] + le32(battery_voltage) + le16(loop_rate) + tail,
    ensures
        spec_from_frame(f) == Ok::<TelemetryView, TelemetryError>(
            TelemetryView::SystemStatus {
                armed,
                system_state,
                battery_voltage: F32Bits(battery_voltage),
                loop_rate,
                timestamp: f.timestamp_ms as u64,
            },
        ),
{
    let p = f.payload;
    assert(p.subrange(2, 6) =~= le32(battery_voltage));
    assert(p.subrange(6, 8) =~= le16(loop_rate));
    lemma_u32_in(p, 2, battery_voltage);
    lemma_u16_in(p, 6, loop_rate);
}

/// Parameter layouts: a parameter value is its little-endian 16-bit id and
/// its little-endian single-precision value; a parameter acknowledgment is
/// the id and a success byte (nonzero for success), at least three bytes; a
/// payload of exactly one byte acknowledges saving, with that success byte.
pub proof fn lemma_parameter_layouts(
    f: FrameModel,
    param_id: u16,
    value: u32,
    status: u8,
    tail: Seq<u8>,
)
    ensures
        f.msg_id == 0x0500 && f.payload == le16(param_id) + le32(value) + tail ==> spec_from_frame(f)
            == Ok::<TelemetryView, TelemetryError>(
            TelemetryView::ParameterValue {
                param_id,
                value: F32Bits(value),
                timestamp: f.timestamp_ms as u64,
            },
        ),
        f.msg_id == 0x0501 && f.payload == le16(param_id) + seq![status] + tail ==> spec_from_frame(
            f,
        ) == Ok::<TelemetryView, TelemetryError>(
            TelemetryView::ParameterAck {
                param_id,
                success: status != 0,
                timestamp: f.timestamp_ms as u64,
            },
        ),
        f.msg_id == 0x0501 && f.payload == seq![status] ==> spec_from_frame(f) == Ok::<
            TelemetryView,
            TelemetryError,
        >(TelemetryView::SaveParamsAck { success: status != 0, timestamp: f.timestamp_ms as u64 }),
        f.msg_id == 0x0501 && (f.payload.len() == 0 || f.payload.len() == 2) ==> spec_from_frame(f)
            == Err::<TelemetryView, TelemetryError>(TelemetryError::InvalidLength { msg_id: 0x0501 }),
{
    let p = f.payload;
    if f.msg_id == 0x0500 && p == le16(param_id) + le32(value) + tail {
        assert(p.subrange(0, 2) =~= le16(param_id));
        assert(p.subrange(2, 6) =~= le32(value));
        lemma_u16_in(p, 0, param_id);
        lemma_u32_in(p, 2, value);
    }
    if f.msg_id == 0x0501 && p == le16(param_id) + seq![status] + tail {
        assert(p.subrange(0, 2) =~= le16(param_id));
        lemma_u16_in(p, 0, param_id);
        assert(p[2] == status);
    }
}

impl SynapseMessage {
    /// Parse a Synapse message from a frame.
    pub fn from_frame(frame: &SynapseFrame) -> (r: Result<Self, TelemetryError>)
        ensures
            telemetry_result_view(r) == spec_from_frame(frame@),
    {
        let payload = frame.payload.as_slice();
        let timestamp = frame.timestamp_ms as u64;
        let id = frame.msg_id;
        if id == MSG_HEARTBEAT || id == MSG_TIME_SYNC || id == MSG_PING || id == MSG_PONG || id
            == MSG_ACK {
            // System messages carry no telemetry.
            Err(TelemetryError::SystemMessage { msg_id: id })
        } else if id == MSG_IMU_DATA {
            if payload.len() < 36 {
                return Err(TelemetryError::PayloadTooShort { msg_id: id });
            }
            Ok(
                SynapseMessage::ImuData {
                    gyro: read_vector3(payload, 0),
                    accel: read_vector3(payload, 12),
                    mag: read_vector3(payload, 24),
                    timestamp,
                },
            )
        } else if id == MSG_GPS_DATA {
            if payload.len() < 29 {
                return Err(TelemetryError::PayloadTooShort { msg_id: id });
            }
            Ok(
                SynapseMessage::GpsData {
                    lat: read_f64_le(payload, 0),
                    lon: read_f64_le(payload, 8),
                    altitude: read_f32_le(payload, 16),
                    speed: read_f32_le(payload, 20),
                    heading: read_f32_le(payload, 24),
                    satellites: payload[28],
                    timestamp,
                },
            )
        } else if id == MSG_TOF_DATA {
            if payload.len() < 8 {
                return Err(TelemetryError::PayloadTooShort { msg_id: id });
            }
            Ok(
                SynapseMessage::ToFData {
                    sensor_id: payload[0],
                    resolution: payload[1],
                    min_distance: read_u16_le(payload, 2),
                    avg_distance: read_u16_le(payload, 4),
                    max_distance: read_u16_le(payload, 6),
                    timestamp,
                },
            )
        } else if id == MSG_FUSED_STATE {
            if payload.len() < 12 {
                return Err(TelemetryError::PayloadTooShort { msg_id: id });
            }
            Ok(
                SynapseMessage::FusedState {
                    euler: EulerAngles {
                        roll: read_f32_le(payload, 0),
                        pitch: read_f32_le(payload, 4),
                        yaw: read_f32_le(payload, 8),
                    },
                    timestamp,
                },
            )
        } else if id == MSG_SYSTEM_STATUS {
            if payload.len() < 8 {
                return Err(TelemetryError::PayloadTooShort { msg_id: id });
            }
            Ok(
                SynapseMessage::SystemStatus {
                    armed: payload[0],
                    system_state: payload[1],
                    battery_voltage: read_f32_le(payload, 2),
                    loop_rate: read_u16_le(payload, 6),
                    timestamp,
                },
            )
        } else if id == MSG_CONFIG_PARAM {
            if payload.len() < 6 {
                return Err(TelemetryError::PayloadTooShort { msg_id: id });
            }
            Ok(
                SynapseMessage::ParameterValue {
                    param_id: read_u16_le(payload, 0),
                    value: read_f32_le(payload, 2),
                    timestamp,
                },
            )
        } else if id == MSG_PARAMETER_ACK {
            if payload.len() >= 3 {
                Ok(
                    SynapseMessage::ParameterAck {
                        param_id: read_u16_le(payload, 0),
                        success: payload[2] != 0,
                        timestamp,
                    },
                )
            } else if payload.len() == 1 {
                Ok(SynapseMessage::SaveParamsAck { success: payload[0] != 0, timestamp })
            } else {
                Err(TelemetryError::InvalidLength { msg_id: id })
            }
        } else if id == MSG_REGISTER {
            if payload.len() < 5 {
                return Err(TelemetryError::PayloadTooShort { msg_id: id });
            }
            let service_id = payload[0];
            let pid = read_u32_le(payload, 1);
            let version = if payload.len() > 5 {
                let rest = vstd::slice::slice_subrange(payload, 5, payload.len());
                assert(rest@ =~= payload@.skip(5));
                string_from_utf8_lossy(rest)
            } else {
                String::new()
            };
            Ok(SynapseMessage::Register { service_id, pid, version })
        } else if id == MSG_SERVICE_HEARTBEAT {
            if payload.len() < 2 {
                return Err(TelemetryError::PayloadTooShort { msg_id: id });
            }
            let service_id = payload[0];
            let status = payload[1];
            let error_msg = read_trailing_text(payload, 2);
            Ok(SynapseMessage::ServiceHeartbeat { service_id, status, timestamp, error_msg })
        } else if id == MSG_SUPERVISOR_CMD {
            if payload.len() < 6 {
                return Err(TelemetryError::PayloadTooShort { msg_id: id });
            }
            Ok(
                SynapseMessage::SupervisorCmd {
                    command_id: read_u32_le(payload, 0),
                    command_type: payload[4],
                    target_service: payload[5],
                },
            )
        } else if id == MSG_SUPERVISOR_CMD_ACK {
            if payload.len() < 5 {
                return Err(TelemetryError::PayloadTooShort { msg_id: id });
            }
            let command_id = read_u32_le(payload, 0);
            let success = payload[4] != 0;
            let error_msg = read_trailing_text(payload, 5);
            Ok(SynapseMessage::SupervisorCmdAck { command_id, success, error_msg })
        } else if id == MSG_SUPERVISOR_STATE {
            if payload.len() < 3 {
                return Err(TelemetryError::PayloadTooShort { msg_id: id });
            }
            Ok(
                SynapseMessage::SupervisorState {
                    state_id: payload[0],
                    services_up: payload[1],
                    services_healthy: payload[2],
                    timestamp,
                },
            )
        } else if id == MSG_SERVICE_STATUS {
            if payload.len() < 14 {
                return Err(TelemetryError::PayloadTooShort { msg_id: id });
            }
            Ok(
                SynapseMessage::ServiceStatusReport {
                    service_id: payload[0],
                    status: payload[1],
                    cpu_percent: read_f32_le(payload, 2),
                    memory_bytes: read_u64_le(payload, 6),
                    timestamp,
                },
            )
        } else if id == MSG_VIO_POSE {
            if payload.len() < 89 {
                return Err(TelemetryError::PayloadTooShort { msg_id: id });
            }
            let timestamp_ns = read_u64_le(payload, 0);
            let position = [
                read_f64_le(payload, 8),
                read_f64_le(payload, 16),
                read_f64_le(payload, 24),
            ];
            let quaternion = [
                read_f64_le(payload, 32),
                read_f64_le(payload, 40),
                read_f64_le(payload, 48),
                read_f64_le(payload, 56),
            ];
            let velocity = [
                read_f64_le(payload, 64),
                read_f64_le(payload, 72),
                read_f64_le(payload, 80),
            ];
            let initialized = payload[88] != 0;
            assert(position@ =~= f64s_at(payload@, 8, 3));
            assert(quaternion@ =~= f64s_at(payload@, 32, 4));
            assert(velocity@ =~= f64s_at(payload@, 64, 3));
            Ok(SynapseMessage::VioPose { timestamp_ns, position, quaternion, velocity, initialized })
        } else {
            Err(TelemetryError::UnknownMessageId { msg_id: id })
        }
    }

    /// Encode a message to a payload. Only supervisor and VIO messages are
    /// encoded; the others give an empty payload.
    pub fn to_payload(&self) -> (payload: Vec<u8>)
        ensures
            payload@ == spec_payload(self@),
    {
        let mut payload: Vec<u8> = Vec::new();
        match self {
            SynapseMessage::Register { service_id, pid, version } => {
                payload.push(*service_id);
                push_u32_le(&mut payload, *pid);
                push_text(&mut payload, version);
            },
            SynapseMessage::ServiceHeartbeat { service_id, status, error_msg, .. } => {
                payload.push(*service_id);
                payload.push(*status);
                push_optional_text(&mut payload, error_msg);
            },
            SynapseMessage::SupervisorCmd { command_id, command_type, target_service } => {
                push_u32_le(&mut payload, *command_id);
                payload.push(*command_type);
                payload.push(*target_service);
            },
            SynapseMessage::SupervisorCmdAck { command_id, success, error_msg } => {
                push_u32_le(&mut payload, *command_id);
                payload.push(
                    if *success {
                        1
                    } else {
                        0
                    },
                );
                push_optional_text(&mut payload, error_msg);
            },
            SynapseMessage::SupervisorState { state_id, services_up, services_healthy, .. } => {
                payload.push(*state_id);
                payload.push(*services_up);
                payload.push(*services_healthy);
            },
            SynapseMessage::ServiceStatusReport {
                service_id,
                status,
                cpu_percent,
                memory_bytes,
                ..
            } => {
                payload.push(*service_id);
                payload.push(*status);
                push_u32_le(&mut payload, cpu_percent.0);
                push_u64_le(&mut payload, *memory_bytes);
            },
            SynapseMessage::VioPose { timestamp_ns, position, quaternion, velocity, initialized } => {
                push_u64_le(&mut payload, *timestamp_ns);
                push_f64s(&mut payload, position.as_slice());
                push_f64s(&mut payload, quaternion.as_slice());
                push_f64s(&mut payload, velocity.as_slice());
                payload.push(
                    if *initialized {
                        1
                    } else {
                        0
                    },
                );
            },
            // Other message types are not encoded.
            _ => {},
        }
        assert(payload@ =~= spec_payload(self@));
        payload
    }

    /// Get the message ID for this message type.
    pub fn msg_id(&self) -> (id: u16)
        ensures
            id == spec_msg_id(self@),
    {
        match self {
            SynapseMessage::ImuData { .. } => MSG_IMU_DATA,
            SynapseMessage::GpsData { .. } => MSG_GPS_DATA,
            SynapseMessage::ToFData { .. } => MSG_TOF_DATA,
            SynapseMessage::FusedState { .. } => MSG_FUSED_STATE,
            SynapseMessage::SystemStatus { .. } => MSG_SYSTEM_STATUS,
            SynapseMessage::ParameterValue { .. } => MSG_CONFIG_PARAM,
            SynapseMessage::ParameterAck { .. } => MSG_PARAMETER_ACK,
            SynapseMessage::SaveParamsAck { .. } => MSG_PARAMETER_ACK,
            SynapseMessage::Register { .. } => MSG_REGISTER,
            SynapseMessage::ServiceHeartbeat { .. } => MSG_SERVICE_HEARTBEAT,
            SynapseMessage::SupervisorCmd { .. } => MSG_SUPERVISOR_CMD,
            SynapseMessage::SupervisorCmdAck { .. } => MSG_SUPERVISOR_CMD_ACK,
            SynapseMessage::SupervisorState { .. } => MSG_SUPERVISOR_STATE,
            SynapseMessage::ServiceStatusReport { .. } => MSG_SERVICE_STATUS,
            SynapseMessage::VioPose { .. } => MSG_VIO_POSE,
        }
    }

    /// Convert the message to a frame ready for sending, stamped with the
    /// current time.
    pub fn to_frame(&self) -> (f: SynapseFrame)
        ensures
            f@ == new_frame(spec_msg_id(self@), spec_payload(self@), f.timestamp_ms),
    {
        SynapseFrame::new(self.msg_id(), self.to_payload())
    }

    /// Convert the message to a frame stamped `timestamp_ms`.
    pub fn to_frame_at(&self, timestamp_ms: u32) -> (f: SynapseFrame)
        ensures
            f@ == new_frame(spec_msg_id(self@), spec_payload(self@), timestamp_ms),
    {
        SynapseFrame::new_at(self.msg_id(), self.to_payload(), timestamp_ms)
    }
}

} // verus!
