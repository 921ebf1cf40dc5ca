use synapse::frame::SynapseFrame;
use synapse::messages::{
    EulerAngles, SynapseMessage, TelemetryError, Vector3, MSG_CONFIG_PARAM, MSG_FUSED_STATE,
    MSG_GPS_DATA, MSG_IMU_DATA, MSG_PARAMETER_ACK, MSG_SYSTEM_STATUS, MSG_TOF_DATA, MSG_VIO_POSE,
};
use synapse::wire::{F32Bits, F64Bits};

fn le32(x: f32) -> [u8; 4] {
    x.to_le_bytes()
}

#[test]
fn imu_data_decodes_floats_bit_for_bit() {
    let mut payload = Vec::new();
    for v in [1.0f32, 2.0, 3.0, -1.0, -2.0, -3.0, 0.5, 0.25, 0.125] {
        payload.extend_from_slice(&le32(v));
    }
    let frame = SynapseFrame::new_at(MSG_IMU_DATA, payload, 4242);
    match SynapseMessage::from_frame(&frame).unwrap() {
        SynapseMessage::ImuData { gyro, accel, mag, timestamp } => {
            assert_eq!(gyro, Vector3 { x: F32Bits(1.0f32.to_bits()), y: F32Bits(2.0f32.to_bits()), z: F32Bits(3.0f32.to_bits()) });
            assert_eq!(f32::from_bits(accel.y.0), -2.0);
            assert_eq!(f32::from_bits(mag.z.0), 0.125);
            assert_eq!(timestamp, 4242);
        }
        _ => panic!("Expected ImuData"),
    }
}

#[test]
fn sensor_messages_decode() {
    let mut gps = Vec::new();
    gps.extend_from_slice(&47.5f64.to_le_bytes());
    gps.extend_from_slice(&(-122.25f64).to_le_bytes());
    gps.extend_from_slice(&le32(100.0));
    gps.extend_from_slice(&le32(12.0));
    gps.extend_from_slice(&le32(270.0));
    gps.push(9);
    match SynapseMessage::from_frame(&SynapseFrame::new_at(MSG_GPS_DATA, gps, 1)).unwrap() {
        SynapseMessage::GpsData { lat, lon, satellites, .. } => {
            assert_eq!(f64::from_bits(lat.0), 47.5);
            assert_eq!(f64::from_bits(lon.0), -122.25);
            assert_eq!(satellites, 9);
        }
        _ => panic!("Expected GpsData"),
    }

    let tof = vec![1, 2, 0x10, 0x00, 0x20, 0x00, 0x30, 0x01];
    match SynapseMessage::from_frame(&SynapseFrame::new_at(MSG_TOF_DATA, tof, 1)).unwrap() {
        SynapseMessage::ToFData { sensor_id, resolution, min_distance, avg_distance, max_distance, .. } => {
            assert_eq!((sensor_id, resolution, min_distance, avg_distance, max_distance), (1, 2, 0x10, 0x20, 0x130));
        }
        _ => panic!("Expected ToFData"),
    }

    let mut fused = Vec::new();
    for v in [0.1f32, 0.2, 0.3] {
        fused.extend_from_slice(&le32(v));
    }
    match SynapseMessage::from_frame(&SynapseFrame::new_at(MSG_FUSED_STATE, fused, 1)).unwrap() {
        SynapseMessage::FusedState { euler, .. } => assert_eq!(
            euler,
            EulerAngles { roll: F32Bits(0.1f32.to_bits()), pitch: F32Bits(0.2f32.to_bits()), yaw: F32Bits(0.3f32.to_bits()) }
        ),
        _ => panic!("Expected FusedState"),
    }

    let mut status = vec![1, 4];
    status.extend_from_slice(&le32(11.1));
    status.extend_from_slice(&[0xE8, 0x03]);
    match SynapseMessage::from_frame(&SynapseFrame::new_at(MSG_SYSTEM_STATUS, status, 1)).unwrap() {
        SynapseMessage::SystemStatus { armed, system_state, loop_rate, .. } => {
            assert_eq!((armed, system_state, loop_rate), (1, 4, 1000));
        }
        _ => panic!("Expected SystemStatus"),
    }

    let mut param = vec![0x05, 0x00];
    param.extend_from_slice(&le32(1.5));
    match SynapseMessage::from_frame(&SynapseFrame::new_at(MSG_CONFIG_PARAM, param, 1)).unwrap() {
        SynapseMessage::ParameterValue { param_id, value, .. } => {
            assert_eq!(param_id, 5);
            assert_eq!(f32::from_bits(value.0), 1.5);
        }
        _ => panic!("Expected ParameterValue"),
    }
}

#[test]
fn parameter_ack_forms() {
    match SynapseMessage::from_frame(&SynapseFrame::new_at(MSG_PARAMETER_ACK, vec![7, 0, 1], 3)).unwrap() {
        SynapseMessage::ParameterAck { param_id, success, timestamp } => assert_eq!((param_id, success, timestamp), (7, true, 3)),
        _ => panic!("Expected ParameterAck"),
    }
    match SynapseMessage::from_frame(&SynapseFrame::new_at(MSG_PARAMETER_ACK, vec![0], 3)).unwrap() {
        SynapseMessage::SaveParamsAck { success, .. } => assert!(!success),
        _ => panic!("Expected SaveParamsAck"),
    }
    assert_eq!(
        SynapseMessage::from_frame(&SynapseFrame::new_at(MSG_PARAMETER_ACK, vec![0, 1], 3)).unwrap_err(),
        TelemetryError::InvalidLength { msg_id: MSG_PARAMETER_ACK }
    );
}

#[test]
fn telemetry_errors() {
    assert_eq!(
        SynapseMessage::from_frame(&SynapseFrame::new_at(0x0001, vec![], 0)).unwrap_err(),
        TelemetryError::SystemMessage { msg_id: 0x0001 }
    );
    assert_eq!(
        SynapseMessage::from_frame(&SynapseFrame::new_at(MSG_IMU_DATA, vec![0; 35], 0)).unwrap_err(),
        TelemetryError::PayloadTooShort { msg_id: MSG_IMU_DATA }
    );
    assert_eq!(
        SynapseMessage::from_frame(&SynapseFrame::new_at(0x0999, vec![], 0)).unwrap_err(),
        TelemetryError::UnknownMessageId { msg_id: 0x0999 }
    );
}

#[test]
fn vio_pose_roundtrip() {
    let b = |x: f64| F64Bits(x.to_bits());
    let pose = SynapseMessage::VioPose {
        timestamp_ns: 123_456_789,
        position: [b(1.0), b(2.0), b(3.0)],
        quaternion: [b(1.0), b(0.0), b(0.0), b(0.0)],
        velocity: [b(-0.5), b(0.25), b(0.0)],
        initialized: true,
    };
    let payload = pose.to_payload();
    assert_eq!(payload.len(), 89);
    assert_eq!(&payload[8..16], &1.0f64.to_le_bytes());
    assert_eq!(payload[88], 1);
    let frame = pose.to_frame();
    assert_eq!(frame.msg_id, MSG_VIO_POSE);
    let decoded = SynapseFrame::parse_cobs(&frame.encode_with_cobs()).unwrap();
    match SynapseMessage::from_frame(&decoded).unwrap() {
        SynapseMessage::VioPose { timestamp_ns, position, quaternion, velocity, initialized } => {
            assert_eq!(timestamp_ns, 123_456_789);
            assert_eq!(position, [b(1.0), b(2.0), b(3.0)]);
            assert_eq!(quaternion, [b(1.0), b(0.0), b(0.0), b(0.0)]);
            assert_eq!(velocity, [b(-0.5), b(0.25), b(0.0)]);
            assert!(initialized);
        }
        _ => panic!("Expected VioPose"),
    }
}

#[test]
fn supervisor_payloads() {
    let ack = SynapseMessage::SupervisorCmdAck { command_id: 0x0A0B0C0D, success: true, error_msg: None };
    assert_eq!(ack.to_payload(), vec![0x0D, 0x0C, 0x0B, 0x0A, 1]);
    let report = SynapseMessage::ServiceStatusReport {
        service_id: 1,
        status: 2,
        cpu_percent: F32Bits(0x3F80_0000),
        memory_bytes: 0x0102_0304_0506_0708,
        timestamp: 0,
    };
    assert_eq!(report.to_payload(), vec![1, 2, 0, 0, 0x80, 0x3F, 8, 7, 6, 5, 4, 3, 2, 1]);
    let state = SynapseMessage::SupervisorState { state_id: 1, services_up: 2, services_healthy: 3, timestamp: 9 };
    assert_eq!(state.to_payload(), vec![1, 2, 3]);
    let cmd = SynapseMessage::SupervisorCmd { command_id: 1, command_type: 2, target_service: 3 };
    let back = SynapseMessage::from_frame(&cmd.to_frame_at(0)).unwrap();
    match back {
        SynapseMessage::SupervisorCmd { command_id, command_type, target_service } => {
            assert_eq!((command_id, command_type, target_service), (1, 2, 3))
        }
        _ => panic!("Expected SupervisorCmd"),
    }
    let imu = SynapseMessage::ImuData {
        gyro: Vector3 { x: F32Bits(0), y: F32Bits(0), z: F32Bits(0) },
        accel: Vector3 { x: F32Bits(0), y: F32Bits(0), z: F32Bits(0) },
        mag: Vector3 { x: F32Bits(0), y: F32Bits(0), z: F32Bits(0) },
        timestamp: 0,
    };
    assert!(imu.to_payload().is_empty());
    assert_eq!(imu.msg_id(), MSG_IMU_DATA);
}
