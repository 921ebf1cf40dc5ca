use synapse::endpoint::{nodes, services, EndpointId, NodeId};
use synapse::frame::SynapseFrame;
use synapse::protocol::messages::{
    AckDecision, AckReason, AckReceipt, HandoffAccept, HandoffReject, HandoffRequest, LinkStatus,
    MessageError, MissionRole, MissionRoleState, NodeHeartbeat, NodeRole, RougeMessage,
    SupervisorMessage, SynapseMessage, SystemMessage, TargetCue, MSG_ACK_ACCEPTED,
    MSG_ACK_RECEIVED, MSG_ACK_REJECTED, MSG_HANDOFF_ACCEPT, MSG_HANDOFF_REJECT,
    MSG_HANDOFF_REQUEST, MSG_LINK_STATUS, MSG_MISSION_ROLE, MSG_NODE_HEARTBEAT, MSG_TARGET_CUE,
};
use synapse::wire::F32Bits;

fn f(x: f32) -> F32Bits {
    F32Bits(x.to_bits())
}

#[test]
fn test_node_heartbeat_roundtrip() {
    let heartbeat = NodeHeartbeat::new(NodeId(1), NodeRole::FixedWing, 12_345, 100, 0x0003);

    let src = EndpointId::new(nodes::fixed_wing(), services::companion());
    let dst = EndpointId::new(nodes::fpv(), services::companion());

    let msg = SynapseMessage::Rouge(RougeMessage::NodeHeartbeat(heartbeat));
    let frame = msg.to_frame().with_sequence(42).with_routing(src.raw(), dst.raw());

    let encoded = frame.encode_with_cobs();
    let decoded_frame = SynapseFrame::parse_cobs(&encoded).unwrap();

    assert_eq!(decoded_frame.msg_id, MSG_NODE_HEARTBEAT);
    assert_eq!(decoded_frame.sequence, 42);
    assert_eq!(decoded_frame.src_endpoint, Some(src.raw()));
    assert_eq!(decoded_frame.dst_endpoint, Some(dst.raw()));

    let decoded_msg = SynapseMessage::from_frame(&decoded_frame).unwrap();

    match decoded_msg {
        SynapseMessage::Rouge(RougeMessage::NodeHeartbeat(decoded)) => assert_eq!(decoded, heartbeat),
        _ => panic!("Expected NodeHeartbeat message"),
    }
}

#[test]
fn test_link_status_roundtrip() {
    let link = LinkStatus::new(NodeId(2), -72, 95, 7, 55_000);

    let src = EndpointId::new(nodes::fpv(), services::link_monitor());
    let dst = EndpointId::new(nodes::gcs(), services::mission());

    let msg = SynapseMessage::Rouge(RougeMessage::LinkStatus(link));
    let frame = msg.to_frame().with_sequence(77).with_routing(src.raw(), dst.raw());

    let encoded = frame.encode_with_cobs();
    let decoded_frame = SynapseFrame::parse_cobs(&encoded).unwrap();

    assert_eq!(decoded_frame.msg_id, MSG_LINK_STATUS);
    assert_eq!(decoded_frame.sequence, 77);
    assert_eq!(decoded_frame.src_endpoint, Some(src.raw()));
    assert_eq!(decoded_frame.dst_endpoint, Some(dst.raw()));

    let decoded_msg = SynapseMessage::from_frame(&decoded_frame).unwrap();

    match decoded_msg {
        SynapseMessage::Rouge(RougeMessage::LinkStatus(decoded)) => assert_eq!(decoded, link),
        _ => panic!("Expected LinkStatus message"),
    }
}

#[test]
fn test_target_cue_roundtrip() {
    let cue = TargetCue::new(NodeId(2), 0x1234, f(12.5), f(-7.25), f(103.0), 92, 3, 88_001);
    let expected_payload = [
        2,
        0x34, 0x12,
        0x00, 0x00, 0x48, 0x41,
        0x00, 0x00, 0xE8, 0xC0,
        0x00, 0x00, 0xCE, 0x42,
        92,
        3,
        0xC1, 0x57, 0x01, 0x00,
    ];

    assert_eq!(cue.to_payload_bytes(), expected_payload);
    assert_eq!(TargetCue::from_payload_bytes(&expected_payload), Some(cue));

    let src = EndpointId::new(nodes::fpv(), services::mission());
    let dst = EndpointId::new(nodes::gcs(), services::mission());
    let msg = SynapseMessage::Rouge(RougeMessage::TargetCue(cue));
    let frame = msg.to_frame().with_sequence(103).with_routing(src.raw(), dst.raw());

    let encoded = frame.encode_with_cobs();
    let decoded_frame = SynapseFrame::parse_cobs(&encoded).unwrap();

    assert_eq!(decoded_frame.msg_id, MSG_TARGET_CUE);
    assert_eq!(decoded_frame.sequence, 103);
    assert_eq!(decoded_frame.src_endpoint, Some(src.raw()));
    assert_eq!(decoded_frame.dst_endpoint, Some(dst.raw()));
    assert_eq!(decoded_frame.payload.as_slice(), &expected_payload);

    let decoded_msg = SynapseMessage::from_frame(&decoded_frame).unwrap();

    match decoded_msg {
        SynapseMessage::Rouge(RougeMessage::TargetCue(decoded)) => assert_eq!(decoded, cue),
        _ => panic!("Expected TargetCue message"),
    }
}

#[test]
fn test_ack_helpers_and_reason_codes() {
    assert_eq!(AckReason::from_u8(0), Some(AckReason::Accepted));
    assert_eq!(AckReason::from_u8(1), Some(AckReason::Busy));
    assert_eq!(AckReason::from_u8(2), Some(AckReason::Invalid));
    assert_eq!(AckReason::from_u8(3), Some(AckReason::Unauthorized));
    assert_eq!(AckReason::from_u8(4), Some(AckReason::Unsupported));
    assert_eq!(AckReason::from_u8(99), None);

    let frame = SynapseMessage::Rouge(RougeMessage::TargetCue(TargetCue::new(
        NodeId(2),
        7,
        f(1.0),
        f(2.0),
        f(3.0),
        80,
        1,
        55,
    )))
    .to_frame()
    .with_sequence(222);

    let receipt = AckReceipt::for_frame(&frame, NodeId(3));
    assert_eq!(receipt.original_msg_id, MSG_TARGET_CUE);
    assert_eq!(receipt.original_seq, 222);
    assert_eq!(receipt.from_node, NodeId(3));

    let accepted = AckDecision::accept_for_frame(&frame, NodeId(1));
    assert_eq!(accepted.original_msg_id, MSG_TARGET_CUE);
    assert_eq!(accepted.original_seq, 222);
    assert_eq!(accepted.from_node, NodeId(1));
    assert_eq!(accepted.reason, AckReason::Accepted);

    let rejected = AckDecision::reject_for_frame(&frame, NodeId(1), AckReason::Busy);
    assert_eq!(rejected.original_msg_id, MSG_TARGET_CUE);
    assert_eq!(rejected.original_seq, 222);
    assert_eq!(rejected.from_node, NodeId(1));
    assert_eq!(rejected.reason, AckReason::Busy);
}

#[test]
fn test_ack_received_roundtrip() {
    let ack = AckReceipt { original_msg_id: MSG_NODE_HEARTBEAT, original_seq: 42, from_node: NodeId(2) };

    let src = EndpointId::new(nodes::fpv(), services::companion());
    let dst = EndpointId::new(nodes::fixed_wing(), services::companion());
    let msg = SynapseMessage::Rouge(RougeMessage::AckReceived(ack));
    let frame = msg.to_frame().with_sequence(100).with_routing(src.raw(), dst.raw());

    let encoded = frame.encode_with_cobs();
    let decoded_frame = SynapseFrame::parse_cobs(&encoded).unwrap();

    assert_eq!(decoded_frame.msg_id, MSG_ACK_RECEIVED);
    assert_eq!(decoded_frame.sequence, 100);
    assert_eq!(decoded_frame.src_endpoint, Some(src.raw()));
    assert_eq!(decoded_frame.dst_endpoint, Some(dst.raw()));

    let decoded_msg = SynapseMessage::from_frame(&decoded_frame).unwrap();

    match decoded_msg {
        SynapseMessage::Rouge(RougeMessage::AckReceived(decoded)) => assert_eq!(decoded, ack),
        _ => panic!("Expected AckReceived message"),
    }
}

#[test]
fn test_ack_accepted_roundtrip() {
    let ack = AckDecision {
        original_msg_id: MSG_LINK_STATUS,
        original_seq: 77,
        from_node: NodeId(3),
        reason: AckReason::Accepted,
    };

    let src = EndpointId::new(nodes::gcs(), services::mission());
    let dst = EndpointId::new(nodes::fpv(), services::companion());
    let msg = SynapseMessage::Rouge(RougeMessage::AckAccepted(ack));
    let frame = msg.to_frame().with_sequence(101).with_routing(src.raw(), dst.raw());

    let encoded = frame.encode_with_cobs();
    let decoded_frame = SynapseFrame::parse_cobs(&encoded).unwrap();

    assert_eq!(decoded_frame.msg_id, MSG_ACK_ACCEPTED);
    assert_eq!(decoded_frame.sequence, 101);
    assert_eq!(decoded_frame.src_endpoint, Some(src.raw()));
    assert_eq!(decoded_frame.dst_endpoint, Some(dst.raw()));

    let decoded_msg = SynapseMessage::from_frame(&decoded_frame).unwrap();

    match decoded_msg {
        SynapseMessage::Rouge(RougeMessage::AckAccepted(decoded)) => assert_eq!(decoded, ack),
        _ => panic!("Expected AckAccepted message"),
    }
}

#[test]
fn test_ack_rejected_roundtrip() {
    let ack = AckDecision {
        original_msg_id: MSG_MISSION_ROLE,
        original_seq: 88,
        from_node: NodeId(2),
        reason: AckReason::Invalid,
    };

    let src = EndpointId::new(nodes::fpv(), services::companion());
    let dst = EndpointId::new(nodes::gcs(), services::mission());
    let msg = SynapseMessage::Rouge(RougeMessage::AckRejected(ack));
    let frame = msg.to_frame().with_sequence(102).with_routing(src.raw(), dst.raw());

    let encoded = frame.encode_with_cobs();
    let decoded_frame = SynapseFrame::parse_cobs(&encoded).unwrap();

    assert_eq!(decoded_frame.msg_id, MSG_ACK_REJECTED);
    assert_eq!(decoded_frame.sequence, 102);
    assert_eq!(decoded_frame.src_endpoint, Some(src.raw()));
    assert_eq!(decoded_frame.dst_endpoint, Some(dst.raw()));

    let decoded_msg = SynapseMessage::from_frame(&decoded_frame).unwrap();

    match decoded_msg {
        SynapseMessage::Rouge(RougeMessage::AckRejected(decoded)) => assert_eq!(decoded, ack),
        _ => panic!("Expected AckRejected message"),
    }
}

#[test]
fn test_handoff_request_roundtrip() {
    let request = HandoffRequest::new(NodeId(2), NodeId(1), 0x0102, 4, 90_000);

    let src = EndpointId::new(nodes::fpv(), services::mission());
    let dst = EndpointId::new(nodes::fixed_wing(), services::mission());
    let msg = SynapseMessage::Rouge(RougeMessage::HandoffRequest(request));
    let frame = msg.to_frame().with_sequence(140).with_routing(src.raw(), dst.raw());

    let encoded = frame.encode_with_cobs();
    let decoded_frame = SynapseFrame::parse_cobs(&encoded).unwrap();

    assert_eq!(decoded_frame.msg_id, MSG_HANDOFF_REQUEST);
    assert_eq!(decoded_frame.src_endpoint, Some(src.raw()));
    assert_eq!(decoded_frame.dst_endpoint, Some(dst.raw()));

    let decoded_msg = SynapseMessage::from_frame(&decoded_frame).unwrap();

    match decoded_msg {
        SynapseMessage::Rouge(RougeMessage::HandoffRequest(decoded)) => assert_eq!(decoded, request),
        _ => panic!("Expected HandoffRequest message"),
    }
}

#[test]
fn test_handoff_accept_roundtrip() {
    let accept = HandoffAccept::new(NodeId(1), NodeId(2), 0x0102, 90_010);

    let src = EndpointId::new(nodes::fixed_wing(), services::mission());
    let dst = EndpointId::new(nodes::fpv(), services::mission());
    let msg = SynapseMessage::Rouge(RougeMessage::HandoffAccept(accept));
    let frame = msg.to_frame().with_sequence(141).with_routing(src.raw(), dst.raw());

    let encoded = frame.encode_with_cobs();
    let decoded_frame = SynapseFrame::parse_cobs(&encoded).unwrap();

    assert_eq!(decoded_frame.msg_id, MSG_HANDOFF_ACCEPT);

    let decoded_msg = SynapseMessage::from_frame(&decoded_frame).unwrap();

    match decoded_msg {
        SynapseMessage::Rouge(RougeMessage::HandoffAccept(decoded)) => assert_eq!(decoded, accept),
        _ => panic!("Expected HandoffAccept message"),
    }
}

#[test]
fn test_handoff_reject_roundtrip() {
    let reject = HandoffReject::new(NodeId(1), NodeId(2), 0x0102, AckReason::Busy, 90_020);

    let src = EndpointId::new(nodes::fixed_wing(), services::mission());
    let dst = EndpointId::new(nodes::fpv(), services::mission());
    let msg = SynapseMessage::Rouge(RougeMessage::HandoffReject(reject));
    let frame = msg.to_frame().with_sequence(142).with_routing(src.raw(), dst.raw());

    let encoded = frame.encode_with_cobs();
    let decoded_frame = SynapseFrame::parse_cobs(&encoded).unwrap();

    assert_eq!(decoded_frame.msg_id, MSG_HANDOFF_REJECT);

    let decoded_msg = SynapseMessage::from_frame(&decoded_frame).unwrap();

    match decoded_msg {
        SynapseMessage::Rouge(RougeMessage::HandoffReject(decoded)) => assert_eq!(decoded, reject),
        _ => panic!("Expected HandoffReject message"),
    }
}

#[test]
fn role_codes() {
    assert_eq!(NodeRole::Relay.as_u8(), 4);
    assert_eq!(NodeRole::from_u8(3), Some(NodeRole::Gcs));
    assert_eq!(NodeRole::from_u8(0), None);
    assert_eq!(MissionRole::GroundControl.as_u8(), 5);
    assert_eq!(MissionRole::from_u8(2), Some(MissionRole::Interceptor));
    assert_eq!(MissionRole::from_u8(6), None);
    assert_eq!(AckReason::Unsupported.as_u8(), 4);
}

#[test]
fn payload_layouts() {
    let hb = NodeHeartbeat::new(NodeId(7), NodeRole::Gcs, 0x0403_0201, 9, 0x0B0A);
    assert_eq!(hb.to_payload_bytes(), [7, 3, 1, 2, 3, 4, 9, 0x0A, 0x0B]);
    let link = LinkStatus::new(NodeId(2), -2, 50, -3, 1);
    assert_eq!(link.to_payload_bytes(), [2, 0xFE, 0xFF, 50, 0xFD, 1, 0, 0, 0]);
    let role = MissionRoleState { node: NodeId(4), role: MissionRole::Overwatch };
    assert_eq!(role.to_payload_bytes(), [4, 4]);
    assert_eq!(MissionRoleState::from_payload_bytes(&[4, 9]), None);
    assert_eq!(MissionRoleState::from_payload_bytes(&[4, 4, 4]), None);
    assert_eq!(NodeHeartbeat::from_payload_bytes(&[7, 0, 1, 2, 3, 4, 9, 0x0A, 0x0B]), None);
    assert_eq!(AckDecision::from_payload_bytes(&[1, 0, 2, 0, 3, 7]), None);
}

#[test]
fn system_and_supervisor_messages() {
    let sync = SynapseMessage::System(SystemMessage::TimeSync { time_ms: 0x0102_0304_0506_0708 });
    assert_eq!(sync.to_payload(), vec![8, 7, 6, 5, 4, 3, 2, 1]);
    let frame = sync.to_frame_at(5);
    match SynapseMessage::from_frame(&frame).unwrap() {
        SynapseMessage::System(SystemMessage::TimeSync { time_ms }) => assert_eq!(time_ms, 0x0102_0304_0506_0708),
        _ => panic!("Expected TimeSync"),
    }

    let reg = SynapseMessage::Supervisor(SupervisorMessage::Register {
        service_id: 3,
        pid: 0x0102_0304,
        version: String::from("v1.2"),
    });
    assert_eq!(reg.to_payload(), vec![3, 4, 3, 2, 1, b'v', b'1', b'.', b'2']);
    let frame = reg.to_frame_at(77);
    match SynapseMessage::from_frame(&frame).unwrap() {
        SynapseMessage::Supervisor(SupervisorMessage::Register { service_id, pid, version }) => {
            assert_eq!(service_id, 3);
            assert_eq!(pid, 0x0102_0304);
            assert_eq!(version, "v1.2");
        }
        _ => panic!("Expected Register"),
    }

    let hb = SynapseMessage::Supervisor(SupervisorMessage::ServiceHeartbeat {
        service_id: 1,
        status: 2,
        timestamp: 0,
        error_msg: Some(String::from("boom")),
    });
    let frame = hb.to_frame_at(1234);
    match SynapseMessage::from_frame(&frame).unwrap() {
        SynapseMessage::Supervisor(SupervisorMessage::ServiceHeartbeat { service_id, status, timestamp, error_msg }) => {
            assert_eq!((service_id, status, timestamp), (1, 2, 1234));
            assert_eq!(error_msg.as_deref(), Some("boom"));
        }
        _ => panic!("Expected ServiceHeartbeat"),
    }
}

#[test]
fn lossy_text_replaces_invalid_utf8() {
    let frame = SynapseFrame::new_at(0x0701, vec![1, 2, 0xFF, b'a'], 0);
    match SynapseMessage::from_frame(&frame).unwrap() {
        SynapseMessage::Supervisor(SupervisorMessage::ServiceHeartbeat { error_msg, .. }) => {
            assert_eq!(error_msg.as_deref(), Some("\u{FFFD}a"));
        }
        _ => panic!("Expected ServiceHeartbeat"),
    }
}

#[test]
fn message_errors() {
    let f1 = SynapseFrame::new_at(0x0002, vec![1, 2, 3], 0);
    assert_eq!(SynapseMessage::from_frame(&f1).unwrap_err(), MessageError::PayloadTooShort { msg_id: 0x0002 });
    let f2 = SynapseFrame::new_at(MSG_NODE_HEARTBEAT, vec![1, 2, 3], 0);
    assert_eq!(SynapseMessage::from_frame(&f2).unwrap_err(), MessageError::InvalidPayload { msg_id: MSG_NODE_HEARTBEAT });
    let f3 = SynapseFrame::new_at(0x7777, vec![], 0);
    assert_eq!(SynapseMessage::from_frame(&f3).unwrap_err(), MessageError::UnknownMessageId { msg_id: 0x7777 });
    let f4 = SynapseFrame::new_at(0x0705, vec![0; 13], 0);
    assert_eq!(SynapseMessage::from_frame(&f4).unwrap_err(), MessageError::PayloadTooShort { msg_id: 0x0705 });
}
