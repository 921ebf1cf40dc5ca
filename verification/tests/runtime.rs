use synapse::endpoint::{nodes, services, EndpointId, NodeId};
use synapse::frame::{SynapseFrame, FLAG_ACK_REQ, FLAG_IS_ACK, FLAG_PAYLOAD_CRC};
use synapse::protocol::messages::{
    AckDecision, AckReason, AckReceipt, LinkStatus, RougeMessage, SynapseMessage, TargetCue,
};
use synapse::runtime::{
    DecodeFailure, PendingMessageKey, RuntimeConfig, RuntimeEvent, SendOptions, SynapseSession,
};
use synapse::wire::F32Bits;

fn f(x: f32) -> F32Bits {
    F32Bits(x.to_bits())
}

#[test]
fn test_send_message_assigns_sequence_and_tracks_pending() {
    let local = EndpointId::new(nodes::fixed_wing(), services::mission());
    let remote = EndpointId::new(nodes::fpv(), services::mission());
    let mut session = SynapseSession::new(RuntimeConfig::new(Some(local)));

    let msg = SynapseMessage::Rouge(RougeMessage::TargetCue(TargetCue::new(
        NodeId(1),
        7,
        f(10.0),
        f(20.0),
        f(30.0),
        90,
        2,
        42,
    )));

    let frame = session.send_message(
        msg,
        SendOptions { src: None, dst: Some(remote), ack_requested: true, extra_flags: 0 },
    );

    assert_eq!(frame.sequence, 1);
    assert_eq!(frame.src_endpoint, Some(local.raw()));
    assert_eq!(frame.dst_endpoint, Some(remote.raw()));
    assert_ne!(frame.flags & FLAG_ACK_REQ, 0);

    let key = PendingMessageKey::from_frame(&frame);
    let pending = session.pending_tx(key).unwrap();
    assert_eq!(pending.frame.sequence, 1);
    assert!(pending.receipt.is_none());
    assert!(pending.decision.is_none());
}

#[test]
fn test_ingest_bytes_reassembles_stream_and_auto_generates_receipt_ack() {
    let local = EndpointId::new(nodes::gcs(), services::mission());
    let remote = EndpointId::new(nodes::fpv(), services::mission());
    let mut session = SynapseSession::new(RuntimeConfig::new(Some(local)));

    let inbound = SynapseMessage::Rouge(RougeMessage::LinkStatus(LinkStatus::new(NodeId(2), -70, 90, 6, 1_000)))
        .to_frame()
        .with_sequence(55)
        .with_endpoint_ids(remote, local)
        .with_flags(FLAG_PAYLOAD_CRC | FLAG_ACK_REQ);

    let encoded = inbound.encode_with_cobs();
    let split = 5;

    let mut first_events = session.ingest_bytes(&encoded[..split]);
    assert!(first_events.is_empty());

    let second_events = session.ingest_bytes(&encoded[split..]);
    first_events.extend(second_events);

    assert_eq!(first_events.len(), 1);
    match &first_events[0] {
        RuntimeEvent::Message(event) => {
            assert_eq!(event.frame.sequence, 55);
            assert_eq!(event.frame.src_endpoint, Some(remote.raw()));
            assert_eq!(event.auto_responses.len(), 1);

            let ack_frame = &event.auto_responses[0];
            assert_eq!(ack_frame.src_endpoint, Some(local.raw()));
            assert_eq!(ack_frame.dst_endpoint, Some(remote.raw()));
            assert_ne!(ack_frame.flags & FLAG_IS_ACK, 0);

            let ack_msg = SynapseMessage::from_frame(ack_frame).unwrap();
            match ack_msg {
                SynapseMessage::Rouge(RougeMessage::AckReceived(ack)) => {
                    assert_eq!(ack.original_msg_id, inbound.msg_id);
                    assert_eq!(ack.original_seq, inbound.sequence);
                    assert_eq!(ack.from_node, nodes::gcs());
                }
                _ => panic!("Expected AckReceived auto response"),
            }
        }
        _ => panic!("Expected message event"),
    }

    let peer = session.peer_state();
    assert_eq!(peer.endpoint, Some(remote));
    assert_eq!(peer.frames_received, 1);
    assert_eq!(peer.decode_errors, 0);
}

#[test]
fn test_ingest_ack_updates_pending_state() {
    let local = EndpointId::new(nodes::fixed_wing(), services::mission());
    let remote = EndpointId::new(nodes::gcs(), services::mission());
    let mut session = SynapseSession::new(RuntimeConfig::new(Some(local)));

    let outbound = session.send_message(
        SynapseMessage::Rouge(RougeMessage::TargetCue(TargetCue::new(
            nodes::fixed_wing(),
            99,
            f(5.0),
            f(6.0),
            f(7.0),
            88,
            1,
            500,
        ))),
        SendOptions { src: None, dst: Some(remote), ack_requested: true, extra_flags: 0 },
    );

    let receipt_inbound = SynapseMessage::Rouge(RougeMessage::AckReceived(AckReceipt::for_frame(
        &outbound,
        remote.node(),
    )))
    .to_frame()
    .with_sequence(76)
    .with_endpoint_ids(remote, local)
    .with_flags(FLAG_PAYLOAD_CRC | FLAG_IS_ACK);

    let receipt_events = session.ingest_bytes(&receipt_inbound.encode_with_cobs());
    assert!(matches!(receipt_events[0], RuntimeEvent::AckReceived(_)));

    let key = PendingMessageKey::from_frame(&outbound);
    let pending_after_receipt = session.pending_tx(key).unwrap();
    assert!(pending_after_receipt.receipt.is_some());
    assert!(pending_after_receipt.decision.is_none());

    let accept = SynapseMessage::Rouge(RougeMessage::AckAccepted(AckDecision::accept_for_frame(
        &outbound,
        remote.node(),
    )))
    .to_frame()
    .with_sequence(77)
    .with_endpoint_ids(remote, local)
    .with_flags(FLAG_PAYLOAD_CRC | FLAG_IS_ACK);

    let accept_events = session.ingest_bytes(&accept.encode_with_cobs());
    assert!(matches!(accept_events[0], RuntimeEvent::AckAccepted(_)));

    let pending_after_accept = session.pending_tx(key).unwrap();
    assert!(pending_after_accept.receipt.is_some());
    assert_eq!(pending_after_accept.decision.as_ref().unwrap().reason, AckReason::Accepted);
}

#[test]
fn test_invalid_frame_surfaces_decode_error() {
    let mut session = SynapseSession::new(RuntimeConfig::default());
    let events = session.ingest_bytes(&[0x02, 0x01, 0x00]);

    assert_eq!(events.len(), 1);
    assert!(matches!(events[0], RuntimeEvent::DecodeError(_)));
    assert_eq!(session.peer_state().decode_errors, 1);
}

#[test]
fn lone_delimiters_are_skipped_and_sequences_advance() {
    let mut session = SynapseSession::new(RuntimeConfig::default());
    assert!(session.ingest_bytes(&[0x00, 0x00]).is_empty());
    assert_eq!(session.peer_state().frames_received, 0);

    let a = session.send_message_at(
        SynapseMessage::Rouge(RougeMessage::AckReceived(AckReceipt { original_msg_id: 1, original_seq: 2, from_node: NodeId(3) })),
        SendOptions::default(),
        10,
    );
    let b = session.send_message_at(
        SynapseMessage::Rouge(RougeMessage::AckReceived(AckReceipt { original_msg_id: 1, original_seq: 2, from_node: NodeId(3) })),
        SendOptions::default(),
        10,
    );
    assert_eq!((a.sequence, b.sequence), (1, 2));
    assert_eq!(a.src_endpoint, None);
    assert!(session.pending().is_empty());
}

#[test]
fn ack_builders_need_local_endpoint_and_source() {
    let local = EndpointId::new(nodes::gcs(), services::mission());
    let remote = EndpointId::new(nodes::fpv(), services::companion());
    let inbound = SynapseFrame::new_at(0x0801, vec![], 0).with_sequence(9).with_endpoint_ids(remote, local);

    let mut anonymous = SynapseSession::new(RuntimeConfig::default());
    assert!(anonymous.build_receipt_ack(&inbound).is_none());

    let mut session = SynapseSession::new(RuntimeConfig::new(Some(local)));
    let unrouted = SynapseFrame::new_at(0x0801, vec![], 0);
    assert!(session.build_accept_ack(&unrouted).is_none());

    let reject = session.build_reject_ack_at(&inbound, AckReason::Unauthorized, 99).unwrap();
    assert_eq!(reject.dst_endpoint, Some(remote.raw()));
    assert_eq!(reject.timestamp_ms, 99);
    assert_ne!(reject.flags & FLAG_IS_ACK, 0);
    match SynapseMessage::from_frame(&reject).unwrap() {
        SynapseMessage::Rouge(RougeMessage::AckRejected(d)) => {
            assert_eq!(d.original_seq, 9);
            assert_eq!(d.from_node, nodes::gcs());
            assert_eq!(d.reason, AckReason::Unauthorized);
        }
        _ => panic!("Expected AckRejected"),
    }
    let accept = session.build_accept_ack_at(&inbound, 5).unwrap();
    assert_eq!(accept.sequence, 2);
}

#[test]
fn clear_pending_removes_entry() {
    let local = EndpointId::new(nodes::gcs(), services::mission());
    let remote = EndpointId::new(nodes::fpv(), services::mission());
    let mut session = SynapseSession::new(RuntimeConfig::new(Some(local)));
    let frame = session.send_message_at(
        SynapseMessage::Rouge(RougeMessage::AckReceived(AckReceipt { original_msg_id: 1, original_seq: 2, from_node: NodeId(3) })),
        SendOptions { src: None, dst: Some(remote), ack_requested: true, extra_flags: 0 },
        1,
    );
    let key = PendingMessageKey::new(frame.msg_id, frame.sequence);
    assert_eq!(session.pending().len(), 1);
    assert!(session.clear_pending(key).is_some());
    assert!(session.clear_pending(key).is_none());
    assert!(session.pending_tx(key).is_none());
}

#[test]
fn split_stream_matches_whole_stream() {
    let local = EndpointId::new(nodes::gcs(), services::mission());
    let remote = EndpointId::new(nodes::fpv(), services::mission());
    let frame = SynapseMessage::Rouge(RougeMessage::LinkStatus(LinkStatus::new(NodeId(2), -1, 2, 3, 4)))
        .to_frame_at(8)
        .with_endpoint_ids(remote, local);
    let mut bytes = frame.encode_with_cobs();
    bytes.extend(vec![0x02, 0x01, 0x00]);
    bytes.extend(frame.encode_with_cobs());

    let mut whole = SynapseSession::new(RuntimeConfig::new(Some(local)));
    let all = whole.ingest_bytes_at(&bytes, 1);
    let mut parts = SynapseSession::new(RuntimeConfig::new(Some(local)));
    let mut pieces = Vec::new();
    for chunk in bytes.chunks(3) {
        pieces.extend(parts.ingest_bytes_at(chunk, 1));
    }
    assert_eq!(all.len(), 3);
    assert_eq!(pieces.len(), 3);
    assert!(matches!(all[1], RuntimeEvent::DecodeError(DecodeFailure::Frame { .. })));
    assert_eq!(whole.peer_state(), parts.peer_state());
    assert_eq!(whole.peer_state().frames_received, 2);
    assert_eq!(whole.peer_state().decode_errors, 1);
}
