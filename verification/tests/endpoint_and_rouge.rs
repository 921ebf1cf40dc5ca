use synapse::endpoint::{nodes, services, EndpointId, NodeId, ServiceId};
use synapse::rouge_protocol::{NodeHeartbeat, NodeRole, MSG_LINK_STATUS, MSG_NODE_HEARTBEAT};

#[test]
fn endpoint_packing() {
    let e = EndpointId::new(NodeId(0x12), ServiceId(0x34));
    assert_eq!(e.raw(), 0x1234);
    assert_eq!(e.node(), NodeId(0x12));
    assert_eq!(e.service(), ServiceId(0x34));
    let gcs_mission = EndpointId::new(nodes::gcs(), services::mission());
    assert_eq!(gcs_mission.raw(), 0x0303);
    assert_eq!(EndpointId(0xFFFF).node(), NodeId(0xFF));
    assert_eq!(nodes::fixed_wing(), NodeId(1));
    assert_eq!(services::fc_bridge(), ServiceId(2));
}

#[test]
fn rouge_heartbeat_roundtrip() {
    assert_eq!(MSG_NODE_HEARTBEAT, 0x0801);
    assert_eq!(MSG_LINK_STATUS, 0x0802);
    let hb = NodeHeartbeat::new(NodeId(3), NodeRole::Relay, 7, 8, 0x0102);
    let bytes = hb.to_payload_bytes();
    assert_eq!(bytes, [3, 4, 7, 0, 0, 0, 8, 2, 1]);
    let back = NodeHeartbeat::from_payload_bytes(&bytes).unwrap();
    assert_eq!(back.node, NodeId(3));
    assert_eq!(back.role, NodeRole::Relay);
    assert_eq!(back.capabilities, 0x0102);
    assert!(NodeHeartbeat::from_payload_bytes(&bytes[..8]).is_none());
    assert_eq!(NodeRole::from_u8(9), None);
}
