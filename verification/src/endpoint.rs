//! Endpoint addressing: an endpoint is a compact `(node, service)` pair
//! packed into 16 bits, the node in the high byte and the service in the
//! low byte.
use vstd::prelude::*;

pub mod nodes;
pub mod services;

verus! {

/// A node of the network (an aircraft, a ground station, a relay).
#[derive(Debug, Clone, Copy, PartialEq, Eq, Hash, Structural)]
pub struct NodeId(pub u8);

/// A service running on a node.
#[derive(Debug, Clone, Copy, PartialEq, Eq, Hash, Structural)]
pub struct ServiceId(pub u8);

/// A routed endpoint: node in the high byte, service in the low byte.
#[derive(Debug, Clone, Copy, PartialEq, Eq, Hash, Structural)]
pub struct EndpointId(pub u16);

/// The endpoint of `service` on `node`.
pub open spec fn endpoint_of(node: NodeId, service: ServiceId) -> EndpointId {
    EndpointId((node.0 * 256 + service.0) as u16)
}

/// The node part of an endpoint.
pub open spec fn node_of(e: EndpointId) -> NodeId {
    NodeId((e.0 / 256) as u8)
}

/// The service part of an endpoint.
pub open spec fn service_of(e: EndpointId) -> ServiceId {
    ServiceId((e.0 % 256) as u8)
}

impl EndpointId {
    pub fn new(node: NodeId, service: ServiceId) -> (e: Self)
        ensures
            e == endpoint_of(node, service),
    {
        let n = node.0;
        let s = service.0;
        let raw: u16 = ((n as u16) << 8) | (s as u16);
        assert(((n as u16) << 8) | (s as u16) == n * 256 + s) by (bit_vector);
        EndpointId(raw)
    }

    pub fn node(self) -> (n: NodeId)
        ensures
            n == node_of(self),
    {
        let raw = self.0;
        assert((raw >> 8) as u8 == raw / 256) by (bit_vector);
        NodeId((raw >> 8) as u8)
    }

    pub fn service(self) -> (s: ServiceId)
        ensures
            s == service_of(self),
    {
        let raw = self.0;
        assert((raw & 0xFF) as u8 == raw % 256) by (bit_vector);
        ServiceId((raw & 0xFF) as u8)
    }

    pub fn raw(self) -> (r: u16)
        ensures
            r == self.0,
    {
        self.0
    }
}

/// An endpoint built from a node and a service holds the node in its high
/// byte and the service in its low byte, yields that node and that service
/// back, and every endpoint is the one built from its two parts.
pub proof fn lemma_endpoint_parts(node: NodeId, service: ServiceId, e: EndpointId)
    ensures
        endpoint_of(node, service).0 / 256 == node.0,
        endpoint_of(node, service).0 % 256 == service.0,
        node_of(endpoint_of(node, service)) == node,
        service_of(endpoint_of(node, service)) == service,
        endpoint_of(node_of(e), service_of(e)) == e,
{
}

} // verus!
