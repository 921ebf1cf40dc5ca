//! Well-known nodes.
use super::NodeId;
use vstd::prelude::*;

verus! {

/// The fixed-wing aircraft (node 1).
pub fn fixed_wing() -> (n: NodeId)
    ensures
        n == NodeId(1),
{
    NodeId(1)
}

/// The FPV aircraft (node 2).
pub fn fpv() -> (n: NodeId)
    ensures
        n == NodeId(2),
{
    NodeId(2)
}

/// The ground control station (node 3).
pub fn gcs() -> (n: NodeId)
    ensures
        n == NodeId(3),
{
    NodeId(3)
}

} // verus!
