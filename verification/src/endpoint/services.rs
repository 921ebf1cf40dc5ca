//! Well-known services.
use super::ServiceId;
use vstd::prelude::*;

verus! {

/// The companion computer service (service 1).
pub fn companion() -> (s: ServiceId)
    ensures
        s == ServiceId(1),
{
    ServiceId(1)
}

/// The flight-controller bridge (service 2).
pub fn fc_bridge() -> (s: ServiceId)
    ensures
        s == ServiceId(2),
{
    ServiceId(2)
}

/// The mission service (service 3).
pub fn mission() -> (s: ServiceId)
    ensures
        s == ServiceId(3),
{
    ServiceId(3)
}

/// The link monitor (service 4).
pub fn link_monitor() -> (s: ServiceId)
    ensures
        s == ServiceId(4),
{
    ServiceId(4)
}

} // verus!
