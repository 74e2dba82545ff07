//! Protocol- and runtime-wide constants.

use vstd::prelude::*;

verus! {

/// Grace interval, in seconds, added to the configured authentication
/// timeout before a connection is timed out.
pub const AUTH_TIMEOUT_GRACE: u64 = 5;

/// Interval, in seconds, of the cleanup sweeper and of the supervisor.
pub const CLEANUP_INTERVAL_SECS: u64 = 1;

/// MTU overhead QUIC adds around a tunnelled IP packet.
pub const QUIC_MTU_OVERHEAD: u16 = 42;

/// The full authentication deadline: the configured timeout plus the grace
/// interval.
pub fn auth_deadline_secs(timeout: u64) -> (r: u64)
    requires
        timeout <= u64::MAX - AUTH_TIMEOUT_GRACE,
    ensures
        r == timeout + AUTH_TIMEOUT_GRACE,
{
    timeout + AUTH_TIMEOUT_GRACE
}

} // verus!
