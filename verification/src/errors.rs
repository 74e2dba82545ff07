//! Error kinds shared by the whole library.

use vstd::prelude::*;

verus! {

/// Every failure the core can report. `OversizedDatagram` is a drop-with-a-
/// warning condition rather than a hard fault, but it travels on the same
/// type so that datagram paths have a single result shape.
#[derive(Clone, Copy, Debug, PartialEq, Eq, Structural)]
pub enum RumbleError {
    ConfigError,
    TlsError,
    SocketBindError,
    TunDeviceError,
    QuicError,
    AuthTimeout,
    AuthRejected,
    PoolExhausted,
    AlreadyRunning,
    NotAuthenticated,
    PeerDisconnected,
    QueueClosed,
    OversizedDatagram,
    InternalInvariantViolation,
}

impl RumbleError {
    /// True for the one condition that is recovered locally by dropping the
    /// packet; every other kind ends the operation that produced it.
    pub fn is_drop_warning(&self) -> (r: bool)
        ensures
            r == (*self == RumbleError::OversizedDatagram),
    {
        match self {
            RumbleError::OversizedDatagram => true,
            _ => false,
        }
    }
}

} // verus!
