//! The per-connection model: the authentication state, the pre-allocated
//! client lease, and the liveness of the connection's background task. The
//! runtime spawns and joins the real task and reports what it observed; the
//! decisions — may a datagram go out, may inbound data be relayed, what does
//! an authentication event do — are made and proved here.

use vstd::prelude::*;
use crate::auth::{AuthEvent, AuthState, AuthAction, UserDatabase, spec_server_auth_step, server_auth_step};
use crate::errors::RumbleError;
use crate::net::Lease;

verus! {

/// One accepted connection, as the tunnel sees it.
#[derive(Clone, Copy, Debug, PartialEq, Eq, Structural)]
pub struct RumbleConnection {
    /// Where the authentication machine stands.
    pub auth: AuthState,
    /// The lease allocated at accept time, offered to the peer on success.
    pub client_address: Lease,
    /// How many background tasks were spawned for this connection.
    pub tasks_spawned: usize,
    /// How many of them the runtime has seen finish.
    pub tasks_finished: usize,
}

/// What may a datagram send come to: refused without authentication,
/// impossible without peer datagram support, dropped when it cannot fit the
/// peer's maximum datagram size, sent otherwise.
pub open spec fn spec_send_outcome(auth: AuthState, len: int, max: Option<usize>) -> Result<
    (),
    RumbleError,
> {
    if !(auth matches AuthState::Authenticated(_)) {
        Err(RumbleError::NotAuthenticated)
    } else {
        match max {
            None => Err(RumbleError::QuicError),
            Some(m) => if len > m {
                Err(RumbleError::OversizedDatagram)
            } else {
                Ok(())
            },
        }
    }
}

impl RumbleConnection {
    /// At least one task exists and none has finished.
    pub open spec fn is_ok_spec(self) -> bool {
        self.tasks_spawned > 0 && self.tasks_finished == 0
    }

    /// A fresh, unauthenticated connection around a pre-allocated lease.
    pub fn new(client_address: Lease) -> (r: RumbleConnection)
        ensures
            r == (RumbleConnection {
                auth: AuthState::Unauthenticated,
                client_address,
                tasks_spawned: 0,
                tasks_finished: 0,
            }),
    {
        RumbleConnection { auth: AuthState::Unauthenticated, client_address, tasks_spawned: 0, tasks_finished: 0 }
    }

    /// Records the spawn of the connection's ingest task; starting a
    /// connection that is already running is refused.
    pub fn start(&mut self) -> (r: Result<(), RumbleError>)
        requires
            old(self).tasks_spawned < usize::MAX,
        ensures
            old(self).is_ok_spec() ==> r == Err::<(), RumbleError>(RumbleError::AlreadyRunning)
                && *final(self) == *old(self),
            !old(self).is_ok_spec() ==> r == Ok::<(), RumbleError>(()) && *final(self) == (
            RumbleConnection {
                tasks_spawned: (old(self).tasks_spawned + 1) as usize,
                ..*old(self)
            }),
    {
        if self.is_ok() {
            return Err(RumbleError::AlreadyRunning);
        }
        self.tasks_spawned = self.tasks_spawned + 1;
        Ok(())
    }

    /// Records that every task was joined or aborted; afterwards the
    /// connection is not running.
    pub fn stop(&mut self)
        ensures
            *final(self) == (RumbleConnection { tasks_spawned: 0, tasks_finished: 0, ..*old(self) }),
            !final(self).is_ok_spec(),
    {
        self.tasks_spawned = 0;
        self.tasks_finished = 0;
    }

    /// Records that the runtime saw one task finish; the connection is no
    /// longer ok after that.
    pub fn note_task_finished(&mut self)
        requires
            old(self).tasks_finished < old(self).tasks_spawned,
        ensures
            *final(self) == (RumbleConnection {
                tasks_finished: (old(self).tasks_finished + 1) as usize,
                ..*old(self)
            }),
            !final(self).is_ok_spec(),
    {
        self.tasks_finished = self.tasks_finished + 1;
    }

    /// True iff at least one task exists and none has finished.
    pub fn is_ok(&self) -> (r: bool)
        ensures
            r == self.is_ok_spec(),
    {
        self.tasks_spawned > 0 && self.tasks_finished == 0
    }

    /// Applies one authentication event and hands back the reply owed. Once
    /// authenticated, a connection stays authenticated as the same user.
    pub fn handle_auth_event(&mut self, event: AuthEvent, db: &UserDatabase) -> (r: AuthAction)
        ensures
            ({
                let step = spec_server_auth_step(old(self).auth, event, db, old(self).client_address);
                &&& final(self).auth == step.0
                &&& r == step.1
            }),
            *final(self) == (RumbleConnection { auth: final(self).auth, ..*old(self) }),
            old(self).auth matches AuthState::Authenticated(_) ==> final(self).auth == old(
                self,
            ).auth,
    {
        let step = server_auth_step(self.auth, event, db, self.client_address);
        self.auth = step.0;
        step.1
    }

    /// Gate on an outbound datagram: only an authenticated peer with room
    /// for the whole payload receives it; an oversized payload is dropped
    /// with a warning, never sent or fragmented.
    pub fn send_datagram(&self, data: &Vec<u8>, max_datagram_size: Option<usize>) -> (r: Result<
        (),
        RumbleError,
    >)
        ensures
            r == spec_send_outcome(self.auth, data@.len() as int, max_datagram_size),
            !(self.auth matches AuthState::Authenticated(_)) ==> r == Err::<(), RumbleError>(
                RumbleError::NotAuthenticated,
            ),
    {
        match self.auth {
            AuthState::Authenticated(_) => (),
            _ => {
                return Err(RumbleError::NotAuthenticated);
            },
        }
        match max_datagram_size {
            None => Err(RumbleError::QuicError),
            Some(m) => {
                if data.len() > m {
                    Err(RumbleError::OversizedDatagram)
                } else {
                    Ok(())
                }
            },
        }
    }

    /// Gate on the inbound path: data from the peer may reach the tunnel's
    /// queue only while the connection is authenticated.
    pub fn may_process_incoming(&self) -> (r: Result<(), RumbleError>)
        ensures
            r == Ok::<(), RumbleError>(()) <==> self.auth matches AuthState::Authenticated(_),
            !(self.auth matches AuthState::Authenticated(_)) ==> r == Err::<(), RumbleError>(
                RumbleError::NotAuthenticated,
            ),
    {
        match self.auth {
            AuthState::Authenticated(_) => Ok(()),
            _ => Err(RumbleError::NotAuthenticated),
        }
    }
}

} // verus!
