//! Authentication: the read-only user database, credential comparison, and
//! the server-side authentication state machine. The machine is a pure step
//! function from a state and an event to the next state and the reply owed;
//! the surrounding runtime performs the stream reads, the timer, and the
//! sends.

use vstd::prelude::*;
use crate::errors::RumbleError;
use crate::net::Lease;
use crate::proto::{
    ClientHello, ServerHello, spec_parse_client_hello, REJECT_BAD_CREDENTIALS,
};

verus! {

/// One user as loaded from configuration.
#[derive(Debug)]
pub struct UserRecord {
    pub username: Vec<u8>,
    pub password: Vec<u8>,
    pub userid: u64,
}

/// The read-only set of users a tunnel authenticates against.
#[derive(Debug)]
pub struct UserDatabase {
    pub users: Vec<UserRecord>,
}

/// Why an authentication attempt ended in failure.
#[derive(Clone, Copy, Debug, PartialEq, Eq, Structural)]
pub enum AuthFailure {
    BadCredentials,
    Timeout,
}

/// The per-connection authentication state. It advances monotonically;
/// `Authenticated` and `Failed` are terminal.
#[derive(Clone, Copy, Debug, PartialEq, Eq, Structural)]
pub enum AuthState {
    Unauthenticated,
    Authenticating,
    Authenticated(u64),
    Failed(AuthFailure),
}

/// What the runtime observed on the authentication stream.
#[derive(Debug)]
pub enum AuthEvent {
    /// The dedicated bidirectional stream is open and the timer is set.
    StreamOpened,
    /// One length-delimited message arrived.
    MessageReceived(Vec<u8>),
    /// The timer of `auth_timeout + grace` expired first.
    TimerExpired,
}

/// What the runtime must do after a step.
#[derive(Clone, Copy, Debug, PartialEq, Eq, Structural)]
pub enum AuthAction {
    DoNothing,
    Reply(ServerHello),
}

/// Byte-string equality.
pub fn bytes_equal(a: &Vec<u8>, b: &Vec<u8>) -> (r: bool)
    ensures
        r == (a@ == b@),
{
    let n = a.len();
    if n != b.len() {
        return false;
    }
    let mut i: usize = 0;
    while i < n
        invariant
            i <= n,
            n == a@.len(),
            n == b@.len(),
            forall|k: int| 0 <= k < i ==> a@[k] == b@[k],
        decreases n - i,
    {
        if a[i] != b[i] {
            return false;
        }
        i = i + 1;
    }
    proof {
        assert(a@ =~= b@);
    }
    true
}

/// Byte-string equality that inspects every byte of equal-length inputs, so
/// that the comparison time does not depend on where they first differ.
pub fn constant_time_equal(a: &Vec<u8>, b: &Vec<u8>) -> (r: bool)
    ensures
        r == (a@ == b@),
{
    let n = a.len();
    if n != b.len() {
        return false;
    }
    let mut diff: u8 = 0;
    let mut i: usize = 0;
    proof {
        assert(a@.subrange(0, 0) =~= b@.subrange(0, 0));
    }
    while i < n
        invariant
            i <= n,
            n == a@.len(),
            n == b@.len(),
            (diff == 0) <==> a@.subrange(0, i as int) == b@.subrange(0, i as int),
        decreases n - i,
    {
        let x = a[i];
        let y = b[i];
        let ghost d0 = diff;
        diff = diff | (x ^ y);
        i = i + 1;
        proof {
            assert(((d0 | (x ^ y)) == 0) == (d0 == 0 && x == y)) by (bit_vector);
            assert(a@.subrange(0, i as int) =~= a@.subrange(0, i - 1).push(a@[i - 1]));
            assert(b@.subrange(0, i as int) =~= b@.subrange(0, i - 1).push(b@[i - 1]));
            if a@.subrange(0, i as int) == b@.subrange(0, i as int) {
                assert(a@.subrange(0, i - 1) =~= a@.subrange(0, i as int).subrange(0, i - 1));
                assert(b@.subrange(0, i - 1) =~= b@.subrange(0, i as int).subrange(0, i - 1));
                assert(a@[i - 1] == a@.subrange(0, i as int)[i - 1]);
            }
        }
    }
    proof {
        assert(a@.subrange(0, n as int) =~= a@);
        assert(b@.subrange(0, n as int) =~= b@);
    }
    diff == 0
}

/// The userid of the first record matching both the username and the
/// password, searched from position `i`.
pub open spec fn spec_lookup(users: Seq<UserRecord>, u: Seq<u8>, p: Seq<u8>, i: int) -> Option<
    u64,
>
    decreases users.len() - i,
{
    if i < 0 || i >= users.len() {
        None
    } else if users[i].username@ == u && users[i].password@ == p {
        Some(users[i].userid)
    } else {
        spec_lookup(users, u, p, i + 1)
    }
}

impl UserDatabase {
    /// Looks the credentials up; passwords are compared in constant time.
    pub fn lookup(&self, username: &Vec<u8>, password: &Vec<u8>) -> (r: Option<u64>)
        ensures
            r == spec_lookup(self.users@, username@, password@, 0),
    {
        let n = self.users.len();
        let mut i: usize = 0;
        while i < n
            invariant
                i <= n,
                n == self.users@.len(),
                spec_lookup(self.users@, username@, password@, 0) == spec_lookup(
                    self.users@,
                    username@,
                    password@,
                    i as int,
                ),
            decreases n - i,
        {
            let name_match = bytes_equal(&self.users[i].username, username);
            let pass_match = constant_time_equal(&self.users[i].password, password);
            if name_match && pass_match {
                return Some(self.users[i].userid);
            }
            i = i + 1;
        }
        None
    }
}

/// The state and reply that one decoded credential pair leads to.
pub open spec fn spec_auth_outcome(
    u: Seq<u8>,
    p: Seq<u8>,
    db: &UserDatabase,
    client_address: Lease,
) -> (AuthState, AuthAction) {
    match spec_lookup(db.users@, u, p, 0) {
        Some(uid) => (
            AuthState::Authenticated(uid),
            AuthAction::Reply(ServerHello::Accepted { address: client_address }),
        ),
        None => (
            AuthState::Failed(AuthFailure::BadCredentials),
            AuthAction::Reply(ServerHello::Rejected { code: REJECT_BAD_CREDENTIALS }),
        ),
    }
}

/// The whole server-side machine as one spec function: what one event does
/// to one state, and the reply owed for it.
pub open spec fn spec_server_auth_step(
    state: AuthState,
    event: AuthEvent,
    db: &UserDatabase,
    client_address: Lease,
) -> (AuthState, AuthAction) {
    match state {
        AuthState::Authenticated(_) => (state, AuthAction::DoNothing),
        AuthState::Failed(_) => (state, AuthAction::DoNothing),
        _ => match event {
            AuthEvent::StreamOpened => (AuthState::Authenticating, AuthAction::DoNothing),
            AuthEvent::TimerExpired => (
                AuthState::Failed(AuthFailure::Timeout),
                AuthAction::DoNothing,
            ),
            AuthEvent::MessageReceived(m) => match spec_parse_client_hello(m@) {
                Some(cred) => spec_auth_outcome(cred.0, cred.1, db, client_address),
                None => (
                    AuthState::Failed(AuthFailure::BadCredentials),
                    AuthAction::Reply(ServerHello::Rejected { code: REJECT_BAD_CREDENTIALS }),
                ),
            },
        },
    }
}

/// One step of the server-side authentication machine. Terminal states
/// absorb every event; in particular a connection that has reached
/// `Authenticated` stays there forever. A timer expiry without a message
/// warrants no reply; bad or unreadable credentials are answered with a
/// rejection.
pub fn server_auth_step(
    state: AuthState,
    event: AuthEvent,
    db: &UserDatabase,
    client_address: Lease,
) -> (r: (AuthState, AuthAction))
    ensures
        r == spec_server_auth_step(state, event, db, client_address),
        state matches AuthState::Authenticated(_) ==> r == (state, AuthAction::DoNothing),
        state matches AuthState::Failed(_) ==> r == (state, AuthAction::DoNothing),
{
    match state {
        AuthState::Authenticated(_) => (state, AuthAction::DoNothing),
        AuthState::Failed(_) => (state, AuthAction::DoNothing),
        _ => match event {
            AuthEvent::StreamOpened => (AuthState::Authenticating, AuthAction::DoNothing),
            AuthEvent::TimerExpired => (
                AuthState::Failed(AuthFailure::Timeout),
                AuthAction::DoNothing,
            ),
            AuthEvent::MessageReceived(m) => match ClientHello::decode(&m) {
                Some(hello) => match db.lookup(&hello.username, &hello.password) {
                    Some(uid) => (
                        AuthState::Authenticated(uid),
                        AuthAction::Reply(ServerHello::Accepted { address: client_address }),
                    ),
                    None => (
                        AuthState::Failed(AuthFailure::BadCredentials),
                        AuthAction::Reply(
                            ServerHello::Rejected { code: REJECT_BAD_CREDENTIALS },
                        ),
                    ),
                },
                None => (
                    AuthState::Failed(AuthFailure::BadCredentials),
                    AuthAction::Reply(ServerHello::Rejected { code: REJECT_BAD_CREDENTIALS }),
                ),
            },
        },
    }
}

} // verus!
