use rumble::auth::{
    bytes_equal, constant_time_equal, server_auth_step, AuthAction, AuthEvent, AuthFailure,
    AuthState, UserDatabase, UserRecord,
};
use rumble::net::Lease;
use rumble::proto::{ClientHello, ServerHello, REJECT_BAD_CREDENTIALS};

fn database() -> UserDatabase {
    UserDatabase {
        users: vec![
            UserRecord { username: b"alice".to_vec(), password: b"hunter2".to_vec(), userid: 7 },
            UserRecord { username: b"bob".to_vec(), password: b"swordfish".to_vec(), userid: 9 },
        ],
    }
}

fn client_address() -> Lease {
    Lease { addr: 0x0a080002, prefix_len: 29, v4: true }
}

fn hello_bytes(user: &[u8], pass: &[u8]) -> Vec<u8> {
    ClientHello { username: user.to_vec(), password: pass.to_vec() }.encode().unwrap()
}

#[test]
fn byte_comparisons_agree() {
    assert!(bytes_equal(&b"abc".to_vec(), &b"abc".to_vec()));
    assert!(!bytes_equal(&b"abc".to_vec(), &b"abd".to_vec()));
    assert!(!bytes_equal(&b"abc".to_vec(), &b"ab".to_vec()));
    assert!(constant_time_equal(&b"hunter2".to_vec(), &b"hunter2".to_vec()));
    assert!(!constant_time_equal(&b"hunter2".to_vec(), &b"hunter3".to_vec()));
    assert!(!constant_time_equal(&b"hunter2".to_vec(), &b"".to_vec()));
}

#[test]
fn lookup_matches_username_and_password_together() {
    let db = database();
    assert_eq!(db.lookup(&b"alice".to_vec(), &b"hunter2".to_vec()), Some(7));
    assert_eq!(db.lookup(&b"bob".to_vec(), &b"swordfish".to_vec()), Some(9));
    assert_eq!(db.lookup(&b"alice".to_vec(), &b"swordfish".to_vec()), None);
    assert_eq!(db.lookup(&b"mallory".to_vec(), &b"hunter2".to_vec()), None);
}

#[test]
fn stream_open_moves_to_authenticating() {
    let (state, action) = server_auth_step(
        AuthState::Unauthenticated,
        AuthEvent::StreamOpened,
        &database(),
        client_address(),
    );
    assert_eq!(state, AuthState::Authenticating);
    assert_eq!(action, AuthAction::DoNothing);
}

#[test]
fn good_credentials_are_accepted_with_the_lease() {
    let (state, action) = server_auth_step(
        AuthState::Authenticating,
        AuthEvent::MessageReceived(hello_bytes(b"alice", b"hunter2")),
        &database(),
        client_address(),
    );
    assert_eq!(state, AuthState::Authenticated(7));
    assert_eq!(
        action,
        AuthAction::Reply(ServerHello::Accepted { address: client_address() })
    );
}

#[test]
fn wrong_password_is_rejected() {
    let (state, action) = server_auth_step(
        AuthState::Authenticating,
        AuthEvent::MessageReceived(hello_bytes(b"alice", b"wrong")),
        &database(),
        client_address(),
    );
    assert_eq!(state, AuthState::Failed(AuthFailure::BadCredentials));
    assert_eq!(
        action,
        AuthAction::Reply(ServerHello::Rejected { code: REJECT_BAD_CREDENTIALS })
    );
}

#[test]
fn unreadable_hello_is_rejected() {
    let (state, action) = server_auth_step(
        AuthState::Authenticating,
        AuthEvent::MessageReceived(vec![0xff, 0xff]),
        &database(),
        client_address(),
    );
    assert_eq!(state, AuthState::Failed(AuthFailure::BadCredentials));
    assert_eq!(
        action,
        AuthAction::Reply(ServerHello::Rejected { code: REJECT_BAD_CREDENTIALS })
    );
}

#[test]
fn timer_expiry_fails_without_a_reply() {
    let (state, action) = server_auth_step(
        AuthState::Authenticating,
        AuthEvent::TimerExpired,
        &database(),
        client_address(),
    );
    assert_eq!(state, AuthState::Failed(AuthFailure::Timeout));
    assert_eq!(action, AuthAction::DoNothing);
}

#[test]
fn authenticated_state_is_terminal() {
    let db = database();
    let events = || {
        vec![
            AuthEvent::StreamOpened,
            AuthEvent::TimerExpired,
            AuthEvent::MessageReceived(hello_bytes(b"alice", b"wrong")),
            AuthEvent::MessageReceived(vec![]),
        ]
    };
    for event in events() {
        let (state, action) = server_auth_step(
            AuthState::Authenticated(7),
            event,
            &db,
            client_address(),
        );
        assert_eq!(state, AuthState::Authenticated(7));
        assert_eq!(action, AuthAction::DoNothing);
    }
    for event in events() {
        let (state, action) = server_auth_step(
            AuthState::Failed(AuthFailure::Timeout),
            event,
            &db,
            client_address(),
        );
        assert_eq!(state, AuthState::Failed(AuthFailure::Timeout));
        assert_eq!(action, AuthAction::DoNothing);
    }
}
