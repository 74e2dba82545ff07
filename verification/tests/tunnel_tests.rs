use rumble::auth::{AuthAction, AuthEvent, AuthState, UserDatabase, UserRecord};
use rumble::connection::RumbleConnection;
use rumble::errors::RumbleError;
use rumble::net::{IpNetwork, Lease};
use rumble::proto::{ClientHello, ServerHello};
use rumble::tunnel::RumbleTunnel;

fn v4_addr(a: u128, b: u128, c: u128, d: u128) -> u128 {
    (a << 24) | (b << 16) | (c << 8) | d
}

fn small_net() -> IpNetwork {
    IpNetwork { base: v4_addr(10, 8, 0, 0), prefix_len: 29, v4: true }
}

fn database() -> UserDatabase {
    UserDatabase {
        users: vec![UserRecord {
            username: b"alice".to_vec(),
            password: b"hunter2".to_vec(),
            userid: 7,
        }],
    }
}

fn hello_bytes(user: &[u8], pass: &[u8]) -> Vec<u8> {
    ClientHello { username: user.to_vec(), password: pass.to_vec() }.encode().unwrap()
}

/// A minimal IPv4 frame whose destination address sits at bytes 16..20.
fn ipv4_frame(dest: u128, len: usize) -> Vec<u8> {
    let mut frame = vec![0u8; len.max(20)];
    frame[0] = 0x45;
    frame[16] = (dest >> 24) as u8;
    frame[17] = (dest >> 16) as u8;
    frame[18] = (dest >> 8) as u8;
    frame[19] = dest as u8;
    frame
}

#[test]
fn tunnel_lifecycle_start_stop_is_ok() {
    let mut t = RumbleTunnel::new(b"office".to_vec(), small_net(), 1400).unwrap();
    assert!(!t.is_ok());
    t.start().unwrap();
    assert!(t.is_ok());
    assert_eq!(t.start().unwrap_err(), RumbleError::AlreadyRunning);
    t.stop();
    assert!(!t.is_ok());
    t.start().unwrap();
    assert!(t.is_ok());
}

#[test]
fn accept_registers_the_lowest_free_address() {
    let mut t = RumbleTunnel::new(b"office".to_vec(), small_net(), 1400).unwrap();
    let a = t.accept_connection().unwrap();
    assert_eq!(a, v4_addr(10, 8, 0, 2));
    let b = t.accept_connection().unwrap();
    assert_eq!(b, v4_addr(10, 8, 0, 3));
    assert!(t.pool.contains(a));
    assert!(t.find_index(a).is_some());
}

#[test]
fn accept_fails_when_the_pool_is_exhausted() {
    // 10.9.0.0/30 has exactly one allocatable host
    let net = IpNetwork { base: v4_addr(10, 9, 0, 0), prefix_len: 30, v4: true };
    let mut t = RumbleTunnel::new(b"tiny".to_vec(), net, 1400).unwrap();
    t.accept_connection().unwrap();
    assert_eq!(t.accept_connection().unwrap_err(), RumbleError::PoolExhausted);
}

#[test]
fn authentication_success_replies_with_the_lease() {
    let mut t = RumbleTunnel::new(b"office".to_vec(), small_net(), 1400).unwrap();
    let addr = t.accept_connection().unwrap();
    let i = t.find_index(addr).unwrap();
    let action = t.conn_handle_auth_event(i, AuthEvent::StreamOpened, &database());
    assert_eq!(action, AuthAction::DoNothing);
    let action = t.conn_handle_auth_event(
        i,
        AuthEvent::MessageReceived(hello_bytes(b"alice", b"hunter2")),
        &database(),
    );
    let expected = Lease { addr, prefix_len: 29, v4: true };
    assert_eq!(action, AuthAction::Reply(ServerHello::Accepted { address: expected }));
    assert_eq!(t.entry_at(i).conn.auth, AuthState::Authenticated(7));
}

#[test]
fn rejected_connection_is_swept_and_its_lease_returns() {
    let mut t = RumbleTunnel::new(b"office".to_vec(), small_net(), 1400).unwrap();
    let addr = t.accept_connection().unwrap();
    let i = t.find_index(addr).unwrap();
    let action = t.conn_handle_auth_event(
        i,
        AuthEvent::MessageReceived(hello_bytes(b"alice", b"wrong")),
        &database(),
    );
    assert!(matches!(action, AuthAction::Reply(ServerHello::Rejected { .. })));
    let removed = t.cleanup_sweep();
    assert_eq!(removed, vec![addr]);
    assert!(t.find_index(addr).is_none());
    assert!(!t.pool.contains(addr));
    // the freed address may be allocated again
    assert_eq!(t.accept_connection().unwrap(), addr);
}

#[test]
fn timed_out_connection_is_swept() {
    let mut t = RumbleTunnel::new(b"office".to_vec(), small_net(), 1400).unwrap();
    let addr = t.accept_connection().unwrap();
    let i = t.find_index(addr).unwrap();
    t.conn_handle_auth_event(i, AuthEvent::TimerExpired, &database());
    let removed = t.cleanup_sweep();
    assert_eq!(removed, vec![addr]);
    assert!(!t.pool.contains(addr));
}

#[test]
fn sweep_keeps_live_connections() {
    let mut t = RumbleTunnel::new(b"office".to_vec(), small_net(), 1400).unwrap();
    let good = t.accept_connection().unwrap();
    let bad = t.accept_connection().unwrap();
    let gi = t.find_index(good).unwrap();
    t.conn_handle_auth_event(
        gi,
        AuthEvent::MessageReceived(hello_bytes(b"alice", b"hunter2")),
        &database(),
    );
    let bi = t.find_index(bad).unwrap();
    t.conn_note_task_finished(bi);
    let removed = t.cleanup_sweep();
    assert_eq!(removed, vec![bad]);
    assert!(t.find_index(good).is_some());
    assert!(t.pool.contains(good));
}

#[test]
fn routing_finds_the_registered_peer() {
    let mut t = RumbleTunnel::new(b"office".to_vec(), small_net(), 1400).unwrap();
    let addr = t.accept_connection().unwrap();
    let frame = ipv4_frame(addr, 20);
    let i = t.route_lookup(&frame).unwrap();
    assert_eq!(t.entry_at(i).addr, addr);
    // an unregistered destination is dropped silently
    assert!(t.route_lookup(&ipv4_frame(v4_addr(10, 8, 0, 6), 20)).is_none());
    // frames of no known family carry no destination
    assert!(t.route_lookup(&vec![0u8; 20]).is_none());
}

#[test]
fn datagram_gates_enforce_authentication_and_size() {
    let lease = Lease { addr: v4_addr(10, 8, 0, 2), prefix_len: 29, v4: true };
    let mut conn = RumbleConnection::new(lease);
    let data = vec![0u8; 100];
    assert_eq!(
        conn.send_datagram(&data, Some(1400)).unwrap_err(),
        RumbleError::NotAuthenticated
    );
    assert_eq!(
        conn.may_process_incoming().unwrap_err(),
        RumbleError::NotAuthenticated
    );
    conn.handle_auth_event(
        AuthEvent::MessageReceived(hello_bytes(b"alice", b"hunter2")),
        &database(),
    );
    assert_eq!(conn.auth, AuthState::Authenticated(7));
    assert!(conn.send_datagram(&data, Some(1400)).is_ok());
    assert!(conn.may_process_incoming().is_ok());
    // an oversized frame is dropped with a warning, never sent
    let big = vec![0u8; 1500];
    assert_eq!(
        conn.send_datagram(&big, Some(1400)).unwrap_err(),
        RumbleError::OversizedDatagram
    );
    assert_eq!(
        conn.send_datagram(&data, None).unwrap_err(),
        RumbleError::QuicError
    );
}

#[test]
fn connection_lifecycle_mirrors_the_tunnel() {
    let lease = Lease { addr: v4_addr(10, 8, 0, 2), prefix_len: 29, v4: true };
    let mut conn = RumbleConnection::new(lease);
    assert!(!conn.is_ok());
    conn.start().unwrap();
    assert!(conn.is_ok());
    assert_eq!(conn.start().unwrap_err(), RumbleError::AlreadyRunning);
    conn.note_task_finished();
    assert!(!conn.is_ok());
    conn.stop();
    assert!(!conn.is_ok());
    conn.start().unwrap();
    assert!(conn.is_ok());
}

#[test]
fn ipv6_frames_do_not_route_on_an_ipv4_tunnel() {
    let mut t = RumbleTunnel::new(b"office".to_vec(), small_net(), 1400).unwrap();
    let addr = t.accept_connection().unwrap();
    // an IPv6 frame whose low destination bytes spell the same address
    let mut frame = vec![0u8; 40];
    frame[0] = 0x60;
    frame[36] = (addr >> 24) as u8;
    frame[37] = (addr >> 16) as u8;
    frame[38] = (addr >> 8) as u8;
    frame[39] = addr as u8;
    assert!(t.route_lookup(&frame).is_none());
}

#[test]
fn repeated_restart_cycles_keep_the_tunnel_ok() {
    let mut t = RumbleTunnel::new(b"office".to_vec(), small_net(), 1400).unwrap();
    for _ in 0..3 {
        t.start().unwrap();
        assert!(t.is_ok());
        t.stop();
        assert!(!t.is_ok());
    }
}
