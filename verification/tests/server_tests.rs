use rumble::client::{OutboundDecision, RumbleClient};
use rumble::config::{ConnectionConfig, ServerConfig, TunnelConfig};
use rumble::constants::auth_deadline_secs;
use rumble::errors::RumbleError;
use rumble::net::IpNetwork;
use rumble::server::RumbleServer;

fn v4_addr(a: u128, b: u128, c: u128, d: u128) -> u128 {
    (a << 24) | (b << 16) | (c << 8) | d
}

fn conn_config() -> ConnectionConfig {
    ConnectionConfig { mtu: 1400, send_buffer_size: 262144, recv_buffer_size: 262144, timeout: 10 }
}

fn tunnel_config(name: &[u8], third_octet: u128) -> TunnelConfig {
    TunnelConfig {
        name: name.to_vec(),
        network: IpNetwork { base: v4_addr(10, 8, third_octet, 0), prefix_len: 29, v4: true },
        users: vec![],
    }
}

#[test]
fn server_builds_every_tunnel_upfront() {
    let server = RumbleServer::new(ServerConfig {
        connection: conn_config(),
        tunnels: vec![tunnel_config(b"a", 0), tunnel_config(b"b", 1)],
    })
    .unwrap();
    assert_eq!(server.tunnel_count(), 2);
    assert!(!server.active_tunnels[0].is_ok());
}

#[test]
fn one_bad_network_is_fatal_before_any_start() {
    let mut bad = tunnel_config(b"bad", 0);
    bad.network.prefix_len = 32;
    let err = RumbleServer::new(ServerConfig {
        connection: conn_config(),
        tunnels: vec![tunnel_config(b"a", 0), bad],
    })
    .unwrap_err();
    assert_eq!(err, RumbleError::ConfigError);
}

#[test]
fn supervisor_restarts_a_degraded_tunnel() {
    let mut server = RumbleServer::new(ServerConfig {
        connection: conn_config(),
        tunnels: vec![tunnel_config(b"a", 0), tunnel_config(b"b", 1)],
    })
    .unwrap();
    server.start_all();
    assert!(server.active_tunnels[0].is_ok());
    assert!(server.active_tunnels[1].is_ok());
    // one pump task of tunnel "a" dies
    server.active_tunnels[0].note_task_finished();
    assert!(!server.active_tunnels[0].is_ok());
    server.supervise_tick();
    assert!(server.active_tunnels[0].is_ok());
    assert!(server.active_tunnels[1].is_ok());
}

#[test]
fn supervisor_leaves_healthy_tunnels_alone() {
    let mut server = RumbleServer::new(ServerConfig {
        connection: conn_config(),
        tunnels: vec![tunnel_config(b"a", 0)],
    })
    .unwrap();
    server.start_all();
    let spawned_before = server.active_tunnels[0].tasks_spawned;
    server.supervise_tick();
    assert_eq!(server.active_tunnels[0].tasks_spawned, spawned_before);
    assert!(server.active_tunnels[0].is_ok());
}

#[test]
fn oversize_frames_are_dropped_not_sent() {
    assert_eq!(
        RumbleClient::outbound_decision(1500, Some(1400)),
        OutboundDecision::DropOversized
    );
    assert_eq!(RumbleClient::outbound_decision(1400, Some(1400)), OutboundDecision::Send);
    assert_eq!(RumbleClient::outbound_decision(100, None), OutboundDecision::Unsupported);
}

#[test]
fn auth_deadline_includes_the_grace_interval() {
    assert_eq!(auth_deadline_secs(10), 15);
}

#[test]
fn only_oversize_is_a_drop_warning() {
    assert!(RumbleError::OversizedDatagram.is_drop_warning());
    assert!(!RumbleError::PoolExhausted.is_drop_warning());
    assert!(!RumbleError::NotAuthenticated.is_drop_warning());
}
