//! Typed configuration records, as plain values. Loading them from a file
//! and from environment overrides is the entry points' business; the
//! library only consumes the loaded shapes.

use vstd::prelude::*;
use crate::auth::UserRecord;
use crate::net::IpNetwork;

verus! {

/// Command-line arguments shared by the two binaries.
#[derive(Debug)]
pub struct Args {
    pub config_path: String,
    pub env_prefix: String,
}

/// Connection parameters shared by every tunnel and by the client.
#[derive(Clone, Copy, Debug, PartialEq, Eq, Structural)]
pub struct ConnectionConfig {
    /// IP MTU inside the tunnel.
    pub mtu: u16,
    pub send_buffer_size: u64,
    pub recv_buffer_size: u64,
    /// Authentication timeout, in seconds, before the grace interval.
    pub timeout: u64,
}

/// One tunnel: its network and the users allowed on it.
#[derive(Debug)]
pub struct TunnelConfig {
    pub name: Vec<u8>,
    pub network: IpNetwork,
    pub users: Vec<UserRecord>,
}

/// Everything a server needs.
#[derive(Debug)]
pub struct ServerConfig {
    pub connection: ConnectionConfig,
    pub tunnels: Vec<TunnelConfig>,
}

/// Everything a client needs.
#[derive(Debug)]
pub struct ClientConfig {
    /// `host:port` of the server.
    pub connection_string: Vec<u8>,
    pub username: Vec<u8>,
    pub password: Vec<u8>,
    pub connection: ConnectionConfig,
}

} // verus!
