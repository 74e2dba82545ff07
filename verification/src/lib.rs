//! Verified core of the Rumble VPN: address-pool allocation, the
//! authentication state machine and its wire encoding, per-connection and
//! per-tunnel lifecycle state, datagram routing decisions, and the
//! supervisor's restart rule. All I/O (QUIC, TUN devices, sockets, timers)
//! lives outside this crate; the functions here take and return plain values.

pub mod auth;
pub mod client;
pub mod config;
pub mod connection;
pub mod constants;
pub mod encoding;
pub mod errors;
pub mod net;
pub mod packet;
pub mod pool;
pub mod proto;
pub mod server;
pub mod tunnel;
