//! The client model: the credential message it opens with, what it does
//! with the server's reply, the host part of the connection string, and the
//! outbound decision of its TUN-to-QUIC pump. The sockets, the QUIC
//! connection and the TUN device live with the entry point; the decisions
//! are made and proved here.

use vstd::prelude::*;
use crate::config::ClientConfig;
use crate::errors::RumbleError;
use crate::net::Lease;
use crate::proto::{ClientHello, ServerHello, spec_parse_client_hello, spec_parse_server_hello};

verus! {

/// The byte value of the host/port separator in a connection string.
pub const HOST_SEPARATOR: u8 = 58;

/// What the outbound pump does with one frame read from the TUN device.
#[derive(Clone, Copy, Debug, PartialEq, Eq, Structural)]
pub enum OutboundDecision {
    /// The peer negotiated no datagram support: a fatal client error.
    Unsupported,
    /// The frame cannot fit one datagram: drop it with a warning.
    DropOversized,
    /// Send the frame as one datagram, unchanged.
    Send,
}

/// Rumble client that connects to a server and relays packets between the
/// server and a TUN interface.
#[derive(Debug)]
pub struct RumbleClient {
    pub client_config: ClientConfig,
}

impl RumbleClient {
    /// New instance of a Rumble client around its configuration.
    pub fn new(client_config: ClientConfig) -> (r: Self)
        ensures
            r.client_config == client_config,
    {
        Self { client_config }
    }

    /// The host part of the connection string: everything before the first
    /// separator, or the whole string if there is none.
    pub fn server_host(&self) -> (r: Vec<u8>)
        ensures
            r@.len() <= self.client_config.connection_string@.len(),
            r@ == self.client_config.connection_string@.subrange(0, r@.len() as int),
            r@.len() < self.client_config.connection_string@.len()
                ==> self.client_config.connection_string@[r@.len() as int] == HOST_SEPARATOR,
            forall|k: int| 0 <= k < r@.len() ==> self.client_config.connection_string@[k]
                != HOST_SEPARATOR,
    {
        let n = self.client_config.connection_string.len();
        let mut host: Vec<u8> = Vec::new();
        let mut i: usize = 0;
        while i < n
            invariant
                i <= n,
                n == self.client_config.connection_string@.len(),
                host@ == self.client_config.connection_string@.subrange(0, i as int),
                forall|k: int|
                    0 <= k < i ==> self.client_config.connection_string@[k] != HOST_SEPARATOR,
            decreases n - i,
        {
            if self.client_config.connection_string[i] == HOST_SEPARATOR {
                return host;
            }
            host.push(self.client_config.connection_string[i]);
            i = i + 1;
            proof {
                assert(host@ =~= self.client_config.connection_string@.subrange(0, i as int));
            }
        }
        host
    }

    /// Encodes the `ClientHello` this client opens with; credentials that
    /// cannot fit the exchange buffer are a configuration error.
    pub fn build_client_hello(&self) -> (r: Result<Vec<u8>, RumbleError>)
        ensures
            match r {
                Ok(v) => spec_parse_client_hello(v@) == Some(
                    (self.client_config.username@, self.client_config.password@),
                ),
                Err(e) => {
                    &&& e == RumbleError::ConfigError
                    &&& 2 + self.client_config.username@.len() + self.client_config.password@.len()
                        > crate::proto::AUTH_MESSAGE_LIMIT as int
                },
            },
    {
        let hello = ClientHello {
            username: crate::proto::copy_bytes(&self.client_config.username),
            password: crate::proto::copy_bytes(&self.client_config.password),
        };
        hello.encode()
    }

    /// Reads the server's reply: an accepted lease configures the local TUN
    /// device, a rejection is fatal, and bytes that are no `ServerHello` at
    /// all are a transport error.
    pub fn handle_server_hello(data: &Vec<u8>) -> (r: Result<Lease, RumbleError>)
        ensures
            match spec_parse_server_hello(data@) {
                Some(ServerHello::Accepted { address }) => r == Ok::<Lease, RumbleError>(address),
                Some(ServerHello::Rejected { .. }) => r == Err::<Lease, RumbleError>(
                    RumbleError::AuthRejected,
                ),
                None => r == Err::<Lease, RumbleError>(RumbleError::QuicError),
            },
    {
        match ServerHello::decode(data) {
            Some(ServerHello::Accepted { address }) => Ok(address),
            Some(ServerHello::Rejected { .. }) => Err(RumbleError::AuthRejected),
            None => Err(RumbleError::QuicError),
        }
    }

    /// The outbound pump's decision for one frame of `data_len` bytes, given
    /// what the connection reports as its maximum datagram size.
    pub fn outbound_decision(data_len: usize, max_datagram_size: Option<usize>) -> (r:
        OutboundDecision)
        ensures
            max_datagram_size is None ==> r == OutboundDecision::Unsupported,
            max_datagram_size matches Some(m) && data_len > m ==> r
                == OutboundDecision::DropOversized,
            max_datagram_size matches Some(m) && data_len <= m ==> r == OutboundDecision::Send,
    {
        match max_datagram_size {
            None => OutboundDecision::Unsupported,
            Some(m) => {
                if data_len > m {
                    OutboundDecision::DropOversized
                } else {
                    OutboundDecision::Send
                }
            },
        }
    }
}

} // verus!
