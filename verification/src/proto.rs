//! The authentication wire protocol: `ClientHello` and `ServerHello`, in a
//! fixed binary form. Each message fits the 128-byte exchange buffer;
//! credentials too large for it are rejected before anything is sent.

use vstd::prelude::*;
use crate::errors::RumbleError;
use crate::net::{Lease, lease_wf};
use crate::encoding::{be_val, u_to_be_bytes, u_from_be_bytes, lemma_be_val_bounds, lemma_pow2_128};

verus! {

/// Upper bound on one authentication message on the wire.
pub const AUTH_MESSAGE_LIMIT: usize = 128;

/// The credential exchange opened by the client.
#[derive(Debug)]
pub struct ClientHello {
    pub username: Vec<u8>,
    pub password: Vec<u8>,
}

/// The server's answer: an address lease, or a rejection code.
#[derive(Clone, Copy, Debug, PartialEq, Eq, Structural)]
pub enum ServerHello {
    Accepted { address: Lease },
    Rejected { code: u8 },
}

/// Rejection code for credentials the database does not hold.
pub const REJECT_BAD_CREDENTIALS: u8 = 1;

/// What a `ClientHello` on the wire means: a username length, the username,
/// a password length, the password, nothing else, and the whole within the
/// exchange buffer.
pub open spec fn spec_parse_client_hello(d: Seq<u8>) -> Option<(Seq<u8>, Seq<u8>)> {
    if d.len() < 1 || d.len() > AUTH_MESSAGE_LIMIT as int {
        None
    } else {
        let ul = d[0] as int;
        if d.len() < 2 + ul {
            None
        } else {
            let pl = d[1 + ul] as int;
            if d.len() != 2 + ul + pl {
                None
            } else {
                Some((d.subrange(1, 1 + ul), d.subrange(2 + ul, 2 + ul + pl)))
            }
        }
    }
}

/// What a `ServerHello` on the wire means.
pub open spec fn spec_parse_server_hello(d: Seq<u8>) -> Option<ServerHello> {
    if d.len() == 0 {
        None
    } else if d[0] == 1 {
        if d.len() != 19 {
            None
        } else if d[1] != 0 && d[1] != 1 {
            None
        } else {
            let v4 = d[1] == 1;
            let prefix_len = d[2];
            let addr = be_val(d.subrange(3, 19));
            if v4 && !(addr < 0x100000000 && prefix_len <= 32) {
                None
            } else {
                Some(ServerHello::Accepted { address: Lease { addr: addr as u128, prefix_len, v4 } })
            }
        }
    } else if d[0] == 2 {
        if d.len() != 2 {
            None
        } else {
            Some(ServerHello::Rejected { code: d[1] })
        }
    } else {
        None
    }
}

/// Copies a byte string.
pub fn copy_bytes(data: &Vec<u8>) -> (r: Vec<u8>)
    ensures
        r@ == data@,
{
    let r = copy_range(data, 0, data.len());
    proof {
        assert(data@.subrange(0, data@.len() as int) =~= data@);
    }
    r
}

/// Copies `data[start .. start + len]` out as a fresh vector.
fn copy_range(data: &Vec<u8>, start: usize, len: usize) -> (r: Vec<u8>)
    requires
        start + len <= data@.len(),
    ensures
        r@ == data@.subrange(start as int, (start + len) as int),
{
    let n = data.len();
    let mut r: Vec<u8> = Vec::new();
    let mut i: usize = 0;
    while i < len
        invariant
            i <= len,
            n == data@.len(),
            start + len <= n,
            r@ == data@.subrange(start as int, (start + i) as int),
        decreases len - i,
    {
        r.push(data[start + i]);
        i = i + 1;
        proof {
            assert(r@ =~= data@.subrange(start as int, (start + i) as int));
        }
    }
    proof {
        assert(r@ =~= data@.subrange(start as int, (start + len) as int));
    }
    r
}

impl ClientHello {
    /// Encodes the credentials; credentials that cannot fit the exchange
    /// buffer are rejected as a configuration error.
    pub fn encode(&self) -> (r: Result<Vec<u8>, RumbleError>)
        ensures
            match r {
                Ok(v) => {
                    &&& 2 + self.username@.len() + self.password@.len() <= AUTH_MESSAGE_LIMIT as int
                    &&& v@.len() == 2 + self.username@.len() + self.password@.len()
                    &&& spec_parse_client_hello(v@) == Some((self.username@, self.password@))
                },
                Err(e) => {
                    &&& e == RumbleError::ConfigError
                    &&& 2 + self.username@.len() + self.password@.len() > AUTH_MESSAGE_LIMIT as int
                },
            },
    {
        let ul = self.username.len();
        let pl = self.password.len();
        if ul > AUTH_MESSAGE_LIMIT - 2 || pl > AUTH_MESSAGE_LIMIT - 2 - ul {
            return Err(RumbleError::ConfigError);
        }
        let mut v: Vec<u8> = Vec::new();
        v.push(ul as u8);
        let mut i: usize = 0;
        while i < ul
            invariant
                i <= ul,
                ul == self.username@.len(),
                v@ == seq![ul as u8].add(self.username@.subrange(0, i as int)),
            decreases ul - i,
        {
            v.push(self.username[i]);
            i = i + 1;
            proof {
                assert(v@ =~= seq![ul as u8].add(self.username@.subrange(0, i as int)));
            }
        }
        v.push(pl as u8);
        let mut j: usize = 0;
        while j < pl
            invariant
                j <= pl,
                ul == self.username@.len(),
                pl == self.password@.len(),
                v@ == seq![ul as u8].add(self.username@).add(seq![pl as u8]).add(
                    self.password@.subrange(0, j as int),
                ),
            decreases pl - j,
        {
            v.push(self.password[j]);
            j = j + 1;
            proof {
                assert(v@ =~= seq![ul as u8].add(self.username@).add(seq![pl as u8]).add(
                    self.password@.subrange(0, j as int),
                ));
            }
        }
        proof {
            assert(v@ =~= seq![ul as u8].add(self.username@).add(seq![pl as u8]).add(
                self.password@,
            ));
            assert(v@.len() == 2 + ul + pl);
            assert(v@[0] == ul as u8);
            assert(v@[1 + ul] == pl as u8);
            assert(v@.subrange(1, 1 + ul as int) =~= self.username@);
            assert(v@.subrange(2 + ul as int, 2 + ul as int + pl as int) =~= self.password@);
        }
        Ok(v)
    }

    /// Decodes one `ClientHello`, or says the bytes are not one.
    pub fn decode(data: &Vec<u8>) -> (r: Option<ClientHello>)
        ensures
            match r {
                Some(m) => spec_parse_client_hello(data@) == Some((m.username@, m.password@)),
                None => spec_parse_client_hello(data@) is None,
            },
    {
        let n = data.len();
        if n < 1 || n > AUTH_MESSAGE_LIMIT {
            return None;
        }
        let ul = data[0] as usize;
        if n < 2 + ul {
            return None;
        }
        let pl = data[1 + ul] as usize;
        if n != 2 + ul + pl {
            return None;
        }
        let username = copy_range(data, 1, ul);
        let password = copy_range(data, 2 + ul, pl);
        Some(ClientHello { username, password })
    }
}

impl ServerHello {
    /// Encodes the reply; the result always parses back to this message.
    pub fn encode(&self) -> (r: Vec<u8>)
        requires
            self matches ServerHello::Accepted { address } ==> lease_wf(*address),
        ensures
            spec_parse_server_hello(r@) == Some(*self),
            r@.len() <= AUTH_MESSAGE_LIMIT as int,
    {
        match self {
            ServerHello::Accepted { address } => {
                let mut v: Vec<u8> = Vec::new();
                v.push(1u8);
                v.push(if address.v4 {
                    1u8
                } else {
                    0u8
                });
                v.push(address.prefix_len);
                proof {
                    lemma_pow2_128();
                }
                let mut addr_bytes = u_to_be_bytes(address.addr, 16);
                let ghost head = v@;
                let ghost tail = addr_bytes@;
                v.append(&mut addr_bytes);
                proof {
                    assert(v@ =~= head + tail);
                    assert(v@.len() == 19);
                    assert(v@[0] == 1u8);
                    assert(v@.subrange(3, 19) =~= tail);
                    assert(be_val(v@.subrange(3, 19)) == address.addr);
                }
                v
            },
            ServerHello::Rejected { code } => {
                let mut v: Vec<u8> = Vec::new();
                v.push(2u8);
                v.push(*code);
                proof {
                    assert(v@.len() == 2);
                    assert(v@[0] == 2u8);
                    assert(v@[1] == code);
                }
                v
            },
        }
    }

    /// Decodes one `ServerHello`, or says the bytes are not one.
    pub fn decode(data: &Vec<u8>) -> (r: Option<ServerHello>)
        ensures
            r == spec_parse_server_hello(data@),
    {
        let n = data.len();
        if n == 0 {
            return None;
        }
        let tag = data[0];
        if tag == 1 {
            if n != 19 {
                return None;
            }
            let family = data[1];
            if family != 0 && family != 1 {
                return None;
            }
            let v4 = family == 1;
            let prefix_len = data[2];
            proof {
                lemma_be_val_bounds(data@.subrange(3, 19));
                lemma_pow2_128();
            }
            let addr = u_from_be_bytes(data, 3, 16);
            if v4 && !(addr < 0x100000000 && prefix_len <= 32) {
                return None;
            }
            Some(ServerHello::Accepted { address: Lease { addr, prefix_len, v4 } })
        } else if tag == 2 {
            if n != 2 {
                return None;
            }
            Some(ServerHello::Rejected { code: data[1] })
        } else {
            None
        }
    }
}

} // verus!
