//! The per-tunnel address pool. Leases are drawn lowest-free-first from the
//! configured network, skipping the network address, the IPv4 broadcast
//! address, and the gateway (the first usable host, leased at construction
//! and never returned).

use vstd::prelude::*;
use vstd::arithmetic::power2::{lemma_pow2_pos, lemma_pow2_strictly_increases, lemma2_to64};
use crate::errors::RumbleError;
use crate::net::{IpNetwork, Lease, lease_wf, lemma_network_span_fits};
use crate::encoding::{pow2_u128, lemma_pow2_128};

verus! {

/// Allocator of host addresses for one tunnel.
#[derive(Debug)]
pub struct AddressPool {
    pub network: IpNetwork,
    /// Cached `network.gateway_addr()`.
    pub gateway: u128,
    /// Cached `network.last_alloc()`.
    pub last_alloc: u128,
    /// Every currently leased address; the gateway sits at index zero and
    /// stays there for the pool's whole life.
    pub leased: Vec<u128>,
}

impl AddressPool {
    /// The network this pool draws from.
    pub open spec fn net(self) -> IpNetwork {
        self.network
    }

    /// Whether `addr` is currently leased.
    pub open spec fn is_leased(self, addr: u128) -> bool {
        self.leased@.contains(addr)
    }

    /// Internal consistency: the network is usable, the caches are right,
    /// the gateway is leased, no address is leased twice, and every leased
    /// address is the gateway or an allocatable host.
    pub open spec fn wf(self) -> bool {
        &&& self.network.usable()
        &&& self.gateway == self.network.gateway_addr()
        &&& self.last_alloc == self.network.last_alloc()
        &&& self.leased@.len() >= 1
        &&& self.leased@[0] == self.network.gateway_addr()
        &&& forall|i: int, j: int|
            0 <= i < j < self.leased@.len() ==> self.leased@[i] != self.leased@[j]
        &&& forall|i: int|
            0 <= i < self.leased@.len() ==> (self.leased@[i] == self.network.gateway_addr()
                || self.network.allocatable(#[trigger] self.leased@[i] as int))
    }

    /// Builds the pool over `network`, leasing the gateway address. A
    /// network too narrow to hold a gateway (or not in CIDR form) is a
    /// configuration error.
    pub fn new(network: IpNetwork) -> (r: Result<AddressPool, RumbleError>)
        ensures
            network.usable() ==> matches!(r, Ok(_)),
            match r {
                Ok(pool) => {
                    &&& network.usable()
                    &&& pool.wf()
                    &&& pool.net() == network
                    &&& forall|a: u128| pool.is_leased(a) <==> a == network.gateway_addr()
                },
                Err(e) => e == RumbleError::ConfigError && !network.usable(),
            },
    {
        let bits: usize = if network.v4 {
            32
        } else {
            128
        };
        if network.v4 && network.prefix_len > 30 {
            return Err(RumbleError::ConfigError);
        }
        if !network.v4 && (network.prefix_len < 1 || network.prefix_len > 127) {
            return Err(RumbleError::ConfigError);
        }
        if network.v4 && network.base >= 0x100000000 {
            return Err(RumbleError::ConfigError);
        }
        let host_bits = bits - network.prefix_len as usize;
        proof {
            lemma_pow2_pos(host_bits as nat);
        }
        let size = pow2_u128(host_bits);
        if network.base % size != 0 {
            return Err(RumbleError::ConfigError);
        }
        proof {
            assert(network.wf());
            lemma_network_span_fits(network);
            lemma_pow2_128();
            lemma2_to64();
            lemma_pow2_strictly_increases(0, host_bits as nat);
        }
        let gateway = network.base + 1;
        let top = network.base + (size - 1);
        let last_alloc = if network.v4 {
            top - 1
        } else {
            top
        };
        let mut leased: Vec<u128> = Vec::new();
        leased.push(gateway);
        let pool = AddressPool { network, gateway, last_alloc, leased };
        proof {
            assert(pool.leased@.len() == 1);
            assert(pool.leased@[0] == gateway);
            assert forall|a: u128| pool.is_leased(a) implies a == network.gateway_addr() by {
                let k = choose|k: int| 0 <= k < pool.leased@.len() && pool.leased@[k] == a;
                assert(k == 0);
            }
            assert(pool.is_leased(gateway));
        }
        Ok(pool)
    }

    /// The gateway lease held by the tunnel itself.
    pub fn gateway_lease(&self) -> (r: Lease)
        requires
            self.wf(),
        ensures
            r == Lease::for_network(self.net(), (self.net().gateway_addr()) as u128),
            lease_wf(r),
    {
        proof {
            lemma_network_span_fits(self.network);
            lemma2_to64();
        }
        Lease { addr: self.gateway, prefix_len: self.network.prefix_len, v4: self.network.v4 }
    }

    /// Whether `addr` is currently leased.
    pub fn contains(&self, addr: u128) -> (r: bool)
        ensures
            r == self.is_leased(addr),
    {
        let mut i: usize = 0;
        let n = self.leased.len();
        while i < n
            invariant
                i <= n,
                n == self.leased@.len(),
                forall|k: int| 0 <= k < i ==> self.leased@[k] != addr,
            decreases n - i,
        {
            if self.leased[i] == addr {
                return true;
            }
            i = i + 1;
        }
        false
    }

    /// Leases the lowest free allocatable address, or reports exhaustion.
    pub fn allocate(&mut self) -> (r: Result<Lease, RumbleError>)
        requires
            old(self).wf(),
        ensures
            final(self).wf(),
            final(self).net() == old(self).net(),
            match r {
                Ok(lease) => {
                    &&& lease == Lease::for_network(old(self).net(), lease.addr)
                    &&& lease_wf(lease)
                    &&& old(self).net().allocatable(lease.addr as int)
                    &&& !old(self).is_leased(lease.addr)
                    &&& forall|a: u128|
                        final(self).is_leased(a) <==> (old(self).is_leased(a) || a == lease.addr)
                    &&& forall|a: u128|
                        old(self).net().allocatable(a as int) && a < lease.addr ==> old(
                            self,
                        ).is_leased(a)
                },
                Err(e) => {
                    &&& e == RumbleError::PoolExhausted
                    &&& *final(self) == *old(self)
                    &&& forall|a: u128|
                        old(self).net().allocatable(a as int) ==> old(self).is_leased(a)
                },
            },
    {
        proof {
            lemma_network_span_fits(self.network);
            lemma2_to64();
        }
        if self.gateway >= self.last_alloc {
            proof {
                assert forall|a: u128|
                    self.net().allocatable(a as int) implies self.is_leased(a) by {
                    assert(self.net().first_alloc() > self.net().last_alloc());
                }
            }
            return Err(RumbleError::PoolExhausted);
        }
        let mut candidate: u128 = self.gateway + 1;
        loop
            invariant
                old(self).wf(),
                *self == *old(self),
                self.net().first_alloc() <= candidate as int <= self.net().last_alloc(),
                forall|a: u128|
                    self.net().allocatable(a as int) && a < candidate ==> self.is_leased(a),
            decreases self.net().last_alloc() - candidate,
        {
            if !self.contains(candidate) {
                let ghost prev = *self;
                self.leased.push(candidate);
                proof {
                    lemma_network_span_fits(self.network);
                    lemma2_to64();
                    let n = prev.leased@.len() as int;
                    assert(self.leased@ =~= prev.leased@.push(candidate));
                    assert(self.leased@[n] == candidate);
                    assert(self.is_leased(candidate));
                    assert(self.leased@[0] == prev.leased@[0]);
                    assert forall|i: int, j: int|
                        0 <= i < j < self.leased@.len() implies self.leased@[i]
                        != self.leased@[j] by {
                        if j == n {
                            assert(self.leased@[i] == prev.leased@[i]);
                            assert(prev.leased@.contains(prev.leased@[i]));
                        }
                    }
                    assert forall|a: u128|
                        self.is_leased(a) implies (prev.is_leased(a) || a == candidate) by {
                        let k = choose|k: int|
                            0 <= k < self.leased@.len() && self.leased@[k] == a;
                        if k < n {
                            assert(prev.leased@[k] == a);
                        }
                    }
                    assert forall|a: u128| prev.is_leased(a) implies self.is_leased(a) by {
                        let k = choose|k: int|
                            0 <= k < prev.leased@.len() && prev.leased@[k] == a;
                        assert(self.leased@[k] == a);
                    }
                }
                return Ok(
                    Lease {
                        addr: candidate,
                        prefix_len: self.network.prefix_len,
                        v4: self.network.v4,
                    },
                );
            }
            if candidate == self.last_alloc {
                proof {
                    assert forall|a: u128|
                        self.net().allocatable(a as int) implies self.is_leased(a) by {
                        if a < candidate {
                        } else {
                            assert(a as int <= self.net().last_alloc());
                            assert(a == candidate);
                        }
                    }
                }
                return Err(RumbleError::PoolExhausted);
            }
            candidate = candidate + 1;
        }
    }

    /// Returns `addr` to the pool. Releasing an address that is not leased
    /// is a no-op, and the gateway is never given back.
    pub fn release(&mut self, addr: u128)
        requires
            old(self).wf(),
        ensures
            final(self).wf(),
            final(self).net() == old(self).net(),
            addr == old(self).net().gateway_addr() ==> *final(self) == *old(self),
            !old(self).is_leased(addr) ==> *final(self) == *old(self),
            forall|a: u128|
                final(self).is_leased(a) <==> (old(self).is_leased(a) && !(a == addr && addr
                    != old(self).net().gateway_addr())),
    {
        if addr == self.gateway {
            return ;
        }
        let n = self.leased.len();
        let mut i: usize = 0;
        while i < n
            invariant
                i <= n,
                n == self.leased@.len(),
                old(self).wf(),
                *self == *old(self),
                addr != old(self).net().gateway_addr(),
                forall|k: int| 0 <= k < i ==> self.leased@[k] != addr,
            decreases n - i,
        {
            if self.leased[i] == addr {
                let ghost prev = *self;
                let ghost idx = i as int;
                proof {
                    assert(prev.leased@[0] != addr);
                    assert(idx != 0);
                }
                self.leased.remove(i);
                proof {
                    let pn = prev.leased@.len() as int;
                    assert(self.leased@.len() == pn - 1);
                    assert(forall|k: int|
                        0 <= k < idx ==> self.leased@[k] == prev.leased@[k]);
                    assert(forall|k: int|
                        idx <= k < pn - 1 ==> self.leased@[k] == prev.leased@[k + 1]);
                    assert(self.leased@[0] == prev.leased@[0]);
                    assert forall|k: int|
                        0 <= k < self.leased@.len() implies self.leased@[k] != addr by {
                        if k < idx {
                            assert(self.leased@[k] == prev.leased@[k]);
                        } else {
                            assert(self.leased@[k] == prev.leased@[k + 1]);
                        }
                    }
                    assert(!self.is_leased(addr));
                    assert forall|x: int, y: int|
                        0 <= x < y < self.leased@.len() implies self.leased@[x]
                        != self.leased@[y] by {
                        let px: int = if x < idx {
                            x
                        } else {
                            x + 1
                        };
                        let py: int = if y < idx {
                            y
                        } else {
                            y + 1
                        };
                        assert(self.leased@[x] == prev.leased@[px]);
                        assert(self.leased@[y] == prev.leased@[py]);
                        assert(0 <= px < py < pn);
                    }
                    assert forall|k: int|
                        0 <= k < self.leased@.len() implies (self.leased@[k] == self.network
                            .gateway_addr() || self.network.allocatable(
                            #[trigger] self.leased@[k] as int,
                        )) by {
                        let pk: int = if k < idx {
                            k
                        } else {
                            k + 1
                        };
                        assert(self.leased@[k] == prev.leased@[pk]);
                    }
                    assert forall|a: u128|
                        self.is_leased(a) implies (prev.is_leased(a) && a != addr) by {
                        let k = choose|k: int|
                            0 <= k < self.leased@.len() && self.leased@[k] == a;
                        let pk: int = if k < idx {
                            k
                        } else {
                            k + 1
                        };
                        assert(prev.leased@[pk] == a);
                    }
                    assert forall|a: u128|
                        prev.is_leased(a) && a != addr implies self.is_leased(a) by {
                        let k = choose|k: int|
                            0 <= k < prev.leased@.len() && prev.leased@[k] == a;
                        if k < idx {
                            assert(self.leased@[k] == a);
                        } else {
                            assert(k != idx);
                            assert(self.leased@[k - 1] == a);
                        }
                    }
                }
                return ;
            }
            i = i + 1;
        }
        proof {
            assert(!self.is_leased(addr)) by {
                assert forall|k: int|
                    0 <= k < self.leased@.len() implies self.leased@[k] != addr by {}
            }
        }
    }
}

} // verus!
