//! The address model: IPv4/IPv6 networks and leases, carried as plain
//! integers. An address is the low bits of a `u128`; a network is its
//! network address plus a prefix length.

use vstd::prelude::*;
use vstd::arithmetic::power2::{
    pow2, lemma_pow2_adds, lemma_pow2_pos, lemma2_to64,
};
use vstd::arithmetic::div_mod::{lemma_fundamental_div_mod, lemma_multiply_divide_lt};
use crate::encoding::lemma_pow2_128;

verus! {

/// An IPv4 or IPv6 network in CIDR form.
#[derive(Clone, Copy, Debug, PartialEq, Eq, Structural)]
pub struct IpNetwork {
    /// The network address, as an integer (for IPv4, below `2^32`).
    pub base: u128,
    /// The prefix length.
    pub prefix_len: u8,
    /// True for IPv4, false for IPv6.
    pub v4: bool,
}

/// One leased host address, with the prefix length of its network.
#[derive(Clone, Copy, Debug, PartialEq, Eq, Structural)]
pub struct Lease {
    pub addr: u128,
    pub prefix_len: u8,
    pub v4: bool,
}

impl IpNetwork {
    /// Width of an address of this family.
    pub open spec fn addr_bits(self) -> nat {
        if self.v4 {
            32
        } else {
            128
        }
    }

    /// Number of host bits.
    pub open spec fn host_bits(self) -> nat {
        (self.addr_bits() - self.prefix_len) as nat
    }

    /// Number of addresses the network spans.
    pub open spec fn size(self) -> int {
        pow2(self.host_bits()) as int
    }

    /// Well-formed: the prefix fits the family, the base fits the family,
    /// and the base really is the network address (aligned to the prefix).
    pub open spec fn wf(self) -> bool {
        &&& self.prefix_len <= self.addr_bits()
        &&& (self.v4 ==> self.base < 0x100000000)
        &&& self.base as int % self.size() == 0
    }

    /// Wide enough to hold a gateway: for IPv4 the network, gateway and
    /// broadcast addresses must be distinct; for IPv6 the network and
    /// gateway addresses must be, and the span must fit a `u128` count.
    pub open spec fn usable(self) -> bool {
        &&& self.wf()
        &&& (if self.v4 {
            self.prefix_len <= 30
        } else {
            1 <= self.prefix_len <= 127
        })
    }

    /// The gateway address: the first usable host, held by the tunnel itself.
    pub open spec fn gateway_addr(self) -> int {
        self.base + 1
    }

    /// The lowest address the pool may hand out.
    pub open spec fn first_alloc(self) -> int {
        self.base + 2
    }

    /// The highest address the pool may hand out: for IPv4 the highest
    /// address is the broadcast address and is reserved.
    pub open spec fn last_alloc(self) -> int {
        if self.v4 {
            self.base + self.size() - 2
        } else {
            self.base + self.size() - 1
        }
    }

    /// Addresses the pool may lease to a peer: inside the network, and not
    /// the network, gateway, or (IPv4) broadcast address.
    pub open spec fn allocatable(self, addr: int) -> bool {
        self.first_alloc() <= addr <= self.last_alloc()
    }
}

/// A well-formed network's span stays within its family's address width.
pub proof fn lemma_network_span_fits(n: IpNetwork)
    requires
        n.wf(),
    ensures
        n.base + n.size() <= pow2(n.addr_bits()),
        n.size() >= 1,
{
    let size = n.size();
    let hb = n.host_bits();
    lemma_pow2_pos(hb);
    lemma_fundamental_div_mod(n.base as int, size);
    let q = n.base as int / size;
    lemma_pow2_adds(n.prefix_len as nat, hb);
    let pp = pow2(n.prefix_len as nat) as int;
    assert(pow2(n.addr_bits()) == pp * size);
    if n.v4 {
        lemma2_to64();
    } else {
        lemma_pow2_128();
    }
    assert(n.base < pp * size);
    lemma_multiply_divide_lt(n.base as int, size, pp);
    assert(n.base + size <= pp * size) by (nonlinear_arith)
        requires
            n.base == size * q,
            q + 1 <= pp,
            size > 0,
    ;
}

impl Lease {
    /// The lease a pool over `network` issues for `addr`.
    pub open spec fn for_network(network: IpNetwork, addr: u128) -> Lease {
        Lease { addr, prefix_len: network.prefix_len, v4: network.v4 }
    }
}

/// A lease whose address and prefix fit its family.
pub open spec fn lease_wf(l: Lease) -> bool {
    l.v4 ==> (l.addr < 0x100000000 && l.prefix_len <= 32)
}

} // verus!
