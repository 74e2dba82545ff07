//! The per-tunnel model: the address pool, the registry of accepted
//! connections keyed by leased address, the liveness of the tunnel's four
//! pump tasks, the accept path, the routing decision of the TUN-to-peers
//! pump, and the cleanup sweep that ties address lifecycle to connection
//! lifecycle.

use vstd::prelude::*;
use crate::auth::{AuthAction, AuthEvent, AuthState, UserDatabase, spec_server_auth_step};
use crate::connection::{RumbleConnection, spec_send_outcome};
use crate::errors::RumbleError;
use crate::net::{IpNetwork, Lease, lease_wf, lemma_network_span_fits};
use crate::proto::ServerHello;
use crate::packet::spec_dest_of;
use crate::pool::AddressPool;

verus! {

/// The tasks a running tunnel owns: the accept loop, the two pumps, and the
/// cleanup sweeper.
pub const TUNNEL_TASK_COUNT: usize = 4;

/// One registry slot: a leased address and the connection holding it.
#[derive(Clone, Copy, Debug, PartialEq, Eq, Structural)]
pub struct ConnectionEntry {
    pub addr: u128,
    pub conn: RumbleConnection,
}

/// A registry entry that should survive a cleanup pass: its connection is
/// running and its authentication has not failed.
pub open spec fn entry_live(e: ConnectionEntry) -> bool {
    e.conn.is_ok_spec() && !(e.conn.auth matches AuthState::Failed(_))
}

/// Whether `e` is one of the live entries of `orig`.
pub open spec fn survivor_of(e: ConnectionEntry, orig: Seq<ConnectionEntry>) -> bool {
    exists|j: int| 0 <= j < orig.len() && #[trigger] orig[j] == e && entry_live(orig[j])
}

/// One tunnel.
#[derive(Debug)]
pub struct RumbleTunnel {
    pub name: Vec<u8>,
    /// IP MTU of the TUN device.
    pub mtu: u16,
    pub pool: AddressPool,
    pub registry: Vec<ConnectionEntry>,
    /// How many pump tasks were spawned.
    pub tasks_spawned: usize,
    /// How many of them the runtime has seen finish.
    pub tasks_finished: usize,
}

impl RumbleTunnel {
    /// Whether some registry slot holds `addr`.
    pub open spec fn has_entry(self, addr: u128) -> bool {
        exists|i: int| 0 <= i < self.registry@.len() && self.registry@[i].addr == addr
    }

    /// At least one task exists and none has finished.
    pub open spec fn is_ok_spec(self) -> bool {
        self.tasks_spawned > 0 && self.tasks_finished == 0
    }

    /// The tunnel invariant: the pool is sound; every registry address is an
    /// allocatable host of the pool's network, leased, held by exactly one
    /// entry whose connection carries the matching lease; and every leased
    /// address except the gateway has its registry entry.
    pub open spec fn wf(self) -> bool {
        &&& self.pool.wf()
        &&& forall|i: int|
            0 <= i < self.registry@.len() ==> self.pool.net().allocatable(
                #[trigger] self.registry@[i].addr as int,
            )
        &&& forall|i: int|
            0 <= i < self.registry@.len() ==> (#[trigger] self.registry@[i]).conn.client_address
                == Lease::for_network(self.pool.net(), self.registry@[i].addr)
        &&& forall|i: int|
            0 <= i < self.registry@.len() ==> self.pool.is_leased(
                #[trigger] self.registry@[i].addr,
            )
        &&& forall|i: int, j: int|
            0 <= i < j < self.registry@.len() ==> self.registry@[i].addr != self.registry@[j].addr
        &&& forall|a: u128|
            #[trigger] self.pool.is_leased(a) && a != self.pool.net().gateway_addr()
                ==> self.has_entry(a)
    }

    /// Builds the tunnel over its configured network: a fresh pool with only
    /// the gateway leased, an empty registry, no tasks.
    pub fn new(name: Vec<u8>, network: IpNetwork, mtu: u16) -> (r: Result<
        RumbleTunnel,
        RumbleError,
    >)
        ensures
            network.usable() ==> matches!(r, Ok(_)),
            match r {
                Ok(t) => {
                    &&& t.wf()
                    &&& t.pool.net() == network
                    &&& t.mtu == mtu
                    &&& t.registry@.len() == 0
                    &&& !t.is_ok_spec()
                    &&& t.tasks_spawned == 0 && t.tasks_finished == 0
                    &&& forall|a: u128| t.pool.is_leased(a) <==> a == network.gateway_addr()
                },
                Err(e) => e == RumbleError::ConfigError && !network.usable(),
            },
    {
        let pool = AddressPool::new(network)?;
        Ok(
            RumbleTunnel {
                name,
                mtu,
                pool,
                registry: Vec::new(),
                tasks_spawned: 0,
                tasks_finished: 0,
            },
        )
    }

    /// True iff at least one task exists and none has finished.
    pub fn is_ok(&self) -> (r: bool)
        ensures
            r == self.is_ok_spec(),
    {
        self.tasks_spawned > 0 && self.tasks_finished == 0
    }

    /// Records the spawn of the tunnel's four tasks; a running tunnel
    /// refuses to start again. A tunnel started fresh (or right after
    /// `stop`) is ok.
    pub fn start(&mut self) -> (r: Result<(), RumbleError>)
        requires
            old(self).tasks_spawned <= usize::MAX - TUNNEL_TASK_COUNT,
        ensures
            old(self).is_ok_spec() ==> r == Err::<(), RumbleError>(RumbleError::AlreadyRunning)
                && *final(self) == *old(self),
            !old(self).is_ok_spec() ==> r == Ok::<(), RumbleError>(()) && *final(self) == (
            RumbleTunnel {
                tasks_spawned: (old(self).tasks_spawned + TUNNEL_TASK_COUNT) as usize,
                ..*old(self)
            }),
            old(self).tasks_spawned == 0 && old(self).tasks_finished == 0 ==> final(self).is_ok_spec(),
    {
        if self.is_ok() {
            return Err(RumbleError::AlreadyRunning);
        }
        self.tasks_spawned = self.tasks_spawned + TUNNEL_TASK_COUNT;
        Ok(())
    }

    /// Records that every task was aborted or joined; afterwards the tunnel
    /// is not ok, and nothing else about it changed.
    pub fn stop(&mut self)
        ensures
            *final(self) == (RumbleTunnel { tasks_spawned: 0, tasks_finished: 0, ..*old(self) }),
            !final(self).is_ok_spec(),
    {
        self.tasks_spawned = 0;
        self.tasks_finished = 0;
    }

    /// Records that the runtime saw one pump task finish.
    pub fn note_task_finished(&mut self)
        requires
            old(self).tasks_finished < old(self).tasks_spawned,
        ensures
            *final(self) == (RumbleTunnel {
                tasks_finished: (old(self).tasks_finished + 1) as usize,
                ..*old(self)
            }),
            !final(self).is_ok_spec(),
    {
        self.tasks_finished = self.tasks_finished + 1;
    }

    /// The accept path: leases the lowest free address and registers a
    /// fresh, started, unauthenticated connection under it. On pool
    /// exhaustion nothing changes and the caller closes the peer.
    pub fn accept_connection(&mut self) -> (r: Result<u128, RumbleError>)
        requires
            old(self).wf(),
        ensures
            final(self).wf(),
            final(self).pool.net() == old(self).pool.net(),
            final(self).mtu == old(self).mtu,
            match r {
                Ok(addr) => {
                    &&& old(self).pool.net().allocatable(addr as int)
                    &&& !old(self).pool.is_leased(addr)
                    &&& !old(self).has_entry(addr)
                    &&& final(self).registry@ == old(self).registry@.push(
                        ConnectionEntry {
                            addr,
                            conn: RumbleConnection {
                                auth: AuthState::Unauthenticated,
                                client_address: Lease::for_network(old(self).pool.net(), addr),
                                tasks_spawned: 1,
                                tasks_finished: 0,
                            },
                        },
                    )
                    &&& forall|a: u128|
                        final(self).pool.is_leased(a) <==> (old(self).pool.is_leased(a) || a
                            == addr)
                    &&& forall|a: u128|
                        old(self).pool.net().allocatable(a as int) && a < addr ==> old(
                            self,
                        ).pool.is_leased(a)
                },
                Err(e) => {
                    &&& e == RumbleError::PoolExhausted
                    &&& *final(self) == *old(self)
                    &&& forall|a: u128|
                        old(self).pool.net().allocatable(a as int) ==> old(self).pool.is_leased(a)
                },
            },
    {
        let lease = match self.pool.allocate() {
            Ok(lease) => lease,
            Err(e) => {
                return Err(e);
            },
        };
        let addr = lease.addr;
        let mut conn = RumbleConnection::new(lease);
        let started = conn.start();
        proof {
            assert(started is Ok);
            assert(!old(self).has_entry(addr));
        }
        let entry = ConnectionEntry { addr, conn };
        self.registry.push(entry);
        proof {
            let n = old(self).registry@.len() as int;
            assert(self.registry@ =~= old(self).registry@.push(entry));
            assert forall|a: u128|
                #[trigger] self.pool.is_leased(a) && a != self.pool.net().gateway_addr()
                    implies self.has_entry(a) by {
                if a == addr {
                    assert(self.registry@[n].addr == a);
                } else {
                    assert(old(self).pool.is_leased(a));
                    let i = choose|i: int|
                        0 <= i < old(self).registry@.len() && old(self).registry@[i].addr == a;
                    assert(self.registry@[i].addr == a);
                }
            }
        }
        Ok(addr)
    }

    /// The registry slot holding `addr`, if any.
    pub fn find_index(&self, addr: u128) -> (r: Option<usize>)
        ensures
            match r {
                Some(i) => i < self.registry@.len() && self.registry@[i as int].addr == addr,
                None => !self.has_entry(addr),
            },
    {
        let n = self.registry.len();
        let mut i: usize = 0;
        while i < n
            invariant
                i <= n,
                n == self.registry@.len(),
                forall|k: int| 0 <= k < i ==> self.registry@[k].addr != addr,
            decreases n - i,
        {
            if self.registry[i].addr == addr {
                return Some(i);
            }
            i = i + 1;
        }
        None
    }

    /// Reads one registry slot.
    pub fn entry_at(&self, i: usize) -> (r: ConnectionEntry)
        requires
            i < self.registry@.len(),
        ensures
            r == self.registry@[i as int],
    {
        self.registry[i]
    }

    /// The TUN-to-peers routing decision: the slot of the connection whose
    /// leased address is the frame's destination, provided the frame's
    /// family is the tunnel's. A frame with no such peer is dropped by the
    /// caller.
    pub fn route_lookup(&self, frame: &Vec<u8>) -> (r: Option<usize>)
        ensures
            match spec_dest_of(frame@) {
                Some(d) => {
                    if d.1 == self.pool.net().v4 && self.has_entry(d.0) {
                        r matches Some(i) && i < self.registry@.len()
                            && self.registry@[i as int].addr == d.0
                    } else {
                        r is None
                    }
                },
                None => r is None,
            },
    {
        let dest = crate::packet::dest_of_packet(frame);
        match dest {
            None => None,
            Some((addr, v4)) => {
                if v4 != self.pool.network.v4 {
                    return None;
                }
                self.find_index(addr)
            },
        }
    }

    /// Applies one authentication event to the connection in slot `i` and
    /// hands back the reply owed. The tunnel invariant is untouched: the
    /// slot keeps its address and lease.
    pub fn conn_handle_auth_event(&mut self, i: usize, event: AuthEvent, db: &UserDatabase) -> (r:
        AuthAction)
        requires
            old(self).wf(),
            i < old(self).registry@.len(),
        ensures
            final(self).wf(),
            ({
                let e = old(self).registry@[i as int];
                let step = spec_server_auth_step(e.conn.auth, event, db, e.conn.client_address);
                &&& r == step.1
                &&& final(self).registry@ == old(self).registry@.update(
                    i as int,
                    ConnectionEntry { conn: RumbleConnection { auth: step.0, ..e.conn }, ..e },
                )
            }),
            final(self).pool == old(self).pool,
            final(self).mtu == old(self).mtu,
            final(self).tasks_spawned == old(self).tasks_spawned,
            final(self).tasks_finished == old(self).tasks_finished,
            old(self).registry@[i as int].conn.auth matches AuthState::Authenticated(_) ==> final(self).registry@[i as int].conn.auth == old(self).registry@[i as int].conn.auth,
            r matches AuthAction::Reply(m) ==> (m matches ServerHello::Accepted { address }
                ==> lease_wf(address)),
    {
        proof {
            lemma_network_span_fits(self.pool.network);
            vstd::arithmetic::power2::lemma2_to64();
        }
        let entry = self.registry[i];
        let mut conn = entry.conn;
        let action = conn.handle_auth_event(event, db);
        let new_entry = ConnectionEntry { addr: entry.addr, conn };
        self.registry[i] = new_entry;
        proof {
            assert(self.registry@ =~= old(self).registry@.update(i as int, new_entry));
            assert forall|a: u128|
                #[trigger] self.pool.is_leased(a) && a != self.pool.net().gateway_addr()
                    implies self.has_entry(a) by {
                let k = choose|k: int|
                    0 <= k < old(self).registry@.len() && old(self).registry@[k].addr == a;
                assert(self.registry@[k].addr == a);
            }
        }
        action
    }

    /// Records that the runtime saw the ingest task of slot `i` finish; the
    /// slot's connection is no longer ok and the next sweep removes it.
    pub fn conn_note_task_finished(&mut self, i: usize)
        requires
            old(self).wf(),
            i < old(self).registry@.len(),
            old(self).registry@[i as int].conn.tasks_finished < old(self).registry@[
                i as int
            ].conn.tasks_spawned,
        ensures
            final(self).wf(),
            ({
                let e = old(self).registry@[i as int];
                final(self).registry@ == old(self).registry@.update(
                    i as int,
                    ConnectionEntry {
                        conn: RumbleConnection {
                            tasks_finished: (e.conn.tasks_finished + 1) as usize,
                            ..e.conn
                        },
                        ..e
                    },
                )
            }),
            final(self).pool == old(self).pool,
            !entry_live(final(self).registry@[i as int]),
    {
        let entry = self.registry[i];
        let mut conn = entry.conn;
        conn.note_task_finished();
        let new_entry = ConnectionEntry { addr: entry.addr, conn };
        self.registry[i] = new_entry;
        proof {
            assert(self.registry@ =~= old(self).registry@.update(i as int, new_entry));
            assert forall|a: u128|
                #[trigger] self.pool.is_leased(a) && a != self.pool.net().gateway_addr()
                    implies self.has_entry(a) by {
                let k = choose|k: int|
                    0 <= k < old(self).registry@.len() && old(self).registry@[k].addr == a;
                assert(self.registry@[k].addr == a);
            }
        }
    }

    /// The cleanup pass: removes every entry whose connection is not ok or
    /// whose authentication failed, releasing its lease, and keeps the rest
    /// untouched and in order. Returns the removed addresses so the runtime
    /// can stop those connections.
    pub fn cleanup_sweep(&mut self) -> (removed: Vec<u128>)
        requires
            old(self).wf(),
        ensures
            final(self).wf(),
            final(self).pool.net() == old(self).pool.net(),
            final(self).mtu == old(self).mtu,
            final(self).tasks_spawned == old(self).tasks_spawned,
            final(self).tasks_finished == old(self).tasks_finished,
            // what was dead is gone: lease released, registry slot removed
            forall|j: int|
                0 <= j < old(self).registry@.len() && !entry_live(#[trigger] old(self).registry@[j])
                    ==> !final(self).pool.is_leased(old(self).registry@[j].addr) && !final(self).has_entry(old(self).registry@[j].addr),
            // what was live survives untouched
            forall|j: int|
                0 <= j < old(self).registry@.len() && entry_live(#[trigger] old(self).registry@[j])
                    ==> final(self).has_entry(old(self).registry@[j].addr) && final(self).pool.is_leased(old(self).registry@[j].addr),
            // every surviving slot is one of the old live slots
            forall|k: int|
                0 <= k < final(self).registry@.len() ==> survivor_of(
                    #[trigger] final(self).registry@[k],
                    old(self).registry@,
                ),
            // leases change only by those releases
            forall|a: u128|
                final(self).pool.is_leased(a) <==> (old(self).pool.is_leased(a) && !(exists|j: int|
                    0 <= j < old(self).registry@.len() && #[trigger] old(self).registry@[j].addr
                        == a && !entry_live(old(self).registry@[j]))),
            // the returned list is exactly the removed addresses
            forall|j: int|
                0 <= j < old(self).registry@.len() && !entry_live(#[trigger] old(self).registry@[j])
                    ==> removed@.contains(old(self).registry@[j].addr),
            forall|x: u128|
                removed@.contains(x) ==> exists|j: int|
                    0 <= j < old(self).registry@.len() && #[trigger] old(self).registry@[j].addr
                        == x && !entry_live(old(self).registry@[j]),
    {
        let n = self.registry.len();
        let mut kept: Vec<ConnectionEntry> = Vec::new();
        let mut removed: Vec<u128> = Vec::new();
        let ghost orig = old(self).registry@;
        let ghost mut src: Seq<int> = Seq::empty();
        let mut i: usize = 0;
        while i < n
            invariant
                i <= n,
                n == orig.len(),
                orig == old(self).registry@,
                self.registry@ == orig,
                self.pool.net() == old(self).pool.net(),
                self.mtu == old(self).mtu,
                self.name@ == old(self).name@,
                self.tasks_spawned == old(self).tasks_spawned,
                self.tasks_finished == old(self).tasks_finished,
                old(self).wf(),
                self.pool.wf(),
                kept@.len() == src.len(),
                forall|k: int|
                    0 <= k < src.len() ==> 0 <= #[trigger] src[k] < i && kept@[k] == orig[src[k]]
                        && entry_live(kept@[k]),
                forall|k1: int, k2: int| 0 <= k1 < k2 < src.len() ==> src[k1] < src[k2],
                forall|j: int|
                    0 <= j < i && entry_live(#[trigger] orig[j]) ==> exists|k: int|
                        0 <= k < src.len() && #[trigger] src[k] == j,
                forall|a: u128|
                    self.pool.is_leased(a) <==> (old(self).pool.is_leased(a) && !(exists|j: int|
                        0 <= j < i && #[trigger] orig[j].addr == a && !entry_live(orig[j]))),
                forall|j: int|
                    0 <= j < i && !entry_live(#[trigger] orig[j]) ==> removed@.contains(
                        orig[j].addr,
                    ),
                forall|x: u128|
                    removed@.contains(x) ==> exists|j: int|
                        0 <= j < i && #[trigger] orig[j].addr == x && !entry_live(orig[j]),
            decreases n - i,
        {
            let ghost ii = i as int;
            let entry = self.registry[i];
            let live = entry.conn.is_ok() && match entry.conn.auth {
                AuthState::Failed(_) => false,
                _ => true,
            };
            proof {
                assert(live == entry_live(entry));
            }
            if live {
                let ghost kept_before = kept@;
                kept.push(entry);
                proof {
                    let src_before = src;
                    src = src.push(ii);
                    assert(kept@ =~= kept_before.push(entry));
                    assert(src[src.len() - 1] == ii);
                    assert(kept@[src.len() - 1] == entry);
                    assert(forall|k: int| 0 <= k < src_before.len() ==> src[k] == #[trigger] src_before[k]);
                    assert forall|j: int|
                        0 <= j < ii + 1 && entry_live(#[trigger] orig[j]) implies exists|k: int|
                        0 <= k < src.len() && #[trigger] src[k] == j by {
                        if j == ii {
                            assert(src[src.len() - 1] == j);
                        } else {
                            let k = choose|k: int|
                                0 <= k < src_before.len() && #[trigger] src_before[k] == j;
                            assert(src[k] == j);
                        }
                    }
                    assert forall|a: u128|
                        self.pool.is_leased(a) <==> (old(self).pool.is_leased(a) && !(exists|
                            j: int,
                        |
                            0 <= j < ii + 1 && #[trigger] orig[j].addr == a && !entry_live(
                                orig[j],
                            ))) by {
                        if exists|j: int|
                            0 <= j < ii + 1 && #[trigger] orig[j].addr == a && !entry_live(
                                orig[j],
                            ) {
                            let j = choose|j: int|
                                0 <= j < ii + 1 && #[trigger] orig[j].addr == a && !entry_live(
                                    orig[j],
                                );
                            assert(j != ii);
                        }
                    }
                }
            } else {
                self.pool.release(entry.addr);
                let ghost removed_before = removed@;
                removed.push(entry.addr);
                proof {
                    assert(entry.addr != self.pool.net().gateway_addr());
                    assert(removed@ =~= removed_before.push(entry.addr));
                    assert forall|j: int|
                        0 <= j < ii + 1 && !entry_live(#[trigger] orig[j]) implies removed@
                        .contains(orig[j].addr) by {
                        if j == ii {
                            assert(removed@[removed@.len() - 1] == orig[j].addr);
                        } else {
                            let t = choose|t: int|
                                0 <= t < removed_before.len() && removed_before[t] == orig[j].addr;
                            assert(removed@[t] == orig[j].addr);
                        }
                    }
                    assert forall|x: u128| removed@.contains(x) implies exists|j: int|
                        0 <= j < ii + 1 && #[trigger] orig[j].addr == x && !entry_live(
                            orig[j],
                        ) by {
                        let t = choose|t: int| 0 <= t < removed@.len() && removed@[t] == x;
                        if t < removed@.len() - 1 {
                            assert(removed_before[t] == x);
                            assert(removed_before.contains(x));
                        } else {
                            assert(orig[ii].addr == x && !entry_live(orig[ii]));
                        }
                    }
                    assert forall|a: u128|
                        self.pool.is_leased(a) <==> (old(self).pool.is_leased(a) && !(exists|
                            j: int,
                        |
                            0 <= j < ii + 1 && #[trigger] orig[j].addr == a && !entry_live(
                                orig[j],
                            ))) by {
                        if a == entry.addr {
                            assert(orig[ii].addr == a && !entry_live(orig[ii]));
                        } else {
                            if exists|j: int|
                                0 <= j < ii + 1 && #[trigger] orig[j].addr == a && !entry_live(
                                    orig[j],
                                ) {
                                let j = choose|j: int|
                                    0 <= j < ii + 1 && #[trigger] orig[j].addr == a
                                        && !entry_live(orig[j]);
                                assert(j != ii);
                            }
                        }
                    }
                }
            }
            i = i + 1;
        }
        self.registry = kept;
        proof {
            // uniqueness of the surviving addresses
            assert forall|x: int, y: int|
                0 <= x < y < self.registry@.len() implies self.registry@[x].addr
                != self.registry@[y].addr by {
                assert(src[x] < src[y]);
            }
            // every surviving slot is one of the old live slots
            assert forall|k: int| 0 <= k < self.registry@.len() implies survivor_of(
                self.registry@[k],
                old(self).registry@,
            ) by {
                let j = src[k];
                assert(0 <= j < old(self).registry@.len());
                assert(old(self).registry@[j] == self.registry@[k]);
                assert(entry_live(old(self).registry@[j]));
            }
            // surviving slots keep their leases
            assert forall|k: int|
                0 <= k < self.registry@.len() implies self.pool.is_leased(
                #[trigger] self.registry@[k].addr) by {
                let j = src[k];
                assert(self.registry@[k] == orig[j] && entry_live(orig[j]));
                assert(old(self).pool.is_leased(orig[j].addr));
                if !self.pool.is_leased(orig[j].addr) {
                    let j2 = choose|j2: int|
                        0 <= j2 < orig.len() && #[trigger] orig[j2].addr == orig[j].addr
                            && !entry_live(orig[j2]);
                    if j2 != j {
                        assert(false);
                    }
                }
            }
            // every leased non-gateway address still has its slot
            assert forall|a: u128|
                #[trigger] self.pool.is_leased(a) && a != self.pool.net().gateway_addr()
                    implies self.has_entry(a) by {
                assert(old(self).pool.is_leased(a));
                let j = choose|j: int| 0 <= j < orig.len() && #[trigger] orig[j].addr == a;
                if !entry_live(orig[j]) {
                    assert(!self.pool.is_leased(a));
                }
                let k = choose|k: int| 0 <= k < src.len() && #[trigger] src[k] == j;
                assert(self.registry@[k].addr == a);
            }
            // what was dead is gone
            assert forall|j: int|
                0 <= j < orig.len() && !entry_live(#[trigger] orig[j]) implies !self.pool
                .is_leased(orig[j].addr) && !self.has_entry(orig[j].addr) by {
                assert(!self.pool.is_leased(orig[j].addr));
                if self.has_entry(orig[j].addr) {
                    let k = choose|k: int|
                        0 <= k < self.registry@.len() && self.registry@[k].addr == orig[j].addr;
                    let sj = src[k];
                    assert(orig[sj].addr == orig[j].addr);
                    assert(entry_live(orig[sj]));
                    if sj != j {
                        assert(false);
                    }
                }
            }
            // what was live survives
            assert forall|j: int|
                0 <= j < orig.len() && entry_live(#[trigger] orig[j]) implies self.has_entry(
                orig[j].addr) && self.pool.is_leased(orig[j].addr) by {
                let k = choose|k: int| 0 <= k < src.len() && #[trigger] src[k] == j;
                assert(self.registry@[k].addr == orig[j].addr);
                assert(self.pool.is_leased(self.registry@[k].addr));
            }
        }
        removed
    }
}

/// A frame whose destination is a registered, authenticated peer, and which
/// fits the peer's maximum datagram size, is routed to that peer and passes
/// the send gate: it leaves as one datagram, byte for byte the frame that
/// was read from the TUN device.
pub proof fn lemma_outbound_frame_delivered(
    t: RumbleTunnel,
    frame: Seq<u8>,
    i: int,
    max_size: usize,
)
    requires
        t.wf(),
        0 <= i < t.registry@.len(),
        spec_dest_of(frame) == Some((t.registry@[i].addr, t.pool.net().v4)),
        t.registry@[i].conn.auth matches AuthState::Authenticated(_),
        frame.len() <= max_size,
    ensures
        t.has_entry(t.registry@[i].addr),
        spec_send_outcome(t.registry@[i].conn.auth, frame.len() as int, Some(max_size))
            == Ok::<(), RumbleError>(()),
{
    let a = t.registry@[i].addr;
    assert(t.has_entry(a)) by {
        assert(0 <= i < t.registry@.len() && t.registry@[i].addr == a);
    }
}

} // verus!
