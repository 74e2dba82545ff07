//! The server model: every configured tunnel is built up front (one bad
//! network is fatal before anything starts), and the supervisor's periodic
//! rule restarts any tunnel that is no longer ok.

use vstd::prelude::*;
use crate::config::{ServerConfig, TunnelConfig};
use crate::errors::RumbleError;
use crate::tunnel::{RumbleTunnel, TUNNEL_TASK_COUNT};

verus! {

/// What one supervisor pass leaves of one tunnel: an ok tunnel is untouched,
/// a degraded one is stopped and started again, keeping its pool, registry
/// and configuration.
pub open spec fn supervised(o: RumbleTunnel, n: RumbleTunnel) -> bool {
    if o.is_ok_spec() {
        n == o
    } else {
        n == (RumbleTunnel { tasks_spawned: TUNNEL_TASK_COUNT, tasks_finished: 0, ..o })
    }
}

/// The server: all configured tunnels.
#[derive(Debug)]
pub struct RumbleServer {
    pub active_tunnels: Vec<RumbleTunnel>,
}

impl RumbleServer {
    /// Builds every configured tunnel, none of them started. One unusable
    /// tunnel network fails the whole construction.
    pub fn new(config: ServerConfig) -> (r: Result<RumbleServer, RumbleError>)
        ensures
            (forall|i: int|
                0 <= i < config.tunnels@.len() ==> (#[trigger] config.tunnels@[i]).network.usable())
                ==> matches!(r, Ok(_)),
            match r {
                Ok(s) => {
                    &&& s.active_tunnels@.len() == config.tunnels@.len()
                    &&& forall|i: int|
                        0 <= i < s.active_tunnels@.len() ==> {
                            let t = #[trigger] s.active_tunnels@[i];
                            &&& t.wf()
                            &&& t.pool.net() == config.tunnels@[i].network
                            &&& t.mtu == config.connection.mtu
                            &&& t.registry@.len() == 0
                            &&& t.tasks_spawned == 0
                            &&& t.tasks_finished == 0
                            &&& forall|a: u128|
                                t.pool.is_leased(a) <==> a == config.tunnels@[
                                    i
                                ].network.gateway_addr()
                        }
                },
                Err(e) => {
                    &&& e == RumbleError::ConfigError
                    &&& exists|i: int|
                        0 <= i < config.tunnels@.len() && !(#[trigger] config.tunnels@[
                            i
                        ]).network.usable()
                },
            },
    {
        let mtu = config.connection.mtu;
        let mut cfgs = config.tunnels;
        let ghost orig = cfgs@;
        let mut tunnels: Vec<RumbleTunnel> = Vec::new();
        while cfgs.len() > 0
            invariant
                orig == config.tunnels@,
                mtu == config.connection.mtu,
                tunnels@.len() + cfgs@.len() == orig.len(),
                cfgs@ == orig.subrange(tunnels@.len() as int, orig.len() as int),
                forall|k: int|
                    0 <= k < tunnels@.len() ==> {
                        let t = #[trigger] tunnels@[k];
                        &&& t.wf()
                        &&& t.pool.net() == orig[k].network
                        &&& t.mtu == mtu
                        &&& t.registry@.len() == 0
                        &&& t.tasks_spawned == 0
                        &&& t.tasks_finished == 0
                        &&& forall|a: u128|
                            t.pool.is_leased(a) <==> a == orig[k].network.gateway_addr()
                    },
            decreases cfgs@.len(),
        {
            let ghost k = tunnels@.len() as int;
            let c = cfgs.remove(0);
            proof {
                assert(c == orig[k]);
                assert(cfgs@ =~= orig.subrange(k + 1, orig.len() as int));
            }
            let TunnelConfig { name, network, users: _ } = c;
            match RumbleTunnel::new(name, network, mtu) {
                Ok(t) => {
                    tunnels.push(t);
                },
                Err(e) => {
                    proof {
                        assert(!(#[trigger] config.tunnels@[k]).network.usable());
                    }
                    return Err(e);
                },
            }
        }
        proof {
            assert(orig == config.tunnels@);
        }
        Ok(RumbleServer { active_tunnels: tunnels })
    }

    /// How many tunnels the server holds.
    pub fn tunnel_count(&self) -> (r: usize)
        ensures
            r == self.active_tunnels@.len(),
    {
        self.active_tunnels.len()
    }

    /// Starts every tunnel of a freshly built server; they are all ok after.
    pub fn start_all(&mut self)
        requires
            forall|i: int|
                0 <= i < old(self).active_tunnels@.len() ==> (#[trigger] old(self).active_tunnels@[
                    i
                ]).tasks_spawned == 0 && old(self).active_tunnels@[i].tasks_finished == 0,
        ensures
            final(self).active_tunnels@.len() == old(self).active_tunnels@.len(),
            forall|i: int|
                0 <= i < final(self).active_tunnels@.len() ==> #[trigger] final(self).active_tunnels@[i] == (RumbleTunnel {
                    tasks_spawned: TUNNEL_TASK_COUNT,
                    tasks_finished: 0,
                    ..old(self).active_tunnels@[i]
                }),
            forall|i: int|
                0 <= i < final(self).active_tunnels@.len() ==> (#[trigger] final(self).active_tunnels@[i]).is_ok_spec(),
    {
        let n = self.active_tunnels.len();
        let ghost orig = self.active_tunnels@;
        let mut updated: Vec<RumbleTunnel> = Vec::new();
        while self.active_tunnels.len() > 0
            invariant
                orig == old(self).active_tunnels@,
                orig.len() == n,
                updated@.len() + self.active_tunnels@.len() == n,
                self.active_tunnels@ == orig.subrange(updated@.len() as int, n as int),
                forall|i: int|
                    0 <= i < n ==> (#[trigger] orig[i]).tasks_spawned == 0
                        && orig[i].tasks_finished == 0,
                forall|j: int|
                    0 <= j < updated@.len() ==> #[trigger] updated@[j] == (RumbleTunnel {
                        tasks_spawned: TUNNEL_TASK_COUNT,
                        tasks_finished: 0,
                        ..orig[j]
                    }),
            decreases self.active_tunnels@.len(),
        {
            let ghost k = updated@.len() as int;
            let mut t = self.active_tunnels.remove(0);
            proof {
                assert(t == orig[k]);
                assert(self.active_tunnels@ =~= orig.subrange(k + 1, n as int));
            }
            let started = t.start();
            proof {
                assert(started is Ok);
            }
            updated.push(t);
        }
        self.active_tunnels = updated;
    }

    /// One supervisor pass: every tunnel that is not ok is stopped and
    /// started again; every tunnel is ok afterwards, and nothing but the
    /// task bookkeeping of the degraded ones changed.
    pub fn supervise_tick(&mut self)
        ensures
            final(self).active_tunnels@.len() == old(self).active_tunnels@.len(),
            forall|i: int|
                0 <= i < final(self).active_tunnels@.len() ==> supervised(
                    old(self).active_tunnels@[i],
                    #[trigger] final(self).active_tunnels@[i],
                ),
            forall|i: int|
                0 <= i < final(self).active_tunnels@.len() ==> (#[trigger] final(self).active_tunnels@[i]).is_ok_spec(),
    {
        let n = self.active_tunnels.len();
        let ghost orig = self.active_tunnels@;
        let mut updated: Vec<RumbleTunnel> = Vec::new();
        while self.active_tunnels.len() > 0
            invariant
                orig == old(self).active_tunnels@,
                orig.len() == n,
                updated@.len() + self.active_tunnels@.len() == n,
                self.active_tunnels@ == orig.subrange(updated@.len() as int, n as int),
                forall|j: int|
                    0 <= j < updated@.len() ==> supervised(orig[j], #[trigger] updated@[j])
                        && updated@[j].is_ok_spec(),
            decreases self.active_tunnels@.len(),
        {
            let ghost k = updated@.len() as int;
            let mut t = self.active_tunnels.remove(0);
            proof {
                assert(t == orig[k]);
                assert(self.active_tunnels@ =~= orig.subrange(k + 1, n as int));
            }
            if !t.is_ok() {
                t.stop();
                let restarted = t.start();
                proof {
                    assert(restarted is Ok);
                }
            }
            proof {
                assert(supervised(orig[k], t));
            }
            updated.push(t);
        }
        self.active_tunnels = updated;
    }
}

} // verus!
