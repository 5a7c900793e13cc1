//! Where a naming change goes: this node only, or this node and its peers.
//!
//! A change that a client brought is applied here and forwarded to every
//! peer. A change that a peer forwarded is applied here and goes no
//! further. What becomes of the forwarding never fails the client's
//! request.
use crate::common::constant::GRPC_HEAD_KEY_CLUSTER_ID;
use crate::common::string_map::{text_map, StringMap};
use crate::common::text::{decimal, to_decimal};
use crate::naming::cluster::model::{NamingRouteRequest, SyncSenderResponse};
use crate::naming::model::{Instance, InstanceUpdateTag, NamingError};
use vstd::prelude::*;
use vstd::string::*;

verus! {

/// How often the health sweep runs, unless the router is told otherwise,
/// in milliseconds.
pub const DEFAULT_SWEEP_INTERVAL_MS: u64 = 5000;

/// What to do with a change.
pub struct RoutePlan {
    /// The request to forward, if it is to be forwarded at all.
    pub forward: Option<NamingRouteRequest>,
    /// The peers to forward it to, in the order of the cluster view.
    pub targets: Vec<u64>,
}

/// The headers say that the request was forwarded by a node other than
/// `local_id`.
pub open spec fn from_peer(headers: Map<Seq<char>, Seq<char>>, local_id: u64) -> bool {
    headers.contains_key(GRPC_HEAD_KEY_CLUSTER_ID@) && headers[GRPC_HEAD_KEY_CLUSTER_ID@]
        != decimal(local_id as nat)
}

/// The test that tells the nodes other than `local_id`.
pub open spec fn other_than(local_id: u64) -> spec_fn(u64) -> bool {
    |id: u64| id != local_id
}

/// The nodes of the cluster view other than `local_id`, in order.
pub open spec fn peers_of(view: Seq<u64>, local_id: u64) -> Seq<u64> {
    view.filter(other_than(local_id))
}

/// The peers among `results` whose forwarding failed, in order.
pub open spec fn failed_peers(results: Seq<(u64, Result<SyncSenderResponse, NamingError>)>) -> Seq<
    u64,
> {
    results.filter(|r: (u64, Result<SyncSenderResponse, NamingError>)| r.1 is Err).map_values(
        |r: (u64, Result<SyncSenderResponse, NamingError>)| r.0,
    )
}

/// The router of one node.
pub struct NamingRoute {
    local_id: u64,
    sweep_interval_ms: u64,
}

impl NamingRoute {
    /// The id of this node.
    pub closed spec fn local_id(self) -> u64 {
        self.local_id
    }

    /// The time between two health sweeps, in milliseconds.
    pub closed spec fn sweep_interval(self) -> u64 {
        self.sweep_interval_ms
    }

    /// The router of the node `local_id`, with the usual sweep interval.
    pub fn new(local_id: u64) -> (route: Self)
        ensures
            route.local_id() == local_id,
            route.sweep_interval() == DEFAULT_SWEEP_INTERVAL_MS,
    {
        NamingRoute { local_id, sweep_interval_ms: DEFAULT_SWEEP_INTERVAL_MS }
    }

    /// Tells whether a request with these headers was forwarded by
    /// another node.
    pub fn is_from_peer(&self, headers: &StringMap) -> (forwarded: bool)
        ensures
            forwarded == from_peer(text_map(headers@), self.local_id()),
    {
        let key = GRPC_HEAD_KEY_CLUSTER_ID.to_owned();
        match headers.get(&key) {
            Some(value) => {
                let own = to_decimal(self.local_id);
                !(*value == own)
            },
            None => false,
        }
    }

    fn peers(&self, view: &Vec<u64>) -> (targets: Vec<u64>)
        ensures
            targets@ == peers_of(view@, self.local_id()),
    {
        let ghost pred = other_than(self.local_id);
        let mut targets: Vec<u64> = Vec::new();
        let n = view.len();
        let mut i: usize = 0;
        proof {
            reveal(Seq::filter);
            assert(view@.take(0) =~= Seq::empty());
        }
        while i < n
            invariant
                n == view@.len(),
                i <= n,
                pred == other_than(self.local_id),
                targets@ == view@.take(i as int).filter(pred),
            decreases n - i,
        {
            proof {
                reveal(Seq::filter);
                let after = view@.take(i + 1);
                assert(after.drop_last() =~= view@.take(i as int));
                assert(after.last() == view@[i as int]);
            }
            if view[i] != self.local_id {
                targets.push(view[i]);
            }
            i += 1;
        }
        assert(view@.take(n as int) =~= view@);
        targets
    }

    /// Plans the registration of `instance`. An instance that names no
    /// address or no cluster is refused. One that a peer forwarded is
    /// applied here only; one that a client brought is also forwarded to
    /// every other node of the cluster view.
    pub fn update_instance(
        &self,
        instance: &Instance,
        tag: Option<InstanceUpdateTag>,
        forwarded: bool,
        view: &Vec<u64>,
    ) -> (plan: Result<RoutePlan, NamingError>)
        ensures
            plan is Ok == instance@.is_valid(),
            plan matches Err(e) ==> e is InvalidInstance,
            plan matches Ok(p) ==> if forwarded {
                p.forward is None && p.targets@ == Seq::<u64>::empty()
            } else {
                p.targets@ == peers_of(view@, self.local_id()) && (
                p.forward matches Some(NamingRouteRequest::InstanceUpdate { instance: i, tag: t })
                    && i@ == instance@ && t == tag)
            },
    {
        if !instance.check_valid() {
            return Err(NamingError::InvalidInstance);
        }
        if forwarded {
            return Ok(RoutePlan { forward: None, targets: Vec::new() });
        }
        Ok(
            RoutePlan {
                forward: Some(NamingRouteRequest::InstanceUpdate { instance: instance.clone(), tag }),
                targets: self.peers(view),
            },
        )
    }

    /// Plans the removal of `instance`. An instance that names no address
    /// is refused; a cluster is not asked for. The rest is as for a
    /// registration.
    pub fn delete_instance(&self, instance: &Instance, forwarded: bool, view: &Vec<u64>) -> (plan:
        Result<RoutePlan, NamingError>)
        ensures
            plan is Ok == instance@.has_identity(),
            plan matches Err(e) ==> e is InvalidInstance,
            plan matches Ok(p) ==> if forwarded {
                p.forward is None && p.targets@ == Seq::<u64>::empty()
            } else {
                p.targets@ == peers_of(view@, self.local_id()) && (
                p.forward matches Some(NamingRouteRequest::InstanceRemove { instance: i }) && i@
                    == instance@)
            },
    {
        if !instance.has_identity() {
            return Err(NamingError::InvalidInstance);
        }
        if forwarded {
            return Ok(RoutePlan { forward: None, targets: Vec::new() });
        }
        Ok(
            RoutePlan {
                forward: Some(NamingRouteRequest::InstanceRemove { instance: instance.clone() }),
                targets: self.peers(view),
            },
        )
    }

    /// What the client is told once the change was applied here and
    /// forwarded: what applying it here came to, whatever the peers
    /// reported. The peers whose forwarding failed are handed back for
    /// the log.
    pub fn settle(
        &self,
        local: Result<(), NamingError>,
        results: &Vec<(u64, Result<SyncSenderResponse, NamingError>)>,
    ) -> (out: (Result<(), NamingError>, Vec<u64>))
        ensures
            out.0 == local,
            out.1@ == failed_peers(results@),
    {
        let ghost pred = |r: (u64, Result<SyncSenderResponse, NamingError>)| r.1 is Err;
        let ghost first = |r: (u64, Result<SyncSenderResponse, NamingError>)| r.0;
        let mut failed: Vec<u64> = Vec::new();
        let n = results.len();
        let mut i: usize = 0;
        proof {
            reveal(Seq::filter);
            assert(results@.take(0) =~= Seq::empty());
            assert(results@.take(0).filter(pred).map_values(first) =~= Seq::<u64>::empty());
        }
        while i < n
            invariant
                n == results@.len(),
                i <= n,
                pred == |r: (u64, Result<SyncSenderResponse, NamingError>)| r.1 is Err,
                first == |r: (u64, Result<SyncSenderResponse, NamingError>)| r.0,
                failed@ == results@.take(i as int).filter(pred).map_values(first),
            decreases n - i,
        {
            proof {
                reveal(Seq::filter);
                let before = results@.take(i as int);
                let after = results@.take(i + 1);
                assert(after.drop_last() =~= before);
                assert(after.last() == results@[i as int]);
                if pred(results@[i as int]) {
                    assert(after.filter(pred).map_values(first) =~= before.filter(pred).map_values(
                        first,
                    ).push(results@[i as int].0));
                }
            }
            let failure = match &results[i].1 {
                Ok(_) => false,
                Err(_) => true,
            };
            if failure {
                failed.push(results[i].0);
            }
            i += 1;
        }
        assert(results@.take(n as int) =~= results@);
        (local, failed)
    }

    /// Tells whether the health sweep is due at the time `now`, when it
    /// last ran at the time `last_sweep`.
    pub fn sweep_due(&self, last_sweep: u64, now: u64) -> (due: bool)
        ensures
            due == (now - last_sweep >= self.sweep_interval()),
    {
        now >= last_sweep && now - last_sweep >= self.sweep_interval_ms
    }
}

} // verus!
