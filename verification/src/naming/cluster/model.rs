//! Messages between a node and the senders that forward to its peers.
use crate::naming::model::{Instance, InstanceUpdateTag, ServiceKey, ServiceKeyView};
use std::sync::Arc;
use vstd::prelude::*;
use vstd::string::*;

verus! {

/// The kinds of request one node forwards to another.
#[derive(Clone, Copy, Debug, PartialEq, Eq, Structural)]
pub enum RouteKind {
    Ping,
    InstanceUpdate,
    InstanceRemove,
    SubscribeSnapshot,
    ServiceMetadataUpdate,
}

impl RouteKind {
    /// The tag by which the receiving node picks the handler.
    pub open spec fn sub_name(self) -> Seq<char> {
        match self {
            RouteKind::Ping => "Ping"@,
            RouteKind::InstanceUpdate => "InstanceUpdate"@,
            RouteKind::InstanceRemove => "InstanceRemove"@,
            RouteKind::SubscribeSnapshot => "SubscribeSnapshot"@,
            RouteKind::ServiceMetadataUpdate => "ServiceMetadataUpdate"@,
        }
    }
}

/// A request one node forwards to another.
pub enum NamingRouteRequest {
    /// A liveness probe that carries the sender's node id.
    Ping(u64),
    /// An instance was registered or refreshed.
    InstanceUpdate { instance: Instance, tag: Option<InstanceUpdateTag> },
    /// An instance was taken out.
    InstanceRemove { instance: Instance },
    /// The services that clients of the sending node subscribe to.
    SubscribeSnapshot { service_keys: Vec<ServiceKey> },
    /// The metadata of a service changed.
    ServiceMetadataUpdate { service_key: ServiceKey },
}

impl NamingRouteRequest {
    /// The kind of the request.
    pub open spec fn kind(self) -> RouteKind {
        match self {
            NamingRouteRequest::Ping(_) => RouteKind::Ping,
            NamingRouteRequest::InstanceUpdate { .. } => RouteKind::InstanceUpdate,
            NamingRouteRequest::InstanceRemove { .. } => RouteKind::InstanceRemove,
            NamingRouteRequest::SubscribeSnapshot { .. } => RouteKind::SubscribeSnapshot,
            NamingRouteRequest::ServiceMetadataUpdate { .. } => RouteKind::ServiceMetadataUpdate,
        }
    }

    /// The tag by which the receiving node picks the handler.
    pub fn get_sub_name(&self) -> (name: &'static str)
        ensures
            name@ == self.kind().sub_name(),
    {
        match self {
            NamingRouteRequest::Ping(_) => "Ping",
            NamingRouteRequest::InstanceUpdate { .. } => "InstanceUpdate",
            NamingRouteRequest::InstanceRemove { .. } => "InstanceRemove",
            NamingRouteRequest::SubscribeSnapshot { .. } => "SubscribeSnapshot",
            NamingRouteRequest::ServiceMetadataUpdate { .. } => "ServiceMetadataUpdate",
        }
    }

    /// Tells whether the request is a liveness probe.
    pub fn is_ping(&self) -> (ping: bool)
        ensures
            ping == (self.kind() == RouteKind::Ping),
    {
        match self {
            NamingRouteRequest::Ping(_) => true,
            _ => false,
        }
    }
}

/// The views of a list of service keys, in order.
pub open spec fn key_views(keys: Seq<ServiceKey>) -> Seq<ServiceKeyView> {
    Seq::new(keys.len(), |i: int| keys[i]@)
}

impl NamingRouteRequest {
    /// `self` and `other` are the same request.
    pub open spec fn same_as(self, other: NamingRouteRequest) -> bool {
        match (self, other) {
            (NamingRouteRequest::Ping(a), NamingRouteRequest::Ping(b)) => a == b,
            (
                NamingRouteRequest::InstanceUpdate { instance: a, tag: s },
                NamingRouteRequest::InstanceUpdate { instance: b, tag: t },
            ) => a@ == b@ && s == t,
            (
                NamingRouteRequest::InstanceRemove { instance: a },
                NamingRouteRequest::InstanceRemove { instance: b },
            ) => a@ == b@,
            (
                NamingRouteRequest::SubscribeSnapshot { service_keys: a },
                NamingRouteRequest::SubscribeSnapshot { service_keys: b },
            ) => key_views(a@) == key_views(b@),
            (
                NamingRouteRequest::ServiceMetadataUpdate { service_key: a },
                NamingRouteRequest::ServiceMetadataUpdate { service_key: b },
            ) => a@ == b@,
            _ => false,
        }
    }
}

impl Clone for NamingRouteRequest {
    fn clone(&self) -> (copy: Self)
        ensures
            copy.same_as(*self),
            copy.kind() == self.kind(),
    {
        match self {
            NamingRouteRequest::Ping(id) => NamingRouteRequest::Ping(*id),
            NamingRouteRequest::InstanceUpdate { instance, tag } => NamingRouteRequest::InstanceUpdate {
                instance: instance.clone(),
                tag: *tag,
            },
            NamingRouteRequest::InstanceRemove { instance } => NamingRouteRequest::InstanceRemove {
                instance: instance.clone(),
            },
            NamingRouteRequest::SubscribeSnapshot { service_keys } => {
                let mut keys: Vec<ServiceKey> = Vec::new();
                let n = service_keys.len();
                let mut i: usize = 0;
                while i < n
                    invariant
                        n == service_keys@.len(),
                        i <= n,
                        keys@.len() == i,
                        forall|j: int| 0 <= j < i ==> keys@[j]@ == service_keys@[j]@,
                    decreases n - i,
                {
                    keys.push(service_keys[i].clone());
                    i += 1;
                }
                assert(key_views(keys@) =~= key_views(service_keys@));
                NamingRouteRequest::SubscribeSnapshot { service_keys: keys }
            },
            NamingRouteRequest::ServiceMetadataUpdate { service_key } => NamingRouteRequest::ServiceMetadataUpdate {
                service_key: service_key.clone(),
            },
        }
    }
}

/// What a peer answers to a forwarded request.
pub enum NamingRouterResponse {
    /// The peer took the request and has nothing to add.
    Empty,
}

/// A request handed to a sender for forwarding.
pub struct SyncSenderRequest(pub NamingRouteRequest);

/// What a sender reports when it is done.
#[derive(Clone, Copy, Debug, PartialEq, Eq, Structural)]
pub enum SyncSenderResponse {
    /// The request went through.
    Empty,
}

/// A change to a sender's settings.
pub enum SyncSenderSetCmd {
    /// The peer moved to another address.
    UpdateTargetAddr(Arc<String>),
}

} // verus!
