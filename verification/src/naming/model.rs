//! Identities and records of the naming subsystem.
use crate::common::keyed::Keyed;
use crate::common::string_map::{copy_string_map, text_map, StringMap};
use crate::common::text::{decimal, to_decimal};
use vstd::prelude::*;
use vstd::string::*;

verus! {

/// The namespace a request lands in when it names none.
pub const DEFAULT_NAMESPACE: &'static str = "public";

/// The cluster an instance joins when it names none.
pub const DEFAULT_CLUSTER: &'static str = "DEFAULT";

/// The group a service belongs to when it names none.
pub const DEFAULT_GROUP: &'static str = "DEFAULT_GROUP";

/// The largest port an instance may listen on.
pub const MAX_PORT: u32 = 65535;

/// Picks the namespace of a request: the given one, or `"public"` when it
/// is empty.
pub fn default_namespace(namespace_id: String) -> (out: String)
    ensures
        out@ == (if namespace_id@.len() == 0 {
            DEFAULT_NAMESPACE@
        } else {
            namespace_id@
        }),
{
    if namespace_id.as_str().is_empty() {
        DEFAULT_NAMESPACE.to_owned()
    } else {
        namespace_id
    }
}

/// Picks the cluster of an instance: the given one, or `"DEFAULT"` when it
/// is empty.
pub fn default_cluster(cluster_name: String) -> (out: String)
    ensures
        out@ == (if cluster_name@.len() == 0 {
            DEFAULT_CLUSTER@
        } else {
            cluster_name@
        }),
{
    if cluster_name.as_str().is_empty() {
        DEFAULT_CLUSTER.to_owned()
    } else {
        cluster_name
    }
}

/// Picks the group of a service: the given one, or `"DEFAULT_GROUP"` when
/// it is empty.
pub fn default_group(group_name: String) -> (out: String)
    ensures
        out@ == (if group_name@.len() == 0 {
            DEFAULT_GROUP@
        } else {
            group_name@
        }),
{
    if group_name.as_str().is_empty() {
        DEFAULT_GROUP.to_owned()
    } else {
        group_name
    }
}

/// Why a naming operation did not succeed.
#[derive(Debug, PartialEq, Eq)]
pub enum NamingError {
    /// The store holds no such instance or service.
    NotFound,
    /// The service still has instances and cannot be removed.
    ServiceHasInstances,
    /// The instance lacks an address or a cluster.
    InvalidInstance,
    /// The caller may not touch the namespace.
    NoNamespacePermission,
    /// A peer could not be reached; the text is the transport's report.
    PeerUnreachable(String),
    /// A payload could not be decoded; the text is the decoder's report.
    SerializationError(String),
    /// Anything else; the text says what.
    SystemError(String),
}

impl NamingError {
    /// The words that say why, by the characters of the text the error
    /// carries.
    pub open spec fn words(self) -> Seq<char> {
        match self {
            NamingError::NotFound => "not found"@,
            NamingError::ServiceHasInstances => "the service still has instances"@,
            NamingError::InvalidInstance => "instance check is invalid"@,
            NamingError::NoNamespacePermission => "user no such namespace permission"@,
            NamingError::PeerUnreachable(text) => "peer unreachable: "@ + text@,
            NamingError::SerializationError(text) => "serialization error: "@ + text@,
            NamingError::SystemError(text) => text@,
        }
    }

    /// Says in words why the operation did not succeed.
    pub fn message(&self) -> (text: String)
        ensures
            text@ == self.words(),
    {
        match self {
            NamingError::NotFound => "not found".to_owned(),
            NamingError::ServiceHasInstances => "the service still has instances".to_owned(),
            NamingError::InvalidInstance => "instance check is invalid".to_owned(),
            NamingError::NoNamespacePermission => "user no such namespace permission".to_owned(),
            NamingError::PeerUnreachable(text) => "peer unreachable: ".to_owned().concat(
                text.as_str(),
            ),
            NamingError::SerializationError(text) => "serialization error: ".to_owned().concat(
                text.as_str(),
            ),
            NamingError::SystemError(text) => text.clone(),
        }
    }
}

/// What a [`ServiceKey`] is: a namespace, a group and a service name.
pub struct ServiceKeyView {
    pub namespace_id: Seq<char>,
    pub group_name: Seq<char>,
    pub service_name: Seq<char>,
}

/// The identity of a service.
#[derive(Debug, PartialEq, Eq, Hash)]
pub struct ServiceKey {
    pub namespace_id: String,
    pub group_name: String,
    pub service_name: String,
}

impl View for ServiceKey {
    type V = ServiceKeyView;

    open spec fn view(&self) -> ServiceKeyView {
        ServiceKeyView {
            namespace_id: self.namespace_id@,
            group_name: self.group_name@,
            service_name: self.service_name@,
        }
    }
}

impl Clone for ServiceKey {
    fn clone(&self) -> (copy: Self)
        ensures
            copy@ == self@,
    {
        ServiceKey {
            namespace_id: self.namespace_id.clone(),
            group_name: self.group_name.clone(),
            service_name: self.service_name.clone(),
        }
    }
}

impl Keyed for ServiceKey {
    fn same(&self, other: &Self) -> (b: bool) {
        self.namespace_id == other.namespace_id && self.group_name == other.group_name
            && self.service_name == other.service_name
    }

    fn duplicate(&self) -> (copy: Self) {
        self.clone()
    }
}

impl ServiceKey {
    /// The key of the service `service_name` of group `group_name` in the
    /// namespace `namespace_id`; an empty namespace stands for `"public"`.
    pub fn new(namespace_id: &str, group_name: &str, service_name: &str) -> (key: Self)
        ensures
            key@ == (ServiceKeyView {
                namespace_id: if namespace_id@.len() == 0 {
                    DEFAULT_NAMESPACE@
                } else {
                    namespace_id@
                },
                group_name: group_name@,
                service_name: service_name@,
            }),
    {
        ServiceKey {
            namespace_id: default_namespace(namespace_id.to_owned()),
            group_name: group_name.to_owned(),
            service_name: service_name.to_owned(),
        }
    }
}

/// The load-balancing weight of an instance, kept as the bit pattern of a
/// single-precision number so that it can be stored and compared exactly.
#[derive(Clone, Copy, Debug, PartialEq, Eq, Structural)]
pub struct Weight {
    pub bits: u32,
}

impl Weight {
    /// The weight whose bit pattern is `bits`.
    pub fn from_bits(bits: u32) -> (w: Self)
        ensures
            w.bits == bits,
    {
        Weight { bits }
    }

    /// The bit pattern of the weight.
    pub fn to_bits(self) -> (bits: u32)
        ensures
            bits == self.bits,
    {
        self.bits
    }

    /// The weight 1.0, which an instance has unless it asks for another.
    pub fn one() -> (w: Self)
        ensures
            w.bits == 0x3F80_0000u32,
    {
        Weight { bits: 0x3F80_0000u32 }
    }
}

/// The denominator of a [`ProtectThreshold`]: a threshold is a number of
/// millionths.
pub const THRESHOLD_SCALE: u32 = 1_000_000;

/// The share of healthy instances below which a service hands out all its
/// instances, healthy or not. It lies between 0 and 1 and is kept in
/// millionths.
#[derive(Clone, Copy, Debug, PartialEq, Eq, Structural)]
pub struct ProtectThreshold {
    millionths: u32,
}

impl ProtectThreshold {
    /// The threshold in millionths.
    pub closed spec fn millionths(self) -> nat {
        self.millionths as nat
    }

    /// The threshold 0, which never engages.
    pub closed spec fn never() -> Self {
        ProtectThreshold { millionths: 0 }
    }

    /// The threshold is at most 1.
    pub open spec fn in_range(self) -> bool {
        self.millionths() <= THRESHOLD_SCALE
    }

    /// With `healthy` of `total` instances healthy, the healthy share is
    /// below the threshold.
    pub open spec fn engaged(self, healthy: nat, total: nat) -> bool {
        total > 0 && healthy * THRESHOLD_SCALE < self.millionths() * total
    }

    /// The threshold of `millionths` millionths, if that is at most 1.
    pub fn from_millionths(millionths: u32) -> (threshold: Option<Self>)
        ensures
            threshold.is_some() == (millionths <= THRESHOLD_SCALE),
            threshold matches Some(t) ==> t.millionths() == millionths && t.in_range(),
    {
        if millionths <= THRESHOLD_SCALE {
            Some(ProtectThreshold { millionths })
        } else {
            None
        }
    }

    /// The threshold 0, which never engages.
    pub fn zero() -> (threshold: Self)
        ensures
            threshold == ProtectThreshold::never(),
            threshold.millionths() == 0,
            threshold.in_range(),
    {
        ProtectThreshold { millionths: 0 }
    }

    /// The threshold in millionths.
    pub fn to_millionths(self) -> (millionths: u32)
        ensures
            millionths == self.millionths(),
    {
        self.millionths
    }

    /// Tells whether the healthy share `healthy / total` is below the
    /// threshold.
    pub fn is_engaged(self, healthy: usize, total: usize) -> (engaged: bool)
        ensures
            engaged == self.engaged(healthy as nat, total as nat),
    {
        if total == 0 {
            return false;
        }
        let h: u128 = healthy as u128;
        let t: u128 = total as u128;
        let m: u128 = self.millionths as u128;
        let scale: u128 = THRESHOLD_SCALE as u128;
        assert(h * scale <= 0xFFFF_FFFF_FFFF_FFFF * 0xFFFF_FFFF) by (nonlinear_arith)
            requires
                0 <= h <= 0xFFFF_FFFF_FFFF_FFFF,
                0 <= scale <= 0xFFFF_FFFF,
        ;
        assert(m * t <= 0xFFFF_FFFF * 0xFFFF_FFFF_FFFF_FFFF) by (nonlinear_arith)
            requires
                0 <= t <= 0xFFFF_FFFF_FFFF_FFFF,
                0 <= m <= 0xFFFF_FFFF,
        ;
        let left: u128 = h * scale;
        let right: u128 = m * t;
        left < right
    }
}

/// The settings of a service that an administrator may set.
pub struct ServiceDetailDto {
    pub namespace_id: String,
    pub service_name: String,
    pub group_name: String,
    pub metadata: Option<StringMap>,
    pub protect_threshold: Option<ProtectThreshold>,
}

impl ServiceDetailDto {
    /// The key of the service the settings are for.
    pub open spec fn key(self) -> ServiceKeyView {
        ServiceKeyView {
            namespace_id: self.namespace_id@,
            group_name: self.group_name@,
            service_name: self.service_name@,
        }
    }
}

/// Says which fields of an instance update are authoritative. A field that
/// is not flagged keeps the value the store already holds.
#[derive(Clone, Copy, Debug, PartialEq, Eq, Structural)]
pub struct InstanceUpdateTag {
    pub weight: bool,
    pub metadata: bool,
    pub enabled: bool,
    pub ephemeral: bool,
    pub from_update: bool,
}

/// What an [`Instance`] is.
pub struct InstanceView {
    pub namespace_id: Seq<char>,
    pub group_name: Seq<char>,
    pub service_name: Seq<char>,
    pub cluster_name: Seq<char>,
    pub ip: Seq<char>,
    pub port: u32,
    pub weight: Weight,
    pub healthy: bool,
    pub enabled: bool,
    pub ephemeral: bool,
    pub metadata: Map<Seq<char>, Seq<char>>,
    pub last_heartbeat_ms: u64,
}

/// One registered endpoint of a service.
pub struct Instance {
    pub namespace_id: String,
    pub group_name: String,
    pub service_name: String,
    pub cluster_name: String,
    pub ip: String,
    pub port: u32,
    pub weight: Weight,
    pub healthy: bool,
    pub enabled: bool,
    pub ephemeral: bool,
    pub metadata: StringMap,
    pub last_heartbeat_ms: u64,
}

impl View for Instance {
    type V = InstanceView;

    open spec fn view(&self) -> InstanceView {
        InstanceView {
            namespace_id: self.namespace_id@,
            group_name: self.group_name@,
            service_name: self.service_name@,
            cluster_name: self.cluster_name@,
            ip: self.ip@,
            port: self.port,
            weight: self.weight,
            healthy: self.healthy,
            enabled: self.enabled,
            ephemeral: self.ephemeral,
            metadata: text_map(self.metadata@),
            last_heartbeat_ms: self.last_heartbeat_ms,
        }
    }
}

impl Clone for Instance {
    fn clone(&self) -> (copy: Self)
        ensures
            copy@ == self@,
    {
        Instance {
            namespace_id: self.namespace_id.clone(),
            group_name: self.group_name.clone(),
            service_name: self.service_name.clone(),
            cluster_name: self.cluster_name.clone(),
            ip: self.ip.clone(),
            port: self.port,
            weight: self.weight,
            healthy: self.healthy,
            enabled: self.enabled,
            ephemeral: self.ephemeral,
            metadata: copy_string_map(&self.metadata),
            last_heartbeat_ms: self.last_heartbeat_ms,
        }
    }
}

impl InstanceView {
    /// The key of the service the instance belongs to.
    pub open spec fn service_key(self) -> ServiceKeyView {
        ServiceKeyView {
            namespace_id: self.namespace_id,
            group_name: self.group_name,
            service_name: self.service_name,
        }
    }

    /// The derived identity `ip#port#cluster#service`.
    pub open spec fn instance_id(self) -> Seq<char> {
        self.ip + seq!['#'] + decimal(self.port as nat) + seq!['#'] + self.cluster_name + seq!['#']
            + self.service_name
    }

    /// The instance names an address: a non-empty ip, a port in
    /// `(0, 65535]` and a service.
    pub open spec fn has_identity(self) -> bool {
        &&& self.ip.len() > 0
        &&& 0 < self.port <= MAX_PORT
        &&& self.service_name.len() > 0
    }

    /// The instance may be registered: it names an address and a cluster.
    pub open spec fn is_valid(self) -> bool {
        &&& self.has_identity()
        &&& self.cluster_name.len() > 0
    }
}

impl Instance {
    /// The key of the service the instance belongs to.
    pub fn service_key(&self) -> (key: ServiceKey)
        ensures
            key@ == self@.service_key(),
    {
        ServiceKey {
            namespace_id: self.namespace_id.clone(),
            group_name: self.group_name.clone(),
            service_name: self.service_name.clone(),
        }
    }

    /// The derived identity `ip#port#cluster#service`.
    pub fn instance_id(&self) -> (id: String)
        ensures
            id@ == self@.instance_id(),
    {
        proof {
            reveal_strlit("#");
        }
        assert("#"@ =~= seq!['#']);
        let port = to_decimal(self.port as u64);
        let id = self.ip.clone().concat("#").concat(port.as_str()).concat("#").concat(
            self.cluster_name.as_str(),
        ).concat("#").concat(self.service_name.as_str());
        id
    }

    /// Tells whether the instance names an address, which is all that
    /// removing it asks for.
    pub fn has_identity(&self) -> (ok: bool)
        ensures
            ok == self@.has_identity(),
    {
        !self.ip.as_str().is_empty() && 0 < self.port && self.port <= MAX_PORT
            && !self.service_name.as_str().is_empty()
    }

    /// Tells whether the instance may be registered.
    pub fn check_valid(&self) -> (ok: bool)
        ensures
            ok == self@.is_valid(),
    {
        self.has_identity() && !self.cluster_name.as_str().is_empty()
    }
}

} // verus!
