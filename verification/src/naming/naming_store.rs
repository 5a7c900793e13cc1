//! The services of this node and their instances.
//!
//! A service is found by its key and an instance by its derived identity
//! `ip#port#cluster#service`; the clusters of a service are those its
//! instances name. Times are in milliseconds and come from the caller.
use crate::common::string_map::{copy_string_map, text_map, StringMap};
use crate::common::text::{
    contains_text, is_prefix, is_substring, starts_with_text, text_or,
};
use crate::common::vec_map::VecMap;
use crate::common::vec_set::VecSet;
use crate::naming::model::{
    Instance, InstanceUpdateTag, InstanceView, NamingError, ProtectThreshold, ServiceDetailDto,
    ServiceKey, ServiceKeyView, DEFAULT_NAMESPACE,
};
use crate::naming::naming_core::{ServiceInfoDto, ServiceQueryParam};
use vstd::prelude::*;

verus! {

/// What a [`Service`] is.
#[verifier::ext_equal]
pub struct ServiceView {
    pub protect_threshold: ProtectThreshold,
    pub metadata: Map<Seq<char>, Seq<char>>,
    pub instances: Map<Seq<char>, InstanceView>,
}

/// The services of a store, by key.
pub type StoreView = Map<ServiceKeyView, ServiceView>;

/// A service: its settings and its instances by identity.
pub struct Service {
    protect_threshold: ProtectThreshold,
    metadata: StringMap,
    instances: VecMap<String, Instance>,
}

/// The instances of a table, by identity.
pub open spec fn instances_view(instances: Map<Seq<char>, Instance>) -> Map<Seq<char>, InstanceView> {
    instances.map_values(|i: Instance| i@)
}

impl View for Service {
    type V = ServiceView;

    closed spec fn view(&self) -> ServiceView {
        ServiceView {
            protect_threshold: self.protect_threshold,
            metadata: text_map(self.metadata@),
            instances: instances_view(self.instances@),
        }
    }
}

/// The services that a table of services stands for.
pub open spec fn store_view_of(services: Map<ServiceKeyView, Service>) -> StoreView {
    services.map_values(|s: Service| s@)
}

/// A service without settings and without instances.
pub open spec fn blank_service() -> ServiceView {
    ServiceView {
        protect_threshold: ProtectThreshold::never(),
        metadata: Map::empty(),
        instances: Map::empty(),
    }
}

/// The service of the key `k`; a key without a service has a blank one.
pub open spec fn service_of(v: StoreView, k: ServiceKeyView) -> ServiceView {
    if v.contains_key(k) {
        v[k]
    } else {
        blank_service()
    }
}

/// The store holds an instance with the identity `id` for the key `k`.
pub open spec fn has_instance(v: StoreView, k: ServiceKeyView, id: Seq<char>) -> bool {
    v.contains_key(k) && v[k].instances.contains_key(id)
}

/// Every instance is filed under its own identity, with the service it
/// names.
pub open spec fn store_wf(v: StoreView) -> bool {
    forall|k: ServiceKeyView, id: Seq<char>| #[trigger]
        has_instance(v, k, id) ==> v[k].instances[id].instance_id() == id
            && v[k].instances[id].service_key() == k
}

/// The settings `detail` asks for, given what the service has: a setting
/// it leaves out stays.
pub open spec fn settings_after(prior: ServiceView, detail: ServiceDetailDto) -> ServiceView {
    ServiceView {
        protect_threshold: match detail.protect_threshold {
            Some(t) => t,
            None => prior.protect_threshold,
        },
        metadata: match detail.metadata {
            Some(m) => text_map(m@),
            None => prior.metadata,
        },
        instances: prior.instances,
    }
}

/// The store after the settings `detail` were applied: the service
/// exists, with these settings and the instances it had.
pub open spec fn after_update_service(v: StoreView, detail: ServiceDetailDto) -> StoreView {
    v.insert(detail.key(), settings_after(service_of(v, detail.key()), detail))
}

/// What the store files for the update `incoming`, given the instance
/// `prior` it holds under that identity. With a tag and a prior instance,
/// the weight, metadata, enabled and ephemeral marks that the tag does not
/// flag stay as they were; otherwise everything is taken from `incoming`.
/// The heartbeat time is `now` in every case.
pub open spec fn merged(
    prior: Option<InstanceView>,
    incoming: InstanceView,
    tag: Option<InstanceUpdateTag>,
    now: u64,
) -> InstanceView {
    match (prior, tag) {
        (Some(p), Some(t)) => InstanceView {
            weight: if t.weight {
                incoming.weight
            } else {
                p.weight
            },
            metadata: if t.metadata {
                incoming.metadata
            } else {
                p.metadata
            },
            enabled: if t.enabled {
                incoming.enabled
            } else {
                p.enabled
            },
            ephemeral: if t.ephemeral {
                incoming.ephemeral
            } else {
                p.ephemeral
            },
            last_heartbeat_ms: now,
            ..incoming
        },
        _ => InstanceView { last_heartbeat_ms: now, ..incoming },
    }
}

/// The instance the store holds for the key `k` under the identity `id`,
/// if any.
pub open spec fn stored(v: StoreView, k: ServiceKeyView, id: Seq<char>) -> Option<InstanceView> {
    if has_instance(v, k, id) {
        Some(v[k].instances[id])
    } else {
        None
    }
}

/// The store after the update `incoming` was applied: its service exists
/// and holds, under the identity of `incoming`, what [`merged`] says.
pub open spec fn after_update_instance(
    v: StoreView,
    incoming: InstanceView,
    tag: Option<InstanceUpdateTag>,
    now: u64,
) -> StoreView {
    let k = incoming.service_key();
    let id = incoming.instance_id();
    let service = service_of(v, k);
    v.insert(
        k,
        ServiceView {
            instances: service.instances.insert(id, merged(stored(v, k, id), incoming, tag, now)),
            ..service
        },
    )
}

/// The store after the instance with the identity `id` of the key `k`
/// was taken out; a store that holds none is left as it is.
pub open spec fn after_remove_instance(v: StoreView, k: ServiceKeyView, id: Seq<char>) -> StoreView {
    if has_instance(v, k, id) {
        v.insert(k, ServiceView { instances: v[k].instances.remove(id), ..v[k] })
    } else {
        v
    }
}

/// The identities of the healthy instances among `m`.
pub open spec fn healthy_among(m: Map<Seq<char>, InstanceView>) -> Set<Seq<char>> {
    Set::new(|id: Seq<char>| m.contains_key(id) && m[id].healthy)
}

/// The names of the clusters that the instances among `m` belong to.
pub open spec fn clusters_among(m: Map<Seq<char>, InstanceView>) -> Set<Seq<char>> {
    Set::new(
        |c: Seq<char>|
            exists|id: Seq<char>|
                #![trigger m.contains_key(id)]
                m.contains_key(id) && m[id].cluster_name == c,
    )
}

/// The identities of the healthy instances of a service.
pub open spec fn healthy_ids(s: ServiceView) -> Set<Seq<char>> {
    healthy_among(s.instances)
}

/// Protection is engaged: the healthy share of the instances is below the
/// protect threshold of the service.
pub open spec fn protect_engaged(s: ServiceView) -> bool {
    s.protect_threshold.engaged(healthy_ids(s).len(), s.instances.dom().len())
}

/// The identities a healthy-only query hands out: the healthy instances,
/// or all instances while protection is engaged.
pub open spec fn visible_ids(s: ServiceView) -> Set<Seq<char>> {
    if protect_engaged(s) {
        s.instances.dom()
    } else {
        healthy_ids(s)
    }
}

/// Some instance of the list has the identity `id`.
pub open spec fn lists_id(list: Seq<Instance>, id: Seq<char>) -> bool {
    exists|j: int| 0 <= j < list.len() && (#[trigger] list[j])@.instance_id() == id
}

/// The list holds exactly the instances of `instances` whose identities
/// are in `ids`, each once.
pub open spec fn lists(list: Seq<Instance>, instances: Map<Seq<char>, InstanceView>, ids: Set<Seq<char>>) -> bool {
    &&& forall|j: int|
        0 <= j < list.len() ==> ids.contains((#[trigger] list[j])@.instance_id())
            && instances.contains_key(list[j]@.instance_id()) && instances[list[j]@.instance_id()]
            == list[j]@
    &&& forall|i: int, j: int|
        0 <= i < j < list.len() ==> (#[trigger] list[i])@.instance_id() != (#[trigger] list[j])@.instance_id()
    &&& forall|id: Seq<char>| ids.contains(id) ==> lists_id(list, id)
}

/// Instance identity: two instances of one service with the same derived
/// identity are the same instance.
pub proof fn law_instance_identity(v: StoreView, k: ServiceKeyView, id1: Seq<char>, id2: Seq<char>)
    requires
        store_wf(v),
        has_instance(v, k, id1),
        has_instance(v, k, id2),
        v[k].instances[id1].instance_id() == v[k].instances[id2].instance_id(),
    ensures
        id1 == id2,
        v[k].instances[id1] == v[k].instances[id2],
{
}

/// Sync idempotence: applying the same update a second time, with the
/// same tag and at the same time, leaves the store as the first left it.
pub proof fn law_update_idempotent(
    v: StoreView,
    incoming: InstanceView,
    tag: Option<InstanceUpdateTag>,
    now: u64,
)
    ensures
        after_update_instance(after_update_instance(v, incoming, tag, now), incoming, tag, now)
            == after_update_instance(v, incoming, tag, now),
{
    let once = after_update_instance(v, incoming, tag, now);
    let twice = after_update_instance(once, incoming, tag, now);
    let k = incoming.service_key();
    let id = incoming.instance_id();
    assert(has_instance(once, k, id));
    assert(once[k].instances[id] == merged(stored(v, k, id), incoming, tag, now));
    assert(twice[k].instances =~= once[k].instances);
    assert(twice[k] =~= once[k]);
    assert(twice =~= once);
}

/// Protect threshold monotonicity: of two services with the same
/// instances, the one with the higher protect threshold hands out to a
/// healthy-only query every instance the other does.
pub proof fn law_protect_monotonic(low: ServiceView, high: ServiceView)
    requires
        low.instances == high.instances,
        low.protect_threshold.millionths() <= high.protect_threshold.millionths(),
    ensures
        visible_ids(low).subset_of(visible_ids(high)),
{
    assert(healthy_ids(low) =~= healthy_ids(high));
    let healthy = healthy_ids(low).len();
    let total = low.instances.dom().len();
    let a = low.protect_threshold.millionths();
    let b = high.protect_threshold.millionths();
    if protect_engaged(low) {
        assert(a * total <= b * total) by (nonlinear_arith)
            requires
                a <= b,
        ;
        assert(protect_engaged(high));
    }
}

/// How long an instance may go without a heartbeat before it counts as
/// unhealthy, unless the store is told otherwise, in milliseconds.
pub const DEFAULT_UNHEALTHY_MS: u64 = 15000;

/// How long an ephemeral instance may go without a heartbeat before it is
/// evicted, unless the store is told otherwise, in milliseconds.
pub const DEFAULT_EVICTION_MS: u64 = 30000;

/// The two staleness windows of the health sweep, in milliseconds.
#[derive(Clone, Copy, Debug, PartialEq, Eq, Structural)]
pub struct HealthWindows {
    pub unhealthy_ms: u64,
    pub eviction_ms: u64,
}

/// The time since the last heartbeat of `i` at the time `now`; a
/// heartbeat from the future counts as fresh.
pub open spec fn age(i: InstanceView, now: u64) -> int {
    if now >= i.last_heartbeat_ms {
        now - i.last_heartbeat_ms
    } else {
        0
    }
}

/// The sweep evicts `i`: it is ephemeral and older than the eviction
/// window.
pub open spec fn evicted(i: InstanceView, now: u64, w: HealthWindows) -> bool {
    i.ephemeral && age(i, now) > w.eviction_ms
}

/// The sweep marks `i` unhealthy: it is healthy and older than the
/// unhealthy window.
pub open spec fn goes_stale(i: InstanceView, now: u64, w: HealthWindows) -> bool {
    i.healthy && age(i, now) > w.unhealthy_ms
}

/// The instance `i` as the sweep leaves it, if it stays.
pub open spec fn swept(i: InstanceView, now: u64, w: HealthWindows) -> InstanceView {
    InstanceView { healthy: i.healthy && !goes_stale(i, now, w), ..i }
}

/// The instances of a service as the sweep leaves them.
pub open spec fn swept_instances(m: Map<Seq<char>, InstanceView>, now: u64, w: HealthWindows) -> Map<
    Seq<char>,
    InstanceView,
> {
    Map::new(
        |id: Seq<char>| m.contains_key(id) && !evicted(m[id], now, w),
        |id: Seq<char>| swept(m[id], now, w),
    )
}

/// The sweep changes something among these instances.
pub open spec fn touched(m: Map<Seq<char>, InstanceView>, now: u64, w: HealthWindows) -> bool {
    exists|id: Seq<char>|
        #![trigger m.contains_key(id)]
        m.contains_key(id) && (evicted(m[id], now, w) || goes_stale(m[id], now, w))
}

/// A service as the sweep leaves it: its settings stay.
pub open spec fn swept_service(s: ServiceView, now: u64, w: HealthWindows) -> ServiceView {
    ServiceView { instances: swept_instances(s.instances, now, w), ..s }
}

/// The store as the sweep leaves it: every service stays, swept.
pub open spec fn after_sweep(v: StoreView, now: u64, w: HealthWindows) -> StoreView {
    v.map_values(|s: ServiceView| swept_service(s, now, w))
}

/// Some key of the list is `k`.
pub open spec fn names_key(keys: Seq<ServiceKey>, k: ServiceKeyView) -> bool {
    exists|j: int| 0 <= j < keys.len() && (#[trigger] keys[j])@ == k
}

/// What a listing of services is filtered by.
pub struct PageFilter {
    pub namespace_id: Seq<char>,
    pub group_prefix: Option<Seq<char>>,
    pub service_part: Option<Seq<char>>,
}

/// The filter that `param` asks for; a query that names no namespace
/// asks for `"public"`.
pub open spec fn page_filter(param: ServiceQueryParam) -> PageFilter {
    PageFilter {
        namespace_id: text_or(param.namespace_id, DEFAULT_NAMESPACE@),
        group_prefix: match param.group_name_param {
            Some(g) => Some(g@),
            None => None,
        },
        service_part: match param.service_name_param {
            Some(p) => Some(p@),
            None => None,
        },
    }
}

/// The key `k` passes the filter: it is of the namespace, its group
/// begins with the group prefix and its name contains the service part.
pub open spec fn page_matches(k: ServiceKeyView, f: PageFilter) -> bool {
    &&& k.namespace_id == f.namespace_id
    &&& f.group_prefix matches Some(g) ==> is_prefix(g, k.group_name)
    &&& f.service_part matches Some(p) ==> is_substring(p, k.service_name)
}

/// The test that tells the keys that pass the filter `f`.
pub open spec fn page_pred(f: PageFilter) -> spec_fn(ServiceKeyView) -> bool {
    |k: ServiceKeyView| page_matches(k, f)
}

/// The number of matches that come before the page `page_no` of
/// `page_size` lines; pages count from 1.
pub open spec fn page_skip(page_no: usize, page_size: usize) -> int {
    if page_no <= 1 {
        0
    } else {
        (page_no - 1) * page_size
    }
}

/// The number of lines on the page, of `total` matches in all.
pub open spec fn page_len(total: int, skip: int, page_size: usize) -> int {
    if total <= skip {
        0
    } else if total - skip <= page_size {
        total - skip
    } else {
        page_size as int
    }
}

/// The line `row` describes the service `s` of the key `k`.
pub open spec fn describes(row: ServiceInfoDto, k: ServiceKeyView, s: ServiceView) -> bool {
    &&& row.service_name@ == k.service_name
    &&& row.group_name@ == k.group_name
    &&& row.instance_size == s.instances.dom().len()
    &&& row.healthy_instance_size == healthy_among(s.instances).len()
    &&& row.cluster_count == clusters_among(s.instances).len()
    &&& row.metadata matches Some(m) && text_map(m@) == s.metadata
    &&& row.protect_threshold == Some(s.protect_threshold)
}

/// The line `rows[j]` describes the match that comes `skip + j`-th.
pub open spec fn row_describes(
    rows: Seq<ServiceInfoDto>,
    matched: Seq<ServiceKeyView>,
    skip: int,
    v: StoreView,
    j: int,
) -> bool {
    &&& 0 <= skip + j < matched.len()
    &&& v.contains_key(matched[skip + j])
    &&& describes(rows[j], matched[skip + j], v[matched[skip + j]])
}

/// Each line of the page describes its match: the first line the match
/// that comes after `skip` others, and so on in order.
pub open spec fn page_describes(
    rows: Seq<ServiceInfoDto>,
    matched: Seq<ServiceKeyView>,
    skip: int,
    v: StoreView,
) -> bool {
    forall|j: int| 0 <= j < rows.len() ==> #[trigger] row_describes(rows, matched, skip, v, j)
}

proof fn lemma_store_insert(services: Map<ServiceKeyView, Service>, k: ServiceKeyView, s: Service)
    ensures
        store_view_of(services.insert(k, s)) == store_view_of(services).insert(k, s@),
{
    assert(store_view_of(services.insert(k, s)) =~= store_view_of(services).insert(k, s@));
}

proof fn lemma_store_remove(services: Map<ServiceKeyView, Service>, k: ServiceKeyView)
    ensures
        store_view_of(services.remove(k)) == store_view_of(services).remove(k),
{
    assert(store_view_of(services.remove(k)) =~= store_view_of(services).remove(k));
}

proof fn lemma_instances_insert(instances: Map<Seq<char>, Instance>, id: Seq<char>, i: Instance)
    ensures
        instances_view(instances.insert(id, i)) == instances_view(instances).insert(id, i@),
{
    assert(instances_view(instances.insert(id, i)) =~= instances_view(instances).insert(id, i@));
}

proof fn lemma_instances_remove(instances: Map<Seq<char>, Instance>, id: Seq<char>)
    ensures
        instances_view(instances.remove(id)) == instances_view(instances).remove(id),
{
    assert(instances_view(instances.remove(id)) =~= instances_view(instances).remove(id));
}

impl Service {
    fn blank() -> (service: Self)
        ensures
            service@ == blank_service(),
    {
        let service = Service {
            protect_threshold: ProtectThreshold::zero(),
            metadata: StringMap::new(),
            instances: VecMap::new(),
        };
        assert(text_map(service.metadata@) =~= Map::<Seq<char>, Seq<char>>::empty());
        assert(instances_view(service.instances@) =~= Map::<Seq<char>, InstanceView>::empty());
        service
    }
}

fn merge(prior: Option<Instance>, incoming: Instance, tag: Option<InstanceUpdateTag>, now: u64) -> (out:
    Instance)
    ensures
        out@ == merged(
            match prior {
                Some(p) => Some(p@),
                None => None,
            },
            incoming@,
            tag,
            now,
        ),
{
    let mut out = incoming;
    out.last_heartbeat_ms = now;
    match (prior, tag) {
        (Some(p), Some(t)) => {
            if !t.weight {
                out.weight = p.weight;
            }
            if !t.metadata {
                out.metadata = p.metadata;
            }
            if !t.enabled {
                out.enabled = p.enabled;
            }
            if !t.ephemeral {
                out.ephemeral = p.ephemeral;
            }
        },
        _ => {},
    }
    out
}

fn sweep_instances(instances: VecMap<String, Instance>, now: u64, w: HealthWindows) -> (out: (
    VecMap<String, Instance>,
    bool,
))
    ensures
        instances_view(out.0@) == swept_instances(instances_view(instances@), now, w),
        out.1 == touched(instances_view(instances@), now, w),
{
    let ghost orig = instances@;
    let ghost iv = instances_view(orig);
    let mut rest = instances;
    let mut kept: VecMap<String, Instance> = VecMap::new();
    let mut changed = false;
    let ghost mut witness: Seq<char> = Seq::empty();
    let mut left = rest.len();
    while left > 0
        invariant
            left == rest@.dom().len(),
            rest@.dom().finite(),
            iv == instances_view(orig),
            forall|id: Seq<char>| #[trigger]
                rest@.contains_key(id) ==> orig.contains_key(id) && orig[id] == rest@[id],
            forall|id: Seq<char>| #[trigger]
                kept@.contains_key(id) <==> (orig.contains_key(id) && !rest@.contains_key(id)
                    && !evicted(iv[id], now, w)),
            forall|id: Seq<char>| #[trigger]
                kept@.contains_key(id) ==> kept@[id]@ == swept(iv[id], now, w),
            changed ==> orig.contains_key(witness) && (evicted(iv[witness], now, w) || goes_stale(
                iv[witness],
                now,
                w,
            )),
            !changed ==> forall|id: Seq<char>| #[trigger]
                orig.contains_key(id) && !rest@.contains_key(id) ==> !evicted(iv[id], now, w)
                    && !goes_stale(iv[id], now, w),
        decreases left,
    {
        let ghost rest_before = rest@;
        let ghost kept_before = kept@;
        match rest.pop() {
            Some((id, instance)) => {
                left -= 1;
                let elapsed: u64 = if now >= instance.last_heartbeat_ms {
                    now - instance.last_heartbeat_ms
                } else {
                    0
                };
                assert(elapsed == age(instance@, now));
                assert(iv[id@] == instance@);
                let gone = instance.ephemeral && elapsed > w.eviction_ms;
                let stale = instance.healthy && elapsed > w.unhealthy_ms;
                if gone || stale {
                    changed = true;
                    proof {
                        witness = id@;
                    }
                }
                if !gone {
                    let mut instance = instance;
                    if stale {
                        instance.healthy = false;
                    }
                    kept.insert(id, instance);
                }
                proof {
                    assert forall|x: Seq<char>| #[trigger] rest@.contains_key(x) implies orig.contains_key(
                        x,
                    ) && orig[x] == rest@[x] by {
                        assert(rest_before.contains_key(x));
                    }
                    assert forall|x: Seq<char>| #[trigger]
                        kept@.contains_key(x) <==> (orig.contains_key(x) && !rest@.contains_key(x)
                            && !evicted(iv[x], now, w)) by {
                        if x != id@ {
                            assert(kept@.contains_key(x) == kept_before.contains_key(x));
                            assert(rest@.contains_key(x) == rest_before.contains_key(x));
                        } else {
                            assert(rest_before.contains_key(x));
                        }
                    }
                    assert forall|x: Seq<char>| #[trigger] kept@.contains_key(x) implies kept@[x]@
                        == swept(iv[x], now, w) by {
                        if x != id@ {
                            assert(kept_before.contains_key(x));
                        }
                    }
                    if !changed {
                        assert forall|x: Seq<char>| #[trigger]
                            orig.contains_key(x) && !rest@.contains_key(x) implies !evicted(
                            iv[x],
                            now,
                            w,
                        ) && !goes_stale(iv[x], now, w) by {
                            if x != id@ {
                                assert(rest@.contains_key(x) == rest_before.contains_key(x));
                            }
                        }
                    }
                }
            },
            None => {
                assert(rest_before.dom() =~= Set::empty());
                assert(false);
            },
        }
    }
    proof {
        assert forall|id: Seq<char>| !rest@.contains_key(id) by {
            if rest@.contains_key(id) {
                assert(rest@.dom().contains(id));
                assert(rest@.dom() =~= Set::empty());
            }
        }
        assert(instances_view(kept@) =~= swept_instances(iv, now, w));
        if changed {
            assert(iv.contains_key(witness));
        } else {
            assert forall|id: Seq<char>| #[trigger] iv.contains_key(id) implies !(evicted(
                iv[id],
                now,
                w,
            ) || goes_stale(iv[id], now, w)) by {
                assert(orig.contains_key(id));
            }
        }
    }
    (kept.reversed(), changed)
}

/// The naming store.
pub struct NamingStore {
    services: VecMap<ServiceKey, Service>,
    windows: HealthWindows,
}

impl View for NamingStore {
    type V = StoreView;

    closed spec fn view(&self) -> StoreView {
        store_view_of(self.services@)
    }
}

impl NamingStore {
    /// Every instance is filed under its own identity, with the service
    /// it names.
    pub open spec fn wf(self) -> bool {
        store_wf(self@)
    }

    /// The staleness windows the health sweep goes by.
    pub closed spec fn windows(self) -> HealthWindows {
        self.windows
    }

    /// A store without services, with the usual staleness windows.
    pub fn new() -> (store: Self)
        ensures
            store.wf(),
            store@ == Map::<ServiceKeyView, ServiceView>::empty(),
            store.windows() == (HealthWindows {
                unhealthy_ms: DEFAULT_UNHEALTHY_MS,
                eviction_ms: DEFAULT_EVICTION_MS,
            }),
    {
        NamingStore::with_windows(
            HealthWindows { unhealthy_ms: DEFAULT_UNHEALTHY_MS, eviction_ms: DEFAULT_EVICTION_MS },
        )
    }

    /// A store without services, with the staleness windows `windows`.
    pub fn with_windows(windows: HealthWindows) -> (store: Self)
        ensures
            store.wf(),
            store@ == Map::<ServiceKeyView, ServiceView>::empty(),
            store.windows() == windows,
    {
        let store = NamingStore { services: VecMap::new(), windows };
        assert(store@ =~= Map::<ServiceKeyView, ServiceView>::empty());
        store
    }

    fn take_service(&mut self, key: &ServiceKey) -> (service: Service)
        ensures
            service@ == service_of(old(self)@, key@),
            final(self)@ == old(self)@.remove(key@),
            final(self).windows() == old(self).windows(),
    {
        proof {
            lemma_store_remove(self.services@, key@);
        }
        match self.services.remove(key) {
            Some(found) => found,
            None => Service::blank(),
        }
    }

    fn put_service(&mut self, key: ServiceKey, service: Service)
        ensures
            final(self)@ == old(self)@.insert(key@, service@),
            final(self).windows() == old(self).windows(),
    {
        proof {
            lemma_store_insert(self.services@, key@, service);
        }
        self.services.insert(key, service);
    }

    /// Creates the service of `detail`, or changes its settings. The
    /// settings that `detail` leaves out stay, and so do the instances.
    pub fn update_service(&mut self, detail: ServiceDetailDto)
        requires
            old(self).wf(),
        ensures
            final(self).wf(),
            final(self)@ == after_update_service(old(self)@, detail),
            final(self).windows() == old(self).windows(),
    {
        let key = ServiceKey {
            namespace_id: detail.namespace_id,
            group_name: detail.group_name,
            service_name: detail.service_name,
        };
        let mut service = self.take_service(&key);
        match detail.protect_threshold {
            Some(t) => {
                service.protect_threshold = t;
            },
            None => {},
        }
        match detail.metadata {
            Some(m) => {
                service.metadata = m;
            },
            None => {},
        }
        self.put_service(key, service);
        proof {
            let v = old(self)@;
            let w = after_update_service(v, detail);
            assert(self@ =~= w);
            assert forall|k: ServiceKeyView, id: Seq<char>| #[trigger]
                has_instance(w, k, id) implies w[k].instances[id].instance_id() == id
                && w[k].instances[id].service_key() == k by {
                assert(has_instance(v, k, id));
            }
        }
    }

    /// Removes the service `key`, unless it still has instances. A key
    /// without a service is left as it is.
    pub fn remove_service(&mut self, key: &ServiceKey) -> (result: Result<(), NamingError>)
        requires
            old(self).wf(),
        ensures
            final(self).wf(),
            final(self).windows() == old(self).windows(),
            match result {
                Ok(_) => (old(self)@.contains_key(key@) ==> old(self)@[key@].instances
                    == Map::<Seq<char>, InstanceView>::empty()) && final(self)@
                    == old(self)@.remove(key@),
                Err(e) => e is ServiceHasInstances && old(self)@.contains_key(key@)
                    && old(self)@[key@].instances != Map::<Seq<char>, InstanceView>::empty()
                    && final(self)@ == old(self)@,
            },
    {
        let busy = match self.services.get(key) {
            Some(service) => {
                let empty = service.instances.is_empty();
                proof {
                    if empty {
                        assert(instances_view(service.instances@) =~= Map::<
                            Seq<char>,
                            InstanceView,
                        >::empty());
                    } else {
                        assert(instances_view(service.instances@).dom() =~= service.instances@.dom());
                    }
                }
                !empty
            },
            None => false,
        };
        if busy {
            return Err(NamingError::ServiceHasInstances);
        }
        proof {
            lemma_store_remove(self.services@, key@);
        }
        self.services.remove(key);
        proof {
            let v = old(self)@;
            let w = self@;
            assert forall|k: ServiceKeyView, id: Seq<char>| #[trigger]
                has_instance(w, k, id) implies w[k].instances[id].instance_id() == id
                && w[k].instances[id].service_key() == k by {
                assert(has_instance(v, k, id));
            }
        }
        Ok(())
    }
    /// Registers or refreshes `instance` at the time `now`. An instance
    /// that names no address or no cluster is refused; otherwise its
    /// service is created if need be, and the instance is filed as
    /// [`merged`] says.
    pub fn update_instance(&mut self, instance: Instance, tag: Option<InstanceUpdateTag>, now: u64) -> (result:
        Result<(), NamingError>)
        requires
            old(self).wf(),
        ensures
            final(self).wf(),
            final(self).windows() == old(self).windows(),
            result is Ok == instance@.is_valid(),
            match result {
                Ok(_) => final(self)@ == after_update_instance(old(self)@, instance@, tag, now),
                Err(e) => e is InvalidInstance && final(self)@ == old(self)@,
            },
    {
        if !instance.check_valid() {
            return Err(NamingError::InvalidInstance);
        }
        let key = instance.service_key();
        let id = instance.instance_id();
        let mut service = self.take_service(&key);
        let ghost before = service@;
        let ghost pre = service.instances@;
        proof {
            lemma_instances_remove(pre, id@);
            assert(instances_view(pre).dom() =~= pre.dom());
        }
        let prior = service.instances.remove(&id);
        assert(stored(old(self)@, key@, id@) == match prior {
            Some(p) => Some(p@),
            None => None::<InstanceView>,
        });
        let fresh = merge(prior, instance, tag, now);
        proof {
            lemma_instances_insert(service.instances@, id@, fresh);
        }
        service.instances.insert(id, fresh);
        assert(service@.instances =~= before.instances.insert(id@, fresh@));
        self.put_service(key, service);
        proof {
            let v = old(self)@;
            let w = after_update_instance(v, instance@, tag, now);
            assert(self@ =~= w);
            assert forall|k: ServiceKeyView, x: Seq<char>| #[trigger]
                has_instance(w, k, x) implies w[k].instances[x].instance_id() == x
                && w[k].instances[x].service_key() == k by {
                if !(k == key@ && x == id@) {
                    assert(has_instance(v, k, x));
                }
            }
        }
        Ok(())
    }

    /// Takes out the instance with the identity of `instance`, and tells
    /// whether there was one.
    pub fn remove_instance(&mut self, instance: &Instance) -> (removed: bool)
        requires
            old(self).wf(),
        ensures
            final(self).wf(),
            final(self).windows() == old(self).windows(),
            removed == has_instance(old(self)@, instance@.service_key(), instance@.instance_id()),
            final(self)@ == after_remove_instance(
                old(self)@,
                instance@.service_key(),
                instance@.instance_id(),
            ),
    {
        let key = instance.service_key();
        let id = instance.instance_id();
        if !self.services.contains_key(&key) {
            return false;
        }
        let mut service = self.take_service(&key);
        let ghost before = service@;
        let ghost pre = service.instances@;
        proof {
            lemma_instances_remove(pre, id@);
            assert(instances_view(pre).dom() =~= pre.dom());
        }
        let gone = service.instances.remove(&id);
        proof {
            if gone is None {
                assert(service.instances@ =~= pre);
            }
        }
        self.put_service(key, service);
        proof {
            let v = old(self)@;
            let w = after_remove_instance(v, key@, id@);
            assert(self@ =~= w);
            assert forall|k: ServiceKeyView, x: Seq<char>| #[trigger]
                has_instance(w, k, x) implies w[k].instances[x].instance_id() == x
                && w[k].instances[x].service_key() == k by {
                assert(has_instance(v, k, x));
            }
        }
        gone.is_some()
    }

    /// Looks up the stored instance with the identity of `instance`.
    pub fn query(&self, instance: &Instance) -> (result: Result<Instance, NamingError>)
        ensures
            match result {
                Ok(found) => stored(self@, instance@.service_key(), instance@.instance_id())
                    == Some(found@),
                Err(e) => e is NotFound && stored(
                    self@,
                    instance@.service_key(),
                    instance@.instance_id(),
                ) is None,
            },
    {
        let key = instance.service_key();
        let id = instance.instance_id();
        match self.services.get(&key) {
            Some(service) => match service.instances.get(&id) {
                Some(found) => Ok(found.clone()),
                None => Err(NamingError::NotFound),
            },
            None => Err(NamingError::NotFound),
        }
    }
    fn count_healthy(instances: &VecMap<String, Instance>) -> (count: usize)
        ensures
            healthy_among(instances_view(instances@)).finite(),
            count == healthy_among(instances_view(instances@)).len(),
    {
        let ghost iv = instances_view(instances@);
        let n = instances.len();
        let mut count: usize = 0;
        let mut i: usize = 0;
        let ghost mut seen: Set<Seq<char>> = Set::empty();
        while i < n
            invariant
                n == instances.key_seq().len(),
                i <= n,
                count <= i,
                iv == instances_view(instances@),
                instances.key_seq().no_duplicates(),
                seen.finite(),
                count == seen.len(),
                forall|id: Seq<char>|
                    seen.contains(id) <==> (instances.key_seq().take(i as int).contains(id)
                        && iv.contains_key(id) && iv[id].healthy),
            decreases n - i,
        {
            let ghost before = instances.key_seq().take(i as int);
            let ghost after = instances.key_seq().take(i + 1);
            let ghost k = instances.key_seq()[i as int];
            let instance = instances.value_at(i);
            proof {
                assert(after =~= before.push(k));
                if before.contains(k) {
                    let j = choose|j: int| 0 <= j < before.len() && before[j] == k;
                    assert(instances.key_seq()[j] == k);
                }
                assert forall|id: Seq<char>| after.contains(id) <==> (before.contains(id) || id
                    == k) by {
                    if before.contains(id) {
                        let j = choose|j: int| 0 <= j < before.len() && before[j] == id;
                        assert(after[j] == id);
                    }
                    if id == k {
                        assert(after[i as int] == k);
                    }
                }
            }
            if instance.healthy {
                count += 1;
                proof {
                    seen = seen.insert(k);
                }
            }
            i += 1;
        }
        proof {
            assert(instances.key_seq().take(n as int) =~= instances.key_seq());
            assert(instances.key_seq().to_set() =~= iv.dom());
            assert forall|id: Seq<char>| seen.contains(id) == healthy_among(iv).contains(id) by {
                if iv.contains_key(id) {
                    assert(instances.key_seq().to_set().contains(id));
                }
            }
            assert(seen =~= healthy_among(iv));
        }
        count
    }

    /// Lists the instances of the service `key`: all of them, or, for a
    /// healthy-only query, the healthy ones, unless protection is engaged
    /// and all are handed out. A key without a service has no instance.
    pub fn query_instance_list(&self, key: &ServiceKey, only_healthy: bool) -> (list: Vec<Instance>)
        requires
            self.wf(),
        ensures
            lists(
                list@,
                service_of(self@, key@).instances,
                if only_healthy {
                    visible_ids(service_of(self@, key@))
                } else {
                    service_of(self@, key@).instances.dom()
                },
            ),
    {
        let mut list: Vec<Instance> = Vec::new();
        let ghost s = service_of(self@, key@);
        match self.services.get(key) {
            Some(service) => {
                assert(service@ == s);
                let ghost iv = s.instances;
                let n = service.instances.len();
                let healthy = Self::count_healthy(&service.instances);
                proof {
                    assert(iv.dom() =~= service.instances@.dom());
                }
                let every = !only_healthy || service.protect_threshold.is_engaged(healthy, n);
                let ghost ids = if only_healthy {
                    visible_ids(s)
                } else {
                    iv.dom()
                };
                let mut i: usize = 0;
                while i < n
                    invariant
                        n == service.instances.key_seq().len(),
                        i <= n,
                        self.wf(),
                        s == service_of(self@, key@),
                        self@.contains_key(key@),
                        iv == s.instances,
                        iv == instances_view(service.instances@),
                        service.instances.key_seq().no_duplicates(),
                        service.instances.key_seq().to_set() == service.instances@.dom(),
                        forall|id: Seq<char>|
                            ids.contains(id) <==> (iv.contains_key(id) && (every
                                || iv[id].healthy)),
                        forall|j: int|
                            0 <= j < list@.len() ==> ids.contains(
                                (#[trigger] list@[j])@.instance_id(),
                            ) && iv.contains_key(list@[j]@.instance_id())
                                && iv[list@[j]@.instance_id()] == list@[j]@
                                && service.instances.key_seq().take(i as int).contains(
                                list@[j]@.instance_id(),
                            ),
                        forall|a: int, b: int|
                            0 <= a < b < list@.len() ==> (#[trigger] list@[a])@.instance_id() != (
                            #[trigger] list@[b])@.instance_id(),
                        forall|id: Seq<char>|
                            ids.contains(id) && service.instances.key_seq().take(i as int).contains(
                                id,
                            ) ==> lists_id(list@, id),
                    decreases n - i,
                {
                    let ghost before = service.instances.key_seq().take(i as int);
                    let ghost after = service.instances.key_seq().take(i + 1);
                    let ghost k = service.instances.key_seq()[i as int];
                    let ghost old_list = list@;
                    let instance = service.instances.value_at(i);
                    proof {
                        assert(after =~= before.push(k));
                        assert(has_instance(self@, key@, k));
                        if before.contains(k) {
                            let j = choose|j: int| 0 <= j < before.len() && before[j] == k;
                            assert(service.instances.key_seq()[j] == k);
                        }
                        assert forall|id: Seq<char>| before.contains(id) implies after.contains(
                            id,
                        ) by {
                            let j = choose|j: int| 0 <= j < before.len() && before[j] == id;
                            assert(after[j] == id);
                        }
                        assert(after[i as int] == k);
                    }
                    if every || instance.healthy {
                        list.push(instance.clone());
                        proof {
                            let last = old_list.len() as int;
                            assert(list@[last]@.instance_id() == k);
                            assert forall|id: Seq<char>|
                                ids.contains(id) && after.contains(id) implies lists_id(
                                list@,
                                id,
                            ) by {
                                if id == k {
                                    assert(list@[last]@.instance_id() == id);
                                } else {
                                    assert(before.contains(id));
                                    assert(lists_id(old_list, id));
                                    let j = choose|j: int|
                                        0 <= j < old_list.len() && (#[trigger] old_list[j])@.instance_id()
                                            == id;
                                    assert(list@[j] == old_list[j]);
                                }
                            }
                            assert forall|j: int| 0 <= j < list@.len() implies ids.contains(
                                (#[trigger] list@[j])@.instance_id(),
                            ) && iv.contains_key(list@[j]@.instance_id())
                                && iv[list@[j]@.instance_id()] == list@[j]@ && after.contains(
                                list@[j]@.instance_id(),
                            ) by {
                                if j < last {
                                    assert(list@[j] == old_list[j]);
                                }
                            }
                            assert forall|a: int, b: int| 0 <= a < b < list@.len() implies (
                            #[trigger] list@[a])@.instance_id() != (#[trigger] list@[b])@.instance_id() by {
                                assert(list@[a] == old_list[a]);
                                if b < last {
                                    assert(list@[b] == old_list[b]);
                                } else {
                                    assert(before.contains(old_list[a]@.instance_id()));
                                }
                            }
                        }
                    } else {
                        proof {
                            assert forall|id: Seq<char>|
                                ids.contains(id) && after.contains(id) implies lists_id(
                                list@,
                                id,
                            ) by {
                                if id != k {
                                    assert(before.contains(id));
                                }
                            }
                        }
                    }
                    i += 1;
                }
                proof {
                    assert(service.instances.key_seq().take(n as int)
                        =~= service.instances.key_seq());
                    assert forall|id: Seq<char>| ids.contains(id) implies lists_id(list@, id) by {
                        assert(service.instances.key_seq().to_set().contains(id));
                    }
                }
            },
            None => {
                assert(s.instances.dom() =~= Set::empty());
                assert(healthy_ids(s) =~= Set::empty());
            },
        }
        list
    }

    /// Lists every instance of the service `key`.
    pub fn query_all_instance_list(&self, key: &ServiceKey) -> (list: Vec<Instance>)
        requires
            self.wf(),
        ensures
            lists(list@, service_of(self@, key@).instances, service_of(self@, key@).instances.dom()),
    {
        self.query_instance_list(key, false)
    }
    /// The health sweep at the time `now`. An instance without a
    /// heartbeat for longer than the unhealthy window is marked
    /// unhealthy; an ephemeral one without a heartbeat for longer than
    /// the eviction window is taken out. No service is removed. The keys
    /// handed back are those of the services in which something changed,
    /// each once.
    pub fn sweep(&mut self, now: u64) -> (changed: Vec<ServiceKey>)
        requires
            old(self).wf(),
        ensures
            final(self).wf(),
            final(self).windows() == old(self).windows(),
            final(self)@ == after_sweep(old(self)@, now, old(self).windows()),
            forall|k: ServiceKeyView|
                names_key(changed@, k) <==> (old(self)@.contains_key(k) && touched(
                    old(self)@[k].instances,
                    now,
                    old(self).windows(),
                )),
            forall|i: int, j: int|
                0 <= i < j < changed@.len() ==> (#[trigger] changed@[i])@ != (#[trigger] changed@[j])@,
    {
        let w = self.windows;
        let ghost v = self@;
        let ghost orig = self.services@;
        let mut rest: VecMap<ServiceKey, Service> = VecMap::new();
        std::mem::swap(&mut self.services, &mut rest);
        let mut done: VecMap<ServiceKey, Service> = VecMap::new();
        let mut changed: Vec<ServiceKey> = Vec::new();
        let mut left = rest.len();
        while left > 0
            invariant
                left == rest@.dom().len(),
                rest@.dom().finite(),
                v == store_view_of(orig),
                forall|k: ServiceKeyView| #[trigger]
                    rest@.contains_key(k) ==> orig.contains_key(k) && orig[k] == rest@[k],
                forall|k: ServiceKeyView| #[trigger]
                    done@.contains_key(k) <==> (orig.contains_key(k) && !rest@.contains_key(k)),
                forall|k: ServiceKeyView| #[trigger]
                    done@.contains_key(k) ==> done@[k]@ == swept_service(v[k], now, w),
                forall|k: ServiceKeyView|
                    names_key(changed@, k) <==> (done@.contains_key(k) && touched(
                        v[k].instances,
                        now,
                        w,
                    )),
                forall|i: int, j: int|
                    0 <= i < j < changed@.len() ==> (#[trigger] changed@[i])@ != (
                    #[trigger] changed@[j])@,
            decreases left,
        {
            let ghost rest_before = rest@;
            let ghost done_before = done@;
            let ghost changed_before = changed@;
            match rest.pop() {
                Some((key, service)) => {
                    left -= 1;
                    let ghost before = service@;
                    assert(v[key@] == before);
                    let Service { protect_threshold, metadata, instances } = service;
                    let (instances, touched_now) = sweep_instances(instances, now, w);
                    let service = Service { protect_threshold, metadata, instances };
                    assert(service@ =~= swept_service(before, now, w));
                    if touched_now {
                        changed.push(key.clone());
                    }
                    done.insert(key, service);
                    proof {
                        let k0 = key@;
                        assert(!done_before.contains_key(k0));
                        assert forall|k: ServiceKeyView| #[trigger] rest@.contains_key(k) implies orig.contains_key(
                            k,
                        ) && orig[k] == rest@[k] by {
                            assert(rest_before.contains_key(k));
                        }
                        assert forall|k: ServiceKeyView| #[trigger]
                            done@.contains_key(k) <==> (orig.contains_key(k) && !rest@.contains_key(
                                k,
                            )) by {
                            if k != k0 {
                                assert(done@.contains_key(k) == done_before.contains_key(k));
                                assert(rest@.contains_key(k) == rest_before.contains_key(k));
                            } else {
                                assert(rest_before.contains_key(k));
                            }
                        }
                        assert forall|k: ServiceKeyView| #[trigger] done@.contains_key(k) implies done@[k]@
                            == swept_service(v[k], now, w) by {
                            if k != k0 {
                                assert(done_before.contains_key(k));
                            }
                        }
                        assert forall|k: ServiceKeyView|
                            names_key(changed@, k) <==> (done@.contains_key(k) && touched(
                                v[k].instances,
                                now,
                                w,
                            )) by {
                            if names_key(changed_before, k) {
                                let j = choose|j: int|
                                    0 <= j < changed_before.len() && (#[trigger] changed_before[j])@
                                        == k;
                                assert(changed@[j] == changed_before[j]);
                                assert(names_key(changed@, k));
                            }
                            if names_key(changed@, k) {
                                let j = choose|j: int|
                                    0 <= j < changed@.len() && (#[trigger] changed@[j])@ == k;
                                if j < changed_before.len() {
                                    assert(changed@[j] == changed_before[j]);
                                    assert(names_key(changed_before, k));
                                }
                            }
                            if touched_now && k == k0 {
                                assert(changed@[changed_before.len() as int]@ == k);
                                assert(names_key(changed@, k));
                            }
                        }
                        assert forall|i: int, j: int| 0 <= i < j < changed@.len() implies (
                        #[trigger] changed@[i])@ != (#[trigger] changed@[j])@ by {
                            assert(changed@[i] == changed_before[i]);
                            if j < changed_before.len() {
                                assert(changed@[j] == changed_before[j]);
                            } else {
                                assert(names_key(changed_before, changed_before[i]@));
                            }
                        }
                    }
                },
                None => {
                    assert(rest_before.dom() =~= Set::empty());
                    assert(false);
                },
            }
        }
        self.services = done.reversed();
        proof {
            assert forall|k: ServiceKeyView| !rest@.contains_key(k) by {
                if rest@.contains_key(k) {
                    assert(rest@.dom().contains(k));
                    assert(rest@.dom() =~= Set::empty());
                }
            }
            let out = after_sweep(v, now, w);
            assert(self@ =~= out);
            assert forall|k: ServiceKeyView, id: Seq<char>| #[trigger]
                has_instance(out, k, id) implies out[k].instances[id].instance_id() == id
                && out[k].instances[id].service_key() == k by {
                assert(has_instance(v, k, id));
            }
        }
        changed
    }
    fn count_clusters(instances: &VecMap<String, Instance>) -> (count: usize)
        ensures
            clusters_among(instances_view(instances@)).finite(),
            count == clusters_among(instances_view(instances@)).len(),
    {
        let ghost iv = instances_view(instances@);
        let n = instances.len();
        let mut names: VecSet<String> = VecSet::new();
        let mut i: usize = 0;
        while i < n
            invariant
                n == instances.key_seq().len(),
                i <= n,
                iv == instances_view(instances@),
                instances.key_seq().to_set() == instances@.dom(),
                forall|c: Seq<char>|
                    names@.contains(c) <==> exists|j: int|
                        0 <= j < i && iv[#[trigger] instances.key_seq()[j]].cluster_name == c,
            decreases n - i,
        {
            let ghost before = names@;
            let instance = instances.value_at(i);
            names.insert(instance.cluster_name.clone());
            proof {
                let k = instances.key_seq()[i as int];
                assert(iv[k].cluster_name == instance.cluster_name@);
                assert forall|c: Seq<char>|
                    names@.contains(c) <==> exists|j: int|
                        0 <= j < i + 1 && iv[#[trigger] instances.key_seq()[j]].cluster_name
                            == c by {
                    if before.contains(c) {
                        let j = choose|j: int|
                            0 <= j < i && iv[#[trigger] instances.key_seq()[j]].cluster_name == c;
                        assert(0 <= j < i + 1 && iv[instances.key_seq()[j]].cluster_name == c);
                    }
                    if c == instance.cluster_name@ {
                        assert(iv[instances.key_seq()[i as int]].cluster_name == c);
                    }
                    if exists|j: int|
                        0 <= j < i + 1 && iv[#[trigger] instances.key_seq()[j]].cluster_name == c {
                        let j = choose|j: int|
                            0 <= j < i + 1 && iv[#[trigger] instances.key_seq()[j]].cluster_name
                                == c;
                        if j < i {
                            assert(before.contains(c));
                        }
                    }
                }
            }
            i += 1;
        }
        let count = names.len();
        proof {
            assert forall|c: Seq<char>| names@.contains(c) == clusters_among(iv).contains(c) by {
                if names@.contains(c) {
                    let j = choose|j: int|
                        0 <= j < n && iv[#[trigger] instances.key_seq()[j]].cluster_name == c;
                    let id = instances.key_seq()[j];
                    assert(instances.key_seq().to_set().contains(id));
                    assert(iv.contains_key(id));
                }
                if clusters_among(iv).contains(c) {
                    let id = choose|id: Seq<char>|
                        #![trigger iv.contains_key(id)]
                        iv.contains_key(id) && iv[id].cluster_name == c;
                    assert(instances.key_seq().to_set().contains(id));
                    let j = choose|j: int|
                        0 <= j < instances.key_seq().len() && instances.key_seq()[j] == id;
                    assert(iv[instances.key_seq()[j]].cluster_name == c);
                }
            }
            assert(names@ =~= clusters_among(iv));
        }
        count
    }

    fn describe(key: &ServiceKey, service: &Service) -> (row: ServiceInfoDto)
        ensures
            describes(row, key@, service@),
    {
        let size = service.instances.len();
        let healthy = Self::count_healthy(&service.instances);
        let clusters = Self::count_clusters(&service.instances);
        assert(instances_view(service.instances@).dom() =~= service.instances@.dom());
        ServiceInfoDto {
            service_name: key.service_name.clone(),
            group_name: key.group_name.clone(),
            instance_size: size as u64,
            cluster_count: clusters as u64,
            healthy_instance_size: healthy as u64,
            metadata: Some(copy_string_map(&service.metadata)),
            protect_threshold: Some(service.protect_threshold),
        }
    }

    fn passes(key: &ServiceKey, namespace_id: &String, param: &ServiceQueryParam) -> (ok: bool)
        requires
            namespace_id@ == page_filter(*param).namespace_id,
        ensures
            ok == page_matches(key@, page_filter(*param)),
    {
        if !(key.namespace_id == *namespace_id) {
            return false;
        }
        let group_ok = match &param.group_name_param {
            Some(g) => starts_with_text(key.group_name.as_str(), g.as_str()),
            None => true,
        };
        if !group_ok {
            return false;
        }
        match &param.service_name_param {
            Some(p) => contains_text(key.service_name.as_str(), p.as_str()),
            None => true,
        }
    }

    /// The keys of the services in the order they are listed in.
    pub closed spec fn service_seq(self) -> Seq<ServiceKeyView> {
        self.services.key_seq()
    }

    /// Lists the services that pass the filter of `param`, one page at a
    /// time: the number of matches and the lines of the page asked for,
    /// in listing order.
    pub fn query_service_info_page(&self, param: &ServiceQueryParam) -> (out: (
        usize,
        Vec<ServiceInfoDto>,
    ))
        ensures
            self.service_seq().no_duplicates(),
            self.service_seq().to_set() == self@.dom(),
            out.0 == self.service_seq().filter(page_pred(page_filter(*param))).len(),
            out.1@.len() == page_len(
                out.0 as int,
                page_skip(param.page_no, param.page_size),
                param.page_size,
            ),
            page_describes(
                out.1@,
                self.service_seq().filter(page_pred(page_filter(*param))),
                page_skip(param.page_no, param.page_size),
                self@,
            ),
    {
        let ghost pred = page_pred(page_filter(*param));
        let namespace_id = match &param.namespace_id {
            Some(t) => if t.as_str().is_empty() {
                DEFAULT_NAMESPACE.to_owned()
            } else {
                t.clone()
            },
            None => DEFAULT_NAMESPACE.to_owned(),
        };
        let skip: u128 = if param.page_no <= 1 {
            0
        } else {
            let pages: u128 = (param.page_no - 1) as u128;
            let size: u128 = param.page_size as u128;
            assert(pages * size <= 0xFFFF_FFFF_FFFF_FFFF * 0xFFFF_FFFF_FFFF_FFFF) by (nonlinear_arith)
                requires
                    0 <= pages <= 0xFFFF_FFFF_FFFF_FFFF,
                    0 <= size <= 0xFFFF_FFFF_FFFF_FFFF,
            ;
            pages * size
        };
        let ghost gap: int = page_skip(param.page_no, param.page_size);
        assert(skip == gap);
        let n = self.services.len();
        let mut count: usize = 0;
        let mut rows: Vec<ServiceInfoDto> = Vec::new();
        let mut i: usize = 0;
        proof {
            reveal(Seq::filter);
            assert(self.services.key_seq().take(0) =~= Seq::empty());
            assert(self@.dom() =~= self.services@.dom());
        }
        while i < n
            invariant
                n == self.services.key_seq().len(),
                i <= n,
                count <= i,
                skip == gap,
                gap >= 0,
                pred == page_pred(page_filter(*param)),
                namespace_id@ == page_filter(*param).namespace_id,
                count == self.services.key_seq().take(i as int).filter(pred).len(),
                rows@.len() == page_len(count as int, gap, param.page_size),
                page_describes(
                    rows@,
                    self.services.key_seq().take(i as int).filter(pred),
                    gap,
                    self@,
                ),
            decreases n - i,
        {
            let ghost before = self.services.key_seq().take(i as int);
            let ghost after = self.services.key_seq().take(i + 1);
            let ghost k = self.services.key_seq()[i as int];
            let ghost old_rows = rows@;
            let key = self.services.key_at(i);
            proof {
                reveal(Seq::filter);
                assert(after =~= before.push(k));
                assert(after.drop_last() =~= before);
                assert(after.last() == k);
                assert(after.filter(pred) == if pred(k) {
                    before.filter(pred).push(k)
                } else {
                    before.filter(pred)
                });
            }
            if Self::passes(key, &namespace_id, param) {
                let service = self.services.value_at(i);
                let position: u128 = count as u128;
                if position >= skip && position - skip < (param.page_size as u128) {
                    rows.push(Self::describe(key, service));
                    proof {
                        assert(self@[k] == service@);
                        assert forall|j: int| 0 <= j < rows@.len() implies row_describes(
                            rows@,
                            after.filter(pred),
                            gap,
                            self@,
                            j,
                        ) by {
                            if j < old_rows.len() {
                                assert(row_describes(old_rows, before.filter(pred), gap, self@, j));
                                assert(rows@[j] == old_rows[j]);
                            }
                        }
                    }
                } else {
                    proof {
                        assert forall|j: int| 0 <= j < rows@.len() implies row_describes(
                            rows@,
                            after.filter(pred),
                            gap,
                            self@,
                            j,
                        ) by {
                            assert(row_describes(old_rows, before.filter(pred), gap, self@, j));
                        }
                    }
                }
                count += 1;
            }
            i += 1;
        }
        proof {
            assert(self.services.key_seq().take(n as int) =~= self.services.key_seq());
        }
        (count, rows)
    }
}

} // verus!
