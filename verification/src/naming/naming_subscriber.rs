//! Who listens to which service.
//!
//! The index is kept twice: by service key, with the clients that listen
//! and the clusters each of them cares for, and by client, with the keys
//! the client listens to. Every operation keeps the two in step, and
//! neither holds an entry with nothing in it.
use crate::common::keyed::Keyed;
use crate::common::pairs::{add_capped, capped, lemma_pairs_insert, lemma_pairs_none, pairs_of};
use crate::common::text::{contains_text, is_substring};
use crate::common::vec_map::VecMap;
use crate::common::vec_set::VecSet;
use crate::naming::model::{ServiceKey, ServiceKeyView};
use crate::naming::naming_delay_notify::DelayNotifyCmd;
use std::sync::Arc;
use vstd::prelude::*;

verus! {

/// The clusters a listener cares for: all of them, or one.
#[derive(Debug, Hash, PartialEq, Eq)]
pub enum ListenerClusterType {
    All,
    One(Arc<String>),
}

impl Clone for ListenerClusterType {
    fn clone(&self) -> (copy: Self)
        ensures
            copy is All == self is All,
            copy matches ListenerClusterType::One(name) ==> self matches ListenerClusterType::One(
                given,
            ) && name@ == given@,
    {
        match self {
            ListenerClusterType::All => ListenerClusterType::All,
            ListenerClusterType::One(name) => ListenerClusterType::One(name.duplicate()),
        }
    }
}

impl Default for ListenerClusterType {
    fn default() -> (kind: Self)
        ensures
            kind is All,
    {
        ListenerClusterType::All
    }
}

/// A service as one listener sees it.
#[derive(Debug, Default, Hash, PartialEq, Eq)]
pub struct ListenerKey {
    pub namespace_id: String,
    pub group_name: String,
    pub service_name: String,
    pub cluster: ListenerClusterType,
}

impl Clone for ListenerKey {
    fn clone(&self) -> (copy: Self)
        ensures
            copy.namespace_id@ == self.namespace_id@,
            copy.group_name@ == self.group_name@,
            copy.service_name@ == self.service_name@,
            copy.cluster is All == self.cluster is All,
            copy.cluster matches ListenerClusterType::One(name) ==> self.cluster matches ListenerClusterType::One(
                given,
            ) && name@ == given@,
    {
        ListenerKey {
            namespace_id: self.namespace_id.clone(),
            group_name: self.group_name.clone(),
            service_name: self.service_name.clone(),
            cluster: self.cluster.clone(),
        }
    }
}

/// The clients of one service, each with its filter.
pub type ClientFilters = VecMap<Arc<String>, Option<VecSet<String>>>;

/// The index by service key: for each key, its clients and their filters.
pub type ListenerView = Map<ServiceKeyView, Map<Seq<char>, Option<Set<Seq<char>>>>>;

/// The index by client: for each client, the keys it listens to.
pub type ClientKeysView = Map<Seq<char>, Set<ServiceKeyView>>;

/// What a [`NamingListenerItem`] is.
pub struct NamingListenerItemView {
    pub service_key: ServiceKeyView,
    pub clusters: Option<Set<Seq<char>>>,
}

/// One subscription of a request: a service and the clusters wanted.
pub struct NamingListenerItem {
    pub service_key: ServiceKey,
    pub clusters: Option<VecSet<String>>,
}

/// A filter as a set of cluster names.
pub open spec fn filter_view(filter: Option<VecSet<String>>) -> Option<Set<Seq<char>>> {
    match filter {
        Some(names) => Some(names@),
        None => None,
    }
}

impl View for NamingListenerItem {
    type V = NamingListenerItemView;

    open spec fn view(&self) -> NamingListenerItemView {
        NamingListenerItemView {
            service_key: self.service_key@,
            clusters: filter_view(self.clusters),
        }
    }
}

/// The views of a list of items, in order.
pub open spec fn items_view(items: Seq<NamingListenerItem>) -> Seq<NamingListenerItemView> {
    Seq::new(items.len(), |i: int| items[i]@)
}

/// The clients of one service with their filters as sets.
pub open spec fn clients_view(clients: Map<Seq<char>, Option<VecSet<String>>>) -> Map<
    Seq<char>,
    Option<Set<Seq<char>>>,
> {
    clients.map_values(|filter: Option<VecSet<String>>| filter_view(filter))
}

/// The index by service key that a table of client tables stands for.
pub open spec fn listener_view_of(listener: Map<ServiceKeyView, ClientFilters>) -> ListenerView {
    listener.map_values(|clients: ClientFilters| clients_view(clients@))
}

/// The index by client that a table of key sets stands for.
pub open spec fn client_keys_view_of(client_keys: Map<Seq<char>, VecSet<ServiceKey>>) -> ClientKeysView {
    client_keys.map_values(|keys: VecSet<ServiceKey>| keys@)
}

/// The client `c` listens to the key `k`, by the index by service key.
pub open spec fn listens(l: ListenerView, k: ServiceKeyView, c: Seq<char>) -> bool {
    l.contains_key(k) && l[k].contains_key(c)
}

/// The client `c` listens to the key `k`, by the index by client.
pub open spec fn tracks(ck: ClientKeysView, c: Seq<char>, k: ServiceKeyView) -> bool {
    ck.contains_key(c) && ck[c].contains(k)
}

/// The table of clients has no client.
pub open spec fn no_client(clients: Map<Seq<char>, Option<Set<Seq<char>>>>) -> bool {
    forall|c: Seq<char>| !clients.contains_key(c)
}

/// The set of keys has no key.
pub open spec fn no_key(keys: Set<ServiceKeyView>) -> bool {
    forall|k: ServiceKeyView| !keys.contains(k)
}

/// Index mutuality: a client listens to a key by one index exactly when it
/// does by the other, and neither index holds an empty entry.
pub open spec fn indexes_agree(l: ListenerView, ck: ClientKeysView) -> bool {
    &&& forall|k: ServiceKeyView, c: Seq<char>|
        #![trigger listens(l, k, c)]
        #![trigger tracks(ck, c, k)]
        listens(l, k, c) == tracks(ck, c, k)
    &&& forall|k: ServiceKeyView| #[trigger] l.contains_key(k) ==> !no_client(l[k])
    &&& forall|c: Seq<char>| #[trigger] ck.contains_key(c) ==> !no_key(ck[c])
}

/// The subscriptions by the index by service key: the pairs of a key and
/// a client that listens to it.
pub open spec fn subscriptions(l: ListenerView) -> Set<(ServiceKeyView, Seq<char>)> {
    Set::new(|p: (ServiceKeyView, Seq<char>)| listens(l, p.0, p.1))
}

/// The subscriptions by the index by client: the pairs of a client and a
/// key it listens to.
pub open spec fn client_subscriptions(ck: ClientKeysView) -> Set<(Seq<char>, ServiceKeyView)> {
    Set::new(|p: (Seq<char>, ServiceKeyView)| tracks(ck, p.0, p.1))
}

/// Some item of the list names the key `k`.
pub open spec fn requested(items: Seq<NamingListenerItemView>, k: ServiceKeyView) -> bool {
    exists|i: int| 0 <= i < items.len() && (#[trigger] items[i]).service_key == k
}

/// The keys that the items of the list name.
pub open spec fn requested_keys(items: Seq<NamingListenerItemView>) -> Set<ServiceKeyView> {
    Set::new(|k: ServiceKeyView| requested(items, k))
}

/// The filter of the last item of the list that names the key `k`.
pub open spec fn requested_filter(items: Seq<NamingListenerItemView>, k: ServiceKeyView) -> Option<
    Set<Seq<char>>,
>
    decreases items.len(),
{
    if items.len() == 0 {
        None
    } else if items.last().service_key == k {
        items.last().clusters
    } else {
        requested_filter(items.drop_last(), k)
    }
}

/// The clients of the key `k`; a key without an entry has none.
pub open spec fn clients_of(l: ListenerView, k: ServiceKeyView) -> Map<
    Seq<char>,
    Option<Set<Seq<char>>>,
> {
    if l.contains_key(k) {
        l[k]
    } else {
        Map::empty()
    }
}

/// The keys of the client `c`; a client without an entry has none.
pub open spec fn keys_of_client(ck: ClientKeysView, c: Seq<char>) -> Set<ServiceKeyView> {
    if ck.contains_key(c) {
        ck[c]
    } else {
        Set::empty()
    }
}

/// The index by service key after the client `c` subscribed to `items`:
/// every key named has `c` among its clients, with the filter of the last
/// item that names it, and nothing else changed.
pub open spec fn listener_after_add(
    l: ListenerView,
    c: Seq<char>,
    items: Seq<NamingListenerItemView>,
) -> ListenerView {
    Map::new(
        |k: ServiceKeyView| l.contains_key(k) || requested(items, k),
        |k: ServiceKeyView|
            if requested(items, k) {
                clients_of(l, k).insert(c, requested_filter(items, k))
            } else {
                l[k]
            },
    )
}

/// The index by client after the client `c` subscribed to `items`: the
/// keys named are added to the keys of `c`. A request without items
/// changes nothing.
pub open spec fn client_keys_after_add(
    ck: ClientKeysView,
    c: Seq<char>,
    items: Seq<NamingListenerItemView>,
) -> ClientKeysView {
    if items.len() == 0 {
        ck
    } else {
        ck.insert(c, keys_of_client(ck, c).union(requested_keys(items)))
    }
}

/// The index by service key after the client `c` left the keys in
/// `keys`: it is no longer among their clients, a key left without a
/// client has no entry, and nothing else changed.
pub open spec fn listener_drop_client(l: ListenerView, c: Seq<char>, keys: Set<ServiceKeyView>) -> ListenerView {
    Map::new(
        |k: ServiceKeyView| l.contains_key(k) && !(keys.contains(k) && no_client(l[k].remove(c))),
        |k: ServiceKeyView|
            if keys.contains(k) {
                l[k].remove(c)
            } else {
                l[k]
            },
    )
}

/// The index by client after the client `c` left the keys in `keys`: they
/// are no longer among its keys, and a client left without a key has no
/// entry.
pub open spec fn client_keys_drop_keys(ck: ClientKeysView, c: Seq<char>, keys: Set<ServiceKeyView>) -> ClientKeysView {
    if !ck.contains_key(c) {
        ck
    } else if no_key(ck[c].difference(keys)) {
        ck.remove(c)
    } else {
        ck.insert(c, ck[c].difference(keys))
    }
}

/// The index by client after the key `k` left the clients in `clients`:
/// it is no longer among their keys, a client left without a key has no
/// entry, and nothing else changed.
pub open spec fn client_keys_drop_key(ck: ClientKeysView, k: ServiceKeyView, clients: Set<Seq<char>>) -> ClientKeysView {
    Map::new(
        |c: Seq<char>| ck.contains_key(c) && !(clients.contains(c) && no_key(ck[c].remove(k))),
        |c: Seq<char>|
            if clients.contains(c) {
                ck[c].remove(k)
            } else {
                ck[c]
            },
    )
}

/// The key `k` matches the three patterns: each occurs in its field.
pub open spec fn key_matches(
    k: ServiceKeyView,
    group_name: Seq<char>,
    service_name: Seq<char>,
    namespace_id: Seq<char>,
) -> bool {
    &&& is_substring(group_name, k.group_name)
    &&& is_substring(service_name, k.service_name)
    &&& is_substring(namespace_id, k.namespace_id)
}

/// The part of the index by service key whose keys are among `keys` and
/// match the three patterns.
pub open spec fn matching_listeners(
    l: ListenerView,
    keys: Set<ServiceKeyView>,
    group_name: Seq<char>,
    service_name: Seq<char>,
    namespace_id: Seq<char>,
) -> ListenerView {
    Map::new(
        |k: ServiceKeyView|
            keys.contains(k) && l.contains_key(k) && key_matches(
                k,
                group_name,
                service_name,
                namespace_id,
            ),
        |k: ServiceKeyView| l[k],
    )
}

proof fn lemma_clients_insert(clients: Map<Seq<char>, Option<VecSet<String>>>, c: Seq<char>, filter: Option<VecSet<String>>)
    ensures
        clients_view(clients.insert(c, filter)) == clients_view(clients).insert(c, filter_view(filter)),
{
    assert(clients_view(clients.insert(c, filter)) =~= clients_view(clients).insert(
        c,
        filter_view(filter),
    ));
}

proof fn lemma_clients_remove(clients: Map<Seq<char>, Option<VecSet<String>>>, c: Seq<char>)
    ensures
        clients_view(clients.remove(c)) == clients_view(clients).remove(c),
{
    assert(clients_view(clients.remove(c)) =~= clients_view(clients).remove(c));
}

proof fn lemma_clients_empty()
    ensures
        clients_view(Map::empty()) == Map::<Seq<char>, Option<Set<Seq<char>>>>::empty(),
{
    assert(clients_view(Map::empty()) =~= Map::<Seq<char>, Option<Set<Seq<char>>>>::empty());
}

proof fn lemma_listener_insert(listener: Map<ServiceKeyView, ClientFilters>, k: ServiceKeyView, clients: ClientFilters)
    ensures
        listener_view_of(listener.insert(k, clients)) == listener_view_of(listener).insert(
            k,
            clients_view(clients@),
        ),
{
    assert(listener_view_of(listener.insert(k, clients)) =~= listener_view_of(listener).insert(
        k,
        clients_view(clients@),
    ));
}

proof fn lemma_listener_remove(listener: Map<ServiceKeyView, ClientFilters>, k: ServiceKeyView)
    ensures
        listener_view_of(listener.remove(k)) == listener_view_of(listener).remove(k),
{
    assert(listener_view_of(listener.remove(k)) =~= listener_view_of(listener).remove(k));
}

proof fn lemma_client_keys_insert(client_keys: Map<Seq<char>, VecSet<ServiceKey>>, c: Seq<char>, keys: VecSet<ServiceKey>)
    ensures
        client_keys_view_of(client_keys.insert(c, keys)) == client_keys_view_of(client_keys).insert(
            c,
            keys@,
        ),
{
    assert(client_keys_view_of(client_keys.insert(c, keys)) =~= client_keys_view_of(
        client_keys,
    ).insert(c, keys@));
}

proof fn lemma_client_keys_remove(client_keys: Map<Seq<char>, VecSet<ServiceKey>>, c: Seq<char>)
    ensures
        client_keys_view_of(client_keys.remove(c)) == client_keys_view_of(client_keys).remove(c),
{
    assert(client_keys_view_of(client_keys.remove(c)) =~= client_keys_view_of(client_keys).remove(
        c,
    ));
}

proof fn lemma_items_take(items: Seq<NamingListenerItem>, i: int)
    requires
        0 <= i < items.len(),
    ensures
        items_view(items).take(i + 1) == items_view(items).take(i).push(items[i]@),
{
    assert(items_view(items).take(i + 1) =~= items_view(items).take(i).push(items[i]@));
}

proof fn lemma_items_whole(items: Seq<NamingListenerItem>)
    ensures
        items_view(items).take(items.len() as int) == items_view(items),
{
    assert(items_view(items).take(items.len() as int) =~= items_view(items));
}

proof fn lemma_requested_push(items: Seq<NamingListenerItemView>, x: NamingListenerItemView, k: ServiceKeyView)
    ensures
        requested(items.push(x), k) == (requested(items, k) || x.service_key == k),
        requested_filter(items.push(x), k) == (if x.service_key == k {
            x.clusters
        } else {
            requested_filter(items, k)
        }),
{
    let after = items.push(x);
    if requested(items, k) {
        let i = choose|i: int| 0 <= i < items.len() && (#[trigger] items[i]).service_key == k;
        assert(after[i] == items[i]);
    }
    if x.service_key == k {
        assert(after[items.len() as int] == x);
    }
    if requested(after, k) {
        let i = choose|i: int| 0 <= i < after.len() && (#[trigger] after[i]).service_key == k;
        if i < items.len() {
            assert(after[i] == items[i]);
        }
    }
    assert(after.drop_last() =~= items);
    assert(after.last() == x);
}

proof fn lemma_requested_keys_push(items: Seq<NamingListenerItemView>, x: NamingListenerItemView)
    ensures
        requested_keys(items.push(x)) == requested_keys(items).insert(x.service_key),
{
    assert forall|k: ServiceKeyView|
        requested_keys(items.push(x)).contains(k) == requested_keys(items).insert(
            x.service_key,
        ).contains(k) by {
        lemma_requested_push(items, x, k);
    }
    assert(requested_keys(items.push(x)) =~= requested_keys(items).insert(x.service_key));
}

proof fn lemma_add_none(l: ListenerView, c: Seq<char>)
    ensures
        listener_after_add(l, c, Seq::empty()) == l,
{
    assert(listener_after_add(l, c, Seq::empty()) =~= l);
}

proof fn lemma_add_step(l: ListenerView, c: Seq<char>, items: Seq<NamingListenerItemView>, x: NamingListenerItemView)
    ensures
        listener_after_add(l, c, items.push(x)) == listener_after_add(l, c, items).insert(
            x.service_key,
            clients_of(listener_after_add(l, c, items), x.service_key).insert(c, x.clusters),
        ),
{
    let before = listener_after_add(l, c, items);
    let after = listener_after_add(l, c, items.push(x));
    let expected = before.insert(x.service_key, clients_of(before, x.service_key).insert(c, x.clusters));
    assert forall|k: ServiceKeyView| after.contains_key(k) == expected.contains_key(k) by {
        lemma_requested_push(items, x, k);
    }
    assert forall|k: ServiceKeyView| after.contains_key(k) implies after[k] == expected[k] by {
        lemma_requested_push(items, x, k);
        if k == x.service_key {
            assert(after[k] =~= expected[k]);
        }
    }
    assert(after =~= expected);
}

proof fn lemma_add_agrees(
    l: ListenerView,
    ck: ClientKeysView,
    c: Seq<char>,
    items: Seq<NamingListenerItemView>,
)
    requires
        indexes_agree(l, ck),
    ensures
        indexes_agree(listener_after_add(l, c, items), client_keys_after_add(ck, c, items)),
{
    let l2 = listener_after_add(l, c, items);
    let ck2 = client_keys_after_add(ck, c, items);
    if items.len() == 0 {
        lemma_add_none(l, c);
    } else {
        assert(requested(items, items[0].service_key));
        assert forall|k: ServiceKeyView, x: Seq<char>| listens(l2, k, x) == tracks(ck2, x, k) by {
            assert(listens(l, k, x) == tracks(ck, x, k));
        }
        assert forall|k: ServiceKeyView| #[trigger] l2.contains_key(k) implies !no_client(l2[k]) by {
            if requested(items, k) {
                assert(l2[k].contains_key(c));
            } else {
                assert(l.contains_key(k));
            }
        }
        assert forall|x: Seq<char>| #[trigger] ck2.contains_key(x) implies !no_key(ck2[x]) by {
            if x == c {
                assert(ck2[x].contains(items[0].service_key));
            } else {
                assert(ck.contains_key(x));
            }
        }
    }
}

proof fn lemma_drop_none(l: ListenerView, c: Seq<char>)
    ensures
        listener_drop_client(l, c, Set::empty()) == l,
{
    assert(listener_drop_client(l, c, Set::empty()) =~= l);
}

proof fn lemma_drop_step(l: ListenerView, c: Seq<char>, keys: Set<ServiceKeyView>, k: ServiceKeyView)
    ensures
        listener_drop_client(listener_drop_client(l, c, keys), c, set![k]) == listener_drop_client(
            l,
            c,
            keys.insert(k),
        ),
{
    let first = listener_drop_client(l, c, keys);
    let both = listener_drop_client(first, c, set![k]);
    let expected = listener_drop_client(l, c, keys.insert(k));
    assert forall|x: ServiceKeyView| both.contains_key(x) == expected.contains_key(x) by {
        if l.contains_key(x) {
            assert(l[x].remove(c).remove(c) =~= l[x].remove(c));
        }
    }
    assert forall|x: ServiceKeyView| both.contains_key(x) implies both[x] == expected[x] by {
        assert(l[x].remove(c).remove(c) =~= l[x].remove(c));
    }
    assert(both =~= expected);
}

proof fn lemma_remove_agrees(l: ListenerView, ck: ClientKeysView, c: Seq<char>, keys: Set<ServiceKeyView>)
    requires
        indexes_agree(l, ck),
    ensures
        indexes_agree(listener_drop_client(l, c, keys), client_keys_drop_keys(ck, c, keys)),
        forall|k: ServiceKeyView, x: Seq<char>|
            #![trigger listens(listener_drop_client(l, c, keys), k, x)]
            listens(listener_drop_client(l, c, keys), k, x) == (listens(l, k, x) && !(x == c
                && keys.contains(k))),
{
    let l2 = listener_drop_client(l, c, keys);
    let ck2 = client_keys_drop_keys(ck, c, keys);
    assert forall|k: ServiceKeyView, x: Seq<char>|
        #![trigger listens(l2, k, x)]
        listens(l2, k, x) == (listens(l, k, x) && !(x == c && keys.contains(k))) by {
        if listens(l, k, x) && keys.contains(k) && x != c {
            assert(l[k].remove(c).contains_key(x));
        }
    }
    assert forall|k: ServiceKeyView, x: Seq<char>| listens(l2, k, x) == tracks(ck2, x, k) by {
        assert(listens(l, k, x) == tracks(ck, x, k));
        if x == c && ck.contains_key(c) {
            let rest = ck[c].difference(keys);
            if no_key(rest) {
                assert(!rest.contains(k));
            }
        }
    }
    assert forall|k: ServiceKeyView| #[trigger] l2.contains_key(k) implies !no_client(l2[k]) by {
        assert(l.contains_key(k));
    }
    assert forall|x: Seq<char>| #[trigger] ck2.contains_key(x) implies !no_key(ck2[x]) by {
        assert(ck.contains_key(x));
    }
}

proof fn lemma_drop_all(l: ListenerView, ck: ClientKeysView, c: Seq<char>)
    requires
        indexes_agree(l, ck),
    ensures
        listener_drop_client(l, c, keys_of_client(ck, c)) == listener_drop_client(l, c, Set::full()),
        client_keys_drop_keys(ck, c, Set::full()) == ck.remove(c),
{
    let some = listener_drop_client(l, c, keys_of_client(ck, c));
    let all = listener_drop_client(l, c, Set::full());
    assert forall|k: ServiceKeyView| l.contains_key(k) && !keys_of_client(ck, c).contains(k) implies (
    !no_client(l[k].remove(c)) && l[k].remove(c) == l[k]) by {
        assert(listens(l, k, c) == tracks(ck, c, k));
        assert(l[k].remove(c) =~= l[k]);
    }
    assert(some =~= all);
    if ck.contains_key(c) {
        assert(no_key(ck[c].difference(Set::full())));
    }
    assert(client_keys_drop_keys(ck, c, Set::full()) =~= ck.remove(c));
}

proof fn lemma_unkey_none(ck: ClientKeysView, k: ServiceKeyView)
    ensures
        client_keys_drop_key(ck, k, Set::empty()) == ck,
{
    assert(client_keys_drop_key(ck, k, Set::empty()) =~= ck);
}

proof fn lemma_unkey_step(ck: ClientKeysView, k: ServiceKeyView, clients: Set<Seq<char>>, c: Seq<char>)
    ensures
        client_keys_drop_key(client_keys_drop_key(ck, k, clients), k, set![c]) == client_keys_drop_key(
            ck,
            k,
            clients.insert(c),
        ),
{
    let first = client_keys_drop_key(ck, k, clients);
    let both = client_keys_drop_key(first, k, set![c]);
    let expected = client_keys_drop_key(ck, k, clients.insert(c));
    assert forall|x: Seq<char>| both.contains_key(x) == expected.contains_key(x) by {
        if ck.contains_key(x) {
            assert(ck[x].remove(k).remove(k) =~= ck[x].remove(k));
        }
    }
    assert forall|x: Seq<char>| both.contains_key(x) implies both[x] == expected[x] by {
        assert(ck[x].remove(k).remove(k) =~= ck[x].remove(k));
    }
    assert(both =~= expected);
}

proof fn lemma_unkey_all(l: ListenerView, ck: ClientKeysView, k: ServiceKeyView)
    requires
        indexes_agree(l, ck),
    ensures
        client_keys_drop_key(ck, k, clients_of(l, k).dom()) == client_keys_drop_key(
            ck,
            k,
            Set::full(),
        ),
        indexes_agree(l.remove(k), client_keys_drop_key(ck, k, Set::full())),
        forall|c: Seq<char>, x: ServiceKeyView|
            #![trigger tracks(client_keys_drop_key(ck, k, Set::full()), c, x)]
            tracks(client_keys_drop_key(ck, k, Set::full()), c, x) == (tracks(ck, c, x) && x != k),
{
    let some = client_keys_drop_key(ck, k, clients_of(l, k).dom());
    let all = client_keys_drop_key(ck, k, Set::full());
    assert forall|c: Seq<char>| ck.contains_key(c) && !clients_of(l, k).dom().contains(c) implies (
    !no_key(ck[c].remove(k)) && ck[c].remove(k) == ck[c]) by {
        assert(listens(l, k, c) == tracks(ck, c, k));
        assert(ck[c].remove(k) =~= ck[c]);
    }
    assert(some =~= all);
    let l2 = l.remove(k);
    assert forall|c: Seq<char>, x: ServiceKeyView|
        #![trigger tracks(all, c, x)]
        tracks(all, c, x) == (tracks(ck, c, x) && x != k) by {
        if tracks(ck, c, x) && x != k {
            assert(ck[c].remove(k).contains(x));
        }
    }
    assert forall|x: ServiceKeyView, c: Seq<char>| listens(l2, x, c) == tracks(all, c, x) by {
        assert(listens(l, x, c) == tracks(ck, c, x));
    }
    assert forall|x: ServiceKeyView| #[trigger] l2.contains_key(x) implies !no_client(l2[x]) by {
        assert(l.contains_key(x));
    }
    assert forall|c: Seq<char>| #[trigger] all.contains_key(c) implies !no_key(all[c]) by {
        assert(ck.contains_key(c));
    }
}

/// The subscription index.
pub struct Subscriber {
    listener: VecMap<ServiceKey, ClientFilters>,
    client_keys: VecMap<Arc<String>, VecSet<ServiceKey>>,
    notify_attached: bool,
}

impl Subscriber {
    /// The index by service key.
    pub closed spec fn listener(self) -> ListenerView {
        listener_view_of(self.listener@)
    }

    /// The index by client.
    pub closed spec fn client_keys(self) -> ClientKeysView {
        client_keys_view_of(self.client_keys@)
    }

    /// A notifier was attached, so that changes are passed on.
    pub closed spec fn notify_attached(self) -> bool {
        self.notify_attached
    }

    /// The two indexes agree and hold no empty entry.
    pub open spec fn wf(self) -> bool {
        indexes_agree(self.listener(), self.client_keys())
    }

    /// An index without subscriptions and without a notifier.
    pub fn new() -> (subscriber: Self)
        ensures
            subscriber.wf(),
            subscriber.listener() == Map::<
                ServiceKeyView,
                Map<Seq<char>, Option<Set<Seq<char>>>>,
            >::empty(),
            subscriber.client_keys() == Map::<Seq<char>, Set<ServiceKeyView>>::empty(),
            !subscriber.notify_attached(),
    {
        let subscriber = Subscriber {
            listener: VecMap::new(),
            client_keys: VecMap::new(),
            notify_attached: false,
        };
        assert(subscriber.listener() =~= Map::<
            ServiceKeyView,
            Map<Seq<char>, Option<Set<Seq<char>>>>,
        >::empty());
        assert(subscriber.client_keys() =~= Map::<Seq<char>, Set<ServiceKeyView>>::empty());
        subscriber
    }

    /// Attaches the notifier: from now on [`Subscriber::notify`] passes
    /// changes on.
    pub fn set_notify_addr(&mut self)
        ensures
            final(self).notify_attached(),
            final(self).listener() == old(self).listener(),
            final(self).client_keys() == old(self).client_keys(),
    {
        self.notify_attached = true;
    }

    fn collect_keys(keys: &mut VecSet<ServiceKey>, items: &Vec<NamingListenerItem>)
        ensures
            final(keys)@ == old(keys)@.union(requested_keys(items_view(items@))),
    {
        let n = items.len();
        let mut i: usize = 0;
        assert(keys@ =~= old(keys)@.union(requested_keys(items_view(items@).take(0))));
        while i < n
            invariant
                n == items@.len(),
                i <= n,
                keys@ == old(keys)@.union(requested_keys(items_view(items@).take(i as int))),
            decreases n - i,
        {
            proof {
                lemma_items_take(items@, i as int);
                lemma_requested_keys_push(items_view(items@).take(i as int), items@[i as int]@);
            }
            keys.insert(items[i].service_key.clone());
            assert(keys@ =~= old(keys)@.union(
                requested_keys(items_view(items@).take(i as int + 1)),
            ));
            i += 1;
        }
        proof {
            lemma_items_whole(items@);
        }
    }

    fn put_listener(
        listener: &mut VecMap<ServiceKey, ClientFilters>,
        client_id: &Arc<String>,
        item: NamingListenerItem,
    )
        ensures
            listener_view_of(final(listener)@) == listener_view_of(old(listener)@).insert(
                item@.service_key,
                clients_of(listener_view_of(old(listener)@), item@.service_key).insert(
                    client_id@,
                    item@.clusters,
                ),
            ),
    {
        let NamingListenerItem { service_key, clusters } = item;
        let mut clients = match listener.remove(&service_key) {
            Some(found) => found,
            None => {
                proof {
                    lemma_clients_empty();
                }
                VecMap::new()
            },
        };
        proof {
            lemma_clients_insert(clients@, client_id@, clusters);
            lemma_listener_remove(old(listener)@, service_key@);
        }
        clients.insert(client_id.duplicate(), clusters);
        proof {
            lemma_listener_insert(old(listener)@.remove(service_key@), service_key@, clients);
        }
        listener.insert(service_key, clients);
        assert(listener_view_of(listener@) =~= listener_view_of(old(listener)@).insert(
            item@.service_key,
            clients_of(listener_view_of(old(listener)@), item@.service_key).insert(
                client_id@,
                item@.clusters,
            ),
        ));
    }

    /// Subscribes the client `client_id` to `items`. Subscribing again to
    /// a key replaces the filter; a request without items changes nothing.
    pub fn add_subscribe(&mut self, client_id: Arc<String>, items: Vec<NamingListenerItem>)
        requires
            old(self).wf(),
        ensures
            final(self).wf(),
            final(self).listener() == listener_after_add(
                old(self).listener(),
                client_id@,
                items_view(items@),
            ),
            final(self).client_keys() == client_keys_after_add(
                old(self).client_keys(),
                client_id@,
                items_view(items@),
            ),
            final(self).notify_attached() == old(self).notify_attached(),
    {
        let ghost all = items_view(items@);
        proof {
            lemma_add_agrees(old(self).listener(), old(self).client_keys(), client_id@, all);
            lemma_add_none(old(self).listener(), client_id@);
        }
        if items.len() == 0 {
            assert(all =~= Seq::empty());
            return ;
        }
        let mut keys = match self.client_keys.remove(&client_id) {
            Some(found) => found,
            None => VecSet::new(),
        };
        Self::collect_keys(&mut keys, &items);
        proof {
            lemma_client_keys_remove(old(self).client_keys@, client_id@);
            lemma_client_keys_insert(old(self).client_keys@.remove(client_id@), client_id@, keys);
        }
        self.client_keys.insert(client_id.duplicate(), keys);
        assert(self.client_keys() =~= client_keys_after_add(
            old(self).client_keys(),
            client_id@,
            all,
        ));
        let ghost whole = items@;
        assert(all.take(0) =~= Seq::empty());
        for item in it: items
            invariant
                it.seq() == whole,
                all == items_view(whole),
                self.client_keys() == client_keys_after_add(
                    old(self).client_keys(),
                    client_id@,
                    all,
                ),
                self.notify_attached() == old(self).notify_attached(),
                self.listener() == listener_after_add(
                    old(self).listener(),
                    client_id@,
                    all.take(it.index() as int),
                ),
        {
            proof {
                lemma_items_take(whole, it.index() as int);
                lemma_add_step(
                    old(self).listener(),
                    client_id@,
                    all.take(it.index() as int),
                    whole[it.index() as int]@,
                );
            }
            Self::put_listener(&mut self.listener, &client_id, item);
        }
        proof {
            lemma_items_whole(whole);
        }
    }

    fn drop_listener(
        listener: &mut VecMap<ServiceKey, ClientFilters>,
        client_id: &Arc<String>,
        key: &ServiceKey,
    )
        ensures
            listener_view_of(final(listener)@) == listener_drop_client(
                listener_view_of(old(listener)@),
                client_id@,
                set![key@],
            ),
    {
        let ghost before = listener_view_of(old(listener)@);
        let ghost expected = listener_drop_client(before, client_id@, set![key@]);
        match listener.remove(key) {
            Some(found) => {
                let mut clients = found;
                proof {
                    lemma_listener_remove(old(listener)@, key@);
                    lemma_clients_remove(clients@, client_id@);
                }
                clients.remove(client_id);
                let empty = clients.is_empty();
                proof {
                    if empty {
                        assert(clients_view(clients@) =~= Map::empty());
                    } else {
                        let some = choose|c: Seq<char>| clients@.dom().contains(c);
                        if clients@.dom().len() != 0 && !clients@.dom().contains(some) {
                            assert(clients@.dom() =~= Set::empty());
                        }
                        assert(clients_view(clients@).contains_key(some));
                    }
                }
                if !empty {
                    proof {
                        lemma_listener_insert(old(listener)@.remove(key@), key@, clients);
                    }
                    listener.insert(key.clone(), clients);
                }
                assert(listener_view_of(listener@) =~= expected);
            },
            None => {
                assert(listener_view_of(listener@) =~= expected);
            },
        }
    }

    fn discard_keys(keys: &mut VecSet<ServiceKey>, items: &Vec<NamingListenerItem>)
        ensures
            final(keys)@ == old(keys)@.difference(requested_keys(items_view(items@))),
    {
        let n = items.len();
        let mut i: usize = 0;
        assert(keys@ =~= old(keys)@.difference(requested_keys(items_view(items@).take(0))));
        while i < n
            invariant
                n == items@.len(),
                i <= n,
                keys@ == old(keys)@.difference(requested_keys(items_view(items@).take(i as int))),
            decreases n - i,
        {
            proof {
                lemma_items_take(items@, i as int);
                lemma_requested_keys_push(items_view(items@).take(i as int), items@[i as int]@);
            }
            keys.remove(&items[i].service_key);
            assert(keys@ =~= old(keys)@.difference(
                requested_keys(items_view(items@).take(i as int + 1)),
            ));
            i += 1;
        }
        proof {
            lemma_items_whole(items@);
        }
    }

    /// Ends the subscriptions of the client `client_id` to the keys that
    /// `items` name. A key left without a client and a client left without
    /// a key lose their entries.
    pub fn remove_subscribe(&mut self, client_id: Arc<String>, items: Vec<NamingListenerItem>)
        requires
            old(self).wf(),
        ensures
            final(self).wf(),
            final(self).listener() == listener_drop_client(
                old(self).listener(),
                client_id@,
                requested_keys(items_view(items@)),
            ),
            final(self).client_keys() == client_keys_drop_keys(
                old(self).client_keys(),
                client_id@,
                requested_keys(items_view(items@)),
            ),
            final(self).notify_attached() == old(self).notify_attached(),
    {
        let ghost all = items_view(items@);
        proof {
            lemma_remove_agrees(
                old(self).listener(),
                old(self).client_keys(),
                client_id@,
                requested_keys(all),
            );
            lemma_drop_none(old(self).listener(), client_id@);
        }
        let n = items.len();
        let mut i: usize = 0;
        assert(requested_keys(all.take(0)) =~= Set::empty());
        while i < n
            invariant
                n == items@.len(),
                i <= n,
                all == items_view(items@),
                self.client_keys() == old(self).client_keys(),
                self.notify_attached() == old(self).notify_attached(),
                self.listener() == listener_drop_client(
                    old(self).listener(),
                    client_id@,
                    requested_keys(all.take(i as int)),
                ),
            decreases n - i,
        {
            proof {
                lemma_items_take(items@, i as int);
                lemma_requested_keys_push(all.take(i as int), items@[i as int]@);
                lemma_drop_step(
                    old(self).listener(),
                    client_id@,
                    requested_keys(all.take(i as int)),
                    items@[i as int]@.service_key,
                );
            }
            Self::drop_listener(&mut self.listener, &client_id, &items[i].service_key);
            i += 1;
        }
        proof {
            lemma_items_whole(items@);
        }
        match self.client_keys.remove(&client_id) {
            Some(found) => {
                let mut keys = found;
                Self::discard_keys(&mut keys, &items);
                let empty = keys.is_empty();
                proof {
                    lemma_client_keys_remove(old(self).client_keys@, client_id@);
                    if !empty && no_key(keys@) {
                        assert(keys@ =~= Set::empty());
                    }
                }
                if !empty {
                    proof {
                        lemma_client_keys_insert(
                            old(self).client_keys@.remove(client_id@),
                            client_id@,
                            keys,
                        );
                    }
                    self.client_keys.insert(client_id, keys);
                }
                assert(self.client_keys() =~= client_keys_drop_keys(
                    old(self).client_keys(),
                    client_id@,
                    requested_keys(all),
                ));
            },
            None => {
                assert(self.client_keys() =~= old(self).client_keys());
            },
        }
    }

    /// Ends every subscription of the client `client_id`, as when it
    /// disconnects: no key has it among its clients any more, it has no
    /// entry of its own, and the subscriptions of other clients stay.
    pub fn remove_client_subscribe(&mut self, client_id: Arc<String>)
        requires
            old(self).wf(),
        ensures
            final(self).wf(),
            final(self).listener() == listener_drop_client(
                old(self).listener(),
                client_id@,
                Set::full(),
            ),
            final(self).client_keys() == old(self).client_keys().remove(client_id@),
            forall|k: ServiceKeyView, c: Seq<char>|
                #![trigger listens(final(self).listener(), k, c)]
                listens(final(self).listener(), k, c) == (listens(old(self).listener(), k, c) && c
                    != client_id@),
            final(self).notify_attached() == old(self).notify_attached(),
    {
        proof {
            lemma_drop_all(old(self).listener(), old(self).client_keys(), client_id@);
            lemma_remove_agrees(
                old(self).listener(),
                old(self).client_keys(),
                client_id@,
                Set::full(),
            );
            lemma_drop_none(old(self).listener(), client_id@);
            lemma_client_keys_remove(old(self).client_keys@, client_id@);
        }
        match self.client_keys.remove(&client_id) {
            Some(keys) => {
                let n = keys.len();
                let mut i: usize = 0;
                assert(keys.item_seq().take(0).to_set() =~= Set::empty());
                while i < n
                    invariant
                        n == keys.item_seq().len(),
                        i <= n,
                        self.client_keys() == old(self).client_keys().remove(client_id@),
                        self.notify_attached() == old(self).notify_attached(),
                        self.listener() == listener_drop_client(
                            old(self).listener(),
                            client_id@,
                            keys.item_seq().take(i as int).to_set(),
                        ),
                    decreases n - i,
                {
                    let ghost before = keys.item_seq().take(i as int);
                    proof {
                        assert(keys.item_seq().take(i + 1) =~= before.push(
                            keys.item_seq()[i as int],
                        ));
                        before.lemma_push_to_set_commute(keys.item_seq()[i as int]);
                        lemma_drop_step(
                            old(self).listener(),
                            client_id@,
                            before.to_set(),
                            keys.item_seq()[i as int],
                        );
                    }
                    Self::drop_listener(&mut self.listener, &client_id, keys.item_at(i));
                    i += 1;
                }
                proof {
                    assert(keys.item_seq().take(n as int) =~= keys.item_seq());
                }
            },
            None => {
                assert(self.client_keys() =~= old(self).client_keys());
            },
        }
    }

    fn drop_key_of(
        client_keys: &mut VecMap<Arc<String>, VecSet<ServiceKey>>,
        client_id: &Arc<String>,
        key: &ServiceKey,
    )
        ensures
            client_keys_view_of(final(client_keys)@) == client_keys_drop_key(
                client_keys_view_of(old(client_keys)@),
                key@,
                set![client_id@],
            ),
    {
        let ghost before = client_keys_view_of(old(client_keys)@);
        let ghost expected = client_keys_drop_key(before, key@, set![client_id@]);
        match client_keys.remove(client_id) {
            Some(found) => {
                let mut keys = found;
                proof {
                    lemma_client_keys_remove(old(client_keys)@, client_id@);
                }
                keys.remove(key);
                let empty = keys.is_empty();
                proof {
                    if !empty && no_key(keys@) {
                        assert(keys@ =~= Set::empty());
                    }
                }
                if !empty {
                    proof {
                        lemma_client_keys_insert(
                            old(client_keys)@.remove(client_id@),
                            client_id@,
                            keys,
                        );
                    }
                    client_keys.insert(client_id.duplicate(), keys);
                }
                assert(client_keys_view_of(client_keys@) =~= expected);
            },
            None => {
                assert(client_keys_view_of(client_keys@) =~= expected);
            },
        }
    }

    /// Forgets the service `key`, as when it is deleted: it has no entry
    /// any more, no client has it among its keys, and the other keys of
    /// its clients stay.
    pub fn remove_key(&mut self, key: ServiceKey)
        requires
            old(self).wf(),
        ensures
            final(self).wf(),
            final(self).listener() == old(self).listener().remove(key@),
            final(self).client_keys() == client_keys_drop_key(
                old(self).client_keys(),
                key@,
                Set::full(),
            ),
            forall|c: Seq<char>, k: ServiceKeyView|
                #![trigger tracks(final(self).client_keys(), c, k)]
                tracks(final(self).client_keys(), c, k) == (tracks(old(self).client_keys(), c, k)
                    && k != key@),
            final(self).notify_attached() == old(self).notify_attached(),
    {
        proof {
            lemma_unkey_all(old(self).listener(), old(self).client_keys(), key@);
            lemma_unkey_none(old(self).client_keys(), key@);
            lemma_listener_remove(old(self).listener@, key@);
        }
        match self.listener.remove(&key) {
            Some(clients) => {
                let n = clients.len();
                let mut i: usize = 0;
                assert(clients.key_seq().take(0).to_set() =~= Set::empty());
                assert(clients_of(old(self).listener(), key@).dom() =~= clients@.dom());
                while i < n
                    invariant
                        n == clients.key_seq().len(),
                        i <= n,
                        self.listener() == old(self).listener().remove(key@),
                        self.notify_attached() == old(self).notify_attached(),
                        self.client_keys() == client_keys_drop_key(
                            old(self).client_keys(),
                            key@,
                            clients.key_seq().take(i as int).to_set(),
                        ),
                    decreases n - i,
                {
                    let ghost before = clients.key_seq().take(i as int);
                    proof {
                        assert(clients.key_seq().take(i + 1) =~= before.push(
                            clients.key_seq()[i as int],
                        ));
                        before.lemma_push_to_set_commute(clients.key_seq()[i as int]);
                        lemma_unkey_step(
                            old(self).client_keys(),
                            key@,
                            before.to_set(),
                            clients.key_seq()[i as int],
                        );
                    }
                    Self::drop_key_of(&mut self.client_keys, clients.key_at(i), &key);
                    i += 1;
                }
                proof {
                    assert(clients.key_seq().take(n as int) =~= clients.key_seq());
                }
            },
            None => {
                assert(self.listener() =~= old(self).listener());
                assert(clients_of(old(self).listener(), key@).dom() =~= Set::empty());
            },
        }
    }

    /// Says whom to tell that the service `key` changed: its clients, if a
    /// notifier is attached and the key has any.
    pub fn notify(&self, key: ServiceKey) -> (cmd: Option<DelayNotifyCmd>)
        ensures
            cmd.is_some() == (self.notify_attached() && self.listener().contains_key(key@)),
            cmd matches Some(DelayNotifyCmd::Notify(k, clients)) ==> k@ == key@ && clients@
                == self.listener()[key@].dom(),
    {
        if !self.notify_attached {
            return None;
        }
        match self.listener.get(&key) {
            Some(clients) => {
                let n = clients.len();
                let mut client_id_set: VecSet<Arc<String>> = VecSet::new();
                let mut i: usize = 0;
                while i < n
                    invariant
                        n == clients.key_seq().len(),
                        i <= n,
                        clients.key_seq().to_set() == clients@.dom(),
                        client_id_set@ == clients.key_seq().take(i as int).to_set(),
                    decreases n - i,
                {
                    let ghost before = clients.key_seq().take(i as int);
                    let ghost after = clients.key_seq().take(i + 1);
                    client_id_set.insert(clients.key_at(i).duplicate());
                    proof {
                        assert(after =~= before.push(clients.key_seq()[i as int]));
                        before.lemma_push_to_set_commute(clients.key_seq()[i as int]);
                    }
                    i += 1;
                }
                proof {
                    assert(clients.key_seq().take(n as int) =~= clients.key_seq());
                    assert(clients_view(clients@).dom() =~= clients@.dom());
                }
                Some(DelayNotifyCmd::Notify(key, client_id_set))
            },
            None => None,
        }
    }

    /// The number of services that have a listener.
    pub fn get_listener_key_size(&self) -> (n: usize)
        ensures
            self.listener().dom().finite(),
            n == self.listener().dom().len(),
    {
        assert(self.listener().dom() =~= self.listener@.dom());
        self.listener.len()
    }

    /// The number of subscriptions, counted by the index by service key.
    /// A count beyond the largest `usize` is reported as that.
    pub fn get_listener_value_size(&self) -> (n: usize)
        ensures
            subscriptions(self.listener()).finite(),
            n == capped(subscriptions(self.listener()).len()),
    {
        let ghost l = self.listener();
        let ghost among = |k: ServiceKeyView| clients_of(l, k).dom();
        let size = self.listener.len();
        let mut sum: usize = 0;
        let mut i: usize = 0;
        proof {
            lemma_pairs_none(among);
            assert(self.listener.key_seq().take(0).to_set() =~= Set::empty());
        }
        while i < size
            invariant
                size == self.listener.key_seq().len(),
                i <= size,
                l == self.listener(),
                among == |k: ServiceKeyView| clients_of(l, k).dom(),
                self.listener.key_seq().no_duplicates(),
                pairs_of(self.listener.key_seq().take(i as int).to_set(), among).finite(),
                sum == capped(
                    pairs_of(self.listener.key_seq().take(i as int).to_set(), among).len(),
                ),
            decreases size - i,
        {
            let ghost before = self.listener.key_seq().take(i as int);
            let ghost k = self.listener.key_seq()[i as int];
            let clients = self.listener.value_at(i);
            let more = clients.len();
            proof {
                assert(self.listener.key_seq().take(i + 1) =~= before.push(k));
                before.lemma_push_to_set_commute(k);
                assert(among(k) =~= clients@.dom());
                if before.contains(k) {
                    let j = choose|j: int| 0 <= j < before.len() && before[j] == k;
                    assert(self.listener.key_seq()[j] == k);
                }
                lemma_pairs_insert(before.to_set(), among, k);
            }
            sum = add_capped(sum, more);
            i += 1;
        }
        proof {
            assert(self.listener.key_seq().take(size as int) =~= self.listener.key_seq());
            assert(self.listener.key_seq().to_set() =~= l.dom());
            assert(subscriptions(l) =~= pairs_of(l.dom(), among));
        }
        sum
    }

    /// The number of clients that listen to a service.
    pub fn get_client_size(&self) -> (n: usize)
        ensures
            self.client_keys().dom().finite(),
            n == self.client_keys().dom().len(),
    {
        assert(self.client_keys().dom() =~= self.client_keys@.dom());
        self.client_keys.len()
    }

    /// The number of subscriptions, counted by the index by client. A
    /// count beyond the largest `usize` is reported as that.
    pub fn get_client_value_size(&self) -> (n: usize)
        ensures
            client_subscriptions(self.client_keys()).finite(),
            n == capped(client_subscriptions(self.client_keys()).len()),
    {
        let ghost ck = self.client_keys();
        let ghost among = |c: Seq<char>| keys_of_client(ck, c);
        let size = self.client_keys.len();
        let mut sum: usize = 0;
        let mut i: usize = 0;
        proof {
            lemma_pairs_none(among);
            assert(self.client_keys.key_seq().take(0).to_set() =~= Set::empty());
        }
        while i < size
            invariant
                size == self.client_keys.key_seq().len(),
                i <= size,
                ck == self.client_keys(),
                among == |c: Seq<char>| keys_of_client(ck, c),
                self.client_keys.key_seq().no_duplicates(),
                pairs_of(self.client_keys.key_seq().take(i as int).to_set(), among).finite(),
                sum == capped(
                    pairs_of(self.client_keys.key_seq().take(i as int).to_set(), among).len(),
                ),
            decreases size - i,
        {
            let ghost before = self.client_keys.key_seq().take(i as int);
            let ghost c = self.client_keys.key_seq()[i as int];
            let keys = self.client_keys.value_at(i);
            let more = keys.len();
            proof {
                assert(self.client_keys.key_seq().take(i + 1) =~= before.push(c));
                before.lemma_push_to_set_commute(c);
                assert(among(c) =~= keys@);
                if before.contains(c) {
                    let j = choose|j: int| 0 <= j < before.len() && before[j] == c;
                    assert(self.client_keys.key_seq()[j] == c);
                }
                lemma_pairs_insert(before.to_set(), among, c);
            }
            sum = add_capped(sum, more);
            i += 1;
        }
        proof {
            assert(self.client_keys.key_seq().take(size as int) =~= self.client_keys.key_seq());
            assert(self.client_keys.key_seq().to_set() =~= ck.dom());
            assert(client_subscriptions(ck) =~= pairs_of(ck.dom(), among));
        }
        sum
    }
    fn copy_filter(filter: &Option<VecSet<String>>) -> (copy: Option<VecSet<String>>)
        ensures
            filter_view(copy) == filter_view(*filter),
    {
        match filter {
            Some(names) => Some(names.duplicate_set()),
            None => None,
        }
    }

    fn copy_clients(clients: &ClientFilters) -> (copy: ClientFilters)
        ensures
            clients_view(copy@) == clients_view(clients@),
    {
        let n = clients.len();
        let mut copy: ClientFilters = VecMap::new();
        let mut i: usize = 0;
        while i < n
            invariant
                n == clients.key_seq().len(),
                i <= n,
                clients.key_seq().to_set() == clients@.dom(),
                forall|c: Seq<char>|
                    copy@.contains_key(c) <==> clients.key_seq().take(i as int).contains(c),
                forall|c: Seq<char>|
                    copy@.contains_key(c) ==> filter_view(copy@[c]) == filter_view(clients@[c]),
            decreases n - i,
        {
            let ghost before = clients.key_seq().take(i as int);
            let ghost after = clients.key_seq().take(i + 1);
            let filter = Self::copy_filter(clients.value_at(i));
            assert(after =~= before.push(clients.key_seq()[i as int]));
            copy.insert(clients.key_at(i).duplicate(), filter);
            assert forall|c: Seq<char>| copy@.contains_key(c) <==> after.contains(c) by {
                if before.contains(c) {
                    let j = choose|j: int| 0 <= j < before.len() && before[j] == c;
                    assert(after[j] == c);
                }
                if c == clients.key_seq()[i as int] {
                    assert(after[i as int] == c);
                }
            }
            i += 1;
        }
        proof {
            assert(clients.key_seq().take(n as int) =~= clients.key_seq());
            assert(clients_view(copy@) =~= clients_view(clients@));
        }
        copy
    }

    /// A snapshot of the services whose group, name and namespace each
    /// contain the pattern given for it, with their clients and filters.
    pub fn fuzzy_match_listener(&self, group_name: &str, service_name: &str, namespace_id: &str) -> (found:
        VecMap<ServiceKey, ClientFilters>)
        ensures
            listener_view_of(found@) == matching_listeners(
                self.listener(),
                Set::full(),
                group_name@,
                service_name@,
                namespace_id@,
            ),
    {
        let ghost l = self.listener();
        let n = self.listener.len();
        let mut found: VecMap<ServiceKey, ClientFilters> = VecMap::new();
        let mut i: usize = 0;
        proof {
            assert(self.listener.key_seq().take(0).to_set() =~= Set::empty());
            assert(listener_view_of(found@) =~= matching_listeners(
                l,
                Set::empty(),
                group_name@,
                service_name@,
                namespace_id@,
            ));
        }
        while i < n
            invariant
                n == self.listener.key_seq().len(),
                i <= n,
                l == self.listener(),
                self.listener.key_seq().to_set() == self.listener@.dom(),
                listener_view_of(found@) == matching_listeners(
                    l,
                    self.listener.key_seq().take(i as int).to_set(),
                    group_name@,
                    service_name@,
                    namespace_id@,
                ),
            decreases n - i,
        {
            let ghost before = self.listener.key_seq().take(i as int);
            let ghost k = self.listener.key_seq()[i as int];
            let key = self.listener.key_at(i);
            proof {
                assert(self.listener.key_seq().take(i + 1) =~= before.push(k));
                before.lemma_push_to_set_commute(k);
            }
            if contains_text(key.group_name.as_str(), group_name) && contains_text(
                key.service_name.as_str(),
                service_name,
            ) && contains_text(key.namespace_id.as_str(), namespace_id) {
                let clients = Self::copy_clients(self.listener.value_at(i));
                proof {
                    lemma_listener_insert(found@, k, clients);
                }
                found.insert(key.clone(), clients);
            }
            assert(listener_view_of(found@) =~= matching_listeners(
                l,
                before.to_set().insert(k),
                group_name@,
                service_name@,
                namespace_id@,
            ));
            i += 1;
        }
        proof {
            assert(self.listener.key_seq().take(n as int) =~= self.listener.key_seq());
            assert(listener_view_of(found@) =~= matching_listeners(
                l,
                Set::full(),
                group_name@,
                service_name@,
                namespace_id@,
            ));
        }
        found
    }
}

} // verus!
