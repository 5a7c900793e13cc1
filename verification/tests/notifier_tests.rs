use rnacos::common::string_map::StringMap;
use rnacos::common::vec_set::VecSet;
use rnacos::naming::model::{Instance, ServiceKey, Weight};
use rnacos::naming::naming_core::{handle, NamingCmd};
use rnacos::naming::naming_delay_notify::{DelayNotifier, DelayNotifyCmd, Push};
use rnacos::naming::naming_store::NamingStore;
use rnacos::naming::naming_subscriber::{NamingListenerItem, Subscriber};
use std::sync::Arc;

fn key(service: &str) -> ServiceKey {
    ServiceKey::new("public", "DEFAULT", service)
}

fn clients(names: &[&str]) -> VecSet<Arc<String>> {
    let items: Vec<Arc<String>> = names.iter().map(|n| Arc::new(n.to_string())).collect();
    VecSet::from_items(&items)
}

fn instance(ip: &str) -> Instance {
    Instance {
        namespace_id: "public".to_string(),
        group_name: "DEFAULT".to_string(),
        service_name: "s".to_string(),
        cluster_name: "DEFAULT".to_string(),
        ip: ip.to_string(),
        port: 8080,
        weight: Weight::one(),
        healthy: true,
        enabled: true,
        ephemeral: true,
        metadata: StringMap::new(),
        last_heartbeat_ms: 0,
    }
}

fn pairs(pushes: &[Push]) -> Vec<(String, String)> {
    let mut out: Vec<(String, String)> =
        pushes.iter().map(|p| (p.service_key.service_name.clone(), (*p.client_id).clone())).collect();
    out.sort();
    out
}

#[test]
fn nothing_waits_at_first() {
    let mut n = DelayNotifier::new();
    assert_eq!(n.next_due(), None);
    assert_eq!(n.dispatch(1_000_000).len(), 0);
}

#[test]
fn a_change_is_pushed_one_window_later() {
    let mut n = DelayNotifier::new();
    n.handle(DelayNotifyCmd::Notify(key("a"), clients(&["c1", "c2"])), 1000);
    assert_eq!(n.next_due(), Some(1500));
    assert_eq!(n.dispatch(1499).len(), 0);
    let pushes = n.dispatch(1500);
    assert_eq!(pairs(&pushes), vec![("a".to_string(), "c1".to_string()), ("a".to_string(), "c2".to_string())]);
    assert_eq!(n.next_due(), None);
    assert_eq!(n.dispatch(2000).len(), 0);
}

#[test]
fn a_burst_within_one_window_is_one_push_per_subscriber() {
    let mut n = DelayNotifier::new();
    for (at, names) in [(1000u64, vec!["c1"]), (1100, vec!["c1", "c2"]), (1499, vec!["c2"]), (1200, vec!["c1"])] {
        n.handle(DelayNotifyCmd::Notify(key("a"), clients(&names)), at);
        assert_eq!(n.dispatch(at).len(), 0);
    }
    assert_eq!(n.next_due(), Some(1500));
    let pushes = n.dispatch(1600);
    assert_eq!(pairs(&pushes), vec![("a".to_string(), "c1".to_string()), ("a".to_string(), "c2".to_string())]);
    assert_eq!(n.dispatch(1601).len(), 0);
}

#[test]
fn services_are_due_on_their_own() {
    let mut n = DelayNotifier::with_window(100);
    n.handle(DelayNotifyCmd::Notify(key("a"), clients(&["c1"])), 10);
    n.handle(DelayNotifyCmd::Notify(key("b"), clients(&["c1"])), 50);
    assert_eq!(n.next_due(), Some(110));
    assert_eq!(pairs(&n.dispatch(120)), vec![("a".to_string(), "c1".to_string())]);
    assert_eq!(n.next_due(), Some(150));
    assert_eq!(pairs(&n.dispatch(150)), vec![("b".to_string(), "c1".to_string())]);
}

#[test]
fn the_due_time_stops_at_the_end_of_time() {
    let mut n = DelayNotifier::new();
    n.handle(DelayNotifyCmd::Notify(key("a"), clients(&["c1"])), u64::MAX - 3);
    assert_eq!(n.next_due(), Some(u64::MAX));
}

#[test]
fn deleting_an_instance_pushes_once_to_the_subscriber() {
    let mut store = NamingStore::new();
    let mut subscriber = Subscriber::new();
    let mut notifier = DelayNotifier::new();
    subscriber.set_notify_addr();

    handle(&mut store, NamingCmd::Update(instance("10.0.0.1"), None), 0);
    handle(&mut store, NamingCmd::Update(instance("10.0.0.2"), None), 0);
    subscriber.add_subscribe(
        Arc::new("C".to_string()),
        vec![NamingListenerItem { service_key: key("s"), clusters: None }],
    );

    let (_, changed) = handle(&mut store, NamingCmd::Delete(instance("10.0.0.2")), 1000);
    let cmd = subscriber.notify(changed.unwrap()).unwrap();
    notifier.handle(cmd, 1000);

    let mut received = Vec::new();
    for now in [1100u64, 1300, 1500, 1600] {
        for push in notifier.dispatch(now) {
            let list = store.query_instance_list(&push.service_key, true);
            received.push(((*push.client_id).clone(), list));
        }
    }
    assert_eq!(received.len(), 1);
    assert_eq!(received[0].0, "C");
    assert_eq!(received[0].1.len(), 1);
    assert_eq!(received[0].1[0].ip, "10.0.0.1");
}
