use rnacos::common::vec_set::VecSet;
use rnacos::naming::model::ServiceKey;
use rnacos::naming::naming_delay_notify::DelayNotifyCmd;
use rnacos::naming::naming_subscriber::{
    ListenerClusterType, ListenerKey, NamingListenerItem, Subscriber,
};
use std::sync::Arc;

fn client(name: &str) -> Arc<String> {
    Arc::new(name.to_string())
}

fn item(service: &str) -> NamingListenerItem {
    NamingListenerItem { service_key: ServiceKey::new("public", "DEFAULT", service), clusters: None }
}

fn item_with(service: &str, clusters: &[&str]) -> NamingListenerItem {
    let names: Vec<String> = clusters.iter().map(|c| c.to_string()).collect();
    NamingListenerItem {
        service_key: ServiceKey::new("public", "DEFAULT", service),
        clusters: Some(VecSet::from_items(&names)),
    }
}

#[test]
fn new_subscriber_is_empty() {
    let s = Subscriber::new();
    assert_eq!(s.get_listener_key_size(), 0);
    assert_eq!(s.get_listener_value_size(), 0);
    assert_eq!(s.get_client_size(), 0);
    assert_eq!(s.get_client_value_size(), 0);
}

#[test]
fn add_subscribe_fills_both_indexes() {
    let mut s = Subscriber::new();
    s.add_subscribe(client("c1"), vec![item("a"), item("b")]);
    s.add_subscribe(client("c2"), vec![item("a")]);
    assert_eq!(s.get_listener_key_size(), 2);
    assert_eq!(s.get_listener_value_size(), 3);
    assert_eq!(s.get_client_size(), 2);
    assert_eq!(s.get_client_value_size(), 3);
}

#[test]
fn add_subscribe_is_idempotent_and_replaces_filter() {
    let mut s = Subscriber::new();
    s.add_subscribe(client("c1"), vec![item("a")]);
    s.add_subscribe(client("c1"), vec![item_with("a", &["x", "y"])]);
    assert_eq!(s.get_listener_key_size(), 1);
    assert_eq!(s.get_listener_value_size(), 1);
    assert_eq!(s.get_client_size(), 1);
    assert_eq!(s.get_client_value_size(), 1);
    let found = s.fuzzy_match_listener("", "a", "");
    assert_eq!(found.len(), 1);
    let clients = found.value_at(0);
    assert_eq!(clients.len(), 1);
    let filter = clients.get(&client("c1")).unwrap();
    let names = filter.as_ref().unwrap();
    assert_eq!(names.len(), 2);
    assert!(names.contains(&"x".to_string()));
    assert!(names.contains(&"y".to_string()));
}

#[test]
fn add_subscribe_without_items_leaves_no_empty_entry() {
    let mut s = Subscriber::new();
    s.add_subscribe(client("c1"), vec![]);
    assert_eq!(s.get_client_size(), 0);
    assert_eq!(s.get_listener_key_size(), 0);
}

#[test]
fn last_item_of_a_key_wins() {
    let mut s = Subscriber::new();
    s.add_subscribe(client("c1"), vec![item_with("a", &["x"]), item("a")]);
    let found = s.fuzzy_match_listener("", "", "");
    let filter = found.value_at(0).get(&client("c1")).unwrap();
    assert!(filter.is_none());
}

#[test]
fn remove_subscribe_prunes_empty_entries() {
    let mut s = Subscriber::new();
    s.add_subscribe(client("c1"), vec![item("a"), item("b")]);
    s.add_subscribe(client("c2"), vec![item("a")]);
    s.remove_subscribe(client("c1"), vec![item("b")]);
    assert_eq!(s.get_listener_key_size(), 1);
    assert_eq!(s.get_listener_value_size(), 2);
    assert_eq!(s.get_client_size(), 2);
    assert_eq!(s.get_client_value_size(), 2);
    s.remove_subscribe(client("c1"), vec![item("a")]);
    assert_eq!(s.get_client_size(), 1);
    assert_eq!(s.get_listener_value_size(), 1);
    s.remove_subscribe(client("c2"), vec![item("a"), item("zzz")]);
    assert_eq!(s.get_client_size(), 0);
    assert_eq!(s.get_listener_key_size(), 0);
}

#[test]
fn disconnect_removes_every_reference_to_the_client() {
    let mut s = Subscriber::new();
    s.add_subscribe(client("C"), vec![item("s1"), item("s2"), item("s3")]);
    s.add_subscribe(client("D"), vec![item("s1")]);
    s.remove_client_subscribe(client("C"));
    assert_eq!(s.get_client_size(), 1);
    assert_eq!(s.get_client_value_size(), 1);
    assert_eq!(s.get_listener_key_size(), 1);
    assert_eq!(s.get_listener_value_size(), 1);
    let found = s.fuzzy_match_listener("", "", "");
    assert_eq!(found.len(), 1);
    assert_eq!(found.key_at(0), &ServiceKey::new("public", "DEFAULT", "s1"));
    assert!(found.value_at(0).contains_key(&client("D")));
    assert!(!found.value_at(0).contains_key(&client("C")));
}

#[test]
fn disconnect_of_unknown_client_changes_nothing() {
    let mut s = Subscriber::new();
    s.add_subscribe(client("D"), vec![item("s1")]);
    s.remove_client_subscribe(client("nobody"));
    assert_eq!(s.get_client_size(), 1);
    assert_eq!(s.get_listener_value_size(), 1);
}

#[test]
fn remove_key_prunes_clients() {
    let mut s = Subscriber::new();
    s.add_subscribe(client("c1"), vec![item("a"), item("b")]);
    s.add_subscribe(client("c2"), vec![item("a")]);
    s.remove_key(ServiceKey::new("public", "DEFAULT", "a"));
    assert_eq!(s.get_listener_key_size(), 1);
    assert_eq!(s.get_client_size(), 1);
    assert_eq!(s.get_client_value_size(), 1);
    assert_eq!(s.get_listener_value_size(), 1);
}

#[test]
fn notify_needs_a_notifier_and_a_listener() {
    let mut s = Subscriber::new();
    s.add_subscribe(client("c1"), vec![item("a")]);
    s.add_subscribe(client("c2"), vec![item("a")]);
    assert!(s.notify(ServiceKey::new("public", "DEFAULT", "a")).is_none());
    s.set_notify_addr();
    assert!(s.notify(ServiceKey::new("public", "DEFAULT", "b")).is_none());
    match s.notify(ServiceKey::new("public", "DEFAULT", "a")) {
        Some(DelayNotifyCmd::Notify(key, clients)) => {
            assert_eq!(key, ServiceKey::new("public", "DEFAULT", "a"));
            assert_eq!(clients.len(), 2);
            assert!(clients.contains(&client("c1")));
            assert!(clients.contains(&client("c2")));
        }
        None => panic!("expected a notification"),
    }
}

#[test]
fn fuzzy_match_filters_on_all_three_fields() {
    let mut s = Subscriber::new();
    s.add_subscribe(
        client("c1"),
        vec![
            NamingListenerItem { service_key: ServiceKey::new("public", "GROUP_A", "order"), clusters: None },
            NamingListenerItem { service_key: ServiceKey::new("dev", "GROUP_B", "order-api"), clusters: None },
            NamingListenerItem { service_key: ServiceKey::new("public", "GROUP_A", "user"), clusters: None },
        ],
    );
    assert_eq!(s.fuzzy_match_listener("", "order", "").len(), 2);
    assert_eq!(s.fuzzy_match_listener("GROUP_A", "order", "").len(), 1);
    assert_eq!(s.fuzzy_match_listener("", "", "dev").len(), 1);
    assert_eq!(s.fuzzy_match_listener("", "", "").len(), 3);
    assert_eq!(s.fuzzy_match_listener("nope", "", "").len(), 0);
}

#[test]
fn listener_keys_default_to_all_clusters() {
    let all = ListenerKey::default();
    assert_eq!(all.cluster, ListenerClusterType::All);
    assert_eq!(ListenerClusterType::default(), ListenerClusterType::All);
    let one = ListenerKey {
        namespace_id: "public".to_string(),
        group_name: "g".to_string(),
        service_name: "s".to_string(),
        cluster: ListenerClusterType::One(Arc::new("c1".to_string())),
    };
    assert_eq!(one.clone(), one);
    assert_ne!(one, all);
    assert_eq!(all.clone(), all);
}
