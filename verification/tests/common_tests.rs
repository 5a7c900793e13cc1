use rnacos::common::keyed::Keyed;
use rnacos::common::pairs::add_capped;
use rnacos::common::string_map::{copy_string_map, StringMap};
use rnacos::common::text::{starts_with_text, text_eq, to_decimal};
use rnacos::common::vec_map::VecMap;
use rnacos::common::vec_set::VecSet;
use rnacos::naming::cluster::model::{NamingRouteRequest, SyncSenderResponse};
use rnacos::naming::cluster::route::NamingRoute;
use rnacos::naming::model::{
    default_cluster, default_group, default_namespace, Instance, NamingError, ServiceKey, Weight,
};
use std::sync::Arc;

fn instance(ip: &str) -> Instance {
    Instance {
        namespace_id: "public".to_string(),
        group_name: "DEFAULT".to_string(),
        service_name: "s".to_string(),
        cluster_name: "c".to_string(),
        ip: ip.to_string(),
        port: 80,
        weight: Weight::one(),
        healthy: true,
        enabled: true,
        ephemeral: true,
        metadata: StringMap::new(),
        last_heartbeat_ms: 0,
    }
}

#[test]
fn vec_map_behaves_like_a_map() {
    let mut m: VecMap<String, u32> = VecMap::new();
    assert!(m.is_empty());
    assert_eq!(m.insert("a".to_string(), 1), None);
    assert_eq!(m.insert("b".to_string(), 2), None);
    assert_eq!(m.insert("a".to_string(), 3), Some(1));
    assert_eq!(m.len(), 2);
    assert_eq!(m.get(&"a".to_string()), Some(&3));
    assert_eq!(m.get(&"c".to_string()), None);
    assert!(m.contains_key(&"b".to_string()));
    assert_eq!(m.key_at(0), "a");
    assert_eq!(*m.value_at(0), 3);
    assert_eq!(m.key_at(1), "b");
    assert_eq!(m.remove(&"c".to_string()), None);
    assert_eq!(m.remove(&"a".to_string()), Some(3));
    assert_eq!(m.len(), 1);
    assert_eq!(m.pop(), Some(("b".to_string(), 2)));
    assert_eq!(m.pop(), None);
    assert!(m.is_empty());
}

#[test]
fn vec_map_reversed_keeps_the_entries() {
    let mut m: VecMap<String, u32> = VecMap::new();
    m.insert("a".to_string(), 1);
    m.insert("b".to_string(), 2);
    m.insert("c".to_string(), 3);
    let r = m.reversed();
    assert_eq!(r.len(), 3);
    assert_eq!(r.key_at(0), "c");
    assert_eq!(r.key_at(2), "a");
    assert_eq!(r.get(&"b".to_string()), Some(&2));
}

#[test]
fn vec_set_behaves_like_a_set() {
    let mut s: VecSet<String> = VecSet::new();
    assert!(s.is_empty());
    assert!(s.insert("a".to_string()));
    assert!(!s.insert("a".to_string()));
    assert!(s.insert("b".to_string()));
    assert_eq!(s.len(), 2);
    assert!(s.contains(&"a".to_string()));
    assert!(!s.contains(&"c".to_string()));
    assert_eq!(s.item_at(1), "b");
    let copy = s.duplicate_set();
    assert!(s.remove(&"a".to_string()));
    assert!(!s.remove(&"a".to_string()));
    assert_eq!(s.len(), 1);
    assert_eq!(copy.len(), 2);
    assert!(copy.contains(&"a".to_string()));
    let from = VecSet::from_items(&vec!["x".to_string(), "y".to_string(), "x".to_string()]);
    assert_eq!(from.len(), 2);
}

#[test]
fn keys_compare_by_content() {
    let a = Arc::new("c1".to_string());
    let b = Arc::new("c1".to_string());
    assert!(a.same(&b));
    assert!(!a.same(&Arc::new("c2".to_string())));
    let copy = a.duplicate();
    assert_eq!(*copy, "c1");
    assert!(Arc::ptr_eq(&a, &copy));
    assert!("x".to_string().same(&"x".to_string()));
    assert_eq!("x".to_string().duplicate(), "x");
    let k = ServiceKey::new("", "g", "s");
    assert_eq!(k.namespace_id, "public");
    assert!(k.same(&ServiceKey::new("public", "g", "s")));
    assert!(!k.same(&ServiceKey::new("public", "g", "t")));
    assert_eq!(k.duplicate(), k);
    assert_eq!(k.clone(), k);
}

#[test]
fn string_maps_are_copied_entry_by_entry() {
    let mut m = StringMap::new();
    m.insert("a".to_string(), "1".to_string());
    m.insert("b".to_string(), "2".to_string());
    let copy = copy_string_map(&m);
    m.insert("a".to_string(), "9".to_string());
    assert_eq!(copy.len(), 2);
    assert_eq!(copy.get(&"a".to_string()), Some(&"1".to_string()));
    assert_eq!(copy.get(&"b".to_string()), Some(&"2".to_string()));
}

#[test]
fn decimal_numerals() {
    assert_eq!(to_decimal(0), "0");
    assert_eq!(to_decimal(7), "7");
    assert_eq!(to_decimal(10), "10");
    assert_eq!(to_decimal(8080), "8080");
    assert_eq!(to_decimal(1234567890), "1234567890");
    assert_eq!(to_decimal(u64::MAX), "18446744073709551615");
}

#[test]
fn text_helpers() {
    assert!(text_eq("abc", "abc"));
    assert!(!text_eq("abc", "abd"));
    assert!(text_eq("", ""));
    assert!(starts_with_text("GROUP_A", "GROUP"));
    assert!(starts_with_text("GROUP_A", ""));
    assert!(starts_with_text("é€x", "é€"));
    assert!(!starts_with_text("GROUP_A", "ROUP"));
    assert!(!starts_with_text("GR", "GROUP"));
    assert_eq!(add_capped(2, 3), 5);
    assert_eq!(add_capped(usize::MAX, 3), usize::MAX);
    assert_eq!(add_capped(usize::MAX - 3, 3), usize::MAX);
}

#[test]
fn defaults_replace_empty_names_only() {
    assert_eq!(default_namespace(String::new()), "public");
    assert_eq!(default_namespace("dev".to_string()), "dev");
    assert_eq!(default_cluster(String::new()), "DEFAULT");
    assert_eq!(default_cluster("c".to_string()), "c");
    assert_eq!(default_group(String::new()), "DEFAULT_GROUP");
    assert_eq!(default_group("g".to_string()), "g");
}

#[test]
fn instance_validity() {
    let ok = instance("10.0.0.1");
    assert!(ok.check_valid() && ok.has_identity());
    let mut no_cluster = instance("10.0.0.1");
    no_cluster.cluster_name = String::new();
    assert!(!no_cluster.check_valid());
    assert!(no_cluster.has_identity());
    let mut no_service = instance("10.0.0.1");
    no_service.service_name = String::new();
    assert!(!no_service.has_identity());
    assert!(!instance("").has_identity());
    let copy = ok.clone();
    assert_eq!(copy.instance_id(), "10.0.0.1#80#c#s");
    assert_eq!(copy.service_key(), ServiceKey::new("public", "DEFAULT", "s"));
    assert_eq!(Weight::one().to_bits(), 1.0f32.to_bits());
}

#[test]
fn changes_from_clients_go_to_every_peer() {
    let route = NamingRoute::new(2);
    let view = vec![1u64, 2, 3, 2, 4];
    let plan = route.update_instance(&instance("10.0.0.1"), None, false, &view).unwrap();
    assert_eq!(plan.targets, vec![1, 3, 4]);
    assert!(matches!(plan.forward, Some(NamingRouteRequest::InstanceUpdate { .. })));
    let plan = route.delete_instance(&instance("10.0.0.1"), false, &view).unwrap();
    assert_eq!(plan.targets, vec![1, 3, 4]);
    assert!(matches!(plan.forward, Some(NamingRouteRequest::InstanceRemove { .. })));
}

#[test]
fn changes_from_peers_stay_here() {
    let route = NamingRoute::new(2);
    let view = vec![1u64, 2, 3];
    let plan = route.update_instance(&instance("10.0.0.1"), None, true, &view).unwrap();
    assert!(plan.forward.is_none());
    assert!(plan.targets.is_empty());
    let plan = route.delete_instance(&instance("10.0.0.1"), true, &view).unwrap();
    assert!(plan.forward.is_none());
    assert!(plan.targets.is_empty());
}

#[test]
fn invalid_instances_are_neither_applied_nor_forwarded() {
    let route = NamingRoute::new(2);
    let view = vec![1u64, 2, 3];
    let mut bad = instance("10.0.0.1");
    bad.cluster_name = String::new();
    assert_eq!(route.update_instance(&bad, None, false, &view).err(), Some(NamingError::InvalidInstance));
    assert_eq!(route.update_instance(&bad, None, true, &view).err(), Some(NamingError::InvalidInstance));
    assert!(route.delete_instance(&bad, false, &view).is_ok());
    assert_eq!(route.delete_instance(&instance(""), false, &view).err(), Some(NamingError::InvalidInstance));
}

#[test]
fn the_cluster_id_header_tells_peers_from_clients() {
    let route = NamingRoute::new(2);
    let mut headers = StringMap::new();
    assert!(!route.is_from_peer(&headers));
    headers.insert("cluster-id".to_string(), "2".to_string());
    assert!(!route.is_from_peer(&headers));
    headers.insert("cluster-id".to_string(), "3".to_string());
    assert!(route.is_from_peer(&headers));
    headers.insert("cluster-id".to_string(), "02".to_string());
    assert!(route.is_from_peer(&headers));
}

#[test]
fn peer_failures_do_not_fail_the_request() {
    let route = NamingRoute::new(1);
    let results = vec![
        (2u64, Ok(SyncSenderResponse::Empty)),
        (3, Err(NamingError::PeerUnreachable("down".to_string()))),
        (4, Err(NamingError::SerializationError("bad".to_string()))),
    ];
    let (result, failed) = route.settle(Ok(()), &results);
    assert_eq!(result, Ok(()));
    assert_eq!(failed, vec![3, 4]);
    let (result, failed) = route.settle(Err(NamingError::InvalidInstance), &vec![]);
    assert_eq!(result, Err(NamingError::InvalidInstance));
    assert!(failed.is_empty());
}

#[test]
fn the_sweep_is_due_every_five_seconds() {
    let route = NamingRoute::new(1);
    assert!(!route.sweep_due(1000, 5999));
    assert!(route.sweep_due(1000, 6000));
    assert!(route.sweep_due(0, u64::MAX));
    assert!(!route.sweep_due(6000, 1000));
}
