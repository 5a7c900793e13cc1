use rnacos::common::string_map::StringMap;
use rnacos::naming::cluster::model::{
    NamingRouteRequest, NamingRouterResponse, SyncSenderRequest, SyncSenderResponse,
};
use rnacos::naming::cluster::route::NamingRoute;
use rnacos::naming::cluster::sync_sender::{ClusteSyncSender, SendAction, SendEvent};
use rnacos::naming::model::{Instance, NamingError, ServiceKey, Weight};
use rnacos::naming::naming_core::{handle, NamingCmd, NamingResult};
use rnacos::naming::naming_store::NamingStore;
use std::sync::Arc;

fn instance(ip: &str) -> Instance {
    Instance {
        namespace_id: "public".to_string(),
        group_name: "DEFAULT".to_string(),
        service_name: "s".to_string(),
        cluster_name: "DEFAULT".to_string(),
        ip: ip.to_string(),
        port: 8080,
        weight: Weight::one(),
        healthy: true,
        enabled: true,
        ephemeral: true,
        metadata: StringMap::new(),
        last_heartbeat_ms: 0,
    }
}

struct Node {
    route: NamingRoute,
    store: NamingStore,
}

fn node(id: u64) -> Node {
    Node { route: NamingRoute::new(id), store: NamingStore::new() }
}

/// Applies on `to` what `from` forwarded, as the peer's handler would.
fn deliver(to: &mut Node, request: &NamingRouteRequest, headers: &StringMap, now: u64) {
    assert!(to.route.is_from_peer(headers));
    match request {
        NamingRouteRequest::InstanceUpdate { instance, tag } => {
            let plan = to.route.update_instance(instance, *tag, true, &vec![1, 2]).unwrap();
            assert!(plan.targets.is_empty());
            let (result, _) = handle(&mut to.store, NamingCmd::Update(instance.clone(), *tag), now);
            assert!(result.is_ok());
        }
        _ => panic!("unexpected request"),
    }
}

#[test]
fn a_registration_reaches_the_peer() {
    let mut a = node(1);
    let mut b = node(2);
    let sender = ClusteSyncSender::new(1, 2, Arc::new("b:9848".to_string()), true);

    let plan = a.route.update_instance(&instance("10.0.0.1"), None, false, &vec![1, 2]).unwrap();
    assert_eq!(plan.targets, vec![2]);
    let (local, _) = handle(&mut a.store, NamingCmd::Update(instance("10.0.0.1"), None), 100);
    assert!(local.is_ok());

    let request = plan.forward.unwrap();
    let (state, action) = sender.handle(&SyncSenderRequest(request), "{}".to_string());
    let headers = match action {
        SendAction::Transmit { payload, .. } => payload.headers,
        _ => panic!("expected a transmission"),
    };
    deliver(&mut b, &NamingRouteRequest::InstanceUpdate { instance: instance("10.0.0.1"), tag: None }, &headers, 150);
    let (_, done) = state.advance(SendEvent::Delivered(Ok(NamingRouterResponse::Empty)));
    assert!(matches!(done, SendAction::Finish(Ok(SyncSenderResponse::Empty))));

    let on_b = b.store.query_all_instance_list(&ServiceKey::new("public", "DEFAULT", "s"));
    assert_eq!(on_b.len(), 1);
    assert_eq!(on_b[0].instance_id(), "10.0.0.1#8080#DEFAULT#s");
}

#[test]
fn an_unreachable_peer_does_not_fail_the_registration() {
    let mut a = node(1);
    let sender = ClusteSyncSender::new(1, 2, Arc::new("b:9848".to_string()), true);

    let plan = a.route.update_instance(&instance("10.0.0.2"), None, false, &vec![1, 2]).unwrap();
    let (local, _) = handle(&mut a.store, NamingCmd::Update(instance("10.0.0.2"), None), 100);
    let (state, _) = sender.handle(&SyncSenderRequest(plan.forward.unwrap()), "{}".to_string());
    let (state, paused) = state.advance(SendEvent::Failed("connection refused".to_string()));
    assert!(matches!(paused, SendAction::Pause { millis: 100 }));
    let (state, again) = state.advance(SendEvent::Resumed);
    assert!(matches!(again, SendAction::Transmit { .. }));
    let (_, done) = state.advance(SendEvent::Failed("connection refused".to_string()));
    let peer_result = match done {
        SendAction::Finish(result) => result,
        _ => panic!("expected the end"),
    };
    assert_eq!(peer_result, Err(NamingError::PeerUnreachable("connection refused".to_string())));

    let (client_result, failed) = a.route.settle(local.map(|_| ()), &vec![(2, peer_result)]);
    assert_eq!(client_result, Ok(()));
    assert_eq!(failed, vec![2]);
    let (found, _) = handle(&mut a.store, NamingCmd::Query(instance("10.0.0.2")), 200);
    assert!(matches!(found, Ok(NamingResult::Instance(_))));
}

#[test]
fn a_full_sender_drops_everything_but_pings() {
    let update = SyncSenderRequest(NamingRouteRequest::InstanceUpdate { instance: instance("10.0.0.1"), tag: None });
    let ping = SyncSenderRequest(NamingRouteRequest::Ping(1));
    assert!(ClusteSyncSender::admits(&update, 3, 4));
    assert!(!ClusteSyncSender::admits(&update, 4, 4));
    assert!(!ClusteSyncSender::admits(&update, 0, 0));
    assert!(ClusteSyncSender::admits(&ping, 4, 4));
    assert!(ClusteSyncSender::admits(&ping, 100, 4));
}

#[test]
fn errors_say_why() {
    assert_eq!(NamingError::NotFound.message(), "not found");
    assert_eq!(NamingError::ServiceHasInstances.message(), "the service still has instances");
    assert_eq!(NamingError::InvalidInstance.message(), "instance check is invalid");
    assert_eq!(NamingError::NoNamespacePermission.message(), "user no such namespace permission");
    assert_eq!(NamingError::PeerUnreachable("down".to_string()).message(), "peer unreachable: down");
    assert_eq!(NamingError::SerializationError("bad".to_string()).message(), "serialization error: bad");
    assert_eq!(NamingError::SystemError("boom".to_string()).message(), "boom");
}

#[test]
fn requests_are_copied_whole() {
    let update = NamingRouteRequest::InstanceUpdate { instance: instance("10.0.0.1"), tag: None };
    match update.clone() {
        NamingRouteRequest::InstanceUpdate { instance, tag } => {
            assert_eq!(instance.instance_id(), "10.0.0.1#8080#DEFAULT#s");
            assert!(tag.is_none());
        }
        _ => panic!("expected an update"),
    }
    let snapshot = NamingRouteRequest::SubscribeSnapshot {
        service_keys: vec![ServiceKey::new("public", "g", "a"), ServiceKey::new("public", "g", "b")],
    };
    match snapshot.clone() {
        NamingRouteRequest::SubscribeSnapshot { service_keys } => {
            assert_eq!(service_keys, vec![ServiceKey::new("public", "g", "a"), ServiceKey::new("public", "g", "b")]);
        }
        _ => panic!("expected a snapshot"),
    }
    assert!(matches!(NamingRouteRequest::Ping(9).clone(), NamingRouteRequest::Ping(9)));
}
