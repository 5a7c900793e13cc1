use rnacos::naming::cluster::model::{
    NamingRouteRequest, NamingRouterResponse, SyncSenderRequest, SyncSenderResponse, SyncSenderSetCmd,
};
use rnacos::naming::cluster::sync_sender::{
    ClusteSyncSender, SendAction, SendEvent, SendPhase, SendState,
};
use rnacos::naming::model::{Instance, NamingError, Weight};
use rnacos::common::string_map::StringMap;
use rnacos::grpc::Payload;
use std::sync::Arc;

fn some_instance() -> Instance {
    Instance {
        namespace_id: "public".to_string(),
        group_name: "DEFAULT".to_string(),
        service_name: "s".to_string(),
        cluster_name: "DEFAULT".to_string(),
        ip: "10.0.0.1".to_string(),
        port: 8080,
        weight: Weight::one(),
        healthy: true,
        enabled: true,
        ephemeral: true,
        metadata: StringMap::new(),
        last_heartbeat_ms: 0,
    }
}

fn update() -> SyncSenderRequest {
    SyncSenderRequest(NamingRouteRequest::InstanceUpdate { instance: some_instance(), tag: None })
}

fn ping() -> SyncSenderRequest {
    SyncSenderRequest(NamingRouteRequest::Ping(1))
}

fn sender() -> ClusteSyncSender {
    ClusteSyncSender::new(1, 2, Arc::new("10.0.0.2:9848".to_string()), true)
}

fn expect_transmit(action: SendAction) -> (Arc<String>, Payload, u64) {
    match action {
        SendAction::Transmit { target_addr, payload, timeout_millis } => (target_addr, payload, timeout_millis),
        _ => panic!("expected a transmission"),
    }
}

fn attempts_of(request: SyncSenderRequest, events: Vec<SendEvent>) -> (usize, SendState, SendAction) {
    let (mut state, mut action) = sender().handle(&request, "{}".to_string());
    let mut attempts = if matches!(action, SendAction::Transmit { .. }) { 1 } else { 0 };
    for event in events {
        let (next, act) = state.advance(event);
        state = next;
        action = act;
        if matches!(action, SendAction::Transmit { .. }) {
            attempts += 1;
        }
    }
    (attempts, state, action)
}

#[test]
fn first_attempt_carries_headers_and_body() {
    let (state, action) = sender().handle(&update(), "{\"a\":1}".to_string());
    assert_eq!(state.current_phase(), SendPhase::FirstAttempt);
    assert!(!state.is_done());
    let (addr, payload, timeout) = expect_transmit(action);
    assert_eq!(*addr, "10.0.0.2:9848");
    assert_eq!(timeout, 3000);
    assert_eq!(payload.type_url, "NamingRouteRequest");
    assert_eq!(payload.client_ip, "");
    assert_eq!(payload.body, b"{\"a\":1}".to_vec());
    assert_eq!(payload.headers.len(), 2);
    assert_eq!(payload.headers.get(&"cluster-id".to_string()), Some(&"1".to_string()));
    assert_eq!(payload.headers.get(&"sub-name".to_string()), Some(&"InstanceUpdate".to_string()));
}

#[test]
fn cluster_id_header_is_the_decimal_local_id() {
    let s = ClusteSyncSender::new(18446744073709551615, 2, Arc::new("a".to_string()), true);
    let (_, action) = s.handle(&ping(), String::new());
    let (_, payload, _) = expect_transmit(action);
    assert_eq!(payload.headers.get(&"cluster-id".to_string()), Some(&"18446744073709551615".to_string()));
    assert_eq!(payload.headers.get(&"sub-name".to_string()), Some(&"Ping".to_string()));
    let zero = ClusteSyncSender::new(0, 2, Arc::new("a".to_string()), true);
    let (_, action) = zero.handle(&ping(), String::new());
    let (_, payload, _) = expect_transmit(action);
    assert_eq!(payload.headers.get(&"cluster-id".to_string()), Some(&"0".to_string()));
}

#[test]
fn sub_names_follow_the_request_kind() {
    assert_eq!(NamingRouteRequest::Ping(1).get_sub_name(), "Ping");
    assert_eq!(update().0.get_sub_name(), "InstanceUpdate");
    assert_eq!(NamingRouteRequest::InstanceRemove { instance: some_instance() }.get_sub_name(), "InstanceRemove");
    assert_eq!(NamingRouteRequest::SubscribeSnapshot { service_keys: vec![] }.get_sub_name(), "SubscribeSnapshot");
    assert_eq!(
        NamingRouteRequest::ServiceMetadataUpdate { service_key: some_instance().service_key() }.get_sub_name(),
        "ServiceMetadataUpdate"
    );
    assert!(NamingRouteRequest::Ping(1).is_ping());
    assert!(!update().0.is_ping());
}

#[test]
fn success_on_first_attempt_finishes() {
    let (attempts, state, action) =
        attempts_of(update(), vec![SendEvent::Delivered(Ok(NamingRouterResponse::Empty))]);
    assert_eq!(attempts, 1);
    assert!(state.is_done());
    assert!(matches!(action, SendAction::Finish(Ok(SyncSenderResponse::Empty))));
}

#[test]
fn failure_is_retried_once_after_a_pause() {
    let (state, _) = sender().handle(&update(), "body".to_string());
    let (state, action) = state.advance(SendEvent::Failed("down".to_string()));
    assert_eq!(state.current_phase(), SendPhase::Pausing);
    assert!(matches!(action, SendAction::Pause { millis: 100 }));
    let (state, action) = state.advance(SendEvent::Resumed);
    assert_eq!(state.current_phase(), SendPhase::SecondAttempt);
    let (addr, payload, _) = expect_transmit(action);
    assert_eq!(*addr, "10.0.0.2:9848");
    assert_eq!(payload.body, b"body".to_vec());
    assert_eq!(payload.headers.get(&"sub-name".to_string()), Some(&"InstanceUpdate".to_string()));
    let (state, action) = state.advance(SendEvent::Failed("still down".to_string()));
    assert!(state.is_done());
    match action {
        SendAction::Finish(Err(NamingError::PeerUnreachable(text))) => assert_eq!(text, "still down"),
        _ => panic!("expected the second failure"),
    }
}

#[test]
fn second_attempt_can_succeed() {
    let (attempts, state, action) = attempts_of(
        update(),
        vec![
            SendEvent::Failed("down".to_string()),
            SendEvent::Resumed,
            SendEvent::Delivered(Ok(NamingRouterResponse::Empty)),
        ],
    );
    assert_eq!(attempts, 2);
    assert!(state.is_done());
    assert!(matches!(action, SendAction::Finish(Ok(SyncSenderResponse::Empty))));
}

#[test]
fn ping_is_never_retried() {
    let (attempts, state, action) = attempts_of(ping(), vec![SendEvent::Failed("down".to_string())]);
    assert_eq!(attempts, 1);
    assert!(state.is_done());
    match action {
        SendAction::Finish(Err(NamingError::PeerUnreachable(text))) => assert_eq!(text, "down"),
        _ => panic!("expected the failure"),
    }
    let (attempts, _, _) = attempts_of(
        ping(),
        vec![SendEvent::Failed("down".to_string()), SendEvent::Resumed, SendEvent::Resumed],
    );
    assert_eq!(attempts, 1);
}

#[test]
fn no_run_of_events_leads_to_a_third_attempt() {
    let (attempts, _, _) = attempts_of(
        update(),
        vec![
            SendEvent::Failed("1".to_string()),
            SendEvent::Resumed,
            SendEvent::Failed("2".to_string()),
            SendEvent::Resumed,
            SendEvent::Failed("3".to_string()),
            SendEvent::Resumed,
        ],
    );
    assert_eq!(attempts, 2);
}

#[test]
fn undecodable_answer_is_a_serialization_error() {
    let (attempts, state, action) =
        attempts_of(update(), vec![SendEvent::Delivered(Err("bad json".to_string()))]);
    assert_eq!(attempts, 1);
    assert!(state.is_done());
    match action {
        SendAction::Finish(Err(NamingError::SerializationError(text))) => assert_eq!(text, "bad json"),
        _ => panic!("expected a serialization error"),
    }
}

#[test]
fn unexpected_event_is_a_system_error() {
    let (_, state, action) = attempts_of(update(), vec![SendEvent::Resumed]);
    assert!(state.is_done());
    assert!(matches!(action, SendAction::Finish(Err(NamingError::SystemError(_)))));
}

#[test]
fn sender_without_transport_fails_at_once() {
    let s = ClusteSyncSender::new(1, 2, Arc::new("a".to_string()), false);
    let (state, action) = s.handle(&update(), String::new());
    assert!(state.is_done());
    match action {
        SendAction::Finish(Err(NamingError::SystemError(text))) => {
            assert_eq!(text, "ClusteSyncSender,the cluster sender is none!")
        }
        _ => panic!("expected a system error"),
    }
}

#[test]
fn update_target_addr_moves_later_requests_only() {
    let mut s = sender();
    let (state, _) = s.handle(&update(), String::new());
    let result = s.handle_set_cmd(SyncSenderSetCmd::UpdateTargetAddr(Arc::new("10.0.0.3:9848".to_string())));
    assert_eq!(result, Ok(SyncSenderResponse::Empty));
    let (_, action) = s.handle(&update(), String::new());
    let (addr, _, _) = expect_transmit(action);
    assert_eq!(*addr, "10.0.0.3:9848");
    let (state, _) = state.advance(SendEvent::Failed("down".to_string()));
    let (_, action) = state.advance(SendEvent::Resumed);
    let (addr, _, _) = expect_transmit(action);
    assert_eq!(*addr, "10.0.0.2:9848");
}
