use rev_idle::bridge::connection::{
    handler_failure, handler_panic_error, reconnect_wait, unknown_type_error, HandlerFailure, InboundFlags, Registry,
    Resolution, Route, WsError, TIMED_OUT_CAPACITY,
};

fn live() -> (Registry, u64) {
    let mut registry = Registry::new();
    let generation = registry.activate();
    (registry, generation)
}

#[test]
fn registry_without_a_session_refuses_requests() {
    let mut registry = Registry::new();
    assert_eq!(registry.active_generation(), Err(WsError::NotConnected));
    assert_eq!(registry.open_request("Res".to_string()), Err(WsError::NotConnected));
    assert!(registry.pending.is_empty());
}

#[test]
fn registry_generations_grow_across_reconnects() {
    let mut registry = Registry::new();
    assert_eq!(registry.activate(), 1);
    let closed = registry.close_generation(1);
    assert!(closed.deactivated);
    assert_eq!(registry.active_generation(), Err(WsError::NotConnected));
    assert_eq!(registry.activate(), 2);
    assert!(registry.is_active(2));
    assert!(!registry.is_active(1));
}

#[test]
fn registry_resolves_only_the_matching_request_and_type() {
    let (mut registry, generation) = live();
    let (g, uuid) = registry.open_request("StateRes".to_string()).unwrap();
    assert_eq!(g, generation);
    assert!(matches!(registry.route(generation, "StateRes", uuid ^ 1), Route::UnknownType));
    match registry.route(generation, "StateRes", uuid) {
        Route::Resolve { entry, outcome } => {
            assert_eq!(entry.uuid, uuid);
            assert!(matches!(outcome, Resolution::Payload));
        }
        other => panic!("unexpected route {other:?}"),
    }
    assert!(registry.pending.is_empty());
}

#[test]
fn registry_reports_a_response_of_the_wrong_type() {
    let (mut registry, generation) = live();
    let (_, uuid) = registry.open_request("StateRes".to_string()).unwrap();
    match registry.route(generation, "InvokeRes", uuid) {
        Route::Resolve { outcome: Resolution::Mismatch(error), .. } => {
            assert_eq!(
                error,
                WsError::UnexpectedResponse { expected: "StateRes".to_string(), actual: "InvokeRes".to_string() }
            );
            assert_eq!(error.describe(), "UnexpectedResponse { expected: \"StateRes\", actual: \"InvokeRes\" }");
        }
        other => panic!("unexpected route {other:?}"),
    }
}

#[test]
fn registry_passes_remote_errors_to_their_waiter_only() {
    let (mut registry, generation) = live();
    let (_, uuid) = registry.open_request("StateRes".to_string()).unwrap();
    assert!(matches!(registry.route(generation, "RemoteError", uuid ^ 2), Route::ReportRemoteError));
    assert!(matches!(
        registry.route(generation, "RemoteError", uuid),
        Route::Resolve { outcome: Resolution::RemoteError, .. }
    ));
}

#[test]
fn registry_drops_late_responses_to_timed_out_requests() {
    let (mut registry, generation) = live();
    registry.register_handler("StateRes").unwrap();
    let (_, uuid) = registry.open_request("StateRes".to_string()).unwrap();
    assert!(registry.remove_pending_and_tombstone(uuid, generation));
    assert!(!registry.remove_pending_and_tombstone(uuid, generation));
    assert!(matches!(registry.route(generation, "StateRes", uuid), Route::Discard));
}

#[test]
fn registry_ignores_envelopes_of_a_closed_session() {
    let (mut registry, generation) = live();
    registry.register_handler("Ping").unwrap();
    registry.close_generation(generation);
    registry.activate();
    assert!(matches!(registry.route(generation, "Ping", 7), Route::Stale));
}

#[test]
fn registry_keeps_one_handler_per_inbound_id() {
    let (mut registry, generation) = live();
    registry.register_handler("Ping").unwrap();
    assert!(matches!(registry.route(generation, "Ping", 9), Route::StartHandler));
    assert!(matches!(registry.route(generation, "Ping", 9), Route::Duplicate));
    assert!(matches!(registry.route(generation, "Cancel", 9), Route::Cancel { found: true }));
    registry.release_inbound(generation, 9);
    assert!(matches!(registry.route(generation, "Cancel", 9), Route::Cancel { found: false }));
    assert!(matches!(registry.route(generation, "Ping", 9), Route::StartHandler));
}

#[test]
fn registry_refuses_a_second_handler_for_a_type() {
    let mut registry = Registry::new();
    registry.register_handler("Ping").unwrap();
    assert_eq!(
        registry.register_handler("Ping"),
        Err(WsError::Protocol("handler already registered for Ping".to_string()))
    );
}

#[test]
fn closing_a_session_fails_its_requests_and_cancels_its_handlers() {
    let (mut registry, generation) = live();
    registry.register_handler("Ping").unwrap();
    let (_, uuid) = registry.open_request("Pong".to_string()).unwrap();
    assert!(matches!(registry.route(generation, "Ping", 5), Route::StartHandler));
    let closed = registry.close_generation(generation);
    assert!(closed.deactivated);
    assert_eq!(closed.failed.len(), 1);
    assert_eq!(closed.failed[0].uuid, uuid);
    assert_eq!(closed.cancelled, vec![(generation, 5)]);
    assert!(registry.pending.is_empty());
    assert!(registry.inbound.is_empty());
}

#[test]
fn shutting_down_refuses_new_requests() {
    let (mut registry, _) = live();
    let closed = registry.close_all();
    assert!(closed.deactivated);
    assert!(registry.shutting_down);
    assert_eq!(registry.active_generation(), Err(WsError::NotConnected));
}

#[test]
fn timed_out_ids_are_bounded_and_the_oldest_is_forgotten() {
    let (mut registry, generation) = live();
    let mut first = None;
    for _ in 0..(TIMED_OUT_CAPACITY + 1) {
        let (_, uuid) = registry.open_request("Res".to_string()).unwrap();
        first.get_or_insert(uuid);
        assert!(registry.remove_pending_and_tombstone(uuid, generation));
    }
    assert_eq!(registry.timed_out.len(), TIMED_OUT_CAPACITY);
    assert_eq!(registry.timed_out_set.len(), TIMED_OUT_CAPACITY);
    assert!(!registry.timed_out_set.contains(&first.unwrap()));
}

#[test]
fn inbound_flags_allow_one_response_and_nothing_after_cancel() {
    let mut flags = InboundFlags::new();
    assert!(flags.try_start());
    assert!(!flags.try_start());
    assert_eq!(flags.reserve_response(), Ok(()));
    assert_eq!(flags.reserve_response(), Err(WsError::AlreadyResponded));
    assert!(flags.cancel());
    assert!(!flags.cancel());
    assert_eq!(flags.reserve_response(), Err(WsError::Closed));

    let mut cancelled = InboundFlags::new();
    cancelled.cancel();
    assert!(!cancelled.try_start());
    assert!(cancelled.is_cancelled());
    assert!(!cancelled.has_responded());
}

#[test]
fn handler_errors_reach_the_peer_in_debug_form() {
    assert_eq!(
        handler_failure(&WsError::Remote("handler failed".to_string()), false),
        HandlerFailure::SendRemoteError("Remote(\"handler failed\")".to_string())
    );
    assert_eq!(handler_failure(&WsError::Timeout, true), HandlerFailure::Report);
    assert_eq!(
        handler_panic_error("boom"),
        WsError::Protocol("handler panicked: boom".to_string())
    );
    assert_eq!(unknown_type_error("Nope"), "unknown packet type: Nope");
    assert_eq!(WsError::Protocol("a\"b".to_string()).describe(), "Protocol(\"a\\\"b\")");
}

#[test]
fn reconnect_waits_the_whole_delay_after_a_session() {
    assert_eq!(reconnect_wait(true, 1_000_000_000, 300), 1_000_000_000);
}

#[test]
fn reconnect_waits_what_is_left_after_a_failed_attempt() {
    assert_eq!(reconnect_wait(false, 1_000_000_000, 250_000_000), 750_000_000);
    assert_eq!(reconnect_wait(false, 1_000_000_000, 1_000_000_000), 0);
    assert_eq!(reconnect_wait(false, 1_000_000_000, 5_000_000_000), 0);
}
