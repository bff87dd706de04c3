use polykit::polybase::realtime::{
    compute_backoff_base_millis, websocket_url, DisconnectReason, LifecycleEvent,
};

#[test]
fn disconnect_reason_labels_are_stable() {
    assert_eq!(DisconnectReason::ChannelClosed.as_str(), "channel_closed");
    assert_eq!(DisconnectReason::WebsocketError.as_str(), "websocket_error");
    assert_eq!(DisconnectReason::HeartbeatTimeout.as_str(), "heartbeat_timeout");
    assert_eq!(DisconnectReason::LivenessTimeout.as_str(), "liveness_timeout");
    assert_eq!(DisconnectReason::Manual.as_str(), "manual");
}

#[test]
fn websocket_url_swaps_https_to_wss() {
    let url = websocket_url("https://example.supabase.co", "anon-key");
    assert!(url.starts_with("wss://example.supabase.co/realtime/v1/websocket"));
    assert!(url.contains("apikey=anon-key"));
    assert!(url.contains("vsn=2.0.0"));
}

#[test]
fn websocket_url_swaps_http_to_ws() {
    assert!(websocket_url("http://localhost:54321", "k")
        .starts_with("ws://localhost:54321/realtime/v1/websocket"));
}

#[test]
fn websocket_url_exact_forms() {
    assert_eq!(
        websocket_url("https://x.co//", "key"),
        "wss://x.co/realtime/v1/websocket?apikey=key&vsn=2.0.0"
    );
    assert_eq!(
        websocket_url("x.co", "key"),
        "wss://x.co/realtime/v1/websocket?apikey=key&vsn=2.0.0"
    );
}

#[test]
fn backoff_first_attempt_uses_initial_delay() {
    let ladder = [500, 1000, 2000, 5000, 10000, 30000];
    assert_eq!(compute_backoff_base_millis(0, 123, &ladder), 123);
}

#[test]
fn backoff_walks_ladder_then_clamps_to_last() {
    let ladder = [100, 200, 400];
    assert_eq!(compute_backoff_base_millis(1, 250, &ladder), 100);
    assert_eq!(compute_backoff_base_millis(2, 250, &ladder), 200);
    assert_eq!(compute_backoff_base_millis(3, 250, &ladder), 400);
    assert_eq!(compute_backoff_base_millis(99, 250, &ladder), 400);
}

#[test]
fn backoff_empty_ladder_falls_back_to_thirty_seconds() {
    assert_eq!(compute_backoff_base_millis(4, 250, &[]), 30_000);
}

#[test]
fn lifecycle_events_compare_by_reason() {
    assert_eq!(
        LifecycleEvent::Disconnected(DisconnectReason::Manual),
        LifecycleEvent::Disconnected(DisconnectReason::Manual)
    );
    assert_ne!(LifecycleEvent::Connected, LifecycleEvent::Reconnected);
}
