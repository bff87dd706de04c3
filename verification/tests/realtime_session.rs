use polykit::polybase::connection::{
    heartbeat_ref, inbound_action, is_traffic, phoenix_frame, liveness_tick_nanos, needs_probe, postgres_change,
    probe_ref, realtime_op, FrameAction, HeartbeatTracker, InboundFrame, PhoenixFrame, ProbeKind,
};
use polykit::polybase::events::RealtimeOp;
use polykit::polybase::realtime::{DisconnectReason, LifecycleEvent};
use polykit::polybase::record::{FieldValue, Record};
use polykit::polybase::supervisor::{SupervisorAction, SupervisorEvent, SupervisorStage, SupervisorState};

fn row(pairs: &[(&str, &str)]) -> Record {
    let mut r = Record::new();
    for (k, v) in pairs {
        r.insert(k, FieldValue::Text((*v).to_string()));
    }
    r
}

fn text(event: &str, status: Option<&str>) -> InboundFrame {
    InboundFrame::Text(Some(PhoenixFrame {
        event: event.to_string(),
        reference: None,
        status: status.map(str::to_string),
    }))
}

#[test]
fn parse_postgres_changes_decodes_insert() {
    let change = postgres_change("messages", "INSERT", Some(row(&[("id", "abc"), ("content", "hi")])), None)
        .expect("parse");
    assert_eq!(change.table, "messages");
    assert_eq!(change.op, RealtimeOp::Insert);
    assert_eq!(
        change.record.as_ref().unwrap().get("id"),
        Some(&FieldValue::Text("abc".to_string()))
    );
    assert!(change.old_record.is_none());
}

#[test]
fn parse_postgres_changes_decodes_update_with_old() {
    let change = postgres_change(
        "personas",
        "UPDATE",
        Some(row(&[("id", "p1"), ("name", "new")])),
        Some(row(&[("id", "p1"), ("name", "old")])),
    )
    .expect("parse");
    assert_eq!(change.op, RealtimeOp::Update);
    assert_eq!(
        change.old_record.as_ref().unwrap().get("name"),
        Some(&FieldValue::Text("old".to_string()))
    );
}

#[test]
fn parse_postgres_changes_decodes_delete() {
    let change = postgres_change("conversations", "DELETE", None, Some(row(&[("id", "c1")]))).expect("parse");
    assert_eq!(change.op, RealtimeOp::Delete);
    assert!(change.record.is_none());
    assert_eq!(change.entity_id().as_deref(), Some("c1"));
}

#[test]
fn parse_postgres_changes_rejects_unknown_op() {
    assert!(postgres_change("t", "TRUNCATE", None, None).is_none());
}

#[test]
fn realtime_op_names() {
    assert_eq!(realtime_op("INSERT"), Some(RealtimeOp::Insert));
    assert_eq!(realtime_op("UPDATE"), Some(RealtimeOp::Update));
    assert_eq!(realtime_op("DELETE"), Some(RealtimeOp::Delete));
    assert_eq!(realtime_op("insert"), None);
}

#[test]
fn entity_id_prefers_new_row_even_without_id() {
    let change = postgres_change("t", "UPDATE", Some(row(&[("name", "x")])), Some(row(&[("id", "old")]))).unwrap();
    assert_eq!(change.entity_id(), None);
    let mut numeric = Record::new();
    numeric.insert("id", FieldValue::Json("7".to_string()));
    let change = postgres_change("t", "INSERT", Some(numeric), None).unwrap();
    assert_eq!(change.entity_id(), None);
}

#[test]
fn frame_actions_follow_the_event() {
    assert_eq!(inbound_action(&text("postgres_changes", None)), FrameAction::Deliver);
    assert_eq!(inbound_action(&text("phx_reply", Some("error"))), FrameAction::Acknowledge);
    assert_eq!(inbound_action(&text("system", Some("ok"))), FrameAction::Ignore);
    assert_eq!(
        inbound_action(&text("system", Some("error"))),
        FrameAction::Disconnect(DisconnectReason::ChannelClosed)
    );
    assert_eq!(
        inbound_action(&text("system", None)),
        FrameAction::Disconnect(DisconnectReason::ChannelClosed)
    );
    assert_eq!(
        inbound_action(&text("phx_error", None)),
        FrameAction::Disconnect(DisconnectReason::ChannelClosed)
    );
    assert_eq!(
        inbound_action(&text("phx_close", None)),
        FrameAction::Disconnect(DisconnectReason::ChannelClosed)
    );
    assert_eq!(inbound_action(&text("presence_state", None)), FrameAction::Ignore);
    assert_eq!(inbound_action(&InboundFrame::Text(None)), FrameAction::Ignore);
    assert_eq!(
        inbound_action(&InboundFrame::Close),
        FrameAction::Disconnect(DisconnectReason::ChannelClosed)
    );
    assert_eq!(
        inbound_action(&InboundFrame::Error),
        FrameAction::Disconnect(DisconnectReason::WebsocketError)
    );
    assert_eq!(inbound_action(&InboundFrame::Ping), FrameAction::Ignore);
}

#[test]
fn traffic_frames_refresh_liveness() {
    assert!(is_traffic(&InboundFrame::Text(None)));
    assert!(is_traffic(&InboundFrame::Ping));
    assert!(is_traffic(&InboundFrame::Pong));
    assert!(!is_traffic(&InboundFrame::Close));
    assert!(!is_traffic(&InboundFrame::Other));
    assert!(!is_traffic(&InboundFrame::Error));
}

#[test]
fn heartbeat_and_probe_refs() {
    assert_eq!(heartbeat_ref(100), "hb-100");
    assert_eq!(heartbeat_ref(0), "hb-0");
    assert_eq!(probe_ref(5000), "live-5000");
}

#[test]
fn answered_heartbeat_never_times_out() {
    let mut tracker = HeartbeatTracker::new();
    tracker.record_sent("hb-100", 1);
    tracker.record_sent("live-5000", 2);
    assert!(tracker.is_pending("hb-100"));
    tracker.record_reply("hb-100");
    assert!(!tracker.is_pending("hb-100"));
    assert_eq!(tracker.verdict("hb-100", ProbeKind::Heartbeat), None);
    assert_eq!(
        tracker.verdict("live-5000", ProbeKind::Liveness),
        Some(DisconnectReason::LivenessTimeout)
    );
    tracker.record_sent("hb-101", 3);
    assert_eq!(
        tracker.verdict("hb-101", ProbeKind::Heartbeat),
        Some(DisconnectReason::HeartbeatTimeout)
    );
}

#[test]
fn liveness_tick_is_a_quarter_with_a_floor() {
    assert_eq!(liveness_tick_nanos(30_000_000_000), 7_500_000_000);
    assert_eq!(liveness_tick_nanos(1_000_000_000), 500_000_000);
    assert_eq!(liveness_tick_nanos(2_000_000_003), 500_000_000);
    assert!(needs_probe(30_000_000_000, 30_000_000_000));
    assert!(!needs_probe(29_999_999_999, 30_000_000_000));
}

#[test]
fn supervisor_connects_then_reconnects() {
    let mut s = SupervisorState::new();
    assert_eq!(s.step(SupervisorEvent::LoopTop { shutdown: false }), SupervisorAction::FetchToken);
    assert_eq!(s.step(SupervisorEvent::TokenReady), SupervisorAction::Connect);
    assert_eq!(
        s.step(SupervisorEvent::Connected),
        SupervisorAction::PublishAndRun(LifecycleEvent::Connected)
    );
    assert_eq!(
        s.step(SupervisorEvent::SessionEnded(DisconnectReason::HeartbeatTimeout)),
        SupervisorAction::PublishAndSleep(LifecycleEvent::Disconnected(DisconnectReason::HeartbeatTimeout), 0)
    );
    assert_eq!(s.step(SupervisorEvent::SleepDone { shutdown: false }), SupervisorAction::Resume);
    assert_eq!(s.step(SupervisorEvent::LoopTop { shutdown: false }), SupervisorAction::FetchToken);
    assert_eq!(s.step(SupervisorEvent::TokenReady), SupervisorAction::Connect);
    assert_eq!(s.step(SupervisorEvent::ConnectFailed), SupervisorAction::Sleep(1));
    assert_eq!(s.step(SupervisorEvent::SleepDone { shutdown: false }), SupervisorAction::Resume);
    assert_eq!(s.step(SupervisorEvent::LoopTop { shutdown: false }), SupervisorAction::FetchToken);
    assert_eq!(s.step(SupervisorEvent::TokenReady), SupervisorAction::Connect);
    assert_eq!(s.step(SupervisorEvent::ConnectFailed), SupervisorAction::Sleep(2));
    assert_eq!(s.step(SupervisorEvent::SleepDone { shutdown: false }), SupervisorAction::Resume);
    assert_eq!(s.step(SupervisorEvent::LoopTop { shutdown: false }), SupervisorAction::FetchToken);
    assert_eq!(s.step(SupervisorEvent::TokenReady), SupervisorAction::Connect);
    assert_eq!(
        s.step(SupervisorEvent::Connected),
        SupervisorAction::PublishAndRun(LifecycleEvent::Reconnected)
    );
    assert_eq!(s.consecutive_failures, 0);
}

#[test]
fn supervisor_counts_missing_sessions_after_the_sleep() {
    let mut s = SupervisorState::new();
    assert_eq!(s.step(SupervisorEvent::LoopTop { shutdown: false }), SupervisorAction::FetchToken);
    assert_eq!(s.step(SupervisorEvent::NoToken), SupervisorAction::Sleep(0));
    assert_eq!(s.consecutive_failures, 0);
    assert_eq!(s.step(SupervisorEvent::SleepDone { shutdown: false }), SupervisorAction::Resume);
    assert_eq!(s.consecutive_failures, 1);
    assert_eq!(s.step(SupervisorEvent::LoopTop { shutdown: false }), SupervisorAction::FetchToken);
    assert_eq!(s.step(SupervisorEvent::NoToken), SupervisorAction::Sleep(1));
}

#[test]
fn supervisor_stops_on_manual_end_and_stays_stopped() {
    let mut s = SupervisorState::new();
    s.step(SupervisorEvent::LoopTop { shutdown: false });
    s.step(SupervisorEvent::TokenReady);
    s.step(SupervisorEvent::Connected);
    assert_eq!(
        s.step(SupervisorEvent::SessionEnded(DisconnectReason::Manual)),
        SupervisorAction::PublishAndStop(LifecycleEvent::Disconnected(DisconnectReason::Manual))
    );
    assert_eq!(s.step(SupervisorEvent::LoopTop { shutdown: false }), SupervisorAction::Stop);
    assert_eq!(s.step(SupervisorEvent::Connected), SupervisorAction::Stop);
}

#[test]
fn supervisor_stops_on_shutdown() {
    let mut s = SupervisorState::new();
    assert_eq!(s.step(SupervisorEvent::LoopTop { shutdown: true }), SupervisorAction::Stop);
    let mut s = SupervisorState::new();
    s.step(SupervisorEvent::LoopTop { shutdown: false });
    s.step(SupervisorEvent::NoToken);
    assert_eq!(s.step(SupervisorEvent::SleepDone { shutdown: true }), SupervisorAction::Stop);
    assert!(s.stopped);
}

#[test]
fn supervisor_ignores_reports_it_is_not_waiting_for() {
    let mut s = SupervisorState::new();
    assert_eq!(s.step(SupervisorEvent::Connected), SupervisorAction::Ignored);
    assert_eq!(s.stage, SupervisorStage::AwaitLoopTop);
    s.step(SupervisorEvent::LoopTop { shutdown: false });
    s.step(SupervisorEvent::TokenReady);
    assert_eq!(s.step(SupervisorEvent::Connected), SupervisorAction::PublishAndRun(LifecycleEvent::Connected));
    assert_eq!(s.stage, SupervisorStage::Running);
    assert_eq!(s.step(SupervisorEvent::Connected), SupervisorAction::Ignored);
    assert_eq!(s.step(SupervisorEvent::LoopTop { shutdown: true }), SupervisorAction::Ignored);
    assert!(!s.stopped);
}

#[test]
fn parse_phoenix_message_extracts_ref() {
    let frame = phoenix_frame(
        5,
        Some("abc".to_string()),
        Some("realtime:foo".to_string()),
        Some("phx_reply".to_string()),
        Some("ok".to_string()),
    )
    .expect("parse");
    assert_eq!(frame.event, "phx_reply");
    assert_eq!(frame.status.as_deref(), Some("ok"));
    assert_eq!(frame.reference.as_deref(), Some("abc"));
}

#[test]
fn parse_phoenix_message_rejects_wrong_arity() {
    assert!(phoenix_frame(2, Some("two".to_string()), None, None, None).is_none());
}

#[test]
fn phoenix_frame_needs_string_topic_and_event() {
    assert!(phoenix_frame(5, None, None, Some("e".to_string()), None).is_none());
    assert!(phoenix_frame(5, None, Some("t".to_string()), None, None).is_none());
    let f = phoenix_frame(5, None, Some("t".to_string()), Some("e".to_string()), None).unwrap();
    assert!(f.reference.is_none() && f.status.is_none());
}
