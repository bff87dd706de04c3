use polykit::polybase::auth::{
    cooling_down_message, refresh_failure_message, refreshed_session, session_expires_within,
    session_matches, RefreshDecision, SessionMutationKind, SessionPayload, SessionState,
};
use polykit::polybase::events::SessionChangeKind;

const NOW: i64 = 1_700_000_000;

fn payload(user: &str, refresh: &str) -> SessionPayload {
    SessionPayload {
        user_id: user.into(),
        access_token: "a".into(),
        refresh_token: refresh.into(),
        expires_at: NOW + 3600,
        updated_at: 0,
    }
}

#[test]
fn set_session_records_user_changed_then_noop() {
    let mut store = SessionState::new();
    let p = payload("u1", "r");
    let mutation = store.set_session(p.clone());
    assert_eq!(mutation.kind, SessionMutationKind::UserChanged);
    assert!(mutation.updated_at > 0);
    assert_eq!(store.current_updated_at(), mutation.updated_at);
    let again = store.set_session(p);
    assert_eq!(again.kind, SessionMutationKind::Noop);
    assert_eq!(again.updated_at, mutation.updated_at);
}

#[test]
fn updated_at_advances_on_credentials_refresh() {
    let mut store = SessionState::new();
    let first = store.set_session(payload("u1", "r"));
    let second = store.set_session(payload("u1", "r2"));
    assert_eq!(second.kind, SessionMutationKind::CredentialsRefreshed);
    assert!(second.updated_at > first.updated_at);
}

#[test]
fn is_session_valid_tracks_replacement_and_clear() {
    let mut store = SessionState::new();
    let first = store.set_session(payload("u1", "r"));
    assert!(store.is_session_valid(first.updated_at));
    let second = store.set_session(payload("u2", "r"));
    assert!(store.is_session_valid(second.updated_at));
    assert!(store.is_session_valid(first.updated_at));
    store.clear_session();
    assert!(!store.is_session_valid(first.updated_at));
    assert!(!store.is_session_valid(second.updated_at));
    assert_eq!(store.current_updated_at(), 0);
}

#[test]
fn clear_session_after_set_emits_cleared() {
    let mut store = SessionState::new();
    store.set_session(payload("u1", "r"));
    let mutation = store.clear_session();
    assert_eq!(mutation.kind, SessionMutationKind::Cleared);
    assert!(store.current().is_none());
}

#[test]
fn clear_session_when_empty_is_noop() {
    let mut store = SessionState::new();
    let mutation = store.clear_session();
    assert_eq!(mutation.kind, SessionMutationKind::Noop);
    assert_eq!(mutation.updated_at, 0);
}

#[test]
fn mutation_kinds_map_to_events() {
    assert_eq!(SessionMutationKind::Noop.into_event_kind(), None);
    assert_eq!(SessionMutationKind::UserChanged.into_event_kind(), Some(SessionChangeKind::UserChanged));
    assert_eq!(SessionMutationKind::Cleared.into_event_kind(), Some(SessionChangeKind::Cleared));
    assert_eq!(
        SessionMutationKind::CredentialsRefreshed.into_event_kind(),
        Some(SessionChangeKind::CredentialsRefreshed)
    );
}

#[test]
fn stored_session_carries_its_stamp() {
    let mut store = SessionState::new();
    let m = store.set_session(payload("u1", "r"));
    let cur = store.current().unwrap();
    assert_eq!(cur.updated_at, m.updated_at);
    assert_eq!(store.current_user_id().as_deref(), Some("u1"));
    assert!(session_matches(&cur, &payload("u1", "r")));
    assert!(!session_matches(&cur, &payload("u1", "other")));
}

#[test]
fn expiry_checks() {
    let s = payload("u", "r");
    assert!(!session_expires_within(&s, NOW, 0));
    assert!(session_expires_within(&s, NOW, 3600));
    assert!(session_expires_within(&s, i64::MAX, 10));
    let mut store = SessionState::new();
    assert!(!store.has_unexpired_session(NOW));
    store.set_session(s);
    assert!(store.has_unexpired_session(NOW));
    assert!(!store.has_unexpired_session(NOW + 3600));
}

#[test]
fn refresh_decisions_follow_freshness_and_cooldown() {
    let mut store = SessionState::new();
    assert!(matches!(store.begin_refresh(NOW, 0, 60, false), RefreshDecision::NoSession));
    store.set_session(payload("u", "r"));
    assert!(matches!(store.begin_refresh(NOW, 0, 60, false), RefreshDecision::Fresh(_)));
    assert!(matches!(store.begin_refresh(NOW, 1_000, 60, true), RefreshDecision::Refresh(_)));
    match store.begin_refresh(NOW, 11_000, 60, true) {
        RefreshDecision::CoolingDown(ms) => assert_eq!(ms, 20_000),
        other => panic!("unexpected {other:?}"),
    }
    assert!(matches!(store.begin_refresh(NOW, 31_000, 60, true), RefreshDecision::Refresh(_)));
    store.finish_refresh();
    assert!(matches!(store.begin_refresh(NOW, 31_001, 60, true), RefreshDecision::Refresh(_)));
}

#[test]
fn refreshed_payload_falls_back_to_previous_values() {
    let old = payload("u1", "r-old");
    let p = refreshed_session(&old, "new-a".into(), None, None, Some(100), Some(String::new()), NOW);
    assert_eq!(p.user_id, "u1");
    assert_eq!(p.access_token, "new-a");
    assert_eq!(p.refresh_token, "r-old");
    assert_eq!(p.expires_at, NOW + 100);
    let q = refreshed_session(&old, "b".into(), Some("r2".into()), Some(5), Some(100), Some("u9".into()), NOW);
    assert_eq!((q.user_id.as_str(), q.refresh_token.as_str(), q.expires_at), ("u9", "r2", 5));
    let d = refreshed_session(&old, "c".into(), None, None, None, None, NOW);
    assert_eq!(d.expires_at, NOW + 3600);
}

#[test]
fn refresh_messages() {
    assert_eq!(refresh_failure_message(401, "  bad token \n"), "session refresh failed: HTTP 401: bad token");
    assert_eq!(refresh_failure_message(500, "   "), "session refresh failed: HTTP 500");
    assert_eq!(cooling_down_message(1234), "session refresh is cooling down; retry in 1234ms");
}

#[test]
fn user_change_hook_runs_for_user_changes_and_clears_only() {
    assert!(SessionMutationKind::UserChanged.notifies_user_change());
    assert!(SessionMutationKind::Cleared.notifies_user_change());
    assert!(!SessionMutationKind::CredentialsRefreshed.notifies_user_change());
    assert!(!SessionMutationKind::Noop.notifies_user_change());
}
