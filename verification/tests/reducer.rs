use std::time::Duration;

use polykit::polybase::contract::{
    ENQUEUE_COALESCE_MS, FORWARD_PROGRESS_RETRY_MS, RECONNECT_DEBOUNCE_SECS,
};
use polykit::polybase::reducer::{step, ReducerEffect, ReducerEvent, ReducerState};

fn fresh() -> ReducerState {
    ReducerState::default()
}

#[test]
fn app_launched_with_pending_schedules_immediate_replay() {
    let (next, effects) = step(&fresh(), ReducerEvent::AppLaunched { has_pending: true });
    assert!(next.has_pending);
    assert_eq!(effects, vec![ReducerEffect::Schedule(Duration::ZERO)]);
}

#[test]
fn app_launched_without_pending_emits_no_effects() {
    let (next, effects) = step(&fresh(), ReducerEvent::AppLaunched { has_pending: false });
    assert!(!next.has_pending);
    assert!(effects.is_empty());
}

#[test]
fn app_launched_offline_emits_no_effects() {
    let mut state = fresh();
    state.is_connected = false;
    let (_, effects) = step(&state, ReducerEvent::AppLaunched { has_pending: true });
    assert!(effects.is_empty());
}

#[test]
fn app_launched_signed_out_emits_no_effects() {
    let mut state = fresh();
    state.is_signed_in = false;
    let (_, effects) = step(&state, ReducerEvent::AppLaunched { has_pending: true });
    assert!(effects.is_empty());
}

#[test]
fn connectivity_restored_with_pending_schedules_after_debounce() {
    let mut state = fresh();
    state.is_connected = false;
    state.has_pending = true;
    let (next, effects) = step(&state, ReducerEvent::ConnectivityChanged { is_connected: true });
    assert!(next.is_connected);
    assert_eq!(effects, vec![ReducerEffect::Schedule(Duration::from_secs(RECONNECT_DEBOUNCE_SECS))]);
}

#[test]
fn connectivity_restored_with_no_change_emits_no_effects() {
    let mut state = fresh();
    state.has_pending = true;
    let (_, effects) = step(&state, ReducerEvent::ConnectivityChanged { is_connected: true });
    assert!(effects.is_empty());
}

#[test]
fn connectivity_lost_emits_no_effects_and_disables_gate() {
    let state = fresh();
    let (next, effects) = step(&state, ReducerEvent::ConnectivityChanged { is_connected: false });
    assert!(!next.is_connected);
    assert!(effects.is_empty());
}

#[test]
fn auth_signed_in_with_pending_schedules_immediate_replay() {
    let mut state = fresh();
    state.is_signed_in = false;
    state.has_pending = true;
    let (next, effects) = step(&state, ReducerEvent::AuthStateChanged { is_signed_in: true });
    assert!(next.is_signed_in);
    assert_eq!(effects, vec![ReducerEffect::Schedule(Duration::ZERO)]);
}

#[test]
fn auth_signed_out_disables_gate() {
    let state = fresh();
    let (next, effects) = step(&state, ReducerEvent::AuthStateChanged { is_signed_in: false });
    assert!(!next.is_signed_in);
    assert!(effects.is_empty());
}

#[test]
fn enqueue_coalesces_bursts() {
    let (next, effects) = step(&fresh(), ReducerEvent::OfflineOperationEnqueued);
    assert!(next.has_pending);
    assert_eq!(effects, vec![ReducerEffect::Schedule(Duration::from_millis(ENQUEUE_COALESCE_MS))]);
}

#[test]
fn enqueue_while_processing_emits_no_effects() {
    let mut state = fresh();
    state.is_processing = true;
    let (next, effects) = step(&state, ReducerEvent::OfflineOperationEnqueued);
    assert!(next.has_pending);
    assert!(effects.is_empty());
}

#[test]
fn processing_started_marks_processing_and_emits_no_effects() {
    let (next, effects) = step(&fresh(), ReducerEvent::OfflineQueueProcessingStarted);
    assert!(next.is_processing);
    assert!(effects.is_empty());
}

#[test]
fn processed_drained_queue_resets_backoff_and_emits_no_effects() {
    let mut state = fresh();
    state.is_processing = true;
    state.has_pending = true;
    state.consecutive_failures = 3;
    let (next, effects) = step(
        &state,
        ReducerEvent::OfflineQueueProcessed { processed_count: 5, still_has_pending: false },
    );
    assert!(!next.is_processing);
    assert!(!next.has_pending);
    assert_eq!(next.consecutive_failures, 0);
    assert!(effects.is_empty());
}

#[test]
fn forward_progress_keeps_draining_aggressively() {
    let mut state = fresh();
    state.is_processing = true;
    state.has_pending = true;
    state.consecutive_failures = 3;
    let (next, effects) = step(
        &state,
        ReducerEvent::OfflineQueueProcessed { processed_count: 5, still_has_pending: true },
    );
    assert_eq!(next.consecutive_failures, 0);
    assert_eq!(effects, vec![ReducerEffect::Schedule(Duration::from_millis(FORWARD_PROGRESS_RETRY_MS))]);
}

#[test]
fn no_forward_progress_walks_backoff_ladder() {
    let mut state = fresh();
    state.is_processing = true;
    state.has_pending = true;
    let (next, effects) = step(
        &state,
        ReducerEvent::OfflineQueueProcessed { processed_count: 0, still_has_pending: true },
    );
    assert_eq!(next.consecutive_failures, 1);
    assert_eq!(effects, vec![ReducerEffect::Schedule(Duration::from_secs(2))]);
}

#[test]
fn no_forward_progress_offline_emits_no_effects_but_increments_failures() {
    let mut state = fresh();
    state.is_processing = true;
    state.has_pending = true;
    state.is_connected = false;
    let (next, effects) = step(
        &state,
        ReducerEvent::OfflineQueueProcessed { processed_count: 0, still_has_pending: true },
    );
    assert_eq!(next.consecutive_failures, 1);
    assert!(effects.is_empty());
}

#[test]
fn backoff_clamps_at_top_of_ladder() {
    let mut state = fresh();
    state.is_processing = true;
    state.has_pending = true;
    state.consecutive_failures = 99;
    let (next, effects) = step(
        &state,
        ReducerEvent::OfflineQueueProcessed { processed_count: 0, still_has_pending: true },
    );
    assert_eq!(next.consecutive_failures, 100);
    assert_eq!(effects, vec![ReducerEffect::Schedule(Duration::from_secs(120))]);
}

#[test]
fn failures_saturate_at_u32_max() {
    let mut state = fresh();
    state.is_processing = true;
    state.consecutive_failures = u32::MAX;
    let (next, effects) = step(
        &state,
        ReducerEvent::OfflineQueueProcessed { processed_count: 0, still_has_pending: true },
    );
    assert_eq!(next.consecutive_failures, u32::MAX);
    assert!(!next.is_processing);
    assert_eq!(effects, vec![ReducerEffect::Schedule(Duration::from_secs(120))]);
}

#[test]
fn walking_the_ladder_over_several_failed_drains() {
    let mut state = fresh();
    let mut delays = Vec::new();
    for _ in 0..7 {
        let (next, effects) = step(
            &state,
            ReducerEvent::OfflineQueueProcessed { processed_count: 0, still_has_pending: true },
        );
        state = next;
        delays.push(effects);
    }
    let secs: Vec<u64> = delays
        .iter()
        .map(|e| match e[0] {
            ReducerEffect::Schedule(d) => d.as_secs(),
            ReducerEffect::ProcessNow => 0,
        })
        .collect();
    assert_eq!(secs, vec![2, 5, 10, 30, 60, 120, 120]);
}
