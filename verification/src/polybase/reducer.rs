//! Pure state machine for sync scheduling decisions.
//!
//! The reducer accepts events (app launch, connectivity, auth, enqueue, processing
//! started/completed) and emits effects (`Schedule`, `ProcessNow`). The runtime executes the
//! effects and feeds outcomes back in. A schedule is only ever emitted when
//! `has_pending`, `is_connected`, `is_signed_in` and `!is_processing` all hold.

use std::time::Duration;
use vstd::prelude::*;
use crate::polybase::contract::{
    backoff_index, backoff_ladder, reconnect_backoff_seconds, ENQUEUE_COALESCE_MS,
    FORWARD_PROGRESS_RETRY_MS, RECONNECT_DEBOUNCE_SECS,
};

verus! {

/// The `Duration` that `Duration::from_millis(ms)` returns.
pub uninterp spec fn duration_from_millis(ms: u64) -> Duration;

/// `Duration::from_millis`.
#[verifier::external_body]
fn millis(ms: u64) -> (d: Duration)
    ensures
        d == duration_from_millis(ms),
{
    Duration::from_millis(ms)
}

/// State carried across reducer steps.
#[derive(Debug, Clone, Copy, PartialEq, Eq)]
pub struct ReducerState {
    /// Network reachability. False suppresses all schedule effects.
    pub is_connected: bool,
    /// Authenticated session present. False suppresses all schedule effects.
    pub is_signed_in: bool,
    /// True while a replay is in flight; suppresses re-entrant schedules.
    pub is_processing: bool,
    /// True when the offline queue carries at least one operation.
    pub has_pending: bool,
    /// Number of consecutive replay attempts that drained zero operations.
    pub consecutive_failures: u32,
}

impl ReducerState {
    /// Optimistic defaults: connected and signed-in, nothing pending, no failures.
    pub open spec fn initial() -> ReducerState {
        ReducerState {
            is_connected: true,
            is_signed_in: true,
            is_processing: false,
            has_pending: false,
            consecutive_failures: 0,
        }
    }
}

impl Default for ReducerState {
    /// Optimistic defaults: assume connected and signed-in. The runtime feeds in the truth via
    /// `ConnectivityChanged` / `AuthStateChanged` events on startup.
    fn default() -> (r: Self)
        ensures
            r == ReducerState::initial(),
    {
        ReducerState {
            is_connected: true,
            is_signed_in: true,
            is_processing: false,
            has_pending: false,
            consecutive_failures: 0,
        }
    }
}

/// Inputs to the reducer.
#[derive(Debug, Clone, Copy, PartialEq, Eq)]
pub enum ReducerEvent {
    /// App launched and the offline queue may carry persisted operations.
    AppLaunched {
        /// Whether the queue has anything queued at startup.
        has_pending: bool,
    },
    /// Network reachability changed.
    ConnectivityChanged {
        /// New reachability state.
        is_connected: bool,
    },
    /// Authentication state changed.
    AuthStateChanged {
        /// Whether a session is now active.
        is_signed_in: bool,
    },
    /// A new operation was enqueued while the app is running.
    OfflineOperationEnqueued,
    /// A replay is about to start.
    OfflineQueueProcessingStarted,
    /// A replay completed.
    OfflineQueueProcessed {
        /// How many ops were successfully drained.
        processed_count: usize,
        /// Whether the queue still has anything pending after this drain.
        still_has_pending: bool,
    },
}

/// Effects the runtime should execute.
#[derive(Debug, Clone, Copy, PartialEq, Eq)]
pub enum ReducerEffect {
    /// Schedule a replay after the given delay.
    Schedule(Duration),
    /// Trigger a replay immediately.
    ProcessNow,
}

/// The delay, in milliseconds, of the schedule effect that an event produces, if any.
pub open spec fn schedule_millis(state: ReducerState, event: ReducerEvent) -> Option<u64> {
    match event {
        ReducerEvent::AppLaunched { has_pending } => {
            if has_pending && state.is_connected && state.is_signed_in && !state.is_processing {
                Some(0)
            } else {
                None
            }
        },
        ReducerEvent::ConnectivityChanged { is_connected } => {
            if is_connected && !state.is_connected && state.has_pending && state.is_signed_in
                && !state.is_processing {
                Some((RECONNECT_DEBOUNCE_SECS * 1000) as u64)
            } else {
                None
            }
        },
        ReducerEvent::AuthStateChanged { is_signed_in } => {
            if is_signed_in && !state.is_signed_in && state.has_pending && state.is_connected
                && !state.is_processing {
                Some(0)
            } else {
                None
            }
        },
        ReducerEvent::OfflineOperationEnqueued => {
            if state.is_connected && state.is_signed_in && !state.is_processing {
                Some(ENQUEUE_COALESCE_MS)
            } else {
                None
            }
        },
        ReducerEvent::OfflineQueueProcessingStarted => None,
        ReducerEvent::OfflineQueueProcessed { processed_count, still_has_pending } => {
            if !still_has_pending || !state.is_connected || !state.is_signed_in {
                None
            } else if processed_count > 0 {
                Some(FORWARD_PROGRESS_RETRY_MS)
            } else {
                Some(
                    (backoff_ladder()[backoff_index(
                        next_failures(state.consecutive_failures),
                    )] * 1000) as u64,
                )
            }
        },
    }
}

/// `consecutive_failures + 1`, saturating at `u32::MAX`.
pub open spec fn next_failures(f: u32) -> u32 {
    if f == u32::MAX { f } else { (f + 1) as u32 }
}

/// The state after an event.
pub open spec fn next_state(state: ReducerState, event: ReducerEvent) -> ReducerState {
    match event {
        ReducerEvent::AppLaunched { has_pending } => ReducerState { has_pending, ..state },
        ReducerEvent::ConnectivityChanged { is_connected } => ReducerState { is_connected, ..state },
        ReducerEvent::AuthStateChanged { is_signed_in } => ReducerState { is_signed_in, ..state },
        ReducerEvent::OfflineOperationEnqueued => ReducerState { has_pending: true, ..state },
        ReducerEvent::OfflineQueueProcessingStarted => ReducerState { is_processing: true, ..state },
        ReducerEvent::OfflineQueueProcessed { processed_count, still_has_pending } => {
            ReducerState {
                is_processing: false,
                has_pending: still_has_pending,
                consecutive_failures: if !still_has_pending || processed_count > 0 {
                    0
                } else {
                    next_failures(state.consecutive_failures)
                },
                ..state
            }
        },
    }
}

/// The effects an event produces: at most one `Schedule`.
pub open spec fn step_effects(state: ReducerState, event: ReducerEvent) -> Seq<ReducerEffect> {
    match schedule_millis(state, event) {
        Some(ms) => seq![ReducerEffect::Schedule(duration_from_millis(ms))],
        None => seq![],
    }
}

/// Step the reducer. Returns the new state and any effects to execute.
///
/// An event only produces a `Schedule` when `has_pending`, `is_connected`, `is_signed_in`,
/// and `!is_processing` are all true.
pub fn step(state: &ReducerState, event: ReducerEvent) -> (r: (ReducerState, Vec<ReducerEffect>))
    ensures
        r.0 == next_state(*state, event),
        r.1@ == step_effects(*state, event),
{
    let mut next = *state;
    match event {
        ReducerEvent::AppLaunched { has_pending } => {
            next.has_pending = has_pending;
            if !has_pending || !next.is_connected || !next.is_signed_in || next.is_processing {
                return (next, vec![]);
            }
            (next, vec![ReducerEffect::Schedule(millis(0))])
        },
        ReducerEvent::ConnectivityChanged { is_connected } => {
            let was_connected = next.is_connected;
            next.is_connected = is_connected;
            if !is_connected || was_connected {
                return (next, vec![]);
            }
            if !next.has_pending || !next.is_signed_in || next.is_processing {
                return (next, vec![]);
            }
            (next, vec![ReducerEffect::Schedule(millis(RECONNECT_DEBOUNCE_SECS * 1000))])
        },
        ReducerEvent::AuthStateChanged { is_signed_in } => {
            let was_signed_in = next.is_signed_in;
            next.is_signed_in = is_signed_in;
            if !is_signed_in || was_signed_in {
                return (next, vec![]);
            }
            if !next.has_pending || !next.is_connected || next.is_processing {
                return (next, vec![]);
            }
            (next, vec![ReducerEffect::Schedule(millis(0))])
        },
        ReducerEvent::OfflineOperationEnqueued => {
            next.has_pending = true;
            if !next.is_connected || !next.is_signed_in || next.is_processing {
                return (next, vec![]);
            }
            (next, vec![ReducerEffect::Schedule(millis(ENQUEUE_COALESCE_MS))])
        },
        ReducerEvent::OfflineQueueProcessingStarted => {
            next.is_processing = true;
            (next, vec![])
        },
        ReducerEvent::OfflineQueueProcessed { processed_count, still_has_pending } => {
            next.is_processing = false;
            next.has_pending = still_has_pending;
            if !still_has_pending {
                next.consecutive_failures = 0;
                return (next, vec![]);
            }
            if processed_count > 0 {
                next.consecutive_failures = 0;
            } else {
                next.consecutive_failures = next.consecutive_failures.saturating_add(1);
            }
            if !next.is_connected || !next.is_signed_in {
                return (next, vec![]);
            }
            if processed_count > 0 {
                (next, vec![ReducerEffect::Schedule(millis(FORWARD_PROGRESS_RETRY_MS))])
            } else {
                let secs = reconnect_backoff_seconds(next.consecutive_failures);
                (next, vec![ReducerEffect::Schedule(millis(secs * 1000))])
            }
        },
    }
}

/// Every schedule an event produces is allowed by the state it leads to: something is
/// pending, the network is up, a session is active and no replay is in flight.
pub proof fn lemma_schedule_respects_gates(state: ReducerState, event: ReducerEvent)
    requires
        schedule_millis(state, event) is Some,
    ensures
        next_state(state, event).has_pending,
        next_state(state, event).is_connected,
        next_state(state, event).is_signed_in,
        !next_state(state, event).is_processing,
{
}

/// A replay that is starting never schedules another one, and marks the replay in flight.
pub proof fn lemma_processing_start_is_quiet(state: ReducerState)
    ensures
        step_effects(state, ReducerEvent::OfflineQueueProcessingStarted).len() == 0,
        next_state(state, ReducerEvent::OfflineQueueProcessingStarted).is_processing,
{
}

/// While a replay is in flight, no event but its completion schedules anything.
pub proof fn lemma_no_reentrant_schedule(state: ReducerState, event: ReducerEvent)
    requires
        state.is_processing,
        !(event is OfflineQueueProcessed),
    ensures
        step_effects(state, event).len() == 0,
{
}

/// A drain that left work behind without progress walks the backoff ladder: the failure count
/// grows (saturating) and the delay is the ladder step for it, never more than the top step.
pub proof fn lemma_backoff_after_stalled_drain(state: ReducerState)
    requires
        state.is_connected,
        state.is_signed_in,
    ensures
        next_state(state, ReducerEvent::OfflineQueueProcessed { processed_count: 0, still_has_pending: true }).consecutive_failures
            == next_failures(state.consecutive_failures),
        schedule_millis(state, ReducerEvent::OfflineQueueProcessed { processed_count: 0, still_has_pending: true })
            == Some((backoff_ladder()[backoff_index(next_failures(state.consecutive_failures))] * 1000) as u64),
        backoff_ladder()[backoff_index(next_failures(state.consecutive_failures))] <= 120,
{
}

/// A drain that made progress, or emptied the queue, resets the failure count.
pub proof fn lemma_progress_resets_failures(state: ReducerState, processed_count: usize, still_has_pending: bool)
    requires
        processed_count > 0 || !still_has_pending,
    ensures
        next_state(state, ReducerEvent::OfflineQueueProcessed { processed_count, still_has_pending }).consecutive_failures == 0,
{
}

/// A connectivity change only moves the connectivity flag: pending work, the session, the
/// in-flight marker and the failure count all stay as they were.
pub proof fn lemma_connectivity_changes_only_flag(state: ReducerState, is_connected: bool)
    ensures
        next_state(state, ReducerEvent::ConnectivityChanged { is_connected }) == (ReducerState {
            is_connected,
            is_signed_in: state.is_signed_in,
            is_processing: state.is_processing,
            has_pending: state.has_pending,
            consecutive_failures: state.consecutive_failures,
        }),
{
}

/// Going offline with work queued and coming back replays it: the disconnect keeps the queue
/// marked pending, and the reconnect schedules a replay after the two-second debounce.
pub proof fn lemma_reconnect_replays_pending_work(state: ReducerState)
    requires
        state.has_pending,
        state.is_signed_in,
        !state.is_processing,
    ensures
        ({
            let offline = next_state(state, ReducerEvent::ConnectivityChanged { is_connected: false });
            &&& offline.has_pending
            &&& !offline.is_connected
            &&& schedule_millis(offline, ReducerEvent::ConnectivityChanged { is_connected: true })
                == Some(2000u64)
            &&& step_effects(offline, ReducerEvent::ConnectivityChanged { is_connected: true })
                == seq![ReducerEffect::Schedule(duration_from_millis(2000))]
            &&& next_state(offline, ReducerEvent::ConnectivityChanged { is_connected: true })
                == (ReducerState { is_connected: true, ..state })
        }),
{
}

/// Launch, auth, enqueue and replay-start events each move only the flag they report.
pub proof fn lemma_events_change_only_their_flag(state: ReducerState, flag: bool)
    ensures
        next_state(state, ReducerEvent::AppLaunched { has_pending: flag })
            == (ReducerState { has_pending: flag, ..state }),
        next_state(state, ReducerEvent::AuthStateChanged { is_signed_in: flag })
            == (ReducerState { is_signed_in: flag, ..state }),
        next_state(state, ReducerEvent::OfflineOperationEnqueued)
            == (ReducerState { has_pending: true, ..state }),
        next_state(state, ReducerEvent::OfflineQueueProcessingStarted)
            == (ReducerState { is_processing: true, ..state }),
{
}

/// With the network up, a session active and no replay in flight, work is replayed: at once
/// on launch with a queue or on sign-in with a queue, after 250 ms on an enqueue, and after
/// 100 ms when a drain made progress but left work behind.
pub proof fn lemma_open_gates_schedule(state: ReducerState, processed_count: usize)
    requires
        state.is_connected,
        !state.is_processing,
    ensures
        state.is_signed_in ==> schedule_millis(state, ReducerEvent::AppLaunched { has_pending: true }) == Some(0u64),
        state.is_signed_in ==> schedule_millis(state, ReducerEvent::OfflineOperationEnqueued) == Some(250u64),
        state.is_signed_in && processed_count > 0 ==> schedule_millis(
            state,
            ReducerEvent::OfflineQueueProcessed { processed_count, still_has_pending: true },
        ) == Some(100u64),
        !state.is_signed_in && state.has_pending ==> schedule_millis(
            state,
            ReducerEvent::AuthStateChanged { is_signed_in: true },
        ) == Some(0u64),
{
}

} // verus!
