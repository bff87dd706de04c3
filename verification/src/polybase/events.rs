//! Observable events published across the runtime, as plain data.
//!
//! The broadcast channel that carries them lives with the async runtime; this module holds the
//! event vocabulary itself.

use vstd::prelude::*;

verus! {

/// Discriminated union of all events emitted by the runtime.
#[derive(Debug, Clone, PartialEq, Eq)]
pub enum PolyEvent {
    /// Session payload changed (sign-in, refresh, change of user, sign-out).
    SessionChanged {
        /// User id after the change. `None` when the session was cleared.
        user_id: Option<String>,
        /// What kind of session change occurred.
        change: SessionChangeKind,
    },
    /// A realtime postgres_changes event was received and ready for merge.
    RealtimeChanged {
        /// Table the change applies to.
        table: String,
        /// Primary key of the affected row.
        entity_id: String,
        /// Insert / update / delete.
        op: RealtimeOp,
    },
    /// Offline queue depth changed.
    OfflineQueueChanged {
        /// Number of operations currently waiting in the queue.
        depth: usize,
        /// True if a replay batch is currently being processed.
        in_flight: bool,
    },
    /// A reconcile pass started or completed for a table.
    ReconcileProgress {
        /// Table being reconciled.
        table: String,
        /// Phase of the reconcile pass.
        phase: ReconcilePhase,
        /// Per-action counts; populated only on `Completed`.
        action_counts: Option<ReconcileActionCounts>,
    },
    /// Bulk pull (initial bootstrap or refresh) progress.
    PullProgress {
        /// Table being pulled.
        table: String,
        /// Number of rows received so far.
        rows_received: usize,
        /// True when the pull has finished.
        complete: bool,
    },
    /// A KVS key changed (locally or via realtime).
    KvsChanged {
        /// Namespace the key lives under.
        namespace: String,
        /// Key name within the namespace.
        key: String,
        /// True for tombstone events.
        deleted: bool,
    },
}

/// What kind of change happened to the active session.
#[derive(Debug, Clone, Copy, PartialEq, Eq, Structural)]
pub enum SessionChangeKind {
    /// New user signed in (no prior session, or different user).
    UserChanged,
    /// Same user, fresh access/refresh tokens.
    CredentialsRefreshed,
    /// Session cleared (sign-out).
    Cleared,
}

/// PostgREST operation kind for a realtime row event.
#[derive(Debug, Clone, Copy, PartialEq, Eq, Structural)]
pub enum RealtimeOp {
    /// New row was inserted.
    Insert,
    /// Existing row was updated.
    Update,
    /// Row was deleted (or tombstoned, if soft-delete is in use).
    Delete,
}

/// Phase of a reconcile pass.
#[derive(Debug, Clone, Copy, PartialEq, Eq, Structural)]
pub enum ReconcilePhase {
    /// Reconcile pass started.
    Started,
    /// Reconcile pass completed successfully.
    Completed,
    /// Reconcile pass failed.
    Failed,
}

/// How many rows fell into each reconcile bucket.
#[derive(Debug, Clone, Copy, Default, PartialEq, Eq, Structural)]
pub struct ReconcileActionCounts {
    /// Local rows that adopted the remote tombstone.
    pub adopt_tombstone: u32,
    /// Rows pulled from remote (newer remote version, including create-local).
    pub pull: u32,
    /// Rows pushed to remote (newer local version, including create-remote).
    pub push: u32,
    /// Rows that already matched on both sides.
    pub skip: u32,
}

/// The host-side topic an event is forwarded under.
pub open spec fn event_topic(e: PolyEvent) -> Seq<char> {
    match e {
        PolyEvent::SessionChanged { .. } => "polybase:session_changed"@,
        PolyEvent::RealtimeChanged { .. } => "polybase:realtime_changed"@,
        PolyEvent::OfflineQueueChanged { .. } => "polybase:offline_queue_changed"@,
        PolyEvent::ReconcileProgress { .. } => "polybase:reconcile_progress"@,
        PolyEvent::PullProgress { .. } => "polybase:pull_progress"@,
        PolyEvent::KvsChanged { .. } => "polybase:kvs_changed"@,
    }
}

/// The topic an event is forwarded to the frontend under.
pub fn topic_for(event: &PolyEvent) -> (r: &'static str)
    ensures
        r@ == event_topic(*event),
{
    match event {
        PolyEvent::SessionChanged { .. } => "polybase:session_changed",
        PolyEvent::RealtimeChanged { .. } => "polybase:realtime_changed",
        PolyEvent::OfflineQueueChanged { .. } => "polybase:offline_queue_changed",
        PolyEvent::ReconcileProgress { .. } => "polybase:reconcile_progress",
        PolyEvent::PullProgress { .. } => "polybase:pull_progress",
        PolyEvent::KvsChanged { .. } => "polybase:kvs_changed",
    }
}

} // verus!
