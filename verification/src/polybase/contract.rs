//! Frozen semantic invariants: version steps, backoff ladder, queue dedupe and finalize rules.

use vstd::prelude::*;
use crate::text::str_eq;

verus! {

/// Stable name of the contract for identification in logs / diagnostics.
pub const CONTRACT_NAME: &'static str = "polybase-rust-v2";

/// Each authenticated user owns at most one local database file.
pub const SQLITE_DATABASES_PER_AUTHENTICATED_USER: usize = 1;
/// Each authenticated user owns at most one attachment cache root.
pub const ATTACHMENT_ROOTS_PER_AUTHENTICATED_USER: usize = 1;
/// Sign-out / account switch must wipe the active user's local mirror first.
pub const WIPE_ACTIVE_USER_BEFORE_NEXT_ACTIVATION: bool = true;

/// New synced rows start at version 1.
pub const INITIAL_VERSION: i64 = 1;
/// Ordinary local mutations bump version by +1.
pub const STANDARD_MUTATION_VERSION_STEP: i64 = 1;
/// Intentional undelete is the only allowed large jump and must use +1000.
pub const UNDELETE_VERSION_DELTA: i64 = 1000;

/// `queued_at` must be monotonic; bump by 1µs when wall-clock does not advance.
pub const MONOTONIC_QUEUE_TIMESTAMP_BUMP_MICROS: i64 = 1;

/// Reconnect processing is debounced by this many seconds before another replay attempt.
pub const RECONNECT_DEBOUNCE_SECS: u64 = 2;
/// Enqueue bursts are coalesced for this many milliseconds before draining.
pub const ENQUEUE_COALESCE_MS: u64 = 250;
/// If replay makes forward progress, keep draining after this many milliseconds.
pub const FORWARD_PROGRESS_RETRY_MS: u64 = 100;
/// Per-operation timeout when replaying offline queue items.
pub const REPLAY_PER_OPERATION_TIMEOUT_SECS: u64 = 20;

/// Echo suppression remembers pushed IDs for this many seconds.
pub const ECHO_EXPIRY_WINDOW_SECS: u64 = 5;
/// Echo lookup key format: `table:id`.
pub const ECHO_KEY_FORMAT: &'static str = "table:id";

/// Encrypted strings keep the `enc:` prefix.
pub const STRING_ENCRYPTION_PREFIX: &'static str = "enc:";
/// HKDF salt rule (uppercased UUID bytes).
pub const HKDF_SALT_RULE: &'static str = "uppercased-uuid";
/// HKDF info string.
pub const HKDF_INFO: &'static str = "supabase-encryption";
/// Attachment storage path format.
pub const ATTACHMENT_STORAGE_PATH_FORMAT: &'static str = "user-id/conversation-id/attachment-id.ext";

/// Backoff ladder when replay makes no progress (seconds), as a sequence.
pub open spec fn backoff_ladder() -> Seq<u64> {
    seq![2u64, 5, 10, 30, 60, 120]
}

/// Ladder position used for `consecutive_failures`: `failures - 1`, floored at 0, capped at 5.
pub open spec fn backoff_index(consecutive_failures: u32) -> int {
    if consecutive_failures == 0 {
        0
    } else if consecutive_failures - 1 >= 5 {
        5
    } else {
        consecutive_failures - 1
    }
}

/// Minimum version value that constitutes an intentional undelete vs. a stale mutation.
pub fn undelete_minimum_version(remote_version: i64) -> (r: i64)
    requires
        remote_version + UNDELETE_VERSION_DELTA <= i64::MAX,
    ensures
        r == remote_version + 1000,
{
    remote_version + UNDELETE_VERSION_DELTA
}

/// The version a local winner takes: `max(local, remote) + 1`.
pub open spec fn merged_version(local_version: int, remote_version: int) -> int {
    if local_version >= remote_version {
        local_version + 1
    } else {
        remote_version + 1
    }
}

/// Compute the merged version when local logic decides the local row wins. Always advances
/// to `max(local, remote) + 1` so the next push is monotonic.
pub fn local_winner_merged_version(local_version: i64, remote_version: i64) -> (r: i64)
    requires
        local_version < i64::MAX,
        remote_version < i64::MAX,
    ensures
        r == merged_version(local_version as int, remote_version as int),
        r > local_version,
        r > remote_version,
{
    if local_version >= remote_version {
        local_version + STANDARD_MUTATION_VERSION_STEP
    } else {
        remote_version + STANDARD_MUTATION_VERSION_STEP
    }
}

/// Compute the next monotonic queue timestamp, bumping by 1µs if the wall clock did not advance.
pub fn next_queued_at_micros(last_queued_at_micros: Option<i64>, candidate_micros: i64) -> (r: i64)
    requires
        last_queued_at_micros matches Some(last) ==> (candidate_micros <= last ==> last < i64::MAX),
    ensures
        match last_queued_at_micros {
            Some(last) => if candidate_micros <= last { r == last + 1 } else { r == candidate_micros },
            None => r == candidate_micros,
        },
        last_queued_at_micros matches Some(last) ==> r > last,
{
    match last_queued_at_micros {
        Some(last) => {
            if candidate_micros <= last {
                last + MONOTONIC_QUEUE_TIMESTAMP_BUMP_MICROS
            } else {
                candidate_micros
            }
        },
        None => candidate_micros,
    }
}

/// Look up the next reconnect backoff. Index is `consecutive_failures - 1`, clamped to ladder.
pub fn reconnect_backoff_seconds(consecutive_failures: u32) -> (r: u64)
    ensures
        r == backoff_ladder()[backoff_index(consecutive_failures)],
{
    let index: u32 = if consecutive_failures == 0 { 0 } else { consecutive_failures - 1 };
    if index == 0 {
        2
    } else if index == 1 {
        5
    } else if index == 2 {
        10
    } else if index == 3 {
        30
    } else if index == 4 {
        60
    } else {
        120
    }
}

/// Format the echo-tracker lookup key for `(table, entity_id)`: `table:id`.
pub fn echo_tracker_key(table: &str, entity_id: &str) -> (r: String)
    ensures
        r@ == table@ + seq![':'] + entity_id@,
{
    let mut key = table.to_owned();
    key.append(":");
    key.append(entity_id);
    proof {
        reveal_strlit(":");
    }
    key
}

/// The dedupe key for offline-queue operations.
pub fn queue_dedupe_key<'a>(table: &'a str, entity_id: &'a str) -> (r: (&'a str, &'a str))
    ensures
        r.0@ == table@,
        r.1@ == entity_id@,
{
    (table, entity_id)
}

/// Format a Supabase Storage path: `user/conversation/attachment.ext`.
pub fn attachment_storage_path(
    user_id: &str,
    conversation_id: &str,
    attachment_id: &str,
    extension: &str,
) -> (r: String)
    ensures
        r@ == user_id@ + seq!['/'] + conversation_id@ + seq!['/'] + attachment_id@ + seq!['.']
            + extension@,
{
    let mut path = user_id.to_owned();
    path.append("/");
    path.append(conversation_id);
    path.append("/");
    path.append(attachment_id);
    path.append(".");
    path.append(extension);
    proof {
        reveal_strlit("/");
        reveal_strlit(".");
    }
    path
}

/// Possible reconcile outcomes for a single row.
#[derive(Clone, Copy, Debug, PartialEq, Eq, Structural)]
pub enum ReconcileAction {
    /// Local must adopt the remote tombstone.
    AdoptTombstone,
    /// Pull the newer remote row into local.
    Pull,
    /// Push the newer local row to remote.
    Push,
    /// Both sides agree — no work.
    Skip,
}

/// The reconcile rule over the four key axes.
pub open spec fn reconcile_action(
    local_version: int,
    local_deleted: bool,
    remote_version: int,
    remote_deleted: bool,
) -> ReconcileAction {
    if remote_deleted && !local_deleted {
        if local_version >= remote_version + 1000 {
            ReconcileAction::Push
        } else {
            ReconcileAction::AdoptTombstone
        }
    } else if local_deleted && !remote_deleted {
        ReconcileAction::Push
    } else if remote_version > local_version {
        ReconcileAction::Pull
    } else if local_version > remote_version {
        ReconcileAction::Push
    } else {
        ReconcileAction::Skip
    }
}

/// When the undelete threshold has to be computed, it must fit in an `i64`.
pub open spec fn reconcile_defined(local_deleted: bool, remote_version: int, remote_deleted: bool) -> bool {
    remote_deleted && !local_deleted ==> remote_version + 1000 <= i64::MAX
}

/// Determine the reconcile action for a single row given the four key axes.
pub fn determine_reconcile_action(
    local_version: i64,
    local_deleted: bool,
    remote_version: i64,
    remote_deleted: bool,
) -> (r: ReconcileAction)
    requires
        reconcile_defined(local_deleted, remote_version as int, remote_deleted),
    ensures
        r == reconcile_action(local_version as int, local_deleted, remote_version as int, remote_deleted),
{
    if remote_deleted && !local_deleted {
        if local_version >= undelete_minimum_version(remote_version) {
            return ReconcileAction::Push;
        }
        return ReconcileAction::AdoptTombstone;
    }
    if local_deleted && !remote_deleted {
        return ReconcileAction::Push;
    }
    if remote_version > local_version {
        return ReconcileAction::Pull;
    }
    if local_version > remote_version {
        return ReconcileAction::Push;
    }
    ReconcileAction::Skip
}

/// A queued operation under the contract dedupe rules.
#[derive(Clone, Debug, PartialEq, Eq)]
pub struct ContractOperation {
    /// Table name the operation targets.
    pub table: String,
    /// Primary key value within the table.
    pub entity_id: String,
    /// Monotonic enqueue timestamp in microseconds.
    pub queued_at_micros: i64,
}

/// The plain-value model of a [`ContractOperation`].
pub struct OpView {
    /// Table name.
    pub table: Seq<char>,
    /// Primary key value.
    pub entity_id: Seq<char>,
    /// Enqueue timestamp.
    pub queued_at_micros: i64,
}

impl View for ContractOperation {
    type V = OpView;

    open spec fn view(&self) -> OpView {
        OpView { table: self.table@, entity_id: self.entity_id@, queued_at_micros: self.queued_at_micros }
    }
}

/// Models of a sequence of operations.
pub open spec fn ops_view(s: Seq<ContractOperation>) -> Seq<OpView> {
    s.map_values(|o: ContractOperation| o@)
}

/// Two operations share the dedupe key `(table, entity_id)`.
pub open spec fn same_key(a: OpView, b: OpView) -> bool {
    a.table == b.table && a.entity_id == b.entity_id
}

/// Some operation of `s` carries the key of `op`.
pub open spec fn has_key(s: Seq<OpView>, op: OpView) -> bool {
    exists|i: int| 0 <= i < s.len() && same_key(#[trigger] s[i], op)
}

/// The `queued_at` recorded in `snapshot` for the key of `op`: the last one listed wins.
pub open spec fn snapshot_stamp(snapshot: Seq<OpView>, op: OpView) -> Option<i64>
    decreases snapshot.len(),
{
    if snapshot.len() == 0 {
        None
    } else if same_key(snapshot.last(), op) {
        Some(snapshot.last().queued_at_micros)
    } else {
        snapshot_stamp(snapshot.drop_last(), op)
    }
}

/// An operation of the current queue survives unless the snapshot processed exactly it
/// (same key, same `queued_at`).
pub open spec fn survives(snapshot: Seq<OpView>, op: OpView) -> bool {
    snapshot_stamp(snapshot, op) != Some(op.queued_at_micros)
}

/// Failed operations are re-added in order, each only if no operation with its key is
/// already present.
pub open spec fn readd_failed(acc: Seq<OpView>, failed: Seq<OpView>) -> Seq<OpView>
    decreases failed.len(),
{
    if failed.len() == 0 {
        acc
    } else {
        let next = if has_key(acc, failed[0]) { acc } else { acc.push(failed[0]) };
        readd_failed(next, failed.drop_first())
    }
}

/// The queue after a drain: survivors of `current` in order, then the re-added failures.
pub open spec fn finalize_spec(current: Seq<OpView>, snapshot: Seq<OpView>, failed: Seq<OpView>) -> Seq<OpView> {
    readd_failed(current.filter(|op: OpView| survives(snapshot, op)), failed)
}

/// Filtering a sequence extended by one element.
pub proof fn lemma_filter_push<A>(s: Seq<A>, x: A, pred: spec_fn(A) -> bool)
    ensures
        s.push(x).filter(pred) == (if pred(x) { s.filter(pred).push(x) } else { s.filter(pred) }),
{
    reveal_with_fuel(Seq::filter, 1);
    assert(s.push(x).drop_last() =~= s);
}

impl ContractOperation {
    /// Build a contract operation tuple from the canonical fields.
    pub fn new(table: &str, entity_id: &str, queued_at_micros: i64) -> (r: Self)
        ensures
            r@.table == table@,
            r@.entity_id == entity_id@,
            r@.queued_at_micros == queued_at_micros,
    {
        ContractOperation { table: table.to_owned(), entity_id: entity_id.to_owned(), queued_at_micros }
    }

    /// A field-by-field copy.
    pub fn duplicate(&self) -> (r: Self)
        ensures
            r@ == self@,
    {
        ContractOperation {
            table: self.table.clone(),
            entity_id: self.entity_id.clone(),
            queued_at_micros: self.queued_at_micros,
        }
    }

    /// Whether `self` and `other` share the dedupe key.
    pub fn same_key_as(&self, other: &ContractOperation) -> (r: bool)
        ensures
            r == same_key(self@, other@),
    {
        str_eq(self.table.as_str(), other.table.as_str()) && str_eq(
            self.entity_id.as_str(),
            other.entity_id.as_str(),
        )
    }
}

/// The `queued_at` the snapshot records for the key of `op` (last occurrence wins).
fn lookup_snapshot_stamp(snapshot: &[ContractOperation], op: &ContractOperation) -> (r: Option<i64>)
    ensures
        r == snapshot_stamp(ops_view(snapshot@), op@),
{
    let mut i: usize = snapshot.len();
    proof {
        assert(snapshot@.take(snapshot@.len() as int) =~= snapshot@);
    }
    while i > 0
        invariant
            i <= snapshot.len(),
            snapshot_stamp(ops_view(snapshot@), op@) == snapshot_stamp(ops_view(snapshot@.take(i as int)), op@),
        decreases i,
    {
        let entry = &snapshot[i - 1];
        proof {
            assert(ops_view(snapshot@.take(i as int)).drop_last() =~= ops_view(snapshot@.take(i - 1)));
        }
        if entry.same_key_as(op) {
            return Some(entry.queued_at_micros);
        }
        i = i - 1;
    }
    None
}

/// Whether some operation of `ops` carries the key of `op`.
fn contains_key(ops: &Vec<ContractOperation>, op: &ContractOperation) -> (r: bool)
    ensures
        r == has_key(ops_view(ops@), op@),
{
    let mut i: usize = 0;
    while i < ops.len()
        invariant
            i <= ops.len(),
            forall|k: int| 0 <= k < i ==> !same_key(#[trigger] ops_view(ops@)[k], op@),
        decreases ops.len() - i,
    {
        if ops[i].same_key_as(op) {
            proof {
                assert(same_key(ops_view(ops@)[i as int], op@));
            }
            return true;
        }
        i = i + 1;
    }
    false
}

/// After the worker drains a snapshot, finalize the queue: drop completed snapshot items, retain
/// concurrent enqueues, and re-add any failed items only if no newer op for the same key exists.
pub fn finalize_queue_after_processing(
    current: &[ContractOperation],
    snapshot: &[ContractOperation],
    failed: &[ContractOperation],
) -> (r: Vec<ContractOperation>)
    ensures
        ops_view(r@) == finalize_spec(ops_view(current@), ops_view(snapshot@), ops_view(failed@)),
{
    let ghost snap = ops_view(snapshot@);
    let ghost pred = |op: OpView| survives(snap, op);
    let mut retained: Vec<ContractOperation> = Vec::new();
    let mut i: usize = 0;
    while i < current.len()
        invariant
            i <= current.len(),
            snap == ops_view(snapshot@),
            pred == (|op: OpView| survives(snap, op)),
            ops_view(retained@) == ops_view(current@.take(i as int)).filter(pred),
        decreases current.len() - i,
    {
        let op = &current[i];
        let stamp = lookup_snapshot_stamp(snapshot, op);
        let keep = match stamp {
            Some(t) => t != op.queued_at_micros,
            None => true,
        };
        proof {
            let prefix = ops_view(current@.take(i as int));
            assert(ops_view(current@.take(i + 1)) =~= prefix.push(op@));
            lemma_filter_push(prefix, op@, pred);
            assert(keep == pred(op@));
        }
        if keep {
            retained.push(op.duplicate());
        }
        proof {
            assert(ops_view(retained@) =~= ops_view(current@.take(i + 1)).filter(pred));
        }
        i = i + 1;
    }
    proof {
        assert(current@.take(current@.len() as int) =~= current@);
    }
    let ghost base = ops_view(retained@);
    let mut j: usize = 0;
    proof {
        assert(ops_view(failed@).skip(0) =~= ops_view(failed@));
    }
    while j < failed.len()
        invariant
            j <= failed.len(),
            readd_failed(base, ops_view(failed@)) == readd_failed(ops_view(retained@), ops_view(failed@).skip(j as int)),
        decreases failed.len() - j,
    {
        let op = &failed[j];
        proof {
            assert(ops_view(failed@).skip(j as int).drop_first() =~= ops_view(failed@).skip(j + 1));
            assert(ops_view(failed@).skip(j as int)[0] == op@);
        }
        let ghost before = retained@;
        if !contains_key(&retained, op) {
            retained.push(op.duplicate());
            proof {
                assert(ops_view(retained@) =~= ops_view(before).push(op@));
            }
        }
        j = j + 1;
    }
    proof {
        assert(ops_view(failed@).skip(failed@.len() as int) =~= Seq::<OpView>::empty());
    }
    retained
}

/// A row is skipped exactly when both sides agree on the version and on deletion.
pub proof fn lemma_skip_iff_in_agreement(local_version: int, local_deleted: bool, remote_version: int, remote_deleted: bool)
    ensures
        (reconcile_action(local_version, local_deleted, remote_version, remote_deleted) == ReconcileAction::Skip)
            <==> (local_version == remote_version && local_deleted == remote_deleted),
{
}

/// Only a live remote row that is strictly newer, with deletion flags in agreement, is pulled;
/// a remote tombstone is adopted only by a live local row below the undelete threshold.
pub proof fn lemma_pull_and_adopt_conditions(local_version: int, local_deleted: bool, remote_version: int, remote_deleted: bool)
    ensures
        (reconcile_action(local_version, local_deleted, remote_version, remote_deleted) == ReconcileAction::Pull)
            <==> (local_deleted == remote_deleted && remote_version > local_version),
        (reconcile_action(local_version, local_deleted, remote_version, remote_deleted) == ReconcileAction::AdoptTombstone)
            <==> (remote_deleted && !local_deleted && local_version < remote_version + 1000),
{
}

/// The reconnect backoff never shrinks as failures accumulate and never exceeds two minutes.
pub proof fn lemma_backoff_monotone_and_capped(a: u32, b: u32)
    requires
        a <= b,
    ensures
        backoff_ladder()[backoff_index(a)] <= backoff_ladder()[backoff_index(b)],
        backoff_ladder()[backoff_index(b)] <= 120,
        backoff_ladder()[backoff_index(a)] >= 2,
{
}

/// A local winner's merged version is above both sides, so the next push is monotonic.
pub proof fn lemma_merged_version_advances(local_version: int, remote_version: int)
    ensures
        merged_version(local_version, remote_version) > local_version,
        merged_version(local_version, remote_version) > remote_version,
{
}

proof fn lemma_readd_prefix(acc: Seq<OpView>, failed: Seq<OpView>)
    ensures
        readd_failed(acc, failed).len() >= acc.len(),
        readd_failed(acc, failed).take(acc.len() as int) == acc,
        forall|j: int| 0 <= j < failed.len() ==> has_key(readd_failed(acc, failed), #[trigger] failed[j]),
    decreases failed.len(),
{
    if failed.len() > 0 {
        let next = if has_key(acc, failed[0]) { acc } else { acc.push(failed[0]) };
        lemma_readd_prefix(next, failed.drop_first());
        let res = readd_failed(next, failed.drop_first());
        assert(res.take(acc.len() as int) =~= next.take(acc.len() as int).take(acc.len() as int));
        assert(next.take(acc.len() as int) =~= acc);
        assert forall|j: int| 0 <= j < failed.len() implies has_key(res, #[trigger] failed[j]) by {
            if j == 0 {
                if has_key(acc, failed[0]) {
                    let w = choose|w: int| 0 <= w < acc.len() && same_key(#[trigger] acc[w], failed[0]);
                    assert(res[w] == acc[w]) by {
                        assert(res.take(acc.len() as int)[w] == res[w]);
                    }
                } else {
                    let w = acc.len() as int;
                    assert(next[w] == failed[0]);
                    assert(res.take(next.len() as int) == next);
                    assert(res[w] == res.take(next.len() as int)[w]);
                    assert(same_key(res[w], failed[0]));
                }
            } else {
                assert(failed.drop_first()[j - 1] == failed[j]);
            }
        }
    }
}

/// Finalising a drained batch keeps, in order and first, every queued operation the batch did
/// not complete (concurrent enqueues and newer replacements), and leaves a pending operation
/// for the key of every failed one.
pub proof fn lemma_finalize_keeps_pending_work(current: Seq<OpView>, snapshot: Seq<OpView>, failed: Seq<OpView>)
    ensures
        finalize_spec(current, snapshot, failed).take(current.filter(|op: OpView| survives(snapshot, op)).len() as int)
            == current.filter(|op: OpView| survives(snapshot, op)),
        forall|j: int| 0 <= j < failed.len() ==> has_key(finalize_spec(current, snapshot, failed), #[trigger] failed[j]),
{
    lemma_readd_prefix(current.filter(|op: OpView| survives(snapshot, op)), failed);
}

/// A failed operation is re-added only when no pending operation carries its key: finalising
/// never creates a second operation for a key.
pub proof fn lemma_readd_keeps_keys_unique(acc: Seq<OpView>, failed: Seq<OpView>)
    requires
        forall|a: int, b: int| 0 <= a < b < acc.len() ==> !same_key(#[trigger] acc[a], #[trigger] acc[b]),
    ensures
        forall|a: int, b: int| 0 <= a < b < readd_failed(acc, failed).len()
            ==> !same_key(#[trigger] readd_failed(acc, failed)[a], #[trigger] readd_failed(acc, failed)[b]),
    decreases failed.len(),
{
    if failed.len() > 0 {
        let next = if has_key(acc, failed[0]) { acc } else { acc.push(failed[0]) };
        assert forall|a: int, b: int| 0 <= a < b < next.len() implies !same_key(#[trigger] next[a], #[trigger] next[b]) by {
            if !has_key(acc, failed[0]) && b == acc.len() {
                assert(next[a] == acc[a]);
                if same_key(next[a], next[b]) {
                    assert(same_key(acc[a], failed[0]));
                }
            }
        }
        lemma_readd_keeps_keys_unique(next, failed.drop_first());
        assert(readd_failed(acc, failed) == readd_failed(next, failed.drop_first()));
    }
}

} // verus!
