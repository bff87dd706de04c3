//! The local SQLite mirror's decisions: where each user's database lives, what switching the
//! active user does, the SQL text of the store's statements, and how a replay batch is
//! finalised row by row in the persisted queue. Running the statements belongs to the host.

use vstd::prelude::*;
use crate::polybase::contract::{finalize_queue_after_processing, finalize_spec, ops_view, OpView};
use crate::polybase::offline_queue::{contract_of, contracts_of, listed, queued_views, QueuedOperation, QueuedOperationKind, QueuedView};
use crate::polybase::remote::{comma_joined, strings_view};
use crate::text::{chars_of, join_path, path_joined, push_str, str_eq};

verus! {

// ---------------------------------------------------------------------------------------
// Per-user layout.

/// A character allowed in a user id: ASCII letters and digits, `-` and `_`.
pub open spec fn user_id_char(c: char) -> bool {
    ('a' <= c && c <= 'z') || ('A' <= c && c <= 'Z') || ('0' <= c && c <= '9') || c == '-' || c == '_'
}

/// Every character of `id` is allowed in a user id.
pub open spec fn valid_user_id_spec(id: Seq<char>) -> bool {
    forall|i: int| 0 <= i < id.len() ==> #[trigger] user_id_char(id[i])
}

/// Whether `user_id` names a database directory: only ASCII letters, digits, `-` and `_`.
pub fn valid_user_id(user_id: &str) -> (r: bool)
    ensures
        r == valid_user_id_spec(user_id@),
{
    let chars = chars_of(user_id);
    let mut i: usize = 0;
    while i < chars.len()
        invariant
            i <= chars.len(),
            chars@ == user_id@,
            forall|k: int| 0 <= k < i ==> #[trigger] user_id_char(chars@[k]),
        decreases chars.len() - i,
    {
        let c = chars[i];
        let ok = ('a' <= c && c <= 'z') || ('A' <= c && c <= 'Z') || ('0' <= c && c <= '9') || c == '-' || c == '_';
        if !ok {
            proof {
                assert(!user_id_char(user_id@[i as int]));
            }
            return false;
        }
        i = i + 1;
    }
    true
}

/// The directory that holds one user's database: `{root}/{user_id}`.
pub open spec fn user_dir_spec(root: Seq<char>, user_id: Seq<char>) -> Seq<char> {
    path_joined(root, user_id)
}

/// One user's database file: `{root}/{user_id}/sync.db`.
pub open spec fn user_db_spec(root: Seq<char>, user_id: Seq<char>) -> Seq<char> {
    path_joined(path_joined(root, user_id), "sync.db"@)
}

/// The directory of `user_id`'s database under `root`.
pub fn user_dir(root: &str, user_id: &str) -> (r: String)
    ensures
        r@ == user_dir_spec(root@, user_id@),
{
    join_path(root, user_id)
}

/// The database file of `user_id` under `root`.
pub fn user_db_path(root: &str, user_id: &str) -> (r: String)
    ensures
        r@ == user_db_spec(root@, user_id@),
{
    let dir = join_path(root, user_id);
    join_path(dir.as_str(), "sync.db")
}

/// Where a user switch ends.
#[derive(Debug)]
pub enum SwitchTarget {
    /// The user is already active: nothing changes.
    Unchanged,
    /// An empty id signs out: no user, no pool.
    SignedOut,
    /// The id has characters outside the allowed alphabet; no pool is opened.
    InvalidUserId,
    /// Create `dir` and open (creating if missing) the database at `db_path`.
    Open {
        /// The user's directory.
        dir: String,
        /// The user's database file.
        db_path: String,
    },
}

/// What switching the active user does, in order: close the open pool, remove the previous
/// user's directory (when it exists on disk), then reach the target.
#[derive(Debug)]
pub struct SwitchPlan {
    /// Close the pool that is open, if any.
    pub close_pool: bool,
    /// The previous user's directory, wiped before the next user is activated.
    pub remove_dir: Option<String>,
    /// Where the switch ends.
    pub target: SwitchTarget,
}

/// The switch from the active user `current` to `next`: nothing when `next` is already
/// active; otherwise the pool closes and the previous user's directory is wiped, and then an
/// empty `next` signs out, an invalid one is refused, and a valid one gets its own directory
/// and database.
pub fn switch_plan(root: &str, current: Option<&str>, next: &str) -> (r: SwitchPlan)
    ensures
        (current matches Some(c) && c@ == next@) ==> !r.close_pool && r.remove_dir is None && r.target is Unchanged,
        !(current matches Some(c) && c@ == next@) ==> r.close_pool,
        !(current matches Some(c) && c@ == next@) ==> match current {
            Some(c) => r.remove_dir matches Some(d) && d@ == user_dir_spec(root@, c@),
            None => r.remove_dir is None,
        },
        !(current matches Some(c) && c@ == next@) && next@.len() == 0 ==> r.target is SignedOut,
        !(current matches Some(c) && c@ == next@) && next@.len() > 0 && !valid_user_id_spec(next@)
            ==> r.target is InvalidUserId,
        !(current matches Some(c) && c@ == next@) && next@.len() > 0 && valid_user_id_spec(next@) ==> (
        r.target matches SwitchTarget::Open { dir, db_path } && dir@ == user_dir_spec(root@, next@)
            && db_path@ == user_db_spec(root@, next@)),
{
    let same = match current {
        Some(c) => str_eq(c, next),
        None => false,
    };
    if same {
        return SwitchPlan { close_pool: false, remove_dir: None, target: SwitchTarget::Unchanged };
    }
    let remove_dir = match current {
        Some(c) => Some(user_dir(root, c)),
        None => None,
    };
    let next_chars = chars_of(next);
    let target = if next_chars.len() == 0 {
        SwitchTarget::SignedOut
    } else if !valid_user_id(next) {
        SwitchTarget::InvalidUserId
    } else {
        SwitchTarget::Open { dir: user_dir(root, next), db_path: user_db_path(root, next) }
    };
    SwitchPlan { close_pool: true, remove_dir, target }
}

// ---------------------------------------------------------------------------------------
// Statements of the local store.

/// `n` positional placeholders separated by commas: `?,?,…`.
pub open spec fn placeholders(n: nat) -> Seq<char>
    decreases n,
{
    if n == 0 {
        Seq::empty()
    } else if n == 1 {
        "?"@
    } else {
        placeholders((n - 1) as nat) + ","@ + "?"@
    }
}

fn push_placeholders(out: &mut String, n: usize)
    ensures
        final(out)@ == old(out)@ + placeholders(n as nat),
{
    let ghost start = out@;
    let mut i: usize = 0;
    while i < n
        invariant
            i <= n,
            out@ == start + placeholders(i as nat),
        decreases n - i,
    {
        let ghost before = out@;
        if i > 0 {
            push_str(out, ",");
        }
        push_str(out, "?");
        proof {
            if i == 0 {
                assert(out@ =~= start + placeholders(1));
            } else {
                assert(placeholders((i + 1) as nat) == placeholders(i as nat) + ","@ + "?"@);
                assert(out@ =~= start + placeholders((i + 1) as nat));
            }
        }
        i = i + 1;
    }
}

/// `SELECT id, version, deleted FROM {table} WHERE id IN (?,…)` with one placeholder per id.
pub fn read_versions_sql(table: &str, count: usize) -> (r: String)
    ensures
        r@ == "SELECT id, version, deleted FROM "@ + table@ + " WHERE id IN ("@ + placeholders(count as nat) + ")"@,
{
    let mut sql = String::new();
    push_str(&mut sql, "SELECT id, version, deleted FROM ");
    push_str(&mut sql, table);
    push_str(&mut sql, " WHERE id IN (");
    push_placeholders(&mut sql, count);
    push_str(&mut sql, ")");
    sql
}

/// `SELECT * FROM {table} WHERE id = ?`.
pub fn read_record_sql(table: &str) -> (r: String)
    ensures
        r@ == "SELECT * FROM "@ + table@ + " WHERE id = ?"@,
{
    let mut sql = String::new();
    push_str(&mut sql, "SELECT * FROM ");
    push_str(&mut sql, table);
    push_str(&mut sql, " WHERE id = ?");
    sql
}

/// `SELECT id FROM {table}`.
pub fn read_all_ids_sql(table: &str) -> (r: String)
    ensures
        r@ == "SELECT id FROM "@ + table@,
{
    let mut sql = String::new();
    push_str(&mut sql, "SELECT id FROM ");
    push_str(&mut sql, table);
    sql
}

/// `UPDATE {table} SET deleted = 1, version = ? WHERE id = ?`.
pub fn mark_deleted_sql(table: &str) -> (r: String)
    ensures
        r@ == "UPDATE "@ + table@ + " SET deleted = 1, version = ? WHERE id = ?"@,
{
    let mut sql = String::new();
    push_str(&mut sql, "UPDATE ");
    push_str(&mut sql, table);
    push_str(&mut sql, " SET deleted = 1, version = ? WHERE id = ?");
    sql
}

/// `DELETE FROM {table} WHERE id = ?`.
pub fn hard_delete_sql(table: &str) -> (r: String)
    ensures
        r@ == "DELETE FROM "@ + table@ + " WHERE id = ?"@,
{
    let mut sql = String::new();
    push_str(&mut sql, "DELETE FROM ");
    push_str(&mut sql, table);
    push_str(&mut sql, " WHERE id = ?");
    sql
}

/// `{c} = excluded.{c}` for every column but `id`, in order.
pub open spec fn assignments(columns: Seq<Seq<char>>) -> Seq<Seq<char>>
    decreases columns.len(),
{
    if columns.len() == 0 {
        Seq::empty()
    } else if columns.last() == "id"@ {
        assignments(columns.drop_last())
    } else {
        assignments(columns.drop_last()).push(columns.last() + " = excluded."@ + columns.last())
    }
}

/// The upsert of one record whose columns are `columns`, in order: every column inserted,
/// every column but `id` updated from the excluded row on an `id` conflict.
pub open spec fn upsert_sql_spec(table: Seq<char>, columns: Seq<Seq<char>>) -> Seq<char> {
    "INSERT INTO "@ + table + " ("@ + comma_joined(columns) + ") VALUES ("@ + placeholders(columns.len())
        + ") ON CONFLICT(id) DO UPDATE SET "@ + comma_joined(assignments(columns))
}

proof fn lemma_comma_push(items: Seq<Seq<char>>, x: Seq<char>)
    ensures
        comma_joined(items.push(x)) == if items.len() == 0 { x } else { comma_joined(items) + ","@ + x },
{
    assert(items.push(x).drop_last() =~= items);
    if items.len() == 0 {
        assert(items.push(x)[0] == x);
    }
}

/// `INSERT INTO {table} (c1,…) VALUES (?,…) ON CONFLICT(id) DO UPDATE SET c = excluded.c,…`
/// for a record with the given columns, in order.
pub fn upsert_sql(table: &str, columns: &[String]) -> (r: String)
    ensures
        r@ == upsert_sql_spec(table@, strings_view(columns@)),
{
    let ghost v = strings_view(columns@);
    let mut list = String::new();
    let mut sets = String::new();
    let mut any_set = false;
    let mut i: usize = 0;
    while i < columns.len()
        invariant
            i <= columns.len(),
            v == strings_view(columns@),
            list@ == comma_joined(v.take(i as int)),
            sets@ == comma_joined(assignments(v.take(i as int))),
            any_set == (assignments(v.take(i as int)).len() > 0),
        decreases columns.len() - i,
    {
        let c = columns[i].as_str();
        proof {
            assert(v.take(i + 1).drop_last() =~= v.take(i as int));
            assert(v.take(i + 1).last() == c@);
            lemma_comma_push(v.take(i as int), c@);
            assert(v.take(i + 1) =~= v.take(i as int).push(c@));
        }
        if i > 0 {
            push_str(&mut list, ",");
        }
        push_str(&mut list, c);
        if !str_eq(c, "id") {
            let ghost prev = assignments(v.take(i as int));
            let ghost item = c@ + " = excluded."@ + c@;
            proof {
                lemma_comma_push(prev, item);
            }
            if any_set {
                push_str(&mut sets, ",");
            }
            push_str(&mut sets, c);
            push_str(&mut sets, " = excluded.");
            push_str(&mut sets, c);
            any_set = true;
            proof {
                assert(assignments(v.take(i + 1)) == prev.push(item));
                assert(sets@ =~= comma_joined(prev.push(item)));
            }
        }
        i = i + 1;
    }
    proof {
        assert(v.take(columns.len() as int) =~= v);
    }
    let mut sql = String::new();
    push_str(&mut sql, "INSERT INTO ");
    push_str(&mut sql, table);
    push_str(&mut sql, " (");
    push_str(&mut sql, list.as_str());
    push_str(&mut sql, ") VALUES (");
    push_placeholders(&mut sql, columns.len());
    push_str(&mut sql, ") ON CONFLICT(id) DO UPDATE SET ");
    push_str(&mut sql, sets.as_str());
    sql
}

// ---------------------------------------------------------------------------------------
// The persisted offline queue.

/// What finalising a replay batch does to one row of the persisted queue.
#[derive(Debug, PartialEq, Eq)]
pub enum RowAction {
    /// Delete the row: it completed, or a newer operation replaced it.
    Delete,
    /// Keep the row, add one to its retry count and record the failure's last error.
    Bump {
        /// The error the failed replay recorded.
        last_error: Option<String>,
    },
    /// Keep the row unchanged (enqueued while the batch was processing).
    Keep,
}

/// The value of a [`RowAction`].
pub enum RowActionView {
    /// Delete the row.
    Delete,
    /// Bump the retry count and set the last error.
    Bump(Option<Seq<char>>),
    /// Leave the row.
    Keep,
}

/// The value of an optional error message.
pub open spec fn opt_text(e: Option<String>) -> Option<Seq<char>> {
    match e {
        Some(s) => Some(s@),
        None => None,
    }
}

impl View for RowAction {
    type V = RowActionView;

    open spec fn view(&self) -> RowActionView {
        match self {
            RowAction::Delete => RowActionView::Delete,
            RowAction::Bump { last_error } => RowActionView::Bump(opt_text(*last_error)),
            RowAction::Keep => RowActionView::Keep,
        }
    }
}

/// The contract tuples of a list of queued operations.
pub open spec fn contracts_view(s: Seq<QueuedOperation>) -> Seq<OpView> {
    queued_views(s).map_values(|w: QueuedView| contract_of(w))
}

/// The last error of the last failed operation with the same `(table, entity_id, queued_at)`
/// as `v`, if any failed operation has it.
pub open spec fn last_failure(failed: Seq<QueuedView>, v: QueuedView) -> Option<Option<Seq<char>>>
    decreases failed.len(),
{
    if failed.len() == 0 {
        None
    } else if contract_of(failed.last()) == contract_of(v) {
        Some(failed.last().last_error)
    } else {
        last_failure(failed.drop_last(), v)
    }
}

/// The action on the row `v` when the finalisation retains `retained` and `failed` failed:
/// rows not retained go; retained rows that failed are bumped with that failure's error;
/// other retained rows stay.
pub open spec fn row_action(retained: Seq<OpView>, failed: Seq<QueuedView>, v: QueuedView) -> RowActionView {
    if !listed(retained, v) {
        RowActionView::Delete
    } else {
        match last_failure(failed, v) {
            Some(e) => RowActionView::Bump(e),
            None => RowActionView::Keep,
        }
    }
}

/// Only a row whose exact operation (same table, id and enqueue time) failed is bumped: an
/// operation enqueued while the batch ran, replacing a failed one, is a fresh enqueue and
/// keeps its retry count.
pub proof fn lemma_bump_only_for_failed_row(retained: Seq<OpView>, failed: Seq<QueuedView>, v: QueuedView)
    ensures
        row_action(retained, failed, v) is Bump ==> exists|j: int|
            0 <= j < failed.len() && contract_of(#[trigger] failed[j]) == contract_of(v),
    decreases failed.len(),
{
    if failed.len() > 0 && contract_of(failed.last()) != contract_of(v) {
        lemma_bump_only_for_failed_row(retained, failed.drop_last(), v);
        if row_action(retained, failed, v) is Bump {
            let j = choose|j: int| 0 <= j < failed.drop_last().len() && contract_of(#[trigger] failed.drop_last()[j]) == contract_of(v);
            assert(failed[j] == failed.drop_last()[j]);
        }
    } else if failed.len() > 0 {
        assert(contract_of(failed[failed.len() - 1]) == contract_of(v));
    }
}

/// A row after one more failed replay, as it reads back: the retry count up by one (a count
/// that no longer fits in 32 bits reads back as zero) and the failure's error recorded.
pub open spec fn bumped_row(v: QueuedView, e: Option<Seq<char>>) -> QueuedView {
    QueuedView { retry_count: if v.retry_count < u32::MAX { (v.retry_count + 1) as u32 } else { 0 }, last_error: e, ..v }
}

/// The queue rows after applying one action to each row, in order.
pub open spec fn applied_rows(rows: Seq<QueuedView>, actions: Seq<RowActionView>) -> Seq<QueuedView>
    decreases rows.len(),
{
    if rows.len() == 0 || actions.len() == 0 {
        Seq::empty()
    } else {
        applied_rows(rows.drop_last(), actions.drop_last()) + match actions.last() {
            RowActionView::Delete => Seq::empty(),
            RowActionView::Keep => seq![rows.last()],
            RowActionView::Bump(e) => seq![bumped_row(rows.last(), e)],
        }
    }
}

/// A retained row after finalising: bumped with its failure's error when its exact operation
/// failed, unchanged otherwise.
pub open spec fn finalized_row(failed: Seq<QueuedView>, v: QueuedView) -> QueuedView {
    match last_failure(failed, v) {
        Some(e) => bumped_row(v, e),
        None => v,
    }
}

/// Applying the row actions to the persisted queue leaves exactly the rows the contract's
/// finalisation retains, in their order, with each row whose exact operation failed bumped
/// (retry count up, the failure's last error recorded) and every other kept row unchanged.
pub proof fn lemma_finalized_queue(
    rows: Seq<QueuedView>,
    retained: Seq<OpView>,
    failed: Seq<QueuedView>,
    actions: Seq<RowActionView>,
)
    requires
        actions.len() == rows.len(),
        forall|i: int| 0 <= i < rows.len() ==> #[trigger] actions[i] == row_action(retained, failed, rows[i]),
    ensures
        applied_rows(rows, actions) == rows.filter(|v: QueuedView| listed(retained, v)).map_values(
            |v: QueuedView| finalized_row(failed, v),
        ),
    decreases rows.len(),
{
    let pred = |v: QueuedView| listed(retained, v);
    let f = |v: QueuedView| finalized_row(failed, v);
    if rows.len() > 0 {
        let init = rows.drop_last();
        let acts = actions.drop_last();
        assert forall|i: int| 0 <= i < init.len() implies #[trigger] acts[i] == row_action(retained, failed, init[i]) by {
            assert(acts[i] == actions[i]);
            assert(init[i] == rows[i]);
        }
        lemma_finalized_queue(init, retained, failed, acts);
        assert(rows =~= init.push(rows.last()));
        crate::polybase::contract::lemma_filter_push(init, rows.last(), pred);
        assert(actions.last() == row_action(retained, failed, rows.last()));
        if pred(rows.last()) {
            assert(init.filter(pred).push(rows.last()).map_values(f) =~= init.filter(pred).map_values(f).push(f(rows.last())));
        }
    } else {
        assert(rows.filter(pred) =~= Seq::<QueuedView>::empty()) by {
            reveal_with_fuel(Seq::filter, 1);
        }
        assert(rows.filter(pred).map_values(f) =~= Seq::<QueuedView>::empty());
    }
}

fn same_full_key(a: &QueuedOperation, b: &QueuedOperation) -> (r: bool)
    ensures
        r == (contract_of(a@) == contract_of(b@)),
{
    str_eq(a.table.as_str(), b.table.as_str()) && str_eq(a.entity_id.as_str(), b.entity_id.as_str())
        && a.queued_at_micros == b.queued_at_micros
}

fn find_last_failure(failed: &[QueuedOperation], op: &QueuedOperation) -> (r: Option<Option<String>>)
    ensures
        match r {
            Some(e) => last_failure(queued_views(failed@), op@) == Some(opt_text(e)),
            None => last_failure(queued_views(failed@), op@) is None,
        },
{
    let ghost all = queued_views(failed@);
    proof {
        assert(all.take(all.len() as int) =~= all);
    }
    let mut j: usize = failed.len();
    while j > 0
        invariant
            j <= failed.len(),
            all == queued_views(failed@),
            last_failure(all, op@) == last_failure(all.take(j as int), op@),
        decreases j,
    {
        j = j - 1;
        proof {
            assert(all.take(j + 1).drop_last() =~= all.take(j as int));
            assert(all.take(j + 1).last() == failed@[j as int]@);
        }
        if same_full_key(&failed[j], op) {
            let e = match &failed[j].last_error {
                Some(m) => Some(m.clone()),
                None => None,
            };
            return Some(e);
        }
    }
    proof {
        assert(all.take(0) =~= Seq::<QueuedView>::empty());
    }
    None
}

fn retained_has(retained: &[crate::polybase::contract::ContractOperation], op: &QueuedOperation) -> (r: bool)
    ensures
        r == listed(ops_view(retained@), op@),
{
    let c = op.to_contract();
    let ghost rv = ops_view(retained@);
    let mut k: usize = 0;
    while k < retained.len()
        invariant
            k <= retained@.len(),
            rv == ops_view(retained@),
            c@ == contract_of(op@),
            forall|j: int| 0 <= j < k ==> #[trigger] rv[j] != c@,
        decreases retained.len() - k,
    {
        if c.same_key_as(&retained[k]) && c.queued_at_micros == retained[k].queued_at_micros {
            proof {
                assert(rv[k as int] == c@);
            }
            return true;
        }
        proof {
            assert(rv[k as int] != c@);
        }
        k = k + 1;
    }
    false
}

/// The action on each row of the persisted queue (`current`, in order) after replaying
/// `snapshot`, of which `failed` failed: the rows the contract's finalisation drops are
/// deleted, retained rows whose exact operation failed are bumped with its last error, and the
/// rest stay.
pub fn finalize_row_actions(
    current: &[QueuedOperation],
    snapshot: &[QueuedOperation],
    failed: &[QueuedOperation],
) -> (r: Vec<RowAction>)
    ensures
        r@.len() == current@.len(),
        forall|i: int| 0 <= i < current@.len() ==> (#[trigger] r@[i])@ == row_action(
            finalize_spec(contracts_view(current@), contracts_view(snapshot@), contracts_view(failed@)),
            queued_views(failed@),
            current@[i]@,
        ),
{
    let cur = contracts_of(current);
    let snap = contracts_of(snapshot);
    let fail = contracts_of(failed);
    let retained = finalize_queue_after_processing(cur.as_slice(), snap.as_slice(), fail.as_slice());
    let ghost rv = ops_view(retained@);
    proof {
        assert(rv == finalize_spec(contracts_view(current@), contracts_view(snapshot@), contracts_view(failed@)));
    }
    let mut out: Vec<RowAction> = Vec::new();
    let mut i: usize = 0;
    while i < current.len()
        invariant
            i <= current@.len(),
            out@.len() == i,
            rv == ops_view(retained@),
            rv == finalize_spec(contracts_view(current@), contracts_view(snapshot@), contracts_view(failed@)),
            forall|k: int| 0 <= k < i ==> (#[trigger] out@[k])@ == row_action(rv, queued_views(failed@), current@[k]@),
        decreases current.len() - i,
    {
        let op = &current[i];
        let action = if !retained_has(retained.as_slice(), op) {
            RowAction::Delete
        } else {
            match find_last_failure(failed, op) {
                Some(e) => RowAction::Bump { last_error: e },
                None => RowAction::Keep,
            }
        };
        out.push(action);
        i = i + 1;
    }
    out
}

/// A queued operation read back from its row. A stored retry count outside `0..=u32::MAX`
/// reads as zero.
pub fn queued_from_row(
    table: String,
    entity_id: String,
    kind: QueuedOperationKind,
    queued_at_micros: i64,
    retry_count: i64,
    last_error: Option<String>,
) -> (r: QueuedOperation)
    ensures
        r.table@ == table@,
        r.entity_id@ == entity_id@,
        r.kind@ == kind@,
        r.queued_at_micros == queued_at_micros,
        r.retry_count == (if 0 <= retry_count <= u32::MAX { retry_count } else { 0 }),
        opt_text(r.last_error) == opt_text(last_error),
{
    let count: u32 = if 0 <= retry_count && retry_count <= 0xffff_ffff {
        retry_count as u32
    } else {
        0
    };
    QueuedOperation { table, entity_id, kind, queued_at_micros, retry_count: count, last_error }
}

/// The queue depth for a stored row count; a count that is negative or does not fit reads as
/// zero.
pub fn queue_depth(count: i64) -> (r: usize)
    ensures
        r == (if 0 <= count <= usize::MAX { count } else { 0 }),
{
    if count < 0 {
        0
    } else if (count as u64) <= (usize::MAX as u64) {
        count as usize
    } else {
        0
    }
}

} // verus!
