use polykit::polybase::local_db::{
    finalize_row_actions, hard_delete_sql, mark_deleted_sql, queue_depth, queued_from_row,
    read_all_ids_sql, read_record_sql, read_versions_sql, switch_plan, upsert_sql, user_db_path,
    user_dir, valid_user_id, RowAction, SwitchTarget,
};
use polykit::polybase::offline_queue::{QueuedOperation, QueuedOperationKind};

fn write_op(table: &str, id: &str, queued_at: i64) -> QueuedOperation {
    QueuedOperation {
        table: table.into(),
        entity_id: id.into(),
        kind: QueuedOperationKind::Write { payload: "null".into() },
        queued_at_micros: queued_at,
        retry_count: 0,
        last_error: None,
    }
}

fn failed(op: &QueuedOperation, error: &str) -> QueuedOperation {
    let mut f = op.duplicate();
    f.last_error = Some(error.into());
    f
}

#[test]
fn user_ids_allow_only_ascii_alphanumerics_dash_and_underscore() {
    assert!(valid_user_id("user-1_A"));
    assert!(valid_user_id(""));
    assert!(!valid_user_id("../etc"));
    assert!(!valid_user_id("a b"));
    assert!(!valid_user_id("é"));
}

#[test]
fn each_user_owns_a_directory_with_one_database() {
    assert_eq!(user_dir("/data", "alice"), "/data/alice");
    assert_eq!(user_db_path("/data", "alice"), "/data/alice/sync.db");
}

#[test]
fn switching_to_the_active_user_changes_nothing() {
    let plan = switch_plan("/data", Some("alice"), "alice");
    assert!(!plan.close_pool);
    assert!(plan.remove_dir.is_none());
    assert!(matches!(plan.target, SwitchTarget::Unchanged));
}

#[test]
fn switching_users_wipes_the_previous_directory_then_opens_the_next() {
    let plan = switch_plan("/data", Some("alice"), "bob");
    assert!(plan.close_pool);
    assert_eq!(plan.remove_dir.as_deref(), Some("/data/alice"));
    match plan.target {
        SwitchTarget::Open { dir, db_path } => {
            assert_eq!(dir, "/data/bob");
            assert_eq!(db_path, "/data/bob/sync.db");
        }
        other => panic!("expected Open, got {other:?}"),
    }
}

#[test]
fn first_sign_in_has_nothing_to_wipe() {
    let plan = switch_plan("/data", None, "alice");
    assert!(plan.remove_dir.is_none());
    assert!(matches!(plan.target, SwitchTarget::Open { .. }));
}

#[test]
fn empty_user_id_signs_out_after_wiping() {
    let plan = switch_plan("/data", Some("persist-user"), "");
    assert_eq!(plan.remove_dir.as_deref(), Some("/data/persist-user"));
    assert!(matches!(plan.target, SwitchTarget::SignedOut));
}

#[test]
fn invalid_user_id_is_refused() {
    let plan = switch_plan("/data", None, "../x");
    assert!(matches!(plan.target, SwitchTarget::InvalidUserId));
}

#[test]
fn statements_name_the_table() {
    assert_eq!(read_versions_sql("kvs", 3), "SELECT id, version, deleted FROM kvs WHERE id IN (?,?,?)");
    assert_eq!(read_versions_sql("kvs", 1), "SELECT id, version, deleted FROM kvs WHERE id IN (?)");
    assert_eq!(read_record_sql("kvs"), "SELECT * FROM kvs WHERE id = ?");
    assert_eq!(read_all_ids_sql("kvs"), "SELECT id FROM kvs");
    assert_eq!(mark_deleted_sql("kvs"), "UPDATE kvs SET deleted = 1, version = ? WHERE id = ?");
    assert_eq!(hard_delete_sql("kvs"), "DELETE FROM kvs WHERE id = ?");
}

#[test]
fn upsert_updates_every_column_but_id() {
    let columns = vec!["deleted".to_string(), "id".to_string(), "value".to_string()];
    assert_eq!(
        upsert_sql("kvs", &columns),
        "INSERT INTO kvs (deleted,id,value) VALUES (?,?,?) ON CONFLICT(id) DO UPDATE SET deleted = excluded.deleted,value = excluded.value"
    );
}

#[test]
fn upsert_of_id_only_updates_nothing() {
    let columns = vec!["id".to_string()];
    assert_eq!(upsert_sql("t", &columns), "INSERT INTO t (id) VALUES (?) ON CONFLICT(id) DO UPDATE SET ");
}

#[test]
fn finalize_rows_drop_completed_keep_concurrent_enqueues() {
    let snapshot = vec![write_op("messages", "m-1", 100)];
    let current = vec![write_op("messages", "m-1", 100), write_op("messages", "m-2", 150)];
    let actions = finalize_row_actions(&current, &snapshot, &[]);
    assert_eq!(actions, vec![RowAction::Delete, RowAction::Keep]);
}

#[test]
fn finalize_rows_bump_retained_failures_with_their_error() {
    let snapshot = vec![write_op("conversations", "c-1", 100)];
    let fail = vec![failed(&snapshot[0], "HTTP 503")];
    let current = vec![write_op("conversations", "c-1", 100)];
    let actions = finalize_row_actions(&current, &snapshot, &fail);
    assert_eq!(actions, vec![RowAction::Bump { last_error: Some("HTTP 503".into()) }]);
}

#[test]
fn finalize_rows_never_bump_a_newer_enqueue() {
    let snapshot = vec![write_op("attachments", "a-1", 100)];
    let fail = vec![failed(&snapshot[0], "transient")];
    let current = vec![write_op("attachments", "a-1", 200)];
    let actions = finalize_row_actions(&current, &snapshot, &fail);
    assert_eq!(actions, vec![RowAction::Keep]);
}

#[test]
fn finalize_rows_with_every_op_done_delete_everything() {
    let current = vec![write_op("personas", "p-1", 100), write_op("personas", "p-2", 200), write_op("personas", "p-3", 300)];
    let snapshot: Vec<QueuedOperation> = current.iter().map(|o| o.duplicate()).collect();
    let actions = finalize_row_actions(&current, &snapshot, &[]);
    assert_eq!(actions, vec![RowAction::Delete, RowAction::Delete, RowAction::Delete]);
}

#[test]
fn rows_read_back_clamp_bad_retry_counts() {
    let op = queued_from_row("t".into(), "1".into(), QueuedOperationKind::Tombstone { version: 7 }, 5, 3, None);
    assert_eq!(op.retry_count, 3);
    assert_eq!(op.kind, QueuedOperationKind::Tombstone { version: 7 });
    let neg = queued_from_row("t".into(), "1".into(), QueuedOperationKind::HardDelete, 5, -1, Some("e".into()));
    assert_eq!(neg.retry_count, 0);
    assert_eq!(neg.last_error.as_deref(), Some("e"));
    let big = queued_from_row("t".into(), "1".into(), QueuedOperationKind::HardDelete, 5, 1 << 40, None);
    assert_eq!(big.retry_count, 0);
}

#[test]
fn depth_of_a_count() {
    assert_eq!(queue_depth(3), 3);
    assert_eq!(queue_depth(-2), 0);
}
