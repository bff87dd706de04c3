use polykit::polybase::contract::{
    determine_reconcile_action, echo_tracker_key, finalize_queue_after_processing,
    local_winner_merged_version, next_queued_at_micros, reconnect_backoff_seconds,
    undelete_minimum_version, attachment_storage_path, queue_dedupe_key, ContractOperation,
    ReconcileAction,
};

#[test]
fn undelete_threshold_uses_plus_1000() {
    assert_eq!(undelete_minimum_version(5), 1005);
}

#[test]
fn reconnect_backoff_is_clamped_to_ladder_tail() {
    assert_eq!(reconnect_backoff_seconds(1), 2);
    assert_eq!(reconnect_backoff_seconds(6), 120);
    assert_eq!(reconnect_backoff_seconds(99), 120);
}

#[test]
fn local_winner_advances_past_remote() {
    assert_eq!(local_winner_merged_version(5, 10), 11);
    assert_eq!(local_winner_merged_version(10, 5), 11);
}

#[test]
fn monotonic_queued_at_bumps_when_clock_stalls() {
    assert_eq!(next_queued_at_micros(Some(100), 100), 101);
    assert_eq!(next_queued_at_micros(Some(100), 200), 200);
    assert_eq!(next_queued_at_micros(None, 50), 50);
}

#[test]
fn echo_key_format_is_table_colon_id() {
    assert_eq!(echo_tracker_key("messages", "abc"), "messages:abc");
}

#[test]
fn reconcile_local_winner_when_local_deleted_only() {
    assert_eq!(determine_reconcile_action(5, true, 5, false), ReconcileAction::Push,);
}

#[test]
fn reconcile_adopts_remote_tombstone_unless_undelete_threshold() {
    assert_eq!(determine_reconcile_action(5, false, 5, true), ReconcileAction::AdoptTombstone,);
    assert_eq!(determine_reconcile_action(1006, false, 5, true), ReconcileAction::Push,);
}

#[test]
fn reconcile_versions_drive_pull_or_push_or_skip() {
    assert_eq!(determine_reconcile_action(5, false, 6, false), ReconcileAction::Pull,);
    assert_eq!(determine_reconcile_action(7, false, 6, false), ReconcileAction::Push,);
    assert_eq!(determine_reconcile_action(6, false, 6, false), ReconcileAction::Skip,);
}

#[test]
fn finalize_drops_completed_and_keeps_concurrent_enqueues() {
    let snapshot = vec![ContractOperation::new("t", "1", 100)];
    let current =
        vec![ContractOperation::new("t", "1", 100), ContractOperation::new("t", "2", 150)];
    let failed: Vec<ContractOperation> = vec![];
    let retained = finalize_queue_after_processing(&current, &snapshot, &failed);
    assert_eq!(retained.len(), 1);
    assert_eq!(retained[0].entity_id, "2");
}

#[test]
fn finalize_does_not_reinsert_failed_when_newer_op_exists() {
    let snapshot = vec![ContractOperation::new("t", "1", 100)];
    let current = vec![ContractOperation::new("t", "1", 200)];
    let failed = vec![ContractOperation::new("t", "1", 100)];
    let retained = finalize_queue_after_processing(&current, &snapshot, &failed);
    assert_eq!(retained.len(), 1);
    assert_eq!(retained[0].queued_at_micros, 200);
}

#[test]
fn finalize_readds_failed_when_key_is_gone() {
    let snapshot = vec![ContractOperation::new("t", "1", 100), ContractOperation::new("t", "2", 110)];
    let current = vec![ContractOperation::new("t", "1", 100), ContractOperation::new("t", "2", 110)];
    let failed = vec![ContractOperation::new("t", "2", 110), ContractOperation::new("t", "2", 110)];
    let retained = finalize_queue_after_processing(&current, &snapshot, &failed);
    assert_eq!(retained, vec![ContractOperation::new("t", "2", 110)]);
}

#[test]
fn finalize_uses_the_last_snapshot_entry_for_a_key() {
    let snapshot = vec![ContractOperation::new("t", "1", 100), ContractOperation::new("t", "1", 300)];
    let current = vec![ContractOperation::new("t", "1", 100)];
    let retained = finalize_queue_after_processing(&current, &snapshot, &[]);
    assert_eq!(retained, vec![ContractOperation::new("t", "1", 100)]);
}

#[test]
fn reconcile_skip_only_when_both_axes_agree() {
    assert_eq!(determine_reconcile_action(3, true, 3, true), ReconcileAction::Skip);
    assert_eq!(determine_reconcile_action(3, true, 4, true), ReconcileAction::Pull);
    assert_eq!(determine_reconcile_action(1004, false, 4, true), ReconcileAction::Push);
    assert_eq!(determine_reconcile_action(1003, false, 4, true), ReconcileAction::AdoptTombstone);
}

#[test]
fn backoff_ladder_values() {
    let got: Vec<u64> = (0..8).map(reconnect_backoff_seconds).collect();
    assert_eq!(got, vec![2, 2, 5, 10, 30, 60, 120, 120]);
}

#[test]
fn storage_path_and_dedupe_key_formats() {
    assert_eq!(attachment_storage_path("u", "c", "a", "png"), "u/c/a.png");
    assert_eq!(queue_dedupe_key("t", "1"), ("t", "1"));
}
