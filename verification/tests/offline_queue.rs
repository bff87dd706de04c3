use polykit::polybase::offline_queue::{MemoryQueue, QueuedOperation, QueuedOperationKind};

fn op(table: &str, id: &str, queued_at_micros: i64) -> QueuedOperation {
    QueuedOperation {
        table: table.into(),
        entity_id: id.into(),
        kind: QueuedOperationKind::Write { payload: "null".into() },
        queued_at_micros,
        retry_count: 0,
        last_error: None,
    }
}

#[test]
fn enqueue_dedupes_by_table_and_entity_id() {
    let mut q = MemoryQueue::new();
    q.enqueue(op("messages", "1", 100));
    q.enqueue(op("messages", "1", 200));
    let snap = q.snapshot();
    assert_eq!(snap.len(), 1);
    assert_eq!(snap[0].queued_at_micros, 200);
}

#[test]
fn finalize_drops_completed_keeps_concurrent_enqueues() {
    let mut q = MemoryQueue::new();
    q.enqueue(op("messages", "1", 100));
    let snap = q.snapshot();
    q.enqueue(op("messages", "2", 150));
    q.finalize_after_processing(&snap, &[]);
    let after = q.snapshot();
    assert_eq!(after.len(), 1);
    assert_eq!(after[0].entity_id, "2");
}

#[test]
fn enqueue_moves_replaced_key_to_the_back() {
    let mut q = MemoryQueue::new();
    q.enqueue(op("a", "1", 1));
    q.enqueue(op("b", "1", 2));
    q.enqueue(op("a", "1", 3));
    let snap = q.snapshot();
    assert_eq!(q.depth(), 2);
    assert_eq!((snap[0].table.as_str(), snap[0].queued_at_micros), ("b", 2));
    assert_eq!((snap[1].table.as_str(), snap[1].queued_at_micros), ("a", 3));
}

#[test]
fn finalize_keeps_newer_op_that_replaced_a_processed_one() {
    let mut q = MemoryQueue::new();
    q.enqueue(op("t", "1", 10));
    let snap = q.snapshot();
    q.enqueue(op("t", "1", 20));
    q.finalize_after_processing(&snap, &snap);
    let after = q.snapshot();
    assert_eq!(after.len(), 1);
    assert_eq!(after[0].queued_at_micros, 20);
}

#[test]
fn finalize_keeps_failed_processed_op() {
    let mut q = MemoryQueue::new();
    q.enqueue(op("t", "1", 10));
    q.enqueue(op("t", "2", 11));
    let snap = q.snapshot();
    let failed = vec![snap[0].duplicate()];
    q.finalize_after_processing(&snap, &failed);
    let after = q.snapshot();
    assert_eq!(after.len(), 1);
    assert_eq!(after[0].entity_id, "1");
}

#[test]
fn to_contract_projects_key_and_stamp() {
    let c = op("t", "9", 42).to_contract();
    assert_eq!(c.table, "t");
    assert_eq!(c.entity_id, "9");
    assert_eq!(c.queued_at_micros, 42);
}
