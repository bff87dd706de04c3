use polykit::polybase::errors::{EdgeError, OfflineQueueError, PolyError, PushError};
use polykit::polybase::write_flow::{WriteAction, WriteEvent, WriteFlow, WriteKind, WriteStage};

fn transient() -> PolyError {
    PolyError::Push(PushError::Transient { table: "kvs".to_string(), message: "503".to_string() })
}

fn permanent() -> PolyError {
    PolyError::Edge(EdgeError::Validation {
        function: "messages-write".to_string(),
        code: "validation".to_string(),
        message: "bad".to_string(),
    })
}

#[test]
fn successful_persist_publishes_kvs_change() {
    let mut flow = WriteFlow::new(WriteKind::Persist, "kvs");
    assert!(flow.kvs_table);
    assert!(matches!(flow.on_event(WriteEvent::LocalWritten(Ok(()))), WriteAction::MarkEcho));
    assert!(matches!(flow.on_event(WriteEvent::NetworkDone(Ok(()))), WriteAction::Wait));
    assert!(matches!(flow.on_event(WriteEvent::EchoMarked), WriteAction::Dispatch));
    assert!(matches!(
        flow.on_event(WriteEvent::NetworkDone(Ok(()))),
        WriteAction::Finish { result: Ok(()), queued: false, kvs_event: true }
    ));
    assert_eq!(flow.stage, WriteStage::Done);
    assert!(matches!(flow.on_event(WriteEvent::NetworkDone(Ok(()))), WriteAction::Wait));
}

#[test]
fn local_failure_stops_before_the_network() {
    let mut flow = WriteFlow::new(WriteKind::Persist, "messages");
    assert!(!flow.kvs_table);
    match flow.on_event(WriteEvent::LocalWritten(Err(PolyError::Local("disk full".to_string())))) {
        WriteAction::Finish { result: Err(PolyError::Local(m)), queued: false, kvs_event: false } => {
            assert_eq!(m, "disk full")
        }
        other => panic!("unexpected {other:?}"),
    }
    assert!(matches!(flow.on_event(WriteEvent::NetworkDone(Ok(()))), WriteAction::Wait));
}

#[test]
fn transient_failure_is_queued_and_succeeds() {
    let mut flow = WriteFlow::new(WriteKind::Persist, "kvs");
    flow.on_event(WriteEvent::LocalWritten(Ok(())));
    flow.on_event(WriteEvent::EchoMarked);
    assert!(matches!(
        flow.on_event(WriteEvent::NetworkDone(Err(transient()))),
        WriteAction::Enqueue(PolyError::Push(PushError::Transient { .. }))
    ));
    assert!(matches!(
        flow.on_event(WriteEvent::Enqueued(Ok(()))),
        WriteAction::Finish { result: Ok(()), queued: true, kvs_event: true }
    ));
}

#[test]
fn queued_delete_publishes_no_kvs_change() {
    let mut flow = WriteFlow::new(WriteKind::Delete, "kvs");
    flow.on_event(WriteEvent::LocalWritten(Ok(())));
    flow.on_event(WriteEvent::EchoMarked);
    let forbidden = PolyError::Edge(EdgeError::Forbidden { function: "f".to_string(), message: "401".to_string() });
    assert!(matches!(flow.on_event(WriteEvent::NetworkDone(Err(forbidden))), WriteAction::Enqueue(_)));
    assert!(matches!(
        flow.on_event(WriteEvent::Enqueued(Ok(()))),
        WriteAction::Finish { result: Ok(()), queued: true, kvs_event: false }
    ));
}

#[test]
fn permanent_failure_is_returned_not_queued() {
    let mut flow = WriteFlow::new(WriteKind::Persist, "messages");
    flow.on_event(WriteEvent::LocalWritten(Ok(())));
    flow.on_event(WriteEvent::EchoMarked);
    assert!(matches!(
        flow.on_event(WriteEvent::NetworkDone(Err(permanent()))),
        WriteAction::Finish { result: Err(PolyError::Edge(EdgeError::Validation { .. })), queued: false, kvs_event: false }
    ));
}

#[test]
fn enqueue_failure_is_returned() {
    let mut flow = WriteFlow::new(WriteKind::Delete, "messages");
    flow.on_event(WriteEvent::LocalWritten(Ok(())));
    flow.on_event(WriteEvent::EchoMarked);
    flow.on_event(WriteEvent::NetworkDone(Err(transient())));
    let err = PolyError::OfflineQueue(OfflineQueueError::Io("full".to_string()));
    assert!(matches!(
        flow.on_event(WriteEvent::Enqueued(Err(err))),
        WriteAction::Finish { result: Err(PolyError::OfflineQueue(_)), queued: false, kvs_event: false }
    ));
}

#[test]
fn out_of_order_reports_wait() {
    let mut flow = WriteFlow::new(WriteKind::Persist, "messages");
    assert!(matches!(flow.on_event(WriteEvent::NetworkDone(Ok(()))), WriteAction::Wait));
    assert!(matches!(flow.on_event(WriteEvent::Enqueued(Ok(()))), WriteAction::Wait));
    assert!(matches!(flow.on_event(WriteEvent::EchoMarked), WriteAction::Wait));
    assert_eq!(flow.stage, WriteStage::Local);
}
