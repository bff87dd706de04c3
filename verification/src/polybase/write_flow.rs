//! The write lifecycle the coordinator runs for every persist and delete: local mirror first,
//! then the network, then (on a transient failure) the offline queue. The host performs each
//! step (they are asynchronous) and reports how it went; the flow decides what comes next.

use vstd::prelude::*;
use crate::polybase::errors::{transient_error, PolyError};
use crate::polybase::kvs::KVS_TABLE;
use crate::text::str_eq;

verus! {

/// Which write the flow runs.
#[derive(Debug, Clone, Copy, PartialEq, Eq, Structural)]
pub enum WriteKind {
    /// Upsert a record (PostgREST upsert or the Edge Function's write op).
    Persist,
    /// Tombstone a record (PostgREST tombstone update or the Edge Function's delete op).
    Delete,
}

/// Where the flow stands.
#[derive(Debug, Clone, Copy, PartialEq, Eq, Structural)]
pub enum WriteStage {
    /// Waiting for the local mirror write.
    Local,
    /// Waiting for the echo tracker to be marked.
    Echo,
    /// Waiting for the network dispatch.
    Network,
    /// Waiting for the offline queue.
    Queue,
    /// Finished.
    Done,
}

/// What the host reports.
#[derive(Debug)]
pub enum WriteEvent {
    /// The local mirror write ended.
    LocalWritten(Result<(), PolyError>),
    /// The echo tracker was marked for the record.
    EchoMarked,
    /// The network dispatch ended.
    NetworkDone(Result<(), PolyError>),
    /// Enqueueing the replay ended.
    Enqueued(Result<(), PolyError>),
}

/// What the host does next.
#[derive(Debug)]
pub enum WriteAction {
    /// Mark the echo tracker for the record (so realtime never re-delivers this write);
    /// report `EchoMarked`.
    MarkEcho,
    /// Dispatch over the network; report `NetworkDone`.
    Dispatch,
    /// Enqueue the replay of the operation, recording this failure; report `Enqueued`.
    Enqueue(PolyError),
    /// Return `result`; publish the new queue depth when `queued`, and the KVS change when
    /// `kvs_event`.
    Finish {
        /// What the persist or delete returns.
        result: Result<(), PolyError>,
        /// The operation went to the offline queue.
        queued: bool,
        /// A KVS change event is due.
        kvs_event: bool,
    },
    /// The report does not belong to the current stage; nothing to do.
    Wait,
}

/// One write in flight.
#[derive(Debug, Clone, Copy, PartialEq, Eq, Structural)]
pub struct WriteFlow {
    /// Persist or delete.
    pub kind: WriteKind,
    /// The write targets the KVS table.
    pub kvs_table: bool,
    /// Where the flow stands.
    pub stage: WriteStage,
}

/// The flow's transition: next state and action for a report.
pub open spec fn write_next(s: WriteFlow, e: WriteEvent) -> (WriteFlow, WriteAction) {
    match e {
        WriteEvent::LocalWritten(r) => if s.stage == WriteStage::Local {
            match r {
                Ok(()) => (WriteFlow { stage: WriteStage::Echo, ..s }, WriteAction::MarkEcho),
                Err(x) => (
                    WriteFlow { stage: WriteStage::Done, ..s },
                    WriteAction::Finish { result: Err(x), queued: false, kvs_event: false },
                ),
            }
        } else {
            (s, WriteAction::Wait)
        },
        WriteEvent::EchoMarked => if s.stage == WriteStage::Echo {
            (WriteFlow { stage: WriteStage::Network, ..s }, WriteAction::Dispatch)
        } else {
            (s, WriteAction::Wait)
        },
        WriteEvent::NetworkDone(r) => if s.stage == WriteStage::Network {
            match r {
                Ok(()) => (
                    WriteFlow { stage: WriteStage::Done, ..s },
                    WriteAction::Finish { result: Ok(()), queued: false, kvs_event: s.kvs_table },
                ),
                Err(x) => if transient_error(x) {
                    (WriteFlow { stage: WriteStage::Queue, ..s }, WriteAction::Enqueue(x))
                } else {
                    (
                        WriteFlow { stage: WriteStage::Done, ..s },
                        WriteAction::Finish { result: Err(x), queued: false, kvs_event: false },
                    )
                },
            }
        } else {
            (s, WriteAction::Wait)
        },
        WriteEvent::Enqueued(r) => if s.stage == WriteStage::Queue {
            match r {
                Ok(()) => (
                    WriteFlow { stage: WriteStage::Done, ..s },
                    WriteAction::Finish {
                        result: Ok(()),
                        queued: true,
                        kvs_event: s.kvs_table && s.kind == WriteKind::Persist,
                    },
                ),
                Err(x) => (
                    WriteFlow { stage: WriteStage::Done, ..s },
                    WriteAction::Finish { result: Err(x), queued: false, kvs_event: false },
                ),
            }
        } else {
            (s, WriteAction::Wait)
        },
    }
}

impl WriteFlow {
    /// A write of `kind` to `table`, waiting for its local mirror write (the first step of
    /// every write: the network is never tried before the mirror absorbed the change).
    pub fn new(kind: WriteKind, table: &str) -> (r: Self)
        ensures
            r == (WriteFlow { kind, kvs_table: table@ == KVS_TABLE@, stage: WriteStage::Local }),
    {
        WriteFlow { kind, kvs_table: str_eq(table, KVS_TABLE), stage: WriteStage::Local }
    }

    /// Take a report and decide the next step.
    pub fn on_event(&mut self, event: WriteEvent) -> (a: WriteAction)
        ensures
            (*final(self), a) == write_next(*old(self), event),
    {
        match event {
            WriteEvent::LocalWritten(r) => {
                if self.stage != WriteStage::Local {
                    return WriteAction::Wait;
                }
                match r {
                    Ok(()) => {
                        self.stage = WriteStage::Echo;
                        WriteAction::MarkEcho
                    },
                    Err(x) => {
                        self.stage = WriteStage::Done;
                        WriteAction::Finish { result: Err(x), queued: false, kvs_event: false }
                    },
                }
            },
            WriteEvent::EchoMarked => {
                if self.stage != WriteStage::Echo {
                    return WriteAction::Wait;
                }
                self.stage = WriteStage::Network;
                WriteAction::Dispatch
            },
            WriteEvent::NetworkDone(r) => {
                if self.stage != WriteStage::Network {
                    return WriteAction::Wait;
                }
                match r {
                    Ok(()) => {
                        self.stage = WriteStage::Done;
                        WriteAction::Finish { result: Ok(()), queued: false, kvs_event: self.kvs_table }
                    },
                    Err(x) => {
                        if x.is_transient() {
                            self.stage = WriteStage::Queue;
                            WriteAction::Enqueue(x)
                        } else {
                            self.stage = WriteStage::Done;
                            WriteAction::Finish { result: Err(x), queued: false, kvs_event: false }
                        }
                    },
                }
            },
            WriteEvent::Enqueued(r) => {
                if self.stage != WriteStage::Queue {
                    return WriteAction::Wait;
                }
                self.stage = WriteStage::Done;
                match r {
                    Ok(()) => WriteAction::Finish {
                        result: Ok(()),
                        queued: true,
                        kvs_event: self.kvs_table && self.kind == WriteKind::Persist,
                    },
                    Err(x) => WriteAction::Finish { result: Err(x), queued: false, kvs_event: false },
                }
            },
        }
    }
}

/// The actions a flow takes, from state `s`, for the reports in order.
pub open spec fn write_actions(s: WriteFlow, events: Seq<WriteEvent>) -> Seq<WriteAction>
    decreases events.len(),
{
    if events.len() == 0 {
        Seq::empty()
    } else {
        let next = write_next(s, events[0]);
        seq![next.1] + write_actions(next.0, events.drop_first())
    }
}

/// The report says the local mirror write succeeded.
pub open spec fn local_ok(e: WriteEvent) -> bool {
    e matches WriteEvent::LocalWritten(Ok(()))
}

/// The report says the network dispatch failed transiently.
pub open spec fn transient_failure(e: WriteEvent) -> bool {
    e matches WriteEvent::NetworkDone(Err(x)) && transient_error(x)
}

/// The action touches the echo tracker, the network or the queue, or reports success.
pub open spec fn goes_past_local(a: WriteAction) -> bool {
    a is MarkEcho || a is Dispatch || a is Enqueue || a matches WriteAction::Finish { result: Ok(()), .. }
}

/// The report says the echo tracker was marked.
pub open spec fn echo_marked(e: WriteEvent) -> bool {
    e is EchoMarked
}

/// The action reports a success that went through the offline queue.
pub open spec fn finished_queued(a: WriteAction) -> bool {
    a matches WriteAction::Finish { queued: true, .. }
}

proof fn lemma_write_actions_len(s: WriteFlow, events: Seq<WriteEvent>)
    ensures
        write_actions(s, events).len() == events.len(),
    decreases events.len(),
{
    if events.len() > 0 {
        lemma_write_actions_len(write_next(s, events[0]).0, events.drop_first());
    }
}

proof fn lemma_write_unfold(s: WriteFlow, events: Seq<WriteEvent>, j: int)
    requires
        0 < j < events.len(),
    ensures
        write_actions(s, events)[0] == write_next(s, events[0]).1,
        write_actions(s, events)[j] == write_actions(write_next(s, events[0]).0, events.drop_first())[j - 1],
        events[j] == events.drop_first()[j - 1],
{
    lemma_write_actions_len(write_next(s, events[0]).0, events.drop_first());
}

proof fn lemma_done_waits(s: WriteFlow, events: Seq<WriteEvent>)
    requires
        s.stage == WriteStage::Done,
    ensures
        forall|k: int| 0 <= k < events.len() ==> #[trigger] write_actions(s, events)[k] is Wait,
    decreases events.len(),
{
    if events.len() > 0 {
        let next = write_next(s, events[0]);
        lemma_done_waits(next.0, events.drop_first());
        lemma_write_actions_len(next.0, events.drop_first());
        assert forall|k: int| 0 <= k < events.len() implies #[trigger] write_actions(s, events)[k] is Wait by {
            if k > 0 {
                lemma_write_unfold(s, events, k);
            }
        }
    }
}

/// A finished write stays finished: after its `Finish`, every report is answered with `Wait`
/// (a write returns once, and never dispatches or enqueues again).
pub proof fn lemma_finish_is_final(s: WriteFlow, events: Seq<WriteEvent>, i: int)
    requires
        0 <= i < events.len(),
        write_actions(s, events)[i] is Finish,
    ensures
        forall|j: int| i < j < events.len() ==> #[trigger] write_actions(s, events)[j] is Wait,
    decreases events.len(),
{
    let next = write_next(s, events[0]);
    lemma_write_actions_len(next.0, events.drop_first());
    if i == 0 {
        assert(next.0.stage == WriteStage::Done);
        lemma_done_waits(next.0, events.drop_first());
        assert forall|j: int| i < j < events.len() implies #[trigger] write_actions(s, events)[j] is Wait by {
            lemma_write_unfold(s, events, j);
        }
    } else {
        lemma_write_unfold(s, events, i);
        lemma_finish_is_final(next.0, events.drop_first(), i - 1);
        assert forall|j: int| i < j < events.len() implies #[trigger] write_actions(s, events)[j] is Wait by {
            lemma_write_unfold(s, events, j);
        }
    }
}

proof fn lemma_after_local_general(s: WriteFlow, events: Seq<WriteEvent>, j: int)
    requires
        0 <= j < events.len(),
        goes_past_local(write_actions(s, events)[j]),
    ensures
        s.stage != WriteStage::Local || exists|i: int| 0 <= i <= j && #[trigger] local_ok(events[i]),
    decreases events.len(),
{
    let next = write_next(s, events[0]);
    lemma_write_actions_len(next.0, events.drop_first());
    assert(write_actions(s, events) == seq![next.1] + write_actions(next.0, events.drop_first()));
    assert(write_actions(s, events)[0] == next.1);
    if j == 0 {
        if s.stage == WriteStage::Local {
            assert(local_ok(events[0]));
        }
    } else {
        lemma_write_unfold(s, events, j);
        if s.stage == WriteStage::Local {
            if local_ok(events[0]) {
                assert(local_ok(events[0]));
            } else if next.0.stage == WriteStage::Done {
                lemma_done_waits(next.0, events.drop_first());
                assert(write_actions(next.0, events.drop_first())[j - 1] is Wait);
            } else {
                assert(next.0.stage == WriteStage::Local);
                lemma_after_local_general(next.0, events.drop_first(), j - 1);
                let i = choose|i: int| 0 <= i <= j - 1 && #[trigger] local_ok(events.drop_first()[i]);
                assert(events.drop_first()[i] == events[i + 1]);
                assert(local_ok(events[i + 1]));
            }
        }
    }
}

/// The local mirror comes first: a write that reaches the echo tracker, the network, the
/// offline queue or a successful return has had its local mirror write succeed (at or before
/// that step).
pub proof fn lemma_network_after_local(kind: WriteKind, kvs_table: bool, events: Seq<WriteEvent>, j: int)
    requires
        0 <= j < events.len(),
        goes_past_local(write_actions(WriteFlow { kind, kvs_table, stage: WriteStage::Local }, events)[j]),
    ensures
        exists|i: int| 0 <= i <= j && #[trigger] local_ok(events[i]),
{
    lemma_after_local_general(WriteFlow { kind, kvs_table, stage: WriteStage::Local }, events, j);
}

proof fn lemma_queued_general(s: WriteFlow, events: Seq<WriteEvent>, j: int)
    requires
        0 <= j < events.len(),
        finished_queued(write_actions(s, events)[j]),
    ensures
        s.stage == WriteStage::Queue || exists|i: int| 0 <= i < j && #[trigger] transient_failure(events[i]),
    decreases events.len(),
{
    let next = write_next(s, events[0]);
    lemma_write_actions_len(next.0, events.drop_first());
    assert(write_actions(s, events) == seq![next.1] + write_actions(next.0, events.drop_first()));
    assert(write_actions(s, events)[0] == next.1);
    if j > 0 {
        lemma_write_unfold(s, events, j);
        if s.stage != WriteStage::Queue {
            if transient_failure(events[0]) {
                assert(transient_failure(events[0]));
            } else if next.0.stage == WriteStage::Done {
                lemma_done_waits(next.0, events.drop_first());
                assert(write_actions(next.0, events.drop_first())[j - 1] is Wait);
            } else {
                if next.0.stage == WriteStage::Queue {
                    assert(s.stage == WriteStage::Network);
                    assert(transient_failure(events[0]));
                }
                lemma_queued_general(next.0, events.drop_first(), j - 1);
                let i = choose|i: int| 0 <= i < j - 1 && #[trigger] transient_failure(events.drop_first()[i]);
                assert(events.drop_first()[i] == events[i + 1]);
                assert(transient_failure(events[i + 1]));
            }
        }
    }
}

/// A write that returns through the offline queue had a transient network failure before:
/// only transient failures are queued (a permanent one is returned as the error).
pub proof fn lemma_queued_after_transient_failure(kind: WriteKind, kvs_table: bool, events: Seq<WriteEvent>, j: int)
    requires
        0 <= j < events.len(),
        finished_queued(write_actions(WriteFlow { kind, kvs_table, stage: WriteStage::Local }, events)[j]),
    ensures
        exists|i: int| 0 <= i < j && #[trigger] transient_failure(events[i]),
{
    lemma_queued_general(WriteFlow { kind, kvs_table, stage: WriteStage::Local }, events, j);
}

proof fn lemma_echo_general(s: WriteFlow, events: Seq<WriteEvent>, j: int)
    requires
        0 <= j < events.len(),
        write_actions(s, events)[j] is Dispatch,
    ensures
        exists|i: int| 0 <= i <= j && #[trigger] echo_marked(events[i]),
    decreases events.len(),
{
    let next = write_next(s, events[0]);
    lemma_write_actions_len(next.0, events.drop_first());
    assert(write_actions(s, events) == seq![next.1] + write_actions(next.0, events.drop_first()));
    assert(write_actions(s, events)[0] == next.1);
    if j == 0 {
        assert(echo_marked(events[0]));
    } else {
        lemma_write_unfold(s, events, j);
        lemma_echo_general(next.0, events.drop_first(), j - 1);
        let i = choose|i: int| 0 <= i <= j - 1 && #[trigger] echo_marked(events.drop_first()[i]);
        assert(events.drop_first()[i] == events[i + 1]);
        assert(echo_marked(events[i + 1]));
    }
}

/// Echo-then-push: a write is dispatched over the network only once the echo tracker has been
/// marked for it, so realtime can never re-deliver the write into the merge pipeline.
pub proof fn lemma_echo_before_dispatch(s: WriteFlow, events: Seq<WriteEvent>, j: int)
    requires
        0 <= j < events.len(),
        write_actions(s, events)[j] is Dispatch,
    ensures
        exists|i: int| 0 <= i <= j && #[trigger] echo_marked(events[i]),
{
    lemma_echo_general(s, events, j);
}

} // verus!
