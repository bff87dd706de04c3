//! The persistent operation type of the offline queue and an in-memory queue that dedupes by
//! `(table, entity_id)` and finalises a replay batch under the contract rules.

use vstd::prelude::*;
use crate::polybase::contract::{finalize_queue_after_processing, finalize_spec, ops_view, same_key, ContractOperation, OpView};
use crate::text::str_eq;

verus! {

/// What sort of operation the queue replays. The write payload is JSON text, so the queue can
/// hold Edge Function bodies, PostgREST rows and tombstone updates uniformly.
#[derive(Debug, PartialEq, Eq)]
pub enum QueuedOperationKind {
    /// Generic upsert or write, with the JSON payload to push.
    Write {
        /// JSON payload (PostgREST row or Edge Function body), as JSON text.
        payload: String,
    },
    /// Tombstone update at the given version.
    Tombstone {
        /// Tombstone version to publish.
        version: i64,
    },
    /// Hard delete (rare; usually for non-synced tables).
    HardDelete,
}

/// The value of a [`QueuedOperationKind`].
pub enum KindView {
    /// A write with its payload text.
    Write(Seq<char>),
    /// A tombstone at a version.
    Tombstone(i64),
    /// A hard delete.
    HardDelete,
}

impl View for QueuedOperationKind {
    type V = KindView;

    open spec fn view(&self) -> KindView {
        match self {
            QueuedOperationKind::Write { payload } => KindView::Write(payload@),
            QueuedOperationKind::Tombstone { version } => KindView::Tombstone(*version),
            QueuedOperationKind::HardDelete => KindView::HardDelete,
        }
    }
}

impl QueuedOperationKind {
    /// A copy of this kind.
    pub fn duplicate(&self) -> (r: Self)
        ensures
            r@ == self@,
    {
        match self {
            QueuedOperationKind::Write { payload } => QueuedOperationKind::Write { payload: payload.clone() },
            QueuedOperationKind::Tombstone { version } => QueuedOperationKind::Tombstone { version: *version },
            QueuedOperationKind::HardDelete => QueuedOperationKind::HardDelete,
        }
    }
}

/// One pending operation persisted to the queue.
#[derive(Debug, PartialEq, Eq)]
pub struct QueuedOperation {
    /// Table the operation targets.
    pub table: String,
    /// Primary key value within the table.
    pub entity_id: String,
    /// Whether this is a write, tombstone, or hard delete.
    pub kind: QueuedOperationKind,
    /// Monotonic enqueue timestamp in microseconds since epoch.
    pub queued_at_micros: i64,
    /// Number of replay attempts so far.
    pub retry_count: u32,
    /// Last error message recorded (for diagnostics).
    pub last_error: Option<String>,
}

/// The value of a [`QueuedOperation`].
pub struct QueuedView {
    /// Table name.
    pub table: Seq<char>,
    /// Primary key value.
    pub entity_id: Seq<char>,
    /// The operation.
    pub kind: KindView,
    /// Enqueue timestamp.
    pub queued_at_micros: i64,
    /// Replay attempts.
    pub retry_count: u32,
    /// Last error.
    pub last_error: Option<Seq<char>>,
}

impl View for QueuedOperation {
    type V = QueuedView;

    open spec fn view(&self) -> QueuedView {
        QueuedView {
            table: self.table@,
            entity_id: self.entity_id@,
            kind: self.kind@,
            queued_at_micros: self.queued_at_micros,
            retry_count: self.retry_count,
            last_error: match self.last_error {
                Some(e) => Some(e@),
                None => None,
            },
        }
    }
}

/// The contract tuple of a queued operation.
pub open spec fn contract_of(v: QueuedView) -> OpView {
    OpView { table: v.table, entity_id: v.entity_id, queued_at_micros: v.queued_at_micros }
}

/// The views of a list of queued operations.
pub open spec fn queued_views(s: Seq<QueuedOperation>) -> Seq<QueuedView> {
    s.map_values(|o: QueuedOperation| o@)
}

/// No two operations share a `(table, entity_id)` key.
pub open spec fn unique_keys(s: Seq<QueuedView>) -> bool {
    forall|i: int, j: int| 0 <= i < j < s.len() ==> !same_key(contract_of(#[trigger] s[i]), contract_of(#[trigger] s[j]))
}

/// `v` is listed (same table, id and `queued_at`) among `ops`.
pub open spec fn listed(ops: Seq<OpView>, v: QueuedView) -> bool {
    exists|j: int| 0 <= j < ops.len() && #[trigger] ops[j] == contract_of(v)
}

impl QueuedOperation {
    /// The contract-level tuple used by the dedupe / finalize rules.
    pub fn to_contract(&self) -> (r: ContractOperation)
        ensures
            r@ == contract_of(self@),
    {
        ContractOperation::new(self.table.as_str(), self.entity_id.as_str(), self.queued_at_micros)
    }

    /// A copy of this operation.
    pub fn duplicate(&self) -> (r: Self)
        ensures
            r@ == self@,
    {
        QueuedOperation {
            table: self.table.clone(),
            entity_id: self.entity_id.clone(),
            kind: self.kind.duplicate(),
            queued_at_micros: self.queued_at_micros,
            retry_count: self.retry_count,
            last_error: match &self.last_error {
                Some(e) => Some(e.clone()),
                None => None,
            },
        }
    }
}

pub(crate) fn contracts_of(ops: &[QueuedOperation]) -> (r: Vec<ContractOperation>)
    ensures
        ops_view(r@) == queued_views(ops@).map_values(|v: QueuedView| contract_of(v)),
{
    let mut out: Vec<ContractOperation> = Vec::new();
    let mut i: usize = 0;
    while i < ops.len()
        invariant
            i <= ops@.len(),
            ops_view(out@) == queued_views(ops@.take(i as int)).map_values(|v: QueuedView| contract_of(v)),
        decreases ops.len() - i,
    {
        let c = ops[i].to_contract();
        let ghost before = out@;
        out.push(c);
        proof {
            assert(ops_view(out@) =~= ops_view(before).push(c@));
            assert(queued_views(ops@.take(i + 1)).map_values(|v: QueuedView| contract_of(v))
                =~= queued_views(ops@.take(i as int)).map_values(|v: QueuedView| contract_of(v)).push(contract_of(ops@[i as int]@)));
        }
        i = i + 1;
    }
    proof {
        assert(ops@.take(ops@.len() as int) =~= ops@);
    }
    out
}

/// In-memory queue: one pending operation per `(table, entity_id)`, oldest first.
#[derive(Debug)]
pub struct MemoryQueue {
    ops: Vec<QueuedOperation>,
}

impl MemoryQueue {
    #[verifier::type_invariant]
    spec fn one_per_key(&self) -> bool {
        unique_keys(queued_views(self.ops@))
    }

    /// The queued operations, oldest first.
    pub closed spec fn spec_ops(&self) -> Seq<QueuedView> {
        queued_views(self.ops@)
    }

    /// An empty queue.
    pub fn new() -> (r: Self)
        ensures
            r.spec_ops() == Seq::<QueuedView>::empty(),
    {
        MemoryQueue { ops: Vec::new() }
    }

    /// Append `op`, first dropping any queued operation with the same `(table, entity_id)`.
    pub fn enqueue(&mut self, op: QueuedOperation)
        ensures
            final(self).spec_ops() == old(self).spec_ops().filter(|v: QueuedView| !same_key(contract_of(v), contract_of(op@))).push(op@),
            unique_keys(final(self).spec_ops()),
    {
        proof {
            use_type_invariant(&*self);
        }
        let ghost opv = op@;
        let ghost pred = |v: QueuedView| !same_key(contract_of(v), contract_of(opv));
        let mut kept: Vec<QueuedOperation> = Vec::new();
        let mut old_ops: Vec<QueuedOperation> = Vec::new();
        std::mem::swap(&mut old_ops, &mut self.ops);
        let ghost start = queued_views(old_ops@);
        let mut i: usize = 0;
        while i < old_ops.len()
            invariant
                i <= old_ops@.len(),
                start == queued_views(old_ops@),
                opv == op@,
                pred == (|v: QueuedView| !same_key(contract_of(v), contract_of(opv))),
                queued_views(kept@) == start.take(i as int).filter(pred),
            decreases old_ops.len() - i,
        {
            let same = str_eq(old_ops[i].table.as_str(), op.table.as_str())
                && str_eq(old_ops[i].entity_id.as_str(), op.entity_id.as_str());
            proof {
                assert(start.take(i + 1) =~= start.take(i as int).push(start[i as int]));
                crate::polybase::contract::lemma_filter_push(start.take(i as int), start[i as int], pred);
                assert(start[i as int] == old_ops@[i as int]@);
                assert(pred(start[i as int]) == !same);
            }
            if !same {
                let ghost before = kept@;
                kept.push(old_ops[i].duplicate());
                proof {
                    assert(queued_views(kept@) =~= queued_views(before).push(start[i as int]));
                }
            }
            i = i + 1;
        }
        proof {
            assert(start.take(start.len() as int) =~= start);
        }
        let ghost before = kept@;
        kept.push(op);
        proof {
            assert(queued_views(kept@) =~= queued_views(before).push(opv));
            let f = start.filter(pred);
            assert forall|a: int, b: int| 0 <= a < b < f.len() implies !same_key(contract_of(#[trigger] f[a]), contract_of(#[trigger] f[b])) by {
                lemma_filter_unique(start, pred);
            }
            assert forall|a: int| 0 <= a < f.len() implies #[trigger] pred(f[a]) by {
                lemma_filter_all(start, pred, a);
            }
            let res = f.push(opv);
            assert forall|a: int, b: int| 0 <= a < b < res.len() implies !same_key(contract_of(#[trigger] res[a]), contract_of(#[trigger] res[b])) by {
                if b == res.len() - 1 {
                    assert(pred(f[a]));
                }
            }
        }
        self.ops = kept;
    }

    /// Copies of the queued operations, oldest first.
    pub fn snapshot(&self) -> (r: Vec<QueuedOperation>)
        ensures
            queued_views(r@) == self.spec_ops(),
    {
        let mut out: Vec<QueuedOperation> = Vec::new();
        let mut i: usize = 0;
        while i < self.ops.len()
            invariant
                i <= self.ops@.len(),
                queued_views(out@) == queued_views(self.ops@.take(i as int)),
            decreases self.ops.len() - i,
        {
            let ghost before = out@;
            out.push(self.ops[i].duplicate());
            proof {
                assert(queued_views(out@) =~= queued_views(before).push(self.ops@[i as int]@));
                assert(queued_views(self.ops@.take(i + 1)) =~= queued_views(self.ops@.take(i as int)).push(self.ops@[i as int]@));
            }
            i = i + 1;
        }
        proof {
            assert(self.ops@.take(self.ops@.len() as int) =~= self.ops@);
        }
        out
    }

    /// Finalise a replay batch: keep exactly the queued operations whose `(table, entity_id,
    /// queued_at)` the contract's finalisation retains (concurrent enqueues stay, completed
    /// ones go).
    pub fn finalize_after_processing(&mut self, snapshot: &[QueuedOperation], failed: &[QueuedOperation])
        ensures
            final(self).spec_ops() == old(self).spec_ops().filter(|v: QueuedView| listed(
                finalize_spec(
                    old(self).spec_ops().map_values(|w: QueuedView| contract_of(w)),
                    queued_views(snapshot@).map_values(|w: QueuedView| contract_of(w)),
                    queued_views(failed@).map_values(|w: QueuedView| contract_of(w)),
                ),
                v,
            )),
            unique_keys(final(self).spec_ops()),
    {
        proof {
            use_type_invariant(&*self);
        }
        let current = contracts_of(self.ops.as_slice());
        let snap = contracts_of(snapshot);
        let fail = contracts_of(failed);
        let retained = finalize_queue_after_processing(current.as_slice(), snap.as_slice(), fail.as_slice());
        let ghost rv = ops_view(retained@);
        let ghost pred = |v: QueuedView| listed(rv, v);
        let mut old_ops: Vec<QueuedOperation> = Vec::new();
        std::mem::swap(&mut old_ops, &mut self.ops);
        let ghost start = queued_views(old_ops@);
        let mut kept: Vec<QueuedOperation> = Vec::new();
        let mut i: usize = 0;
        while i < old_ops.len()
            invariant
                i <= old_ops@.len(),
                start == queued_views(old_ops@),
                rv == ops_view(retained@),
                pred == (|v: QueuedView| listed(rv, v)),
                queued_views(kept@) == start.take(i as int).filter(pred),
            decreases old_ops.len() - i,
        {
            let c = old_ops[i].to_contract();
            let mut found = false;
            let mut k: usize = 0;
            while k < retained.len()
                invariant
                    k <= retained@.len(),
                    rv == ops_view(retained@),
                    found <==> exists|j: int| 0 <= j < k && #[trigger] rv[j] == c@,
                decreases retained.len() - k,
            {
                if c.same_key_as(&retained[k]) && c.queued_at_micros == retained[k].queued_at_micros {
                    found = true;
                    proof {
                        assert(rv[k as int] == c@);
                    }
                } else {
                    proof {
                        assert(rv[k as int] != c@);
                    }
                }
                k = k + 1;
            }
            proof {
                assert(start.take(i + 1) =~= start.take(i as int).push(start[i as int]));
                crate::polybase::contract::lemma_filter_push(start.take(i as int), start[i as int], pred);
                assert(c@ == contract_of(start[i as int]));
                assert(found == pred(start[i as int]));
            }
            if found {
                let ghost before = kept@;
                kept.push(old_ops[i].duplicate());
                proof {
                    assert(queued_views(kept@) =~= queued_views(before).push(start[i as int]));
                }
            }
            i = i + 1;
        }
        proof {
            assert(start.take(start.len() as int) =~= start);
            assert(ops_view(current@) == start.map_values(|w: QueuedView| contract_of(w)));
            lemma_filter_unique(start, pred);
        }
        self.ops = kept;
    }

    /// Number of queued operations.
    pub fn depth(&self) -> (r: usize)
        ensures
            r == self.spec_ops().len(),
    {
        self.ops.len()
    }
}

proof fn lemma_filter_all(s: Seq<QueuedView>, pred: spec_fn(QueuedView) -> bool, a: int)
    requires
        0 <= a < s.filter(pred).len(),
    ensures
        pred(s.filter(pred)[a]),
{
    broadcast use vstd::seq_lib::group_filter_ensures;
    assert(s.filter(pred).contains(s.filter(pred)[a]));
}

proof fn lemma_filter_member(s: Seq<QueuedView>, pred: spec_fn(QueuedView) -> bool, a: int)
    requires
        0 <= a < s.filter(pred).len(),
    ensures
        exists|w: int| 0 <= w < s.len() && s[w] == s.filter(pred)[a],
    decreases s.len(),
{
    reveal_with_fuel(Seq::filter, 1);
    if s.len() > 0 {
        let init = s.drop_last();
        assert(s.filter(pred) == if pred(s.last()) { init.filter(pred).push(s.last()) } else { init.filter(pred) });
        if a < init.filter(pred).len() {
            lemma_filter_member(init, pred, a);
            let w = choose|w: int| 0 <= w < init.len() && init[w] == init.filter(pred)[a];
            assert(s[w] == s.filter(pred)[a]);
        } else {
            assert(s[s.len() - 1] == s.filter(pred)[a]);
        }
    }
}

proof fn lemma_filter_unique(s: Seq<QueuedView>, pred: spec_fn(QueuedView) -> bool)
    requires
        unique_keys(s),
    ensures
        unique_keys(s.filter(pred)),
    decreases s.len(),
{
    reveal_with_fuel(Seq::filter, 1);
    if s.len() > 0 {
        let init = s.drop_last();
        assert(unique_keys(init));
        lemma_filter_unique(init, pred);
        assert(s.filter(pred) == if pred(s.last()) { init.filter(pred).push(s.last()) } else { init.filter(pred) });
        if pred(s.last()) {
            let f = init.filter(pred);
            let g = f.push(s.last());
            assert forall|a: int, b: int| 0 <= a < b < g.len() implies !same_key(contract_of(#[trigger] g[a]), contract_of(#[trigger] g[b])) by {
                if b == g.len() - 1 {
                    lemma_filter_member(init, pred, a);
                    let w = choose|w: int| 0 <= w < init.len() && init[w] == f[a];
                    assert(s[w] == f[a]);
                    assert(s[s.len() - 1] == s.last());
                }
            }
        }
    }
}

} // verus!
