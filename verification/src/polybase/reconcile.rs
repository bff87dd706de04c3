//! Reconcile planner.
//!
//! Given two lists of `(id, version, deleted)` tuples (one local, one remote), produce a
//! [`ReconcilePlan`] that buckets every id: adopt the remote tombstone, pull, push, skip, or
//! create on the side that lacks it. Every bucket is sorted and free of duplicates.

use vstd::prelude::*;
use crate::polybase::contract::{
    determine_reconcile_action, lemma_filter_push, reconcile_action, reconcile_defined,
    ReconcileAction,
};
use crate::polybase::events::ReconcileActionCounts;
use crate::text::{
    chars_lt, chars_of, lemma_seq_lt_irreflexive, lemma_seq_lt_total, lemma_seq_lt_transitive,
    seq_eq, seq_lt, strictly_sorted, string_from_chars,
};

verus! {

/// Compact triple used as input to the planner.
#[derive(Debug, Clone, PartialEq, Eq)]
pub struct VersionTriple {
    /// Primary key of the row.
    pub id: String,
    /// Current version (monotonic per the contract).
    pub version: i64,
    /// True for tombstoned rows.
    pub deleted: bool,
}

/// Plain-value model of a [`VersionTriple`].
pub struct TripleView {
    /// Primary key.
    pub id: Seq<char>,
    /// Version.
    pub version: i64,
    /// Tombstone flag.
    pub deleted: bool,
}

impl View for VersionTriple {
    type V = TripleView;

    open spec fn view(&self) -> TripleView {
        TripleView { id: self.id@, version: self.version, deleted: self.deleted }
    }
}

impl VersionTriple {
    /// Convenience constructor used by callers building local-side input lists.
    pub fn new(id: &str, version: i64, deleted: bool) -> (r: Self)
        ensures
            r@.id == id@,
            r.version == version,
            r.deleted == deleted,
    {
        VersionTriple { id: id.to_owned(), version, deleted }
    }
}

/// Models of a list of triples.
pub open spec fn triples_view(s: Seq<VersionTriple>) -> Seq<TripleView> {
    s.map_values(|t: VersionTriple| t@)
}

/// Models of a list of strings.
pub open spec fn strings_view(s: Seq<String>) -> Seq<Seq<char>> {
    s.map_values(|t: String| t@)
}

/// Models of a list of character vectors.
pub open spec fn chars_view(s: Seq<Vec<char>>) -> Seq<Seq<char>> {
    s.map_values(|t: Vec<char>| t@)
}

/// Some triple of `s` carries `id`.
pub open spec fn has_id(s: Seq<TripleView>, id: Seq<char>) -> bool {
    exists|i: int| 0 <= i < s.len() && (#[trigger] s[i]).id == id
}

/// The last triple of `s` that carries `id` (later entries win, as in a map built from `s`).
pub open spec fn last_for(s: Seq<TripleView>, id: Seq<char>) -> TripleView
    recommends
        has_id(s, id),
    decreases s.len(),
{
    if s.len() == 0 {
        arbitrary()
    } else if s.last().id == id {
        s.last()
    } else {
        last_for(s.drop_last(), id)
    }
}

/// The reconcile action for an id present on both sides.
pub open spec fn planned_action(local: Seq<TripleView>, remote: Seq<TripleView>, id: Seq<char>) -> ReconcileAction {
    let l = last_for(local, id);
    let r = last_for(remote, id);
    reconcile_action(l.version as int, l.deleted, r.version as int, r.deleted)
}

/// Every id present on both sides can be planned without overflowing the undelete threshold.
pub open spec fn plan_defined(local: Seq<TripleView>, remote: Seq<TripleView>) -> bool {
    forall|id: Seq<char>|
        has_id(local, id) && has_id(remote, id) ==> reconcile_defined(
            #[trigger] last_for(local, id).deleted,
            last_for(remote, id).version as int,
            last_for(remote, id).deleted,
        )
}

/// Which ids belong in the bucket for `action`.
pub open spec fn in_action_bucket(
    local: Seq<TripleView>,
    remote: Seq<TripleView>,
    action: ReconcileAction,
    id: Seq<char>,
) -> bool {
    has_id(local, id) && has_id(remote, id) && planned_action(local, remote, id) == action
}

/// The membership predicate of the bucket for `action`.
pub open spec fn bucket_pred(local: Seq<TripleView>, remote: Seq<TripleView>, action: ReconcileAction) -> spec_fn(Seq<char>) -> bool {
    |id: Seq<char>| in_action_bucket(local, remote, action, id)
}

/// Ids present in `a` but not in `b`.
pub open spec fn only_in(a: Seq<TripleView>, b: Seq<TripleView>) -> spec_fn(Seq<char>) -> bool {
    |id: Seq<char>| has_id(a, id) && !has_id(b, id)
}

/// `b` lists, in increasing order and once each, exactly the ids that satisfy `p`.
pub open spec fn sorted_listing(b: Seq<Seq<char>>, p: spec_fn(Seq<char>) -> bool) -> bool {
    &&& strictly_sorted(b)
    &&& forall|x: Seq<char>| b.contains(x) <==> p(x)
}

/// `plan` is the plan for local triples `l` and remote triples `r`: each bucket lists, sorted
/// and once each, exactly the ids it should hold.
pub open spec fn plan_for(plan: ReconcilePlan, l: Seq<TripleView>, r: Seq<TripleView>) -> bool {
    &&& sorted_listing(strings_view(plan.adopt_tombstone@), bucket_pred(l, r, ReconcileAction::AdoptTombstone))
    &&& sorted_listing(strings_view(plan.pull@), bucket_pred(l, r, ReconcileAction::Pull))
    &&& sorted_listing(strings_view(plan.push@), bucket_pred(l, r, ReconcileAction::Push))
    &&& sorted_listing(strings_view(plan.skip@), bucket_pred(l, r, ReconcileAction::Skip))
    &&& sorted_listing(strings_view(plan.create_remote@), only_in(l, r))
    &&& sorted_listing(strings_view(plan.create_local@), only_in(r, l))
}

/// No two triples of `s` share an id.
pub open spec fn distinct_ids(s: Seq<TripleView>) -> bool {
    forall|i: int, j: int| 0 <= i < j < s.len() ==> (#[trigger] s[i]).id != (#[trigger] s[j]).id
}

/// `a` and `b` hold the same triples (a reordering, when neither repeats an id).
pub open spec fn same_triples(a: Seq<TripleView>, b: Seq<TripleView>) -> bool {
    forall|t: TripleView| a.contains(t) <==> b.contains(t)
}

proof fn lemma_last_for_unique(s: Seq<TripleView>, k: int)
    requires
        distinct_ids(s),
        0 <= k < s.len(),
    ensures
        last_for(s, s[k].id) == s[k],
    decreases s.len(),
{
    if s.last().id != s[k].id {
        let t = s.drop_last();
        assert(k < s.len() - 1);
        assert(t[k] == s[k]);
        assert(distinct_ids(t)) by {
            assert forall|i: int, j: int| 0 <= i < j < t.len() implies (#[trigger] t[i]).id != (#[trigger] t[j]).id by {
                assert(t[i] == s[i] && t[j] == s[j]);
            }
        }
        lemma_last_for_unique(t, k);
    } else if k != s.len() - 1 {
        assert(s[k].id != s[s.len() - 1].id);
    }
}

proof fn lemma_same_lookup(a: Seq<TripleView>, b: Seq<TripleView>, id: Seq<char>)
    requires
        distinct_ids(a),
        distinct_ids(b),
        same_triples(a, b),
    ensures
        has_id(a, id) == has_id(b, id),
        has_id(a, id) ==> last_for(a, id) == last_for(b, id),
{
    if has_id(a, id) {
        let k = choose|i: int| 0 <= i < a.len() && (#[trigger] a[i]).id == id;
        assert(a.contains(a[k]));
        assert(b.contains(a[k]));
        let m = choose|i: int| 0 <= i < b.len() && b[i] == a[k];
        assert(b[m].id == id);
        lemma_last_for_unique(a, k);
        lemma_last_for_unique(b, m);
    }
    if has_id(b, id) {
        let m = choose|i: int| 0 <= i < b.len() && (#[trigger] b[i]).id == id;
        assert(b.contains(b[m]));
        assert(a.contains(b[m]));
        let k = choose|i: int| 0 <= i < a.len() && a[i] == b[m];
        assert(a[k].id == id);
    }
}

proof fn lemma_sorted_unique(a: Seq<Seq<char>>, b: Seq<Seq<char>>)
    requires
        strictly_sorted(a),
        strictly_sorted(b),
        forall|x: Seq<char>| a.contains(x) <==> b.contains(x),
    ensures
        a == b,
    decreases a.len(),
{
    if a.len() == 0 {
        if b.len() > 0 {
            assert(b.contains(b[0]));
        }
        assert(a =~= b);
    } else {
        assert(a.contains(a[0]));
        let j = choose|j: int| 0 <= j < b.len() && b[j] == a[0];
        assert(b.contains(b[0]));
        let i = choose|i: int| 0 <= i < a.len() && a[i] == b[0];
        if j > 0 {
            assert(seq_lt(b[0], b[j]));
            if i > 0 {
                assert(seq_lt(a[0], a[i]));
                lemma_seq_lt_transitive(a[0], b[0], a[0]);
            }
            lemma_seq_lt_irreflexive(a[0]);
        }
        assert(b[0] == a[0]);
        let a1 = a.drop_first();
        let b1 = b.drop_first();
        assert(strictly_sorted(a1)) by {
            assert forall|p: int, q: int| 0 <= p < q < a1.len() implies seq_lt(#[trigger] a1[p], #[trigger] a1[q]) by {
                assert(a1[p] == a[p + 1] && a1[q] == a[q + 1]);
            }
        }
        assert(strictly_sorted(b1)) by {
            assert forall|p: int, q: int| 0 <= p < q < b1.len() implies seq_lt(#[trigger] b1[p], #[trigger] b1[q]) by {
                assert(b1[p] == b[p + 1] && b1[q] == b[q + 1]);
            }
        }
        assert forall|x: Seq<char>| a1.contains(x) <==> b1.contains(x) by {
            if a1.contains(x) {
                let p = choose|p: int| 0 <= p < a1.len() && a1[p] == x;
                assert(a[p + 1] == x);
                assert(seq_lt(a[0], a[p + 1]));
                lemma_seq_lt_irreflexive(x);
                assert(a.contains(x));
                assert(b.contains(x));
                let q = choose|q: int| 0 <= q < b.len() && b[q] == x;
                assert(q != 0);
                assert(b1[q - 1] == x);
            }
            if b1.contains(x) {
                let p = choose|p: int| 0 <= p < b1.len() && b1[p] == x;
                assert(b[p + 1] == x);
                assert(seq_lt(b[0], b[p + 1]));
                lemma_seq_lt_irreflexive(x);
                assert(b.contains(x));
                assert(a.contains(x));
                let q = choose|q: int| 0 <= q < a.len() && a[q] == x;
                assert(q != 0);
                assert(a1[q - 1] == x);
            }
        }
        lemma_sorted_unique(a1, b1);
        assert(a =~= seq![a[0]] + a1);
        assert(b =~= seq![b[0]] + b1);
    }
}

/// The plan does not depend on the order of its inputs: two lists holding the same triples
/// (each id once) give the same plan, bucket for bucket.
pub proof fn lemma_plan_ignores_order(
    p1: ReconcilePlan,
    p2: ReconcilePlan,
    l1: Seq<TripleView>,
    r1: Seq<TripleView>,
    l2: Seq<TripleView>,
    r2: Seq<TripleView>,
)
    requires
        plan_for(p1, l1, r1),
        plan_for(p2, l2, r2),
        distinct_ids(l1),
        distinct_ids(r1),
        distinct_ids(l2),
        distinct_ids(r2),
        same_triples(l1, l2),
        same_triples(r1, r2),
    ensures
        strings_view(p1.adopt_tombstone@) == strings_view(p2.adopt_tombstone@),
        strings_view(p1.pull@) == strings_view(p2.pull@),
        strings_view(p1.push@) == strings_view(p2.push@),
        strings_view(p1.skip@) == strings_view(p2.skip@),
        strings_view(p1.create_remote@) == strings_view(p2.create_remote@),
        strings_view(p1.create_local@) == strings_view(p2.create_local@),
{
    assert forall|x: Seq<char>| #![trigger has_id(l1, x)] has_id(l1, x) == has_id(l2, x) && has_id(r1, x) == has_id(r2, x)
        && (has_id(l1, x) ==> last_for(l1, x) == last_for(l2, x)) && (has_id(r1, x) ==> last_for(r1, x) == last_for(r2, x)) by {
        lemma_same_lookup(l1, l2, x);
        lemma_same_lookup(r1, r2, x);
    }
    assert forall|x: Seq<char>| strings_view(p1.adopt_tombstone@).contains(x) <==> strings_view(p2.adopt_tombstone@).contains(x) by {
        assert(has_id(l1, x) == has_id(l2, x));
    }
    assert forall|x: Seq<char>| strings_view(p1.pull@).contains(x) <==> strings_view(p2.pull@).contains(x) by {
        assert(has_id(l1, x) == has_id(l2, x));
    }
    assert forall|x: Seq<char>| strings_view(p1.push@).contains(x) <==> strings_view(p2.push@).contains(x) by {
        assert(has_id(l1, x) == has_id(l2, x));
    }
    assert forall|x: Seq<char>| strings_view(p1.skip@).contains(x) <==> strings_view(p2.skip@).contains(x) by {
        assert(has_id(l1, x) == has_id(l2, x));
    }
    assert forall|x: Seq<char>| strings_view(p1.create_remote@).contains(x) <==> strings_view(p2.create_remote@).contains(x) by {
        assert(has_id(l1, x) == has_id(l2, x));
    }
    assert forall|x: Seq<char>| strings_view(p1.create_local@).contains(x) <==> strings_view(p2.create_local@).contains(x) by {
        assert(has_id(l1, x) == has_id(l2, x));
    }
    lemma_sorted_unique(strings_view(p1.adopt_tombstone@), strings_view(p2.adopt_tombstone@));
    lemma_sorted_unique(strings_view(p1.pull@), strings_view(p2.pull@));
    lemma_sorted_unique(strings_view(p1.push@), strings_view(p2.push@));
    lemma_sorted_unique(strings_view(p1.skip@), strings_view(p2.skip@));
    lemma_sorted_unique(strings_view(p1.create_remote@), strings_view(p2.create_remote@));
    lemma_sorted_unique(strings_view(p1.create_local@), strings_view(p2.create_local@));
}

/// Planned actions for a single table.
#[derive(Debug, Clone, Default, PartialEq, Eq)]
pub struct ReconcilePlan {
    /// Local rows that should adopt the remote tombstone.
    pub adopt_tombstone: Vec<String>,
    /// Ids whose remote version is newer than local and should be pulled.
    pub pull: Vec<String>,
    /// Ids whose local version is newer than remote and should be pushed.
    pub push: Vec<String>,
    /// Ids that match on both sides; nothing to do.
    pub skip: Vec<String>,
    /// Ids that exist remote-only — must be created locally.
    pub create_local: Vec<String>,
    /// Ids that exist local-only — must be created on remote.
    pub create_remote: Vec<String>,
}

/// `min(n, u32::MAX)`.
pub open spec fn saturate_u32(n: int) -> u32 {
    if n > u32::MAX { u32::MAX } else { n as u32 }
}

/// `u32::try_from(n).unwrap_or(u32::MAX)`.
fn to_u32_saturating(n: usize) -> (r: u32)
    ensures
        r == saturate_u32(n as int),
{
    if n > (u32::MAX as usize) {
        u32::MAX
    } else {
        n as u32
    }
}

impl ReconcilePlan {
    /// Bucket counts suitable for `PolyEvent::ReconcileProgress { action_counts: ... }`.
    pub fn counts(&self) -> (r: ReconcileActionCounts)
        requires
            self.pull.len() + self.create_local.len() <= usize::MAX,
            self.push.len() + self.create_remote.len() <= usize::MAX,
        ensures
            r.adopt_tombstone == saturate_u32(self.adopt_tombstone.len() as int),
            r.pull == saturate_u32(self.pull.len() + self.create_local.len()),
            r.push == saturate_u32(self.push.len() + self.create_remote.len()),
            r.skip == saturate_u32(self.skip.len() as int),
    {
        ReconcileActionCounts {
            adopt_tombstone: to_u32_saturating(self.adopt_tombstone.len()),
            pull: to_u32_saturating(self.pull.len() + self.create_local.len()),
            push: to_u32_saturating(self.push.len() + self.create_remote.len()),
            skip: to_u32_saturating(self.skip.len()),
        }
    }
}

/// Filtering a sorted sequence keeps it sorted.
proof fn lemma_filter_sorted(s: Seq<Seq<char>>, p: spec_fn(Seq<char>) -> bool)
    requires
        strictly_sorted(s),
    ensures
        strictly_sorted(s.filter(p)),
    decreases s.len(),
{
    reveal_with_fuel(Seq::filter, 1);
    if s.len() > 0 {
        let d = s.drop_last();
        assert(strictly_sorted(d)) by {
            assert forall|i: int, j: int| 0 <= i < j < d.len() implies seq_lt(#[trigger] d[i], #[trigger] d[j]) by {
                assert(d[i] == s[i] && d[j] == s[j]);
            }
        }
        lemma_filter_sorted(d, p);
        if p(s.last()) {
            let f = d.filter(p);
            assert forall|i: int| 0 <= i < f.len() implies seq_lt(#[trigger] f[i], s.last()) by {
                lemma_filter_contains_iff(d, p, f[i]);
                let k = choose|k: int| 0 <= k < d.len() && d[k] == f[i];
                assert(s[k] == d[k]);
            }
            let g = f.push(s.last());
            assert forall|i: int, j: int| 0 <= i < j < g.len() implies seq_lt(#[trigger] g[i], #[trigger] g[j]) by {
                if j == g.len() - 1 {
                    assert(g[i] == f[i]);
                } else {
                    assert(g[i] == f[i] && g[j] == f[j]);
                }
            }
        }
    }
}

/// Membership in a filtered sequence.
proof fn lemma_filter_contains_iff(s: Seq<Seq<char>>, p: spec_fn(Seq<char>) -> bool, x: Seq<char>)
    ensures
        s.filter(p).contains(x) <==> (s.contains(x) && p(x)),
    decreases s.len(),
{
    reveal_with_fuel(Seq::filter, 1);
    if s.len() > 0 {
        let d = s.drop_last();
        lemma_filter_contains_iff(d, p, x);
        let f = d.filter(p);
        if s.contains(x) && p(x) {
            let k = choose|k: int| 0 <= k < s.len() && s[k] == x;
            if k < s.len() - 1 {
                assert(d[k] == x);
                assert(d.contains(x));
            }
        }
        if s.filter(p).contains(x) {
            if p(s.last()) {
                let g = f.push(s.last());
                let k = choose|k: int| 0 <= k < g.len() && g[k] == x;
                if k == g.len() - 1 {
                    assert(s[s.len() - 1] == x);
                } else {
                    assert(f[k] == x);
                    assert(f.contains(x));
                    let m = choose|m: int| 0 <= m < d.len() && d[m] == x;
                    assert(s[m] == x);
                }
            } else {
                let m = choose|m: int| 0 <= m < d.len() && d[m] == x;
                assert(s[m] == x);
            }
        }
    }
}

/// Whether some triple carries `id`, and the last such triple's version and flag.
fn find_last(triples: &[VersionTriple], id: &[char]) -> (r: Option<(i64, bool)>)
    ensures
        r is Some <==> has_id(triples_view(triples@), id@),
        r matches Some((v, d)) ==> last_for(triples_view(triples@), id@).version == v
            && last_for(triples_view(triples@), id@).deleted == d,
{
    let ghost full = triples_view(triples@);
    let mut i: usize = triples.len();
    proof {
        assert(triples_view(triples@.take(triples@.len() as int)) =~= full);
    }
    while i > 0
        invariant
            i <= triples.len(),
            full == triples_view(triples@),
            forall|k: int| i <= k < triples.len() ==> (#[trigger] full[k]).id != id@,
            last_for(full, id@) == last_for(triples_view(triples@.take(i as int)), id@),
        decreases i,
    {
        let t = &triples[i - 1];
        let tid = chars_of(t.id.as_str());
        proof {
            assert(triples_view(triples@.take(i as int)).drop_last() =~= triples_view(triples@.take(i - 1)));
            assert(triples_view(triples@.take(i as int)).last() == full[i - 1]);
        }
        if seq_eq(&tid, id) {
            proof {
                assert(full[i - 1].id == id@);
            }
            return Some((t.version, t.deleted));
        }
        i = i - 1;
    }
    proof {
        assert forall|k: int| 0 <= k < full.len() implies (#[trigger] full[k]).id != id@ by {}
    }
    None
}

/// The distinct ids of `triples`, in increasing order.
fn sorted_ids(triples: &[VersionTriple]) -> (r: Vec<Vec<char>>)
    ensures
        strictly_sorted(chars_view(r@)),
        forall|x: Seq<char>| chars_view(r@).contains(x) <==> has_id(triples_view(triples@), x),
{
    let ghost full = triples_view(triples@);
    let mut out: Vec<Vec<char>> = Vec::new();
    let mut i: usize = 0;
    while i < triples.len()
        invariant
            i <= triples.len(),
            full == triples_view(triples@),
            strictly_sorted(chars_view(out@)),
            forall|x: Seq<char>| chars_view(out@).contains(x) <==> has_id(full.take(i as int), x),
        decreases triples.len() - i,
    {
        let x = chars_of(triples[i].id.as_str());
        let ghost before = chars_view(out@);
        // first position whose entry is not below x
        let mut k: usize = 0;
        while k < out.len() && chars_lt(&out[k], &x)
            invariant
                k <= out.len(),
                before == chars_view(out@),
                forall|m: int| 0 <= m < k ==> seq_lt(#[trigger] before[m], x@),
            decreases out.len() - k,
        {
            k = k + 1;
        }
        let dup = k < out.len() && seq_eq(&out[k], &x);
        proof {
            assert(full.take(i + 1) =~= full.take(i as int).push(full[i as int]));
            assert(full[i as int].id == x@);
            assert forall|y: Seq<char>| has_id(full.take(i + 1), y) <==> (has_id(full.take(i as int), y) || y == x@) by {
                if has_id(full.take(i + 1), y) {
                    let m = choose|m: int| 0 <= m < i + 1 && (#[trigger] full.take(i + 1)[m]).id == y;
                    if m < i {
                        assert(full.take(i as int)[m] == full.take(i + 1)[m]);
                    }
                }
                if has_id(full.take(i as int), y) {
                    let m = choose|m: int| 0 <= m < i && (#[trigger] full.take(i as int)[m]).id == y;
                    assert(full.take(i + 1)[m] == full.take(i as int)[m]);
                }
                if y == x@ {
                    assert(full.take(i + 1)[i as int].id == y);
                }
            }
        }
        if !dup {
            out.insert(k, x);
            proof {
                let after = chars_view(out@);
                assert(after =~= before.take(k as int).push(x@) + before.skip(k as int));
                if k < before.len() {
                    lemma_seq_lt_total(before[k as int], x@);
                    assert(seq_lt(x@, before[k as int]));
                }
                assert forall|a: int, b: int| 0 <= a < b < after.len() implies seq_lt(#[trigger] after[a], #[trigger] after[b]) by {
                    if b < k {
                        assert(after[a] == before[a] && after[b] == before[b]);
                    } else if b == k {
                        assert(after[a] == before[a]);
                    } else if a == k {
                        assert(after[b] == before[b - 1]);
                        if b - 1 > k {
                            assert(seq_lt(before[k as int], before[b - 1]));
                            lemma_seq_lt_transitive(x@, before[k as int], before[b - 1]);
                        }
                    } else if a < k {
                        assert(after[a] == before[a] && after[b] == before[b - 1]);
                        assert(seq_lt(before[a], x@));
                        if b - 1 >= k {
                            assert(a < b - 1);
                        }
                    } else {
                        assert(after[a] == before[a - 1] && after[b] == before[b - 1]);
                    }
                }
                assert forall|y: Seq<char>| after.contains(y) <==> (before.contains(y) || y == x@) by {
                    if after.contains(y) {
                        let m = choose|m: int| 0 <= m < after.len() && after[m] == y;
                        if m < k {
                            assert(before[m] == y);
                        } else if m > k {
                            assert(before[m - 1] == y);
                        }
                    }
                    if before.contains(y) {
                        let m = choose|m: int| 0 <= m < before.len() && before[m] == y;
                        if m < k {
                            assert(after[m] == y);
                        } else {
                            assert(after[m + 1] == y);
                        }
                    }
                    if y == x@ {
                        assert(after[k as int] == y);
                    }
                }
            }
        } else {
            proof {
                assert(before[k as int] == x@);
                assert(before.contains(x@));
            }
        }
        proof {
            assert forall|y: Seq<char>| chars_view(out@).contains(y) <==> has_id(full.take(i + 1), y) by {
                assert(before.contains(y) <==> has_id(full.take(i as int), y));
                assert(has_id(full.take(i + 1), y) <==> (has_id(full.take(i as int), y) || y == x@));
                if dup {
                    assert(chars_view(out@) == before);
                    assert(before[k as int] == x@);
                    assert(before.contains(x@));
                } else {
                    assert(chars_view(out@).contains(y) <==> (before.contains(y) || y == x@));
                }
            }
        }
        i = i + 1;
    }
    proof {
        assert(full.take(triples.len() as int) =~= full);
    }
    out
}

/// Whether the sorted list `ids` holds `x`.
fn holds(ids: &Vec<Vec<char>>, x: &Vec<char>) -> (r: bool)
    ensures
        r == chars_view(ids@).contains(x@),
{
    let mut i: usize = 0;
    while i < ids.len()
        invariant
            i <= ids.len(),
            forall|m: int| 0 <= m < i ==> (#[trigger] chars_view(ids@)[m]) != x@,
        decreases ids.len() - i,
    {
        if seq_eq(&ids[i], x) {
            proof {
                assert(chars_view(ids@)[i as int] == x@);
            }
            return true;
        }
        i = i + 1;
    }
    false
}

/// Whether [`make_plan`] is defined on these sets: no id present on both sides pairs a live
/// local row with a remote tombstone whose version leaves no room for the undelete threshold.
pub fn plan_is_defined(local: &[VersionTriple], remote: &[VersionTriple]) -> (r: bool)
    ensures
        r == plan_defined(triples_view(local@), triples_view(remote@)),
{
    let ghost lv = triples_view(local@);
    let ghost rv = triples_view(remote@);
    let mut i: usize = 0;
    while i < local.len()
        invariant
            i <= local.len(),
            lv == triples_view(local@),
            rv == triples_view(remote@),
            forall|k: int| 0 <= k < i ==> has_id(rv, #[trigger] lv[k].id) ==> reconcile_defined(
                last_for(lv, lv[k].id).deleted,
                last_for(rv, lv[k].id).version as int,
                last_for(rv, lv[k].id).deleted,
            ),
        decreases local.len() - i,
    {
        let id = chars_of(local[i].id.as_str());
        proof {
            assert(lv[i as int].id == local@[i as int].id@);
        }
        match find_last(remote, &id) {
            Some((rv_version, rv_deleted)) => {
                match find_last(local, &id) {
                    Some((_, lv_deleted)) => {
                        if rv_deleted && !lv_deleted && rv_version > i64::MAX - 1000 {
                            proof {
                                assert(has_id(lv, lv[i as int].id));
                            }
                            return false;
                        }
                    },
                    None => {
                        proof {
                            assert(has_id(lv, lv[i as int].id));
                        }
                    },
                }
            },
            None => {},
        }
        i = i + 1;
    }
    proof {
        assert forall|id: Seq<char>| has_id(lv, id) && has_id(rv, id) implies reconcile_defined(
            #[trigger] last_for(lv, id).deleted,
            last_for(rv, id).version as int,
            last_for(rv, id).deleted,
        ) by {
            let k = choose|k: int| 0 <= k < lv.len() && (#[trigger] lv[k]).id == id;
            assert(has_id(rv, lv[k].id));
        }
    }
    true
}

/// Build a deterministic plan from local + remote version sets.
pub fn make_plan(local: &[VersionTriple], remote: &[VersionTriple]) -> (plan: ReconcilePlan)
    requires
        plan_defined(triples_view(local@), triples_view(remote@)),
    ensures
        plan_for(plan, triples_view(local@), triples_view(remote@)),
{
    let ghost lv = triples_view(local@);
    let ghost rv = triples_view(remote@);
    let local_ids = sorted_ids(local);
    let remote_ids = sorted_ids(remote);
    let ghost ls = chars_view(local_ids@);
    let ghost rs = chars_view(remote_ids@);
    let ghost p_adopt = bucket_pred(lv, rv, ReconcileAction::AdoptTombstone);
    let ghost p_pull = bucket_pred(lv, rv, ReconcileAction::Pull);
    let ghost p_push = bucket_pred(lv, rv, ReconcileAction::Push);
    let ghost p_skip = bucket_pred(lv, rv, ReconcileAction::Skip);
    let ghost p_cr = only_in(lv, rv);
    let ghost p_cl = only_in(rv, lv);

    let mut plan = ReconcilePlan {
        adopt_tombstone: Vec::new(),
        pull: Vec::new(),
        push: Vec::new(),
        skip: Vec::new(),
        create_local: Vec::new(),
        create_remote: Vec::new(),
    };
    let mut i: usize = 0;
    while i < local_ids.len()
        invariant
            i <= local_ids.len(),
            lv == triples_view(local@),
            rv == triples_view(remote@),
            ls == chars_view(local_ids@),
            rs == chars_view(remote_ids@),
            plan_defined(lv, rv),
            forall|x: Seq<char>| ls.contains(x) <==> has_id(lv, x),
            forall|x: Seq<char>| rs.contains(x) <==> has_id(rv, x),
            p_adopt == bucket_pred(lv, rv, ReconcileAction::AdoptTombstone),
            p_pull == bucket_pred(lv, rv, ReconcileAction::Pull),
            p_push == bucket_pred(lv, rv, ReconcileAction::Push),
            p_skip == bucket_pred(lv, rv, ReconcileAction::Skip),
            p_cr == only_in(lv, rv),
            strings_view(plan.adopt_tombstone@) == ls.take(i as int).filter(p_adopt),
            strings_view(plan.pull@) == ls.take(i as int).filter(p_pull),
            strings_view(plan.push@) == ls.take(i as int).filter(p_push),
            strings_view(plan.skip@) == ls.take(i as int).filter(p_skip),
            strings_view(plan.create_remote@) == ls.take(i as int).filter(p_cr),
            plan.create_local@.len() == 0,
        decreases local_ids.len() - i,
    {
        let id = &local_ids[i];
        let ghost x = id@;
        proof {
            assert(ls[i as int] == x);
            assert(ls.contains(x));
            assert(ls.take(i + 1) =~= ls.take(i as int).push(x));
            lemma_filter_push(ls.take(i as int), x, p_adopt);
            lemma_filter_push(ls.take(i as int), x, p_pull);
            lemma_filter_push(ls.take(i as int), x, p_push);
            lemma_filter_push(ls.take(i as int), x, p_skip);
            lemma_filter_push(ls.take(i as int), x, p_cr);
        }
        let name = string_from_chars(id.as_slice());
        if holds(&remote_ids, id) {
            let lt = find_last(local, id.as_slice());
            let rt = find_last(remote, id.as_slice());
            let (lver, ldel) = lt.unwrap();
            let (rver, rdel) = rt.unwrap();
            proof {
                assert(has_id(lv, x) && has_id(rv, x));
                assert(reconcile_defined(last_for(lv, x).deleted, last_for(rv, x).version as int, last_for(rv, x).deleted));
            }
            let action = determine_reconcile_action(lver, ldel, rver, rdel);
            match action {
                ReconcileAction::AdoptTombstone => plan.adopt_tombstone.push(name),
                ReconcileAction::Pull => plan.pull.push(name),
                ReconcileAction::Push => plan.push.push(name),
                ReconcileAction::Skip => plan.skip.push(name),
            }
            proof {
                assert(planned_action(lv, rv, x) == action);
            }
        } else {
            plan.create_remote.push(name);
        }
        proof {
            assert(strings_view(plan.adopt_tombstone@) =~= ls.take(i + 1).filter(p_adopt));
            assert(strings_view(plan.pull@) =~= ls.take(i + 1).filter(p_pull));
            assert(strings_view(plan.push@) =~= ls.take(i + 1).filter(p_push));
            assert(strings_view(plan.skip@) =~= ls.take(i + 1).filter(p_skip));
            assert(strings_view(plan.create_remote@) =~= ls.take(i + 1).filter(p_cr));
        }
        i = i + 1;
    }
    let mut create_local: Vec<String> = Vec::new();
    let mut j: usize = 0;
    while j < remote_ids.len()
        invariant
            j <= remote_ids.len(),
            lv == triples_view(local@),
            rv == triples_view(remote@),
            ls == chars_view(local_ids@),
            rs == chars_view(remote_ids@),
            forall|x: Seq<char>| ls.contains(x) <==> has_id(lv, x),
            forall|x: Seq<char>| rs.contains(x) <==> has_id(rv, x),
            p_cl == only_in(rv, lv),
            strings_view(create_local@) == rs.take(j as int).filter(p_cl),
        decreases remote_ids.len() - j,
    {
        let id = &remote_ids[j];
        let ghost x = id@;
        proof {
            assert(rs[j as int] == x);
            assert(rs.contains(x));
            assert(rs.take(j + 1) =~= rs.take(j as int).push(x));
            lemma_filter_push(rs.take(j as int), x, p_cl);
        }
        if !holds(&local_ids, id) {
            create_local.push(string_from_chars(id.as_slice()));
        }
        proof {
            assert(strings_view(create_local@) =~= rs.take(j + 1).filter(p_cl));
        }
        j = j + 1;
    }
    plan.create_local = create_local;
    proof {
        assert(ls.take(ls.len() as int) =~= ls);
        assert(rs.take(rs.len() as int) =~= rs);
        lemma_listing(ls, p_adopt);
        lemma_listing(ls, p_pull);
        lemma_listing(ls, p_push);
        lemma_listing(ls, p_skip);
        lemma_listing(ls, p_cr);
        lemma_listing(rs, p_cl);
        lemma_listing_of(ls, p_adopt, lv);
        lemma_listing_of(ls, p_pull, lv);
        lemma_listing_of(ls, p_push, lv);
        lemma_listing_of(ls, p_skip, lv);
        lemma_listing_of(ls, p_cr, lv);
        lemma_listing_of(rs, p_cl, rv);
    }
    plan
}

/// Filtering the sorted ids of `t` by a predicate that implies membership in `t` lists
/// exactly the ids that satisfy it.
proof fn lemma_listing_of(s: Seq<Seq<char>>, p: spec_fn(Seq<char>) -> bool, t: Seq<TripleView>)
    requires
        strictly_sorted(s),
        forall|x: Seq<char>| s.contains(x) <==> has_id(t, x),
        forall|x: Seq<char>| #[trigger] p(x) ==> has_id(t, x),
    ensures
        sorted_listing(s.filter(p), p),
{
    lemma_filter_sorted(s, p);
    assert forall|x: Seq<char>| s.filter(p).contains(x) <==> p(x) by {
        lemma_filter_contains_iff(s, p, x);
    }
}

/// A filtered sorted listing stays sorted.
proof fn lemma_listing(s: Seq<Seq<char>>, p: spec_fn(Seq<char>) -> bool)
    requires
        strictly_sorted(s),
    ensures
        strictly_sorted(s.filter(p)),
{
    lemma_filter_sorted(s, p);
}

} // verus!
