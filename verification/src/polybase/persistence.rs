//! The local-mirror vocabulary the sync engine reads: a row's version state, and the no-op
//! store used where no mirror is wanted.

use vstd::prelude::*;
use crate::polybase::reconcile::{TripleView, VersionTriple};

verus! {

/// One row's `(id, version, deleted)` triple, the minimum reconcile decisions need.
#[derive(Debug, PartialEq, Eq)]
pub struct VersionRow {
    /// Primary key of the row.
    pub id: String,
    /// Current version (monotonic per the contract).
    pub version: i64,
    /// True for soft-deleted (tombstoned) rows.
    pub deleted: bool,
}

impl VersionRow {
    /// The reconcile input for this row.
    pub fn to_triple(&self) -> (r: VersionTriple)
        ensures
            r@ == (TripleView { id: self.id@, version: self.version, deleted: self.deleted }),
    {
        VersionTriple::new(self.id.as_str(), self.version, self.deleted)
    }
}

/// A local store that keeps nothing: every read finds nothing and every write succeeds.
#[derive(Debug, Default, Clone, Copy)]
pub struct NullLocalStore;

} // verus!
