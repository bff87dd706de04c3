//! Entity registration: column field-mapping (canonical / local / remote names and types,
//! encryption flags), parent relations, the write-path policy, and schema drift validation.

pub mod schema;

use vstd::prelude::*;
use crate::polybase::assoc::{assoc_distinct, assoc_view, lemma_assoc_dom, lemma_assoc_index, lemma_assoc_len, AssocList};
use crate::polybase::reconcile::strings_view;
use crate::polybase::encryption::{aead_max_plaintext, decrypted_text, user_key_uuid, DecryptFailure, Encryption, UserUuid};
use crate::polybase::errors::RegistryError;
use crate::text::has_prefix;
use vstd::utf8::encode_utf8;
use crate::polybase::record::{FieldValue, FieldView, Record};
use crate::polybase::registry::schema::{columns_map, find_table, normalize_type, normalized_type, ColumnShape, SchemaSnapshot, TableShape};
use crate::text::{push_str, str_eq};

verus! {

/// Whether an entity is synced to Supabase or strictly local-only.
#[derive(Debug, Clone, Copy, PartialEq, Eq, Structural)]
pub enum TableScope {
    /// Bidirectional sync with Supabase via PostgREST or Edge Function.
    Synced,
    /// Lives only in the local mirror (e.g. sync metadata, drafts).
    LocalOnly,
}

/// Where mutations for this entity are published to.
#[derive(Debug, Clone, Copy)]
pub enum WritePath {
    /// PostgREST upsert with the user JWT against `{rest_url}/rest/v1/{table}`.
    PostgREST,
    /// Edge Function call to `{functions_url}/functions/v1/{function}/v1/{op}`.
    Edge {
        /// Edge Function name, e.g. `messages-write`.
        function: &'static str,
        /// Default operation when none is specified by the caller (e.g. `create`).
        default_op: &'static str,
    },
}

/// One column definition with field-mapping metadata.
#[derive(Debug, Clone, Copy)]
pub struct ColumnDef {
    /// Stable canonical name used internally and across platforms (e.g. `created_at`).
    pub canonical_name: &'static str,
    /// Local mirror column name. Same as canonical unless there is intentional drift.
    pub local_name: &'static str,
    /// Remote PostgREST column name. `None` means the column is local-only.
    pub remote_name: Option<&'static str>,
    /// Local SQL column type (e.g. `TEXT`, `INTEGER`).
    pub sql_type: &'static str,
    /// Remote PostgREST column type (e.g. `string`, `integer`, `boolean`).
    pub remote_type: Option<&'static str>,
    /// True when this column is encrypted/decrypted at the registry boundary.
    pub encrypted: bool,
}

impl ColumnDef {
    /// Define a column that is both stored locally and synced to Supabase.
    pub fn synced(
        canonical_name: &'static str,
        local_name: &'static str,
        remote_name: &'static str,
        sql_type: &'static str,
        remote_type: &'static str,
        encrypted: bool,
    ) -> (r: Self)
        ensures
            r == (ColumnDef {
                canonical_name,
                local_name,
                remote_name: Some(remote_name),
                sql_type,
                remote_type: Some(remote_type),
                encrypted,
            }),
    {
        ColumnDef {
            canonical_name,
            local_name,
            remote_name: Some(remote_name),
            sql_type,
            remote_type: Some(remote_type),
            encrypted,
        }
    }

    /// Define a column that lives only in the local mirror.
    pub fn local_only(name: &'static str, sql_type: &'static str) -> (r: Self)
        ensures
            r == (ColumnDef {
                canonical_name: name,
                local_name: name,
                remote_name: None,
                sql_type,
                remote_type: None,
                encrypted: false,
            }),
    {
        ColumnDef { canonical_name: name, local_name: name, remote_name: None, sql_type, remote_type: None, encrypted: false }
    }

    /// The effective remote name: the remote name, or the canonical name when there is none.
    pub open spec fn remote_or_canonical(self) -> &'static str {
        match self.remote_name {
            Some(n) => n,
            None => self.canonical_name,
        }
    }

    /// Resolve the effective remote name, falling back to canonical when not overridden.
    pub fn effective_remote_name(&self) -> (r: &'static str)
        ensures
            r == self.remote_or_canonical(),
    {
        match self.remote_name {
            Some(n) => n,
            None => self.canonical_name,
        }
    }
}

/// Parent-child link enabling hierarchy bumping (e.g. message changes bump conversation).
#[derive(Debug, Clone, Copy)]
pub struct ParentRelation {
    /// Parent table name.
    pub parent_table: &'static str,
    /// Local column on the child row that holds the parent id.
    pub parent_id_column: &'static str,
}

impl ParentRelation {
    /// Build a parent-child relation.
    pub fn new(parent_table: &'static str, parent_id_column: &'static str) -> (r: Self)
        ensures
            r == (ParentRelation { parent_table, parent_id_column }),
    {
        ParentRelation { parent_table, parent_id_column }
    }
}

/// Configuration for one registered entity.
#[derive(Debug)]
pub struct EntityConfig {
    /// Remote table name (also used as local mirror table name).
    pub table_name: &'static str,
    /// Stable type name. Required for synced entities.
    pub entity_type_name: Option<&'static str>,
    /// Column definitions in declaration order.
    pub columns: Vec<ColumnDef>,
    /// Optional parent relation for hierarchy bumping.
    pub parent_relation: Option<ParentRelation>,
    /// Column on the remote row that holds the active user's id (default `user_id`).
    pub user_id_column: Option<&'static str>,
    /// True when push payloads should automatically include the user id.
    pub include_user_id: bool,
    /// Synced or local-only.
    pub scope: TableScope,
    /// PostgREST or Edge Function for mutations.
    pub write_path: WritePath,
    /// Comma-separated column list used as the `on_conflict=` target of PostgREST upserts.
    pub conflict_target: &'static str,
}

/// The value of an [`EntityConfig`], its column list as a sequence.
pub struct ConfigView {
    /// Table name.
    pub table_name: &'static str,
    /// Type name.
    pub entity_type_name: Option<&'static str>,
    /// Columns in declaration order.
    pub columns: Seq<ColumnDef>,
    /// Parent relation.
    pub parent_relation: Option<ParentRelation>,
    /// User-id column.
    pub user_id_column: Option<&'static str>,
    /// Whether payloads get the user id.
    pub include_user_id: bool,
    /// Synced or local-only.
    pub scope: TableScope,
    /// Write path.
    pub write_path: WritePath,
    /// Upsert conflict target.
    pub conflict_target: &'static str,
}

impl View for EntityConfig {
    type V = ConfigView;

    open spec fn view(&self) -> ConfigView {
        ConfigView {
            table_name: self.table_name,
            entity_type_name: self.entity_type_name,
            columns: self.columns@,
            parent_relation: self.parent_relation,
            user_id_column: self.user_id_column,
            include_user_id: self.include_user_id,
            scope: self.scope,
            write_path: self.write_path,
            conflict_target: self.conflict_target,
        }
    }
}

/// Canonical names of the columns, in order.
pub open spec fn canonical_names(cols: Seq<ColumnDef>) -> Seq<&'static str> {
    cols.map_values(|c: ColumnDef| c.canonical_name)
}

/// Local names of the columns, in order.
pub open spec fn local_names(cols: Seq<ColumnDef>) -> Seq<&'static str> {
    cols.map_values(|c: ColumnDef| c.local_name)
}

/// Remote names of the synced columns, in order.
pub open spec fn remote_names(cols: Seq<ColumnDef>) -> Seq<&'static str>
    decreases cols.len(),
{
    if cols.len() == 0 {
        Seq::empty()
    } else {
        match cols.last().remote_name {
            Some(n) => remote_names(cols.drop_last()).push(n),
            None => remote_names(cols.drop_last()),
        }
    }
}

/// Canonical names of the encrypted columns, in order.
pub open spec fn encrypted_names(cols: Seq<ColumnDef>) -> Seq<&'static str>
    decreases cols.len(),
{
    if cols.len() == 0 {
        Seq::empty()
    } else if cols.last().encrypted {
        encrypted_names(cols.drop_last()).push(cols.last().canonical_name)
    } else {
        encrypted_names(cols.drop_last())
    }
}

/// The user-id column that payloads carry, if any.
pub open spec fn injected_user_column(c: ConfigView) -> Option<&'static str> {
    if c.include_user_id { c.user_id_column } else { None }
}

/// A record keyed by remote names, translated to local names: each synced column whose
/// remote name is present contributes its value under its local name.
pub open spec fn remote_to_local(cols: Seq<ColumnDef>, remote: Map<Seq<char>, FieldView>) -> Map<Seq<char>, FieldView>
    decreases cols.len(),
{
    if cols.len() == 0 {
        Map::empty()
    } else {
        let prev = remote_to_local(cols.drop_last(), remote);
        let c = cols.last();
        match c.remote_name {
            Some(rn) => if remote.contains_key(rn@) { prev.insert(c.local_name@, remote[rn@]) } else { prev },
            None => prev,
        }
    }
}

/// A record keyed by local names, translated to remote names: local-only columns are dropped.
pub open spec fn local_to_remote(cols: Seq<ColumnDef>, local: Map<Seq<char>, FieldView>) -> Map<Seq<char>, FieldView>
    decreases cols.len(),
{
    if cols.len() == 0 {
        Map::empty()
    } else {
        let prev = local_to_remote(cols.drop_last(), local);
        let c = cols.last();
        match c.remote_name {
            Some(rn) => if local.contains_key(c.local_name@) { prev.insert(rn@, local[c.local_name@]) } else { prev },
            None => prev,
        }
    }
}

impl EntityConfig {
    /// Builder entry for a synced entity (default write path: PostgREST).
    pub fn synced(table: &'static str, entity_type: &'static str) -> (r: Self)
        ensures
            r@ == (ConfigView {
                table_name: table,
                entity_type_name: Some(entity_type),
                columns: Seq::empty(),
                parent_relation: None,
                user_id_column: Some("user_id"),
                include_user_id: true,
                scope: TableScope::Synced,
                write_path: WritePath::PostgREST,
                conflict_target: "id",
            }),
    {
        EntityConfig {
            table_name: table,
            entity_type_name: Some(entity_type),
            columns: Vec::new(),
            parent_relation: None,
            user_id_column: Some("user_id"),
            include_user_id: true,
            scope: TableScope::Synced,
            write_path: WritePath::PostgREST,
            conflict_target: "id",
        }
    }

    /// Builder entry for a local-only entity.
    pub fn local_only(table: &'static str) -> (r: Self)
        ensures
            r@ == (ConfigView {
                table_name: table,
                entity_type_name: None,
                columns: Seq::empty(),
                parent_relation: None,
                user_id_column: None,
                include_user_id: false,
                scope: TableScope::LocalOnly,
                write_path: WritePath::PostgREST,
                conflict_target: "id",
            }),
    {
        EntityConfig {
            table_name: table,
            entity_type_name: None,
            columns: Vec::new(),
            parent_relation: None,
            user_id_column: None,
            include_user_id: false,
            scope: TableScope::LocalOnly,
            write_path: WritePath::PostgREST,
            conflict_target: "id",
        }
    }

    /// Append a single column definition.
    pub fn column(self, column: ColumnDef) -> (r: Self)
        ensures
            r@ == (ConfigView { columns: self@.columns.push(column), ..self@ }),
    {
        let mut s = self;
        s.columns.push(column);
        s
    }

    /// Append several column definitions, in order.
    pub fn columns(self, columns: &[ColumnDef]) -> (r: Self)
        ensures
            r@ == (ConfigView { columns: self@.columns + columns@, ..self@ }),
    {
        let mut s = self;
        let ghost start = s.columns@;
        let mut i: usize = 0;
        while i < columns.len()
            invariant
                i <= columns@.len(),
                s@ == (ConfigView { columns: start + columns@.take(i as int), ..self@ }),
            decreases columns.len() - i,
        {
            s.columns.push(columns[i]);
            proof {
                assert(start + columns@.take(i + 1) =~= (start + columns@.take(i as int)).push(columns@[i as int]));
            }
            i = i + 1;
        }
        proof {
            assert(columns@.take(columns@.len() as int) =~= columns@);
        }
        s
    }

    /// Attach a parent relation (used for hierarchy bumping).
    pub fn parent(self, relation: ParentRelation) -> (r: Self)
        ensures
            r@ == (ConfigView { parent_relation: Some(relation), ..self@ }),
    {
        let mut s = self;
        s.parent_relation = Some(relation);
        s
    }

    /// Override the default `user_id` column name for this entity.
    pub fn user_id_column(self, column: &'static str) -> (r: Self)
        ensures
            r@ == (ConfigView { user_id_column: Some(column), ..self@ }),
    {
        let mut s = self;
        s.user_id_column = Some(column);
        s
    }

    /// Toggle whether push payloads automatically include the active user id.
    pub fn include_user_id(self, enabled: bool) -> (r: Self)
        ensures
            r@ == (ConfigView { include_user_id: enabled, ..self@ }),
    {
        let mut s = self;
        s.include_user_id = enabled;
        s
    }

    /// The error of turning a remote row into a typed entity when no factory is registered
    /// for this entity.
    pub fn missing_factory_error(&self) -> (r: RegistryError)
        ensures
            r matches RegistryError::FactoryFailed { table, message } && table@ == self.table_name@
                && message@ == "no factory registered"@,
    {
        RegistryError::FactoryFailed { table: self.table_name.to_owned(), message: "no factory registered".to_owned() }
    }

    /// Route writes for this entity through an Edge Function instead of direct PostgREST.
    pub fn write_via_edge(self, function: &'static str, default_op: &'static str) -> (r: Self)
        ensures
            r@ == (ConfigView { write_path: WritePath::Edge { function, default_op }, ..self@ }),
    {
        let mut s = self;
        s.write_path = WritePath::Edge { function, default_op };
        s
    }

    /// Override the comma-separated `on_conflict=` columns sent on PostgREST upserts.
    pub fn conflict_target(self, target: &'static str) -> (r: Self)
        ensures
            r@ == (ConfigView { conflict_target: target, ..self@ }),
    {
        let mut s = self;
        s.conflict_target = target;
        s
    }

    /// A copy of this configuration.
    pub fn duplicate(&self) -> (r: Self)
        ensures
            r@ == self@,
    {
        let mut cols: Vec<ColumnDef> = Vec::new();
        let mut i: usize = 0;
        while i < self.columns.len()
            invariant
                i <= self.columns@.len(),
                cols@ == self.columns@.take(i as int),
            decreases self.columns.len() - i,
        {
            cols.push(self.columns[i]);
            proof {
                assert(self.columns@.take(i + 1) =~= self.columns@.take(i as int).push(self.columns@[i as int]));
            }
            i = i + 1;
        }
        proof {
            assert(self.columns@.take(self.columns@.len() as int) =~= self.columns@);
        }
        EntityConfig {
            table_name: self.table_name,
            entity_type_name: self.entity_type_name,
            columns: cols,
            parent_relation: self.parent_relation,
            user_id_column: self.user_id_column,
            include_user_id: self.include_user_id,
            scope: self.scope,
            write_path: self.write_path,
            conflict_target: self.conflict_target,
        }
    }

    /// Canonical names of every registered column.
    pub fn column_names(&self) -> (r: Vec<&'static str>)
        ensures
            r@ == canonical_names(self.columns@),
    {
        let mut out: Vec<&'static str> = Vec::new();
        let mut i: usize = 0;
        while i < self.columns.len()
            invariant
                i <= self.columns@.len(),
                out@ == canonical_names(self.columns@.take(i as int)),
            decreases self.columns.len() - i,
        {
            out.push(self.columns[i].canonical_name);
            proof {
                assert(canonical_names(self.columns@.take(i + 1)) =~= canonical_names(self.columns@.take(i as int)).push(self.columns@[i as int].canonical_name));
            }
            i = i + 1;
        }
        proof {
            assert(self.columns@.take(self.columns@.len() as int) =~= self.columns@);
        }
        out
    }

    /// Local mirror names of every registered column.
    pub fn local_column_names(&self) -> (r: Vec<&'static str>)
        ensures
            r@ == local_names(self.columns@),
    {
        let mut out: Vec<&'static str> = Vec::new();
        let mut i: usize = 0;
        while i < self.columns.len()
            invariant
                i <= self.columns@.len(),
                out@ == local_names(self.columns@.take(i as int)),
            decreases self.columns.len() - i,
        {
            out.push(self.columns[i].local_name);
            proof {
                assert(local_names(self.columns@.take(i + 1)) =~= local_names(self.columns@.take(i as int)).push(self.columns@[i as int].local_name));
            }
            i = i + 1;
        }
        proof {
            assert(self.columns@.take(self.columns@.len() as int) =~= self.columns@);
        }
        out
    }

    /// Remote column names of every synced column, plus the user-id column when payloads
    /// carry it.
    pub fn remote_column_names(&self) -> (r: Vec<&'static str>)
        ensures
            r@ == match injected_user_column(self@) {
                Some(u) => remote_names(self.columns@).push(u),
                None => remote_names(self.columns@),
            },
    {
        let mut out: Vec<&'static str> = Vec::new();
        let mut i: usize = 0;
        while i < self.columns.len()
            invariant
                i <= self.columns@.len(),
                out@ == remote_names(self.columns@.take(i as int)),
            decreases self.columns.len() - i,
        {
            proof {
                assert(self.columns@.take(i + 1).drop_last() =~= self.columns@.take(i as int));
            }
            match self.columns[i].remote_name {
                Some(n) => out.push(n),
                None => {},
            }
            i = i + 1;
        }
        proof {
            assert(self.columns@.take(self.columns@.len() as int) =~= self.columns@);
        }
        if self.include_user_id {
            match self.user_id_column {
                Some(u) => out.push(u),
                None => {},
            }
        }
        out
    }

    /// Canonical names of every encrypted column.
    pub fn encrypted_columns(&self) -> (r: Vec<&'static str>)
        ensures
            r@ == encrypted_names(self.columns@),
    {
        let mut out: Vec<&'static str> = Vec::new();
        let mut i: usize = 0;
        while i < self.columns.len()
            invariant
                i <= self.columns@.len(),
                out@ == encrypted_names(self.columns@.take(i as int)),
            decreases self.columns.len() - i,
        {
            proof {
                assert(self.columns@.take(i + 1).drop_last() =~= self.columns@.take(i as int));
            }
            if self.columns[i].encrypted {
                out.push(self.columns[i].canonical_name);
            }
            i = i + 1;
        }
        proof {
            assert(self.columns@.take(self.columns@.len() as int) =~= self.columns@);
        }
        out
    }

    /// True when this entity participates in remote sync.
    pub fn is_synced(&self) -> (r: bool)
        ensures
            r == (self.scope == TableScope::Synced),
    {
        self.scope == TableScope::Synced
    }

    /// Translate a record keyed by remote column names into one keyed by local column names,
    /// dropping fields that are not registered.
    pub fn map_remote_to_local(&self, remote: &Record) -> (r: Record)
        ensures
            r@ == remote_to_local(self.columns@, remote@),
    {
        let mut local = Record::new();
        let mut i: usize = 0;
        while i < self.columns.len()
            invariant
                i <= self.columns@.len(),
                local@ == remote_to_local(self.columns@.take(i as int), remote@),
            decreases self.columns.len() - i,
        {
            proof {
                assert(self.columns@.take(i + 1).drop_last() =~= self.columns@.take(i as int));
            }
            let column = self.columns[i];
            match column.remote_name {
                Some(rn) => match remote.get(rn) {
                    Some(v) => local.insert(column.local_name, v.duplicate()),
                    None => {},
                },
                None => {},
            }
            i = i + 1;
        }
        proof {
            assert(self.columns@.take(self.columns@.len() as int) =~= self.columns@);
        }
        local
    }

    /// Translate a record keyed by local column names into one keyed by remote column names.
    /// Local-only columns are dropped.
    pub fn map_local_to_remote(&self, local: &Record) -> (r: Record)
        ensures
            r@ == local_to_remote(self.columns@, local@),
    {
        let mut remote = Record::new();
        let mut i: usize = 0;
        while i < self.columns.len()
            invariant
                i <= self.columns@.len(),
                remote@ == local_to_remote(self.columns@.take(i as int), local@),
            decreases self.columns.len() - i,
        {
            proof {
                assert(self.columns@.take(i + 1).drop_last() =~= self.columns@.take(i as int));
            }
            let column = self.columns[i];
            match column.remote_name {
                Some(rn) => match local.get(column.local_name) {
                    Some(v) => remote.insert(rn, v.duplicate()),
                    None => {},
                },
                None => {},
            }
            i = i + 1;
        }
        proof {
            assert(self.columns@.take(self.columns@.len() as int) =~= self.columns@);
        }
        remote
    }
}

/// Which side of the sync a schema snapshot describes.
#[derive(Debug, Clone, Copy, PartialEq, Eq, Structural)]
pub enum SchemaLocation {
    /// The local SQLite mirror: every registered table, by local names and SQL types.
    Local,
    /// The remote schema: synced tables only, by remote names and remote types.
    Remote,
}

/// The `(name, type)` pairs of the synced columns, a missing remote type read as `unknown`.
pub open spec fn remote_pairs(cols: Seq<ColumnDef>) -> Seq<(Seq<char>, Seq<char>)>
    decreases cols.len(),
{
    if cols.len() == 0 {
        Seq::empty()
    } else {
        let c = cols.last();
        match c.remote_name {
            Some(n) => remote_pairs(cols.drop_last()).push((n@, match c.remote_type { Some(t) => t@, None => "unknown"@ })),
            None => remote_pairs(cols.drop_last()),
        }
    }
}

/// The `(name, type)` pairs a table must have on the given side.
pub open spec fn expected_columns(c: ConfigView, location: SchemaLocation) -> Seq<(Seq<char>, Seq<char>)> {
    match location {
        SchemaLocation::Local => c.columns.map_values(|col: ColumnDef| (col.local_name@, col.sql_type@)),
        SchemaLocation::Remote => match injected_user_column(c) {
            Some(u) => remote_pairs(c.columns).push((u@, "string"@)),
            None => remote_pairs(c.columns),
        },
    }
}

/// The drift issues of one table's expected columns against its actual name → type map.
pub open spec fn column_issues(table: Seq<char>, expected: Seq<(Seq<char>, Seq<char>)>, actual: Map<Seq<char>, Seq<char>>) -> Seq<Seq<char>>
    decreases expected.len(),
{
    if expected.len() == 0 {
        Seq::empty()
    } else {
        let prev = column_issues(table, expected.drop_last(), actual);
        let (name, ty) = expected.last();
        if !actual.contains_key(name) {
            prev.push("table '"@ + table + "' missing column: "@ + name)
        } else if normalized_type(ty) != normalized_type(actual[name]) {
            prev.push("table '"@ + table + "' column '"@ + name + "' type mismatch: expected "@ + ty + ", found "@ + actual[name])
        } else {
            prev
        }
    }
}

/// The drift issues of one configuration against a snapshot.
pub open spec fn config_issues(c: ConfigView, tables: Seq<(String, TableShape)>, location: SchemaLocation) -> Seq<Seq<char>> {
    match find_table(tables, c.table_name@) {
        None => seq!["missing table: "@ + c.table_name@],
        Some(i) => column_issues(c.table_name@, expected_columns(c, location), columns_map(tables[i].1.columns@)),
    }
}

/// Whether a configuration is validated on the given side.
pub open spec fn checked_on(c: ConfigView, location: SchemaLocation) -> bool {
    location == SchemaLocation::Local || c.scope == TableScope::Synced
}

/// The drift issues of every configuration checked on the given side, in order.
pub open spec fn schema_issues(configs: Seq<ConfigView>, tables: Seq<(String, TableShape)>, location: SchemaLocation) -> Seq<Seq<char>>
    decreases configs.len(),
{
    if configs.len() == 0 {
        Seq::empty()
    } else {
        let prev = schema_issues(configs.drop_last(), tables, location);
        if checked_on(configs.last(), location) {
            prev + config_issues(configs.last(), tables, location)
        } else {
            prev
        }
    }
}

/// The column shapes the remote schema is expected to have for a synced configuration.
pub open spec fn expected_remote_shape(c: ConfigView) -> Seq<(Seq<char>, Seq<char>)> {
    expected_columns(c, SchemaLocation::Remote)
}

/// The `(table, columns)` entries of the expected remote snapshot, in order.
pub open spec fn remote_snapshot_entries(configs: Seq<ConfigView>) -> Seq<(Seq<char>, Seq<(Seq<char>, Seq<char>)>)>
    decreases configs.len(),
{
    if configs.len() == 0 {
        Seq::empty()
    } else {
        let prev = remote_snapshot_entries(configs.drop_last());
        let c = configs.last();
        if c.scope == TableScope::Synced {
            prev.push((c.table_name@, expected_remote_shape(c)))
        } else {
            prev
        }
    }
}

/// The `(name, type)` pairs of a column-shape list.
pub open spec fn shape_pairs(cols: Seq<ColumnShape>) -> Seq<(Seq<char>, Seq<char>)> {
    cols.map_values(|c: ColumnShape| (c.name@, c.data_type@))
}

/// The `(table, columns)` entries of a snapshot.
pub open spec fn snapshot_entries(tables: Seq<(String, TableShape)>) -> Seq<(Seq<char>, Seq<(Seq<char>, Seq<char>)>)> {
    tables.map_values(|t: (String, TableShape)| (t.0@, shape_pairs(t.1.columns@)))
}

/// Registry of all entities of an app: configurations by type name and by table name, and
/// the type name of every synced table.
pub struct Registry {
    by_type: AssocList<EntityConfig>,
    by_table: AssocList<EntityConfig>,
    table_to_type: AssocList<&'static str>,
}

impl Registry {
    #[verifier::type_invariant]
    spec fn indexes_consistent(&self) -> bool {
        &&& assoc_distinct(self.by_table.entry_list())
        &&& forall|i: int| 0 <= i < self.by_table.entry_list().len()
            ==> #[trigger] self.by_table.entry_list()[i].0 == self.by_table.entry_list()[i].1.table_name
    }

    /// Every registered configuration, once per table, in registration order.
    pub closed spec fn table_order(&self) -> Seq<ConfigView> {
        self.by_table.entry_list().map_values(|e: (&'static str, EntityConfig)| e.1@)
    }

    /// [`Self::table_order`] lists exactly the configurations of [`Self::tables`], each table once.
    pub open spec fn order_matches_tables(&self) -> bool {
        &&& self.table_order().len() == self.tables().dom().len()
        &&& forall|i: int| 0 <= i < self.table_order().len() ==> self.tables().contains_key(#[trigger] self.table_order()[i].table_name@)
            && self.tables()[self.table_order()[i].table_name@] == self.table_order()[i]
        &&& forall|i: int, j: int| 0 <= i < j < self.table_order().len()
            ==> #[trigger] self.table_order()[i].table_name@ != #[trigger] self.table_order()[j].table_name@
    }

    proof fn lemma_order(&self)
        requires
            self.indexes_consistent(),
        ensures
            self.order_matches_tables(),
    {
        let es = self.by_table.entry_list();
        self.by_table.lemma_entry_list();
        lemma_assoc_len(es);
        assert forall|i: int| 0 <= i < self.table_order().len() implies self.tables().contains_key(#[trigger] self.table_order()[i].table_name@)
            && self.tables()[self.table_order()[i].table_name@] == self.table_order()[i] by {
            lemma_assoc_index(es, i);
            assert(es[i].0 == es[i].1.table_name);
        }
        assert forall|i: int, j: int| 0 <= i < j < self.table_order().len()
            implies #[trigger] self.table_order()[i].table_name@ != #[trigger] self.table_order()[j].table_name@ by {
            assert(es[i].0 == es[i].1.table_name);
            assert(es[j].0 == es[j].1.table_name);
        }
    }

    /// Synced configurations by type name.
    pub closed spec fn types(&self) -> Map<Seq<char>, ConfigView> {
        self.by_type@
    }

    /// Every configuration by table name.
    pub closed spec fn tables(&self) -> Map<Seq<char>, ConfigView> {
        self.by_table@
    }

    /// The type name of every synced table.
    pub closed spec fn table_types(&self) -> Map<Seq<char>, Seq<char>> {
        self.table_to_type@
    }

    /// Build an empty registry.
    pub fn new() -> (r: Self)
        ensures
            r.types() == Map::<Seq<char>, ConfigView>::empty(),
            r.tables() == Map::<Seq<char>, ConfigView>::empty(),
            r.table_types() == Map::<Seq<char>, Seq<char>>::empty(),
    {
        Registry { by_type: AssocList::new(), by_table: AssocList::new(), table_to_type: AssocList::new() }
    }

    /// Compare a snapshot of the local SQLite mirror against every registered table, by
    /// local names and SQL types. Returns the drift issues; empty means no drift.
    pub fn validate_local_schema_snapshot(&self, snapshot: &SchemaSnapshot) -> (r: Vec<String>)
        ensures
            self.order_matches_tables(),
            strings_view(r@) == schema_issues(self.table_order(), snapshot.tables@, SchemaLocation::Local),
    {
        self.validate_schema(snapshot, SchemaLocation::Local)
    }

    /// Compare a snapshot of the remote schema against every synced table, by remote names
    /// and types, plus the user-id column where payloads carry it. Returns the drift issues.
    pub fn validate_remote_schema_snapshot(&self, snapshot: &SchemaSnapshot) -> (r: Vec<String>)
        ensures
            self.order_matches_tables(),
            strings_view(r@) == schema_issues(self.table_order(), snapshot.tables@, SchemaLocation::Remote),
    {
        self.validate_schema(snapshot, SchemaLocation::Remote)
    }

    /// The snapshot of the remote shape the registry expects: one table per synced
    /// configuration, with its synced columns (type `unknown` where none is given) and the
    /// user-id column (type `string`) where payloads carry it.
    pub fn build_remote_snapshot_from_registry(&self) -> (r: SchemaSnapshot)
        ensures
            self.order_matches_tables(),
            snapshot_entries(r.tables@) == remote_snapshot_entries(self.table_order()),
    {
        proof {
            use_type_invariant(self);
            self.lemma_order();
        }
        let entries = self.by_table.entries();
        let mut tables: Vec<(String, TableShape)> = Vec::new();
        let mut i: usize = 0;
        while i < entries.len()
            invariant
                i <= entries@.len(),
                entries@ == self.by_table.entry_list(),
                snapshot_entries(tables@) == remote_snapshot_entries(self.table_order().take(i as int)),
            decreases entries.len() - i,
        {
            let config = &entries[i].1;
            proof {
                assert(self.table_order().take(i + 1).drop_last() =~= self.table_order().take(i as int));
                assert(self.table_order()[i as int] == config@);
            }
            if config.is_synced() {
                let expected = expected_columns_exec(config, SchemaLocation::Remote);
                let mut columns: Vec<ColumnShape> = Vec::new();
                let mut k: usize = 0;
                while k < expected.len()
                    invariant
                        k <= expected@.len(),
                        shape_pairs(columns@) == pairs_view(expected@).take(k as int),
                    decreases expected.len() - k,
                {
                    let ghost before_cols = columns@;
                    let shape = ColumnShape::new(expected[k].0, expected[k].1);
                    columns.push(shape);
                    proof {
                        assert(shape_pairs(columns@) =~= shape_pairs(before_cols).push((expected@[k as int].0@, expected@[k as int].1@)));
                        assert(pairs_view(expected@).take(k + 1) =~= pairs_view(expected@).take(k as int).push((expected@[k as int].0@, expected@[k as int].1@)));
                    }
                    k = k + 1;
                }
                proof {
                    assert(pairs_view(expected@).take(expected@.len() as int) =~= pairs_view(expected@));
                }
                let ghost before = tables@;
                tables.push((config.table_name.to_owned(), TableShape::new(columns)));
                proof {
                    assert(snapshot_entries(tables@) =~= snapshot_entries(before).push((config.table_name@, expected_remote_shape(config@))));
                }
            }
            i = i + 1;
        }
        proof {
            assert(self.table_order().take(entries@.len() as int) =~= self.table_order());
        }
        SchemaSnapshot::new(tables)
    }

    fn validate_schema(&self, snapshot: &SchemaSnapshot, location: SchemaLocation) -> (r: Vec<String>)
        ensures
            self.order_matches_tables(),
            strings_view(r@) == schema_issues(self.table_order(), snapshot.tables@, location),
    {
        proof {
            use_type_invariant(self);
            self.lemma_order();
        }
        let entries = self.by_table.entries();
        let mut issues: Vec<String> = Vec::new();
        let mut i: usize = 0;
        while i < entries.len()
            invariant
                i <= entries@.len(),
                entries@ == self.by_table.entry_list(),
                strings_view(issues@) == schema_issues(self.table_order().take(i as int), snapshot.tables@, location),
            decreases entries.len() - i,
        {
            let config = &entries[i].1;
            proof {
                assert(self.table_order().take(i + 1).drop_last() =~= self.table_order().take(i as int));
                assert(self.table_order()[i as int] == config@);
            }
            if location == SchemaLocation::Local || config.is_synced() {
                append_config_issues(config, snapshot, location, &mut issues);
            }
            i = i + 1;
        }
        proof {
            assert(self.table_order().take(entries@.len() as int) =~= self.table_order());
        }
        issues
    }

    /// Register one entity (replacing an earlier one of the same table or type). A synced
    /// entity is also indexed by its type name.
    pub fn register(&mut self, config: EntityConfig)
        requires
            config.scope == TableScope::Synced ==> config.entity_type_name is Some,
        ensures
            final(self).tables() == old(self).tables().insert(config.table_name@, config@),
            config.scope == TableScope::Synced ==> final(self).types() == old(self).types().insert(
                config.entity_type_name->0@,
                config@,
            ) && final(self).table_types() == old(self).table_types().insert(
                config.table_name@,
                config.entity_type_name->0@,
            ),
            config.scope != TableScope::Synced ==> final(self).types() == old(self).types()
                && final(self).table_types() == old(self).table_types(),
    {
        proof {
            use_type_invariant(&*self);
        }
        if config.is_synced() {
            let entity_type = match config.entity_type_name {
                Some(t) => t,
                None => "",
            };
            let mut table_to_type: AssocList<&'static str> = AssocList::new();
            std::mem::swap(&mut table_to_type, &mut self.table_to_type);
            table_to_type.insert(config.table_name, entity_type);
            self.table_to_type = table_to_type;
            let mut by_type: AssocList<EntityConfig> = AssocList::new();
            std::mem::swap(&mut by_type, &mut self.by_type);
            by_type.insert(entity_type, config.duplicate());
            self.by_type = by_type;
        }
        let mut by_table: AssocList<EntityConfig> = AssocList::new();
        std::mem::swap(&mut by_table, &mut self.by_table);
        let ghost before = by_table.entry_list();
        by_table.insert(config.table_name, config);
        proof {
            assert forall|i: int| 0 <= i < by_table.entry_list().len()
                implies #[trigger] by_table.entry_list()[i].0 == by_table.entry_list()[i].1.table_name by {
                if i < before.len() && by_table.entry_list()[i] == before[i] {
                    assert(before[i].0 == before[i].1.table_name);
                }
            }
        }
        self.by_table = by_table;
    }

    /// Look up the configuration of a synced entity by its type name.
    pub fn config_for_type(&self, entity_type_name: &str) -> (r: Option<EntityConfig>)
        ensures
            match r {
                Some(c) => self.types().contains_key(entity_type_name@) && c@ == self.types()[entity_type_name@],
                None => !self.types().contains_key(entity_type_name@),
            },
    {
        match self.by_type.get(entity_type_name) {
            Some(c) => Some(c.duplicate()),
            None => None,
        }
    }

    /// Look up the configuration of an entity by its table name.
    pub fn config_for_table(&self, table_name: &str) -> (r: Option<EntityConfig>)
        ensures
            match r {
                Some(c) => self.tables().contains_key(table_name@) && c@ == self.tables()[table_name@],
                None => !self.tables().contains_key(table_name@),
            },
    {
        match self.by_table.get(table_name) {
            Some(c) => Some(c.duplicate()),
            None => None,
        }
    }

    /// True if a synced entity with this type name has been registered.
    pub fn is_registered_type(&self, entity_type_name: &str) -> (r: bool)
        ensures
            r == self.types().contains_key(entity_type_name@),
    {
        self.by_type.contains_key(entity_type_name)
    }

    /// True if a synced entity for this table has been registered.
    pub fn is_registered_table(&self, table_name: &str) -> (r: bool)
        ensures
            r == self.table_types().contains_key(table_name@),
    {
        self.table_to_type.contains_key(table_name)
    }

    /// Names of every registered synced table, each once.
    pub fn registered_tables(&self) -> (r: Vec<String>)
        ensures
            r@.len() == self.table_types().dom().len(),
            forall|i: int| 0 <= i < r@.len() ==> self.table_types().contains_key(#[trigger] r@[i]@),
            forall|i: int, j: int| 0 <= i < j < r@.len() ==> r@[i]@ != r@[j]@,
    {
        let keys = self.table_to_type.keys();
        owned_names(&keys)
    }

    /// Names of every registered synced entity type, each once.
    pub fn registered_types(&self) -> (r: Vec<String>)
        ensures
            r@.len() == self.types().dom().len(),
            forall|i: int| 0 <= i < r@.len() ==> self.types().contains_key(#[trigger] r@[i]@),
            forall|i: int, j: int| 0 <= i < j < r@.len() ==> r@[i]@ != r@[j]@,
    {
        let keys = self.by_type.keys();
        owned_names(&keys)
    }
}

fn owned_names(keys: &Vec<&'static str>) -> (r: Vec<String>)
    ensures
        r@.len() == keys@.len(),
        forall|i: int| 0 <= i < r@.len() ==> #[trigger] r@[i]@ == keys@[i]@,
{
    let mut out: Vec<String> = Vec::new();
    let mut i: usize = 0;
    while i < keys.len()
        invariant
            i <= keys@.len(),
            out@.len() == i,
            forall|k: int| 0 <= k < i ==> #[trigger] out@[k]@ == keys@[k]@,
        decreases keys.len() - i,
    {
        out.push(keys[i].to_owned());
        i = i + 1;
    }
    out
}

/// The `(name, type)` views of a list of string pairs.
pub open spec fn pairs_view(p: Seq<(&'static str, &'static str)>) -> Seq<(Seq<char>, Seq<char>)> {
    p.map_values(|e: (&'static str, &'static str)| (e.0@, e.1@))
}

fn expected_columns_exec(config: &EntityConfig, location: SchemaLocation) -> (r: Vec<(&'static str, &'static str)>)
    ensures
        pairs_view(r@) == expected_columns(config@, location),
{
    let mut out: Vec<(&'static str, &'static str)> = Vec::new();
    let mut i: usize = 0;
    proof {
        reveal_strlit("unknown");
        reveal_strlit("string");
    }
    while i < config.columns.len()
        invariant
            i <= config.columns@.len(),
            location == SchemaLocation::Local ==> pairs_view(out@) == config.columns@.take(i as int).map_values(|col: ColumnDef| (col.local_name@, col.sql_type@)),
            location == SchemaLocation::Remote ==> pairs_view(out@) == remote_pairs(config.columns@.take(i as int)),
        decreases config.columns.len() - i,
    {
        let c = config.columns[i];
        proof {
            assert(config.columns@.take(i + 1).drop_last() =~= config.columns@.take(i as int));
        }
        let ghost before = out@;
        match location {
            SchemaLocation::Local => {
                out.push((c.local_name, c.sql_type));
                proof {
                    assert(pairs_view(out@) =~= pairs_view(before).push((c.local_name@, c.sql_type@)));
                    assert(config.columns@.take(i + 1).map_values(|col: ColumnDef| (col.local_name@, col.sql_type@))
                        =~= config.columns@.take(i as int).map_values(|col: ColumnDef| (col.local_name@, col.sql_type@)).push((c.local_name@, c.sql_type@)));
                }
            },
            SchemaLocation::Remote => {
                match c.remote_name {
                    Some(n) => {
                        let t = match c.remote_type {
                            Some(t) => t,
                            None => "unknown",
                        };
                        out.push((n, t));
                        proof {
                            assert(pairs_view(out@) =~= pairs_view(before).push((n@, t@)));
                        }
                    },
                    None => {},
                }
            },
        }
        i = i + 1;
    }
    proof {
        assert(config.columns@.take(config.columns@.len() as int) =~= config.columns@);
    }
    if location == SchemaLocation::Remote && config.include_user_id {
        match config.user_id_column {
            Some(u) => {
                let ghost before = out@;
                out.push((u, "string"));
                proof {
                    assert(pairs_view(out@) =~= pairs_view(before).push((u@, "string"@)));
                }
            },
            None => {},
        }
    }
    out
}

fn append_config_issues(config: &EntityConfig, snapshot: &SchemaSnapshot, location: SchemaLocation, issues: &mut Vec<String>)
    ensures
        strings_view(final(issues)@) == strings_view(old(issues)@) + config_issues(config@, snapshot.tables@, location),
{
    match snapshot.table(config.table_name) {
        None => {
            let mut m = "missing table: ".to_owned();
            push_str(&mut m, config.table_name);
            let ghost before = issues@;
            issues.push(m);
            proof {
                assert(strings_view(issues@) =~= strings_view(before) + seq!["missing table: "@ + config.table_name@]);
            }
        },
        Some(t) => {
            let ghost idx = find_table(snapshot.tables@, config.table_name@)->0;
            let actual = t.column_map();
            let expected = expected_columns_exec(config, location);
            let ghost start = strings_view(issues@);
            let mut k: usize = 0;
            while k < expected.len()
                invariant
                    k <= expected@.len(),
                    actual.view() == columns_map(t.columns@),
                    *t == snapshot.tables@[idx].1,
                    strings_view(issues@) == start + column_issues(config.table_name@, pairs_view(expected@).take(k as int), actual.view()),
                decreases expected.len() - k,
            {
                let (name, ty) = expected[k];
                proof {
                    assert(pairs_view(expected@).take(k + 1).drop_last() =~= pairs_view(expected@).take(k as int));
                }
                let ghost before = issues@;
                match actual.get(name) {
                    None => {
                        let mut m = "table '".to_owned();
                        push_str(&mut m, config.table_name);
                        push_str(&mut m, "' missing column: ");
                        push_str(&mut m, name);
                        issues.push(m);
                        proof {
                            assert(strings_view(issues@) =~= strings_view(before).push(m@));
                        }
                    },
                    Some(found) => {
                        let a = normalize_type(ty);
                        let b = normalize_type(found);
                        if !str_eq(a.as_str(), b.as_str()) {
                            let mut m = "table '".to_owned();
                            push_str(&mut m, config.table_name);
                            push_str(&mut m, "' column '");
                            push_str(&mut m, name);
                            push_str(&mut m, "' type mismatch: expected ");
                            push_str(&mut m, ty);
                            push_str(&mut m, ", found ");
                            push_str(&mut m, found);
                            issues.push(m);
                            proof {
                                assert(strings_view(issues@) =~= strings_view(before).push(m@));
                            }
                        }
                    },
                }
                k = k + 1;
            }
            proof {
                assert(pairs_view(expected@).take(expected@.len() as int) =~= pairs_view(expected@));
            }
        },
    }
}

/// The effective remote names of the encrypted columns.
pub open spec fn encrypted_keys(cols: Seq<ColumnDef>) -> Set<Seq<char>> {
    Set::new(|k: Seq<char>| exists|i: int| 0 <= i < cols.len() && cols[i].encrypted && #[trigger] cols[i].remote_or_canonical()@ == k)
}

/// A field value that encryption rewrites: a string without the `enc:` prefix.
pub open spec fn plain_text(v: FieldView) -> bool {
    v matches FieldView::Text(t) && !has_prefix(t, "enc:"@)
}

/// `result` is `original` with every plain string under one of `keys` replaced by a value
/// that decrypts back to it (for `secret` and `user`), and nothing else changed.
pub open spec fn sealed_for(secret: Seq<u8>, user: UserUuid, original: Map<Seq<char>, FieldView>, keys: Set<Seq<char>>, result: Map<Seq<char>, FieldView>) -> bool {
    &&& result.dom() == original.dom()
    &&& forall|k: Seq<char>| #[trigger] result.contains_key(k) ==> if keys.contains(k) && plain_text(original[k]) {
        result[k] matches FieldView::Text(c) && decrypted_text(secret, user, c) == Ok::<Seq<char>, DecryptFailure>(original[k]->Text_0)
    } else {
        result[k] == original[k]
    }
}

/// `m` with the active user id stored under the user-id column, where payloads carry it.
pub open spec fn with_user_id(c: ConfigView, user_id: Seq<char>, m: Map<Seq<char>, FieldView>) -> Map<Seq<char>, FieldView> {
    match injected_user_column(c) {
        Some(u) => m.insert(u@, FieldView::Text(user_id)),
        None => m,
    }
}

/// Encrypting the value under column `i` cannot succeed: a plain string too long for AES-GCM.
pub open spec fn oversized_at(cols: Seq<ColumnDef>, payload: Map<Seq<char>, FieldView>, i: int) -> bool {
    &&& 0 <= i < cols.len()
    &&& cols[i].encrypted
    &&& payload.contains_key(cols[i].remote_or_canonical()@)
    &&& plain_text(payload[cols[i].remote_or_canonical()@])
    &&& encode_utf8(payload[cols[i].remote_or_canonical()@]->Text_0).len() > aead_max_plaintext()
}

impl EntityConfig {
    /// Prepare a remote-shaped payload for transport: with an encryptor, every plain string
    /// under an encrypted column is encrypted for the user (values already carrying `enc:`
    /// are left as they are); then the active user id is stored under the user-id column when
    /// payloads carry it, replacing any value the caller put there.
    pub fn serialize_for_remote(&self, encryption: Option<&Encryption>, user_id: &str, payload: &Record) -> (r: Result<Record, RegistryError>)
        ensures
            match encryption {
                None => (r matches Ok(m) && m@ == with_user_id(self@, user_id@, payload@)),
                Some(e) => match r {
                    Ok(m) => exists|mid: Map<Seq<char>, FieldView>|
                        sealed_for(e.secret(), user_key_uuid(user_id@), payload@, encrypted_keys(self.columns@), mid)
                        && m@ == #[trigger] with_user_id(self@, user_id@, mid),
                    Err(err) => (err matches RegistryError::EncryptionFailed { table, column }
                        && table@ == self.table_name@
                        && exists|i: int| oversized_at(self.columns@, payload@, i) && #[trigger] self.columns@[i].canonical_name@ == column@),
                },
            },
            (forall|i: int| !oversized_at(self.columns@, payload@, i)) ==> r is Ok,
    {
        let mut serialized = payload.duplicate();
        match encryption {
            None => {},
            Some(enc) => {
                let user = Encryption::key_user_uuid(user_id);
                let ghost secret = enc.secret();
                let ghost keys_so_far = Set::<Seq<char>>::empty();
                let mut i: usize = 0;
                while i < self.columns.len()
                    invariant
                        i <= self.columns@.len(),
                        encryption == Some(enc),
                        secret == enc.secret(),
                        user == user_key_uuid(user_id@),
                        sealed_for(secret, user, payload@, encrypted_keys(self.columns@.take(i as int)), serialized@),
                    decreases self.columns.len() - i,
                {
                    let column = self.columns[i];
                    let ghost before = serialized@;
                    let ghost mut updated = false;
                    proof {
                        lemma_encrypted_keys_step(self.columns@, i as int);
                    }
                    if column.encrypted {
                        let key = column.effective_remote_name();
                        let current = match serialized.get(key) {
                            Some(FieldValue::Text(v)) => Some(v.clone()),
                            _ => None,
                        };
                        match current {
                            Some(v) => {
                                if !enc.is_encrypted(v.as_str()) {
                                    match enc.encrypt(v.as_str(), user) {
                                        Err(_) => {
                                            let t = self.table_name.to_owned();
                                            let cn = column.canonical_name.to_owned();
                                            proof {
                                                lemma_plain_is_original(secret, user, payload@, encrypted_keys(self.columns@.take(i as int)), before, key@, v@);
                                                assert(self.columns@[i as int] == column);
                                                assert(oversized_at(self.columns@, payload@, i as int));
                                                assert(self.columns@[i as int].canonical_name@ == cn@);
                                            }
                                            let err = RegistryError::EncryptionFailed { table: t, column: cn };
                                            return Err(err);
                                        },
                                        Ok(c) => {
                                            let ghost cview = c@;
                                            proof {
                                                reveal_strlit("enc:");
                                                if v@.len() == 0 {
                                                    assert(!has_prefix(cview, "enc:"@));
                                                }
                                                lemma_seal_update(secret, user, payload@, encrypted_keys(self.columns@.take(i as int)), before, key@, v@, cview);
                                                updated = true;
                                            }
                                            serialized.insert(key, FieldValue::Text(c));
                                        },
                                    }
                                }
                            },
                            None => {},
                        }
                    }
                    proof {
                        if column.encrypted && !updated {
                            lemma_seal_unchanged(secret, user, payload@, encrypted_keys(self.columns@.take(i as int)), before, column.remote_or_canonical()@);
                        }
                    }
                    i = i + 1;
                }
                proof {
                    assert(self.columns@.take(self.columns@.len() as int) =~= self.columns@);
                }
            },
        }
        let ghost mid = serialized@;
        if self.include_user_id {
            match self.user_id_column {
                Some(u) => serialized.insert(u, FieldValue::Text(user_id.to_owned())),
                None => {},
            }
        }
        proof {
            assert(serialized@ == with_user_id(self@, user_id@, mid));
        }
        Ok(serialized)
    }
}

pub proof fn lemma_encrypted_keys_step(cols: Seq<ColumnDef>, i: int)
    requires
        0 <= i < cols.len(),
    ensures
        encrypted_keys(cols.take(i + 1)) == if cols[i].encrypted {
            encrypted_keys(cols.take(i)).insert(cols[i].remote_or_canonical()@)
        } else {
            encrypted_keys(cols.take(i))
        },
{
    let a = encrypted_keys(cols.take(i + 1));
    let b = if cols[i].encrypted {
        encrypted_keys(cols.take(i)).insert(cols[i].remote_or_canonical()@)
    } else {
        encrypted_keys(cols.take(i))
    };
    assert forall|k: Seq<char>| #[trigger] a.contains(k) implies b.contains(k) by {
        let w = choose|w: int| 0 <= w < i + 1 && cols.take(i + 1)[w].encrypted
            && #[trigger] cols.take(i + 1)[w].remote_or_canonical()@ == k;
        if w < i {
            assert(cols.take(i)[w] == cols.take(i + 1)[w]);
        }
    }
    assert forall|k: Seq<char>| #[trigger] b.contains(k) implies a.contains(k) by {
        if encrypted_keys(cols.take(i)).contains(k) {
            let w = choose|w: int| 0 <= w < i && cols.take(i)[w].encrypted
                && #[trigger] cols.take(i)[w].remote_or_canonical()@ == k;
            assert(cols.take(i + 1)[w] == cols.take(i)[w]);
        } else {
            assert(cols.take(i + 1)[i] == cols[i]);
        }
    }
    assert(a =~= b);
}

pub proof fn lemma_seal_unchanged(
    secret: Seq<u8>,
    user: UserUuid,
    original: Map<Seq<char>, FieldView>,
    keys: Set<Seq<char>>,
    current: Map<Seq<char>, FieldView>,
    key: Seq<char>,
)
    requires
        sealed_for(secret, user, original, keys, current),
        !(current.contains_key(key) && plain_text(current[key])),
    ensures
        sealed_for(secret, user, original, keys.insert(key), current),
{
    assert forall|k: Seq<char>| #[trigger] current.contains_key(k) implies if keys.insert(key).contains(k) && plain_text(original[k]) {
        current[k] matches FieldView::Text(c) && decrypted_text(secret, user, c) == Ok::<Seq<char>, DecryptFailure>(original[k]->Text_0)
    } else {
        current[k] == original[k]
    } by {
        if k == key && !keys.contains(k) {
            assert(current[k] == original[k]);
        }
    }
}

pub proof fn lemma_seal_update(
    secret: Seq<u8>,
    user: UserUuid,
    original: Map<Seq<char>, FieldView>,
    keys: Set<Seq<char>>,
    current: Map<Seq<char>, FieldView>,
    key: Seq<char>,
    v: Seq<char>,
    c: Seq<char>,
)
    requires
        sealed_for(secret, user, original, keys, current),
        current.contains_key(key),
        current[key] == FieldView::Text(v),
        !has_prefix(v, "enc:"@),
        decrypted_text(secret, user, c) == Ok::<Seq<char>, DecryptFailure>(v),
    ensures
        sealed_for(secret, user, original, keys.insert(key), current.insert(key, FieldView::Text(c))),
{
    lemma_plain_is_original(secret, user, original, keys, current, key, v);
    let result = current.insert(key, FieldView::Text(c));
    assert(result.dom() =~= original.dom());
}

/// In a partially sealed record, a plain string still found under a key is the original value.
pub proof fn lemma_plain_is_original(
    secret: Seq<u8>,
    user: UserUuid,
    original: Map<Seq<char>, FieldView>,
    keys: Set<Seq<char>>,
    current: Map<Seq<char>, FieldView>,
    key: Seq<char>,
    v: Seq<char>,
)
    requires
        sealed_for(secret, user, original, keys, current),
        current.contains_key(key),
        current[key] == FieldView::Text(v),
        !has_prefix(v, "enc:"@),
    ensures
        original.contains_key(key),
        original[key] == FieldView::Text(v),
{
    if keys.contains(key) && plain_text(original[key]) {
        reveal_strlit("enc:");
        assert(decrypted_text(secret, user, v) == Ok::<Seq<char>, DecryptFailure>(v));
    }
}

impl Registry {
    /// [`EntityConfig::serialize_for_remote`] with the configuration of `table_name`;
    /// `TableNotRegistered` when the table is unknown.
    pub fn serialize_remote_payload(&self, table_name: &str, payload: &Record, encryption: Option<&Encryption>, user_id: &str) -> (r: Result<Record, RegistryError>)
        ensures
            !self.tables().contains_key(table_name@) ==> (r matches Err(RegistryError::TableNotRegistered(t)) && t@ == table_name@),
            self.tables().contains_key(table_name@) ==> match encryption {
                None => (r matches Ok(m) && m@ == with_user_id(self.tables()[table_name@], user_id@, payload@)),
                Some(e) => match r {
                    Ok(m) => exists|mid: Map<Seq<char>, FieldView>|
                        sealed_for(e.secret(), user_key_uuid(user_id@), payload@, encrypted_keys(self.tables()[table_name@].columns), mid)
                        && m@ == #[trigger] with_user_id(self.tables()[table_name@], user_id@, mid),
                    Err(err) => (err matches RegistryError::EncryptionFailed { table, column }
                        && table@ == self.tables()[table_name@].table_name@
                        && exists|i: int| oversized_at(self.tables()[table_name@].columns, payload@, i)
                            && #[trigger] self.tables()[table_name@].columns[i].canonical_name@ == column@),
                },
            },
    {
        match self.config_for_table(table_name) {
            None => Err(RegistryError::TableNotRegistered(table_name.to_owned())),
            Some(config) => {
                let r = config.serialize_for_remote(encryption, user_id, payload);
                proof {
                    if encryption is Some && r is Err && r->Err_0 is EncryptionFailed {
                        let column = r->Err_0->column;
                        let i0 = choose|i: int| oversized_at(config.columns@, payload@, i)
                            && #[trigger] config.columns@[i].canonical_name@ == column@;
                        assert(self.tables()[table_name@].columns[i0].canonical_name@ == column@);
                    }
                }
                r
            },
        }
    }
}

} // verus!
