//! Key-value store rows on top of the `kvs` table: the synthetic `{namespace}::{key}` id.

use vstd::prelude::*;
use crate::polybase::record::{FieldValue, FieldView, Record};
use crate::polybase::registry::{ColumnDef, ConfigView, EntityConfig, Registry, TableScope, WritePath};
use crate::text::{chars_of, contains_seq, i64_decimal, occurs_at, occurs_at_exec, push_str, signed_decimal};

verus! {

/// Canonical table name.
pub const KVS_TABLE: &'static str = "kvs";

/// The synthetic id of a `(namespace, key)` pair.
pub open spec fn kvs_id(namespace: Seq<char>, key: Seq<char>) -> Seq<char> {
    namespace + "::"@ + key
}

/// Encode a `(namespace, key)` pair into the synthetic `id` slot: `{namespace}::{key}`.
pub fn encode_id(namespace: &str, key: &str) -> (r: String)
    ensures
        r@ == kvs_id(namespace@, key@),
{
    let mut out = namespace.to_owned();
    push_str(&mut out, "::");
    push_str(&mut out, key);
    out
}

/// The position of the first `::` in `id`, if any.
pub open spec fn first_separator(id: Seq<char>) -> Option<int> {
    if exists|i: int| occurs_at(id, "::"@, i) {
        Some(choose|i: int| occurs_at(id, "::"@, i) && forall|j: int| 0 <= j < i ==> !occurs_at(id, "::"@, j))
    } else {
        None
    }
}

/// What `str::split_once("::")` gives: the text before and after the first `::`.
pub open spec fn split_id(id: Seq<char>) -> Option<(Seq<char>, Seq<char>)> {
    match first_separator(id) {
        Some(i) => Some((id.take(i), id.skip(i + 2))),
        None => None,
    }
}

proof fn lemma_no_earlier_separator(namespace: Seq<char>, key: Seq<char>, j: int)
    requires
        0 <= j < namespace.len(),
        !occurs_at(namespace, "::"@, j),
        !(namespace.len() > 0 && namespace.last() == ':'),
        "::"@ == seq![':', ':'],
    ensures
        !occurs_at(kvs_id(namespace, key), "::"@, j),
{
    let id = kvs_id(namespace, key);
    let n = namespace.len() as int;
    if occurs_at(id, "::"@, j) {
        assert(id.subrange(j, j + 2)[0] == id[j]);
        assert(id.subrange(j, j + 2)[1] == id[j + 1]);
        if j + 1 < n {
            assert(namespace.subrange(j, j + 2) =~= id.subrange(j, j + 2));
        } else {
            assert(namespace.last() == id[j]);
        }
    }
}

/// Decoding an encoded id gives the pair back, for any namespace that neither contains `::`
/// nor ends with `:` (so that the first `::` of the id is the one the encoding put there).
pub proof fn lemma_id_round_trip(namespace: Seq<char>, key: Seq<char>)
    requires
        !contains_seq(namespace, "::"@),
        !(namespace.len() > 0 && namespace.last() == ':'),
    ensures
        split_id(kvs_id(namespace, key)) == Some((namespace, key)),
{
    reveal_strlit("::");
    assert("::"@ =~= seq![':', ':']);
    let id = kvs_id(namespace, key);
    let n = namespace.len() as int;
    assert(id.subrange(n, n + 2) =~= "::"@);
    assert(occurs_at(id, "::"@, n));
    assert forall|j: int| 0 <= j < n implies !occurs_at(id, "::"@, j) by {
        assert(!occurs_at(namespace, "::"@, j));
        lemma_no_earlier_separator(namespace, key, j);
    }
    let w = choose|i: int| occurs_at(id, "::"@, i) && forall|j: int| 0 <= j < i ==> !occurs_at(id, "::"@, j);
    assert(first_separator(id) == Some(w));
    assert(w == n) by {
        if w < n {
            assert(!occurs_at(id, "::"@, w));
        } else if w > n {
            assert(!occurs_at(id, "::"@, n));
        }
    }
    assert(id.take(n) =~= namespace);
    assert(id.skip(n + 2) =~= key);
}

/// Decode a synthetic id back into `(namespace, key)`, splitting at the first `::`.
pub fn decode_id(id: &str) -> (r: Option<(&str, &str)>)
    ensures
        match r {
            Some((ns, key)) => split_id(id@) == Some((ns@, key@)),
            None => split_id(id@) is None,
        },
{
    let t = chars_of(id);
    let sep = chars_of("::");
    proof {
        reveal_strlit("::");
    }
    let mut i: usize = 0;
    while i < t.len() && i + 1 < t.len()
        invariant
            i <= t@.len(),
            t@ == id@,
            sep@ == "::"@,
            forall|j: int| 0 <= j < i ==> !occurs_at(id@, "::"@, j),
        decreases t.len() - i,
    {
        if occurs_at_exec(&t, &sep, i) {
            proof {
                assert(occurs_at(id@, "::"@, i as int));
                let w = choose|k: int| occurs_at(id@, "::"@, k) && forall|j: int| 0 <= j < k ==> !occurs_at(id@, "::"@, j);
                assert(occurs_at(id@, "::"@, w));
                if w < i {
                } else if w > i {
                    assert(!occurs_at(id@, "::"@, i as int));
                }
                assert(w == i);
                assert(id@.take(i as int) =~= id@.subrange(0, i as int));
                assert(id@.skip(i + 2) =~= id@.subrange(i + 2, id@.len() as int));
            }
            return Some((id.substring_char(0, i), id.substring_char(i + 2, t.len())));
        }
        i = i + 1;
    }
    proof {
        assert forall|j: int| !occurs_at(id@, "::"@, j) by {
            if 0 <= j < i {
            } else {
                assert(!(0 <= j && j + 2 <= id@.len()));
            }
        }
    }
    None
}

/// The columns of the `kvs` table.
pub open spec fn kvs_columns() -> Seq<ColumnDef> {
    seq![
        ColumnDef { canonical_name: "id", local_name: "id", remote_name: Some("id"), sql_type: "TEXT", remote_type: Some("string"), encrypted: false },
        ColumnDef { canonical_name: "namespace", local_name: "namespace", remote_name: Some("namespace"), sql_type: "TEXT", remote_type: Some("string"), encrypted: false },
        ColumnDef { canonical_name: "key", local_name: "key", remote_name: Some("key"), sql_type: "TEXT", remote_type: Some("string"), encrypted: false },
        ColumnDef { canonical_name: "value", local_name: "value", remote_name: Some("value"), sql_type: "TEXT", remote_type: Some("jsonb"), encrypted: false },
        ColumnDef { canonical_name: "version", local_name: "version", remote_name: Some("version"), sql_type: "INTEGER", remote_type: Some("integer"), encrypted: false },
        ColumnDef { canonical_name: "deleted", local_name: "deleted", remote_name: Some("deleted"), sql_type: "INTEGER", remote_type: Some("boolean"), encrypted: false },
        ColumnDef { canonical_name: "updated_at", local_name: "updated_at", remote_name: Some("updated_at"), sql_type: "TEXT", remote_type: Some("string"), encrypted: false },
    ]
}

/// The model of the `kvs` table's configuration.
pub open spec fn kvs_entity_config_view() -> ConfigView {
    ConfigView {
        table_name: KVS_TABLE,
        entity_type_name: Some("Kvs"),
        columns: kvs_columns(),
        parent_relation: None,
        user_id_column: Some("user_id"),
        include_user_id: true,
        scope: TableScope::Synced,
        write_path: WritePath::PostgREST,
        conflict_target: "id",
    }
}

/// The [`EntityConfig`] of the `kvs` table: synced as type `Kvs` through PostgREST, with its
/// seven columns and the user id carried in `user_id`.
pub fn kvs_entity_config() -> (r: EntityConfig)
    ensures
        r@ == kvs_entity_config_view(),
{
    let columns = [
        ColumnDef::synced("id", "id", "id", "TEXT", "string", false),
        ColumnDef::synced("namespace", "namespace", "namespace", "TEXT", "string", false),
        ColumnDef::synced("key", "key", "key", "TEXT", "string", false),
        ColumnDef::synced("value", "value", "value", "TEXT", "jsonb", false),
        ColumnDef::synced("version", "version", "version", "INTEGER", "integer", false),
        ColumnDef::synced("deleted", "deleted", "deleted", "INTEGER", "boolean", false),
        ColumnDef::synced("updated_at", "updated_at", "updated_at", "TEXT", "string", false),
    ];
    let r = EntityConfig::synced(KVS_TABLE, "Kvs").columns(&columns).user_id_column("user_id").include_user_id(true);
    proof {
        assert(r@.columns =~= kvs_columns());
    }
    r
}

/// The row `Kvs::set` writes for a key: its synthetic id, namespace and key, the value (JSON
/// text), the version, `deleted: false` and the write time.
pub open spec fn kvs_row(
    namespace: Seq<char>,
    key: Seq<char>,
    value_json: Seq<char>,
    version: i64,
    updated_at: Seq<char>,
) -> Map<Seq<char>, FieldView> {
    Map::<Seq<char>, FieldView>::empty().insert("id"@, FieldView::Text(kvs_id(namespace, key))).insert(
        "namespace"@,
        FieldView::Text(namespace),
    ).insert("key"@, FieldView::Text(key)).insert("value"@, FieldView::Json(value_json)).insert(
        "version"@,
        FieldView::Json(signed_decimal(version as int)),
    ).insert("deleted"@, FieldView::Json("false"@)).insert("updated_at"@, FieldView::Text(updated_at))
}

/// The record written to set `namespace`/`key` to the value with JSON text `value_json` at
/// `version` (the next version, per the contract), stamped `updated_at`.
pub fn kvs_record(namespace: &str, key: &str, value_json: String, version: i64, updated_at: &str) -> (r: Record)
    ensures
        r@ == kvs_row(namespace@, key@, value_json@, version, updated_at@),
{
    let mut record = Record::new();
    record.insert("id", FieldValue::Text(encode_id(namespace, key)));
    record.insert("namespace", FieldValue::Text(namespace.to_owned()));
    record.insert("key", FieldValue::Text(key.to_owned()));
    record.insert("value", FieldValue::Json(value_json));
    record.insert("version", FieldValue::Json(i64_decimal(version)));
    record.insert("deleted", FieldValue::Json("false".to_owned()));
    record.insert("updated_at", FieldValue::Text(updated_at.to_owned()));
    record
}

/// Register the KVS entity unless its table is already registered (idempotent).
pub fn register_kvs(registry: &mut Registry)
    ensures
        old(registry).table_types().contains_key(KVS_TABLE@) ==> *final(registry) == *old(registry),
        !old(registry).table_types().contains_key(KVS_TABLE@) ==> (final(registry).tables() == old(registry).tables().insert(
            KVS_TABLE@,
            kvs_entity_config_view(),
        ) && final(registry).types() == old(registry).types().insert("Kvs"@, kvs_entity_config_view())
            && final(registry).table_types() == old(registry).table_types().insert(KVS_TABLE@, "Kvs"@)),
{
    if !registry.is_registered_table(KVS_TABLE) {
        let config = kvs_entity_config();
        registry.register(config);
    }
}

} // verus!
