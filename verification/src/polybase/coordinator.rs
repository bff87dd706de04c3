//! The sync coordinator's decisions, apart from the I/O it drives: which id a write carries,
//! the user id it is stamped with, the column encryption applied before a write and undone
//! after a read, where a write is sent, and what a failed write turns into.

use vstd::prelude::*;
use crate::polybase::encryption::{decrypted_text, user_key_uuid, DecryptFailure, Encryption, EncryptionError, UserUuid};
use crate::polybase::errors::{PolyError, RegistryError};
use crate::polybase::record::{FieldValue, FieldView, Record};
use crate::polybase::reconcile::{TripleView, VersionTriple};
use crate::polybase::registry::{
    encrypted_keys, injected_user_column, oversized_at, with_user_id, plain_text, sealed_for, ColumnDef, ConfigView, EntityConfig, WritePath,
};
use crate::polybase::offline_queue::{QueuedOperation, QueuedOperationKind};
use crate::text::{has_prefix, str_eq};

verus! {

/// The id a record carries: its `id` field when that is a string.
pub open spec fn record_id(record: Map<Seq<char>, FieldView>) -> Option<Seq<char>> {
    if record.contains_key("id"@) && record["id"@] is Text {
        Some(record["id"@]->Text_0)
    } else {
        None
    }
}

/// The id of a record about to be written; `MissingField { table, "id" }` without one.
pub fn record_entity_id(table: &str, record: &Record) -> (r: Result<String, PolyError>)
    ensures
        match record_id(record@) {
            Some(id) => r matches Ok(s) && s@ == id,
            None => r matches Err(PolyError::Registry(RegistryError::MissingField { table: t, field: f }))
                && t@ == table@ && f@ == "id"@,
        },
{
    proof {
        reveal_strlit("id");
    }
    match record.get("id") {
        Some(FieldValue::Text(id)) => Ok(id.clone()),
        _ => Err(PolyError::Registry(RegistryError::MissingField { table: table.to_owned(), field: "id".to_owned() })),
    }
}

/// Stamp `record` with the session user's id under the user-id column when payloads carry
/// it, replacing any value the caller put there: a row is always written as the active user.
pub fn inject_user_id(config: &EntityConfig, record: &mut Record, user_id: &str)
    ensures
        final(record)@ == with_user_id(config@, user_id@, old(record)@),
{
    if config.include_user_id {
        match config.user_id_column {
            Some(col) => {
                record.insert(col, FieldValue::Text(user_id.to_owned()));
            },
            None => {},
        }
    }
}

/// Decrypt the value under one column, if it is an encrypted column holding an
/// `enc:`-prefixed string.
pub open spec fn open_step(col: ColumnDef, secret: Seq<u8>, user: UserUuid, m: Map<Seq<char>, FieldView>) -> Result<Map<Seq<char>, FieldView>, DecryptFailure> {
    let key = col.remote_or_canonical()@;
    if col.encrypted && m.contains_key(key) && m[key] is Text && has_prefix(m[key]->Text_0, "enc:"@) {
        match decrypted_text(secret, user, m[key]->Text_0) {
            Ok(p) => Ok(m.insert(key, FieldView::Text(p))),
            Err(f) => Err(f),
        }
    } else {
        Ok(m)
    }
}

/// The record after decrypting the encrypted columns in order, or the first failure.
pub open spec fn open_columns(cols: Seq<ColumnDef>, secret: Seq<u8>, user: UserUuid, record: Map<Seq<char>, FieldView>) -> Result<Map<Seq<char>, FieldView>, DecryptFailure>
    decreases cols.len(),
{
    if cols.len() == 0 {
        Ok(record)
    } else {
        match open_columns(cols.drop_last(), secret, user, record) {
            Ok(m) => open_step(cols.last(), secret, user, m),
            Err(f) => Err(f),
        }
    }
}

/// Encrypt every plain string under an encrypted column of `config`, for the user. A failure
/// is the encryptor's error (only for a value too long for AES-GCM).
pub fn encrypt_record_columns(config: &EntityConfig, record: &mut Record, enc: &Encryption, user_id: &str) -> (r: Result<(), PolyError>)
    ensures
        r is Ok ==> sealed_for(enc.secret(), user_key_uuid(user_id@), old(record)@, encrypted_keys(config.columns@), final(record)@),
        r is Err <==> exists|i: int| oversized_at(config.columns@, old(record)@, i),
        r is Err ==> (r matches Err(PolyError::Encryption(EncryptionError::OperationFailed(m))) && m@ == "encrypt: aead::Error"@),
{
    let user = Encryption::key_user_uuid(user_id);
    let ghost secret = enc.secret();
    let ghost original = record@;
    let mut i: usize = 0;
    proof {
        assert(encrypted_keys(config.columns@.take(0)) =~= Set::empty());
    }
    while i < config.columns.len()
        invariant
            i <= config.columns@.len(),
            secret == enc.secret(),
            user == user_key_uuid(user_id@),
            original == old(record)@,
            sealed_for(secret, user, original, encrypted_keys(config.columns@.take(i as int)), record@),
            forall|j: int| 0 <= j < i ==> !#[trigger] oversized_at(config.columns@, original, j),
        decreases config.columns.len() - i,
    {
        let column = config.columns[i];
        let ghost before = record@;
        let ghost key_i = column.remote_or_canonical()@;
        proof {
            // An oversized plain value under this column is still the original one: no earlier
            // encrypted column shares its key, or that column would have been oversized too.
            if oversized_at(config.columns@, original, i as int) {
                if encrypted_keys(config.columns@.take(i as int)).contains(key_i) {
                    let j = choose|j: int| 0 <= j < config.columns@.take(i as int).len()
                        && config.columns@.take(i as int)[j].encrypted
                        && #[trigger] config.columns@.take(i as int)[j].remote_or_canonical()@ == key_i;
                    assert(config.columns@.take(i as int)[j] == config.columns@[j]);
                    assert(oversized_at(config.columns@, original, j));
                }
                assert(before.contains_key(key_i));
                assert(before[key_i] == original[key_i]);
            }
        }
        let ghost mut updated = false;
        proof {
            crate::polybase::registry::lemma_encrypted_keys_step(config.columns@, i as int);
        }
        if column.encrypted {
            let key = column.effective_remote_name();
            let current = match record.get(key) {
                Some(FieldValue::Text(v)) => Some(v.clone()),
                _ => None,
            };
            match current {
                Some(v) => {
                    if !enc.is_encrypted(v.as_str()) {
                        proof {
                            crate::polybase::registry::lemma_plain_is_original(secret, user, original, encrypted_keys(config.columns@.take(i as int)), before, key@, v@);
                        }
                        match enc.encrypt(v.as_str(), user) {
                            Err(e) => {
                                proof {
                                    assert(oversized_at(config.columns@, original, i as int));
                                }
                                return Err(PolyError::Encryption(e));
                            },
                            Ok(c) => {
                                let ghost cview = c@;
                                proof {
                                    reveal_strlit("enc:");
                                    if v@.len() == 0 {
                                        assert(!has_prefix(cview, "enc:"@));
                                    }
                                    crate::polybase::registry::lemma_seal_update(secret, user, original, encrypted_keys(config.columns@.take(i as int)), before, key@, v@, cview);
                                    updated = true;
                                }
                                record.insert(key, FieldValue::Text(c));
                            },
                        }
                    }
                },
                None => {},
            }
        }
        proof {
            assert(!oversized_at(config.columns@, original, i as int));
            if column.encrypted && !updated {
                crate::polybase::registry::lemma_seal_unchanged(secret, user, original, encrypted_keys(config.columns@.take(i as int)), before, column.remote_or_canonical()@);
            }
        }
        i = i + 1;
    }
    proof {
        assert(config.columns@.take(config.columns@.len() as int) =~= config.columns@);
    }
    Ok(())
}

/// Decrypt every `enc:`-prefixed string under an encrypted column of `config`, column by
/// column, for the user. A failure is the decryptor's error for the first value that does
/// not decrypt.
pub fn decrypt_record_columns(config: &EntityConfig, record: &mut Record, enc: &Encryption, user_id: &str) -> (r: Result<(), PolyError>)
    ensures
        match open_columns(config.columns@, enc.secret(), user_key_uuid(user_id@), old(record)@) {
            Ok(m) => r is Ok && final(record)@ == m,
            Err(f) => r matches Err(PolyError::Encryption(EncryptionError::OperationFailed(msg)))
                && crate::polybase::encryption::failure_message(f, msg@, false),
        },
{
    let user = Encryption::key_user_uuid(user_id);
    let ghost secret = enc.secret();
    let ghost original = record@;
    let mut i: usize = 0;
    while i < config.columns.len()
        invariant
            i <= config.columns@.len(),
            secret == enc.secret(),
            user == user_key_uuid(user_id@),
            original == old(record)@,
            open_columns(config.columns@.take(i as int), secret, user, original) == Ok::<Map<Seq<char>, FieldView>, DecryptFailure>(record@),
        decreases config.columns.len() - i,
    {
        let column = config.columns[i];
        proof {
            assert(config.columns@.take(i + 1).drop_last() =~= config.columns@.take(i as int));
            assert(config.columns@.take(i + 1).last() == column);
        }
        if column.encrypted {
            let key = column.effective_remote_name();
            let current = match record.get(key) {
                Some(FieldValue::Text(v)) => Some(v.clone()),
                _ => None,
            };
            match current {
                Some(v) => {
                    if enc.is_encrypted(v.as_str()) {
                        match enc.decrypt(v.as_str(), user) {
                            Err(e) => {
                                proof {
                                    reveal_strlit("enc:");
                                    assert(record@.contains_key(key@) && record@[key@] == FieldView::Text(v@));
                                    assert(open_columns(config.columns@.take(i + 1), secret, user, original)
                                        == open_step(column, secret, user, record@));
                                    assert(open_step(column, secret, user, record@) == match decrypted_text(secret, user, v@) {
                                        Ok(p) => Ok(record@.insert(key@, FieldView::Text(p))),
                                        Err(f) => Err::<Map<Seq<char>, FieldView>, DecryptFailure>(f),
                                    });
                                    lemma_open_columns_err(config.columns@, (i + 1) as int, secret, user, original);
                                }
                                return Err(PolyError::Encryption(e));
                            },
                            Ok(p) => {
                                record.insert(key, FieldValue::Text(p));
                            },
                        }
                    }
                },
                None => {},
            }
        }
        i = i + 1;
    }
    proof {
        assert(config.columns@.take(config.columns@.len() as int) =~= config.columns@);
    }
    Ok(())
}

/// Once decryption fails on a prefix of the columns, it fails with the same reason on all.
proof fn lemma_open_columns_err(cols: Seq<ColumnDef>, i: int, secret: Seq<u8>, user: UserUuid, record: Map<Seq<char>, FieldView>)
    requires
        0 <= i <= cols.len(),
        open_columns(cols.take(i), secret, user, record) is Err,
    ensures
        open_columns(cols, secret, user, record) == open_columns(cols.take(i), secret, user, record),
    decreases cols.len() - i,
{
    if i < cols.len() {
        assert(cols.take(i + 1).drop_last() =~= cols.take(i));
        lemma_open_columns_err(cols, i + 1, secret, user, record);
    } else {
        assert(cols.take(i) =~= cols);
    }
}

/// No string under one of `keys` carries the `enc:` prefix.
pub open spec fn no_prefixed_values(record: Map<Seq<char>, FieldView>, keys: Set<Seq<char>>) -> bool {
    forall|k: Seq<char>| #[trigger] keys.contains(k) && record.contains_key(k) && record[k] is Text
        ==> !has_prefix(record[k]->Text_0, "enc:"@)
}

/// `m` holds the original values under `done` and the sealed ones elsewhere.
spec fn partly_opened(m: Map<Seq<char>, FieldView>, original: Map<Seq<char>, FieldView>, sealed: Map<Seq<char>, FieldView>, done: Set<Seq<char>>) -> bool {
    &&& m.dom() == original.dom()
    &&& forall|k: Seq<char>| #[trigger] m.contains_key(k) ==> m[k] == (if done.contains(k) { original[k] } else { sealed[k] })
}

/// Decrypting the encrypted columns of a record that encryption sealed gives the original
/// record back, when the original held no `enc:`-prefixed strings in those columns.
pub proof fn lemma_open_undoes_seal(cols: Seq<ColumnDef>, secret: Seq<u8>, user: UserUuid, original: Map<Seq<char>, FieldView>, sealed: Map<Seq<char>, FieldView>)
    requires
        sealed_for(secret, user, original, encrypted_keys(cols), sealed),
        no_prefixed_values(original, encrypted_keys(cols)),
    ensures
        open_columns(cols, secret, user, sealed) == Ok::<Map<Seq<char>, FieldView>, DecryptFailure>(original),
{
    lemma_open_prefix(cols, cols.len() as int, secret, user, original, sealed);
    assert(cols.take(cols.len() as int) =~= cols);
    let m = open_columns(cols, secret, user, sealed)->Ok_0;
    assert forall|k: Seq<char>| m.contains_key(k) implies m[k] == original[k] by {
        if !encrypted_keys(cols).contains(k) {
            assert(sealed.contains_key(k));
        }
    }
    assert(m =~= original);
}

proof fn lemma_open_prefix(cols: Seq<ColumnDef>, i: int, secret: Seq<u8>, user: UserUuid, original: Map<Seq<char>, FieldView>, sealed: Map<Seq<char>, FieldView>)
    requires
        0 <= i <= cols.len(),
        sealed_for(secret, user, original, encrypted_keys(cols), sealed),
        no_prefixed_values(original, encrypted_keys(cols)),
    ensures
        open_columns(cols.take(i), secret, user, sealed) is Ok,
        partly_opened(open_columns(cols.take(i), secret, user, sealed)->Ok_0, original, sealed, encrypted_keys(cols.take(i))),
    decreases i,
{
    reveal_strlit("enc:");
    if i == 0 {
        assert(encrypted_keys(cols.take(0)) =~= Set::empty());
        assert(sealed.dom() == original.dom());
    } else {
        lemma_open_prefix(cols, i - 1, secret, user, original, sealed);
        crate::polybase::registry::lemma_encrypted_keys_step(cols, i - 1);
        assert(cols.take(i).drop_last() =~= cols.take(i - 1));
        assert(cols.take(i).last() == cols[i - 1]);
        let c = cols[i - 1];
        let key = c.remote_or_canonical()@;
        let m = open_columns(cols.take(i - 1), secret, user, sealed)->Ok_0;
        let done = encrypted_keys(cols.take(i - 1));
        if c.encrypted {
            assert(encrypted_keys(cols).contains(key)) by {
                assert(cols[i - 1].remote_or_canonical()@ == key);
            }
            let done2 = done.insert(key);
            if m.contains_key(key) {
                if done.contains(key) {
                    assert(m[key] == original[key]);
                } else {
                    assert(m[key] == sealed[key]);
                    if plain_text(original[key]) {
                        let v = original[key]->Text_0;
                        assert(sealed[key] matches FieldView::Text(cc) && decrypted_text(secret, user, cc) == Ok::<Seq<char>, DecryptFailure>(v));
                        let cc = sealed[key]->Text_0;
                        if has_prefix(cc, "enc:"@) {
                            let m2 = m.insert(key, FieldView::Text(v));
                            assert(partly_opened(m2, original, sealed, done2)) by {
                                assert(m2.dom() =~= original.dom());
                            }
                        } else {
                            assert(decrypted_text(secret, user, cc) == Ok::<Seq<char>, DecryptFailure>(cc));
                            assert(cc == v);
                        }
                    } else {
                        assert(sealed[key] == original[key]);
                    }
                }
            }
            assert(partly_opened(open_columns(cols.take(i), secret, user, sealed)->Ok_0, original, sealed, done2));
        }
    }
}

/// Where a write goes.
#[derive(Debug, Clone, PartialEq, Eq)]
pub enum WriteTarget {
    /// PostgREST upsert.
    PostgREST,
    /// Edge Function call with this operation.
    Edge {
        /// Edge Function name.
        function: String,
        /// Operation under `/v1/{op}`.
        op: String,
    },
}

/// Where a write to a table with `config` goes: PostgREST, or its Edge Function with the
/// caller's operation (the function's default when none is given).
pub fn write_target(config: &EntityConfig, op: Option<&str>) -> (r: WriteTarget)
    ensures
        match config.write_path {
            WritePath::PostgREST => r == WriteTarget::PostgREST,
            WritePath::Edge { function, default_op } => r matches WriteTarget::Edge { function: f, op: o }
                && f@ == function@ && o@ == match op {
                    Some(x) => x@,
                    None => default_op@,
                },
        },
{
    match config.write_path {
        WritePath::PostgREST => WriteTarget::PostgREST,
        WritePath::Edge { function, default_op } => {
            let chosen = match op {
                Some(x) => x,
                None => default_op,
            };
            WriteTarget::Edge { function: function.to_owned(), op: chosen.to_owned() }
        },
    }
}

/// What follows a write attempt.
#[derive(Debug, Clone, Copy, PartialEq, Eq, Structural)]
pub enum WriteOutcome {
    /// The write went through.
    Done,
    /// The write failed transiently: queue it for replay and report success.
    Queue,
    /// The write failed for good: report the error.
    Fail,
}

/// The outcome of a write that ended with `result`: transient failures (transient or
/// forbidden Edge failures, transient pushes, transport failures) are queued.
pub fn after_write(result: &Result<(), PolyError>) -> (r: WriteOutcome)
    ensures
        r == write_outcome(*result),
{
    match result {
        Ok(()) => WriteOutcome::Done,
        Err(e) => if e.is_transient() { WriteOutcome::Queue } else { WriteOutcome::Fail },
    }
}

/// What follows a write that ended with `result`.
pub open spec fn write_outcome(result: Result<(), PolyError>) -> WriteOutcome {
    match result {
        Ok(()) => WriteOutcome::Done,
        Err(e) => if crate::polybase::errors::transient_error(e) { WriteOutcome::Queue } else { WriteOutcome::Fail },
    }
}

/// A write whose request could not be sent or answered (a transport failure, such as a device
/// that is offline) is queued for replay, not reported as an error.
pub proof fn lemma_transport_failure_is_queued(e: reqwest::Error)
    ensures
        crate::polybase::errors::transient_error(PolyError::Http(e)),
        write_outcome(Err(PolyError::Http(e))) == WriteOutcome::Queue,
{
}

/// A successful write is done; a failed one is queued exactly when it failed in transport,
/// in a transient push, or in a transient or forbidden Edge call, and reported otherwise.
pub proof fn lemma_write_outcome_classification(e: PolyError)
    ensures
        write_outcome(Ok(())) == WriteOutcome::Done,
        write_outcome(Err(e)) != WriteOutcome::Done,
        (write_outcome(Err(e)) == WriteOutcome::Queue) == (e is Http
            || (e matches PolyError::Push(p) && p is Transient)
            || (e matches PolyError::Edge(x) && (x is Transient || x is Forbidden))),
{
}

/// The queued replay of a write that failed transiently.
pub fn queued_write(table: &str, entity_id: &str, payload: String, now_micros: i64, error: String) -> (r: QueuedOperation)
    ensures
        r.table@ == table@,
        r.entity_id@ == entity_id@,
        r.kind@ == crate::polybase::offline_queue::KindView::Write(payload@),
        r.queued_at_micros == now_micros,
        r.retry_count == 0,
        r.last_error matches Some(m) && m@ == error@,
{
    QueuedOperation {
        table: table.to_owned(),
        entity_id: entity_id.to_owned(),
        kind: QueuedOperationKind::Write { payload },
        queued_at_micros: now_micros,
        retry_count: 0,
        last_error: Some(error),
    }
}

/// The queued replay of a tombstone that failed transiently.
pub fn queued_tombstone(table: &str, entity_id: &str, version: i64, now_micros: i64, error: String) -> (r: QueuedOperation)
    ensures
        r.table@ == table@,
        r.entity_id@ == entity_id@,
        r.kind@ == crate::polybase::offline_queue::KindView::Tombstone(version),
        r.queued_at_micros == now_micros,
        r.retry_count == 0,
        r.last_error matches Some(m) && m@ == error@,
{
    QueuedOperation {
        table: table.to_owned(),
        entity_id: entity_id.to_owned(),
        kind: QueuedOperationKind::Tombstone { version },
        queued_at_micros: now_micros,
        retry_count: 0,
        last_error: Some(error),
    }
}

/// The `(namespace, key)` a KVS change event names: the record's string fields of those names.
pub open spec fn kvs_event_key(record: Map<Seq<char>, FieldView>) -> Option<(Seq<char>, Seq<char>)> {
    if record.contains_key("namespace"@) && record["namespace"@] is Text && record.contains_key("key"@) && record["key"@] is Text {
        Some((record["namespace"@]->Text_0, record["key"@]->Text_0))
    } else {
        None
    }
}

/// The `(namespace, key)` of a KVS record, when both are strings.
pub fn kvs_event_fields(record: &Record) -> (r: Option<(String, String)>)
    ensures
        match kvs_event_key(record@) {
            Some((n, k)) => r matches Some((a, b)) && a@ == n && b@ == k,
            None => r is None,
        },
{
    proof {
        reveal_strlit("namespace");
        reveal_strlit("key");
    }
    match (record.get("namespace"), record.get("key")) {
        (Some(FieldValue::Text(n)), Some(FieldValue::Text(k))) => Some((n.clone(), k.clone())),
        _ => None,
    }
}

/// Whether a record is a tombstone: its `deleted` field is the JSON `true`.
pub open spec fn record_deleted(record: Map<Seq<char>, FieldView>) -> bool {
    record.contains_key("deleted"@) && record["deleted"@] == FieldView::Json("true"@)
}

/// Whether a record is marked deleted (a missing or non-boolean field reads as `false`).
pub fn deleted_flag(record: &Record) -> (r: bool)
    ensures
        r == record_deleted(record@),
{
    match record.get("deleted") {
        Some(FieldValue::Json(t)) => str_eq(t.as_str(), "true"),
        _ => false,
    }
}

/// The reconcile input of a remote version row: none without an id; a missing version reads
/// as 0 and a missing `deleted` as `false`.
pub fn remote_version_triple(id: Option<&str>, version: Option<i64>, deleted: Option<bool>) -> (r: Option<VersionTriple>)
    ensures
        match id {
            None => r is None,
            Some(i) => r matches Some(t) && t@ == (TripleView {
                id: i@,
                version: match version { Some(v) => v, None => 0 },
                deleted: match deleted { Some(d) => d, None => false },
            }),
        },
{
    match id {
        None => None,
        Some(i) => {
            let v = match version {
                Some(v) => v,
                None => 0,
            };
            let d = match deleted {
                Some(d) => d,
                None => false,
            };
            Some(VersionTriple::new(i, v, d))
        },
    }
}

} // verus!
