use polykit::polybase::coordinator::{
    after_write, decrypt_record_columns, deleted_flag, encrypt_record_columns, inject_user_id,
    kvs_event_fields, queued_tombstone, record_entity_id, remote_version_triple, write_target,
    WriteOutcome, WriteTarget,
};
use polykit::polybase::encryption::Encryption;
use polykit::polybase::errors::{EdgeError, PolyError, PushError, RegistryError};
use polykit::polybase::offline_queue::QueuedOperationKind;
use polykit::polybase::record::{FieldValue, Record};
use polykit::polybase::registry::{ColumnDef, EntityConfig};

fn messages_config() -> EntityConfig {
    EntityConfig::synced("messages", "Message")
        .columns(&[
            ColumnDef::synced("id", "id", "id", "TEXT", "string", false),
            ColumnDef::synced("content", "content", "content", "TEXT", "string", true),
            ColumnDef::synced("version", "version", "version", "INTEGER", "integer", false),
        ])
        .write_via_edge("messages-write", "send")
}

fn text(s: &str) -> FieldValue {
    FieldValue::Text(s.to_string())
}

fn record(fields: &[(&str, FieldValue)]) -> Record {
    let mut r = Record::new();
    for (k, v) in fields {
        r.insert(k, v.duplicate());
    }
    r
}

#[test]
fn encrypt_helper_only_touches_registered_encrypted_columns() {
    let config = messages_config();
    let enc = Encryption::new("secret").unwrap();
    let mut rec = record(&[("id", text("m1")), ("content", text("hello world")), ("version", FieldValue::Json("1".into()))]);
    encrypt_record_columns(&config, &mut rec, &enc, "user-1").unwrap();
    match rec.get("content") {
        Some(FieldValue::Text(c)) => assert!(c.starts_with("enc:"), "expected encrypted content, got {c}"),
        other => panic!("unexpected {other:?}"),
    }
    assert_eq!(rec.get("id"), Some(&text("m1")));
    assert_eq!(rec.get("version"), Some(&FieldValue::Json("1".into())));
}

#[test]
fn decrypt_helper_undoes_encrypt_helper() {
    let config = messages_config();
    let enc = Encryption::new("secret").unwrap();
    let mut rec = record(&[("id", text("m1")), ("content", text("hello world")), ("version", FieldValue::Json("1".into()))]);
    encrypt_record_columns(&config, &mut rec, &enc, "user-1").unwrap();
    decrypt_record_columns(&config, &mut rec, &enc, "user-1").unwrap();
    assert_eq!(rec.get("content"), Some(&text("hello world")));
}

#[test]
fn encrypt_helper_skips_already_encrypted_values() {
    let config = messages_config();
    let enc = Encryption::new("secret").unwrap();
    let user = "user-1";
    let pre_cipher = enc.encrypt("hello", Encryption::key_user_uuid(user)).unwrap();
    let mut rec = record(&[("id", text("m1")), ("content", text(&pre_cipher))]);
    encrypt_record_columns(&config, &mut rec, &enc, user).unwrap();
    assert_eq!(rec.get("content"), Some(&text(&pre_cipher)));
}

#[test]
fn decrypt_with_wrong_user_fails() {
    let config = messages_config();
    let enc = Encryption::new("secret").unwrap();
    let mut rec = record(&[("content", text("hi"))]);
    encrypt_record_columns(&config, &mut rec, &enc, "user-1").unwrap();
    let err = decrypt_record_columns(&config, &mut rec, &enc, "user-2").unwrap_err();
    assert!(matches!(err, PolyError::Encryption(_)));
}

#[test]
fn write_targets_follow_registration() {
    let config = messages_config();
    assert_eq!(
        write_target(&config, None),
        WriteTarget::Edge { function: "messages-write".into(), op: "send".into() }
    );
    assert_eq!(
        write_target(&config, Some("edit")),
        WriteTarget::Edge { function: "messages-write".into(), op: "edit".into() }
    );
    let kvs = EntityConfig::synced("kvs", "Kvs");
    assert_eq!(write_target(&kvs, Some("x")), WriteTarget::PostgREST);
}

#[test]
fn transient_failures_are_queued() {
    assert_eq!(after_write(&Ok(())), WriteOutcome::Done);
    let t = Err(PolyError::Push(PushError::Transient { table: "t".into(), message: "m".into() }));
    assert_eq!(after_write(&t), WriteOutcome::Queue);
    let f = Err(PolyError::Edge(EdgeError::Forbidden { function: "f".into(), message: "m".into() }));
    assert_eq!(after_write(&f), WriteOutcome::Queue);
    let p = Err(PolyError::Edge(EdgeError::Conflict { function: "f".into(), code: "c".into(), message: "m".into() }));
    assert_eq!(after_write(&p), WriteOutcome::Fail);
    assert_eq!(after_write(&Err(PolyError::NoSession)), WriteOutcome::Fail);
}

#[test]
fn entity_id_must_be_a_string() {
    assert_eq!(record_entity_id("t", &record(&[("id", text("x"))])).unwrap(), "x");
    match record_entity_id("t", &record(&[("id", FieldValue::Json("3".into()))])) {
        Err(PolyError::Registry(RegistryError::MissingField { table, field })) => {
            assert_eq!((table.as_str(), field.as_str()), ("t", "id"))
        }
        other => panic!("unexpected {other:?}"),
    }
}

#[test]
fn user_id_injected_and_overwrites_caller_value() {
    let config = messages_config();
    let mut a = record(&[("id", text("m"))]);
    inject_user_id(&config, &mut a, "u1");
    assert_eq!(a.get("user_id"), Some(&text("u1")));
    let mut b = record(&[("user_id", text("spoofed"))]);
    inject_user_id(&config, &mut b, "real-user");
    assert_eq!(b.get("user_id"), Some(&text("real-user")), "active session id must win over caller-supplied value");
}

#[test]
fn kvs_fields_and_flags() {
    let r = record(&[("namespace", text("prism")), ("key", text("k")), ("deleted", FieldValue::Json("true".into()))]);
    assert_eq!(kvs_event_fields(&r), Some(("prism".to_string(), "k".to_string())));
    assert!(deleted_flag(&r));
    assert!(!deleted_flag(&record(&[])));
    assert_eq!(kvs_event_fields(&record(&[("namespace", text("p"))])), None);
}

#[test]
fn remote_rows_default_missing_fields() {
    let t = remote_version_triple(Some("a"), None, None).unwrap();
    assert_eq!((t.id.as_str(), t.version, t.deleted), ("a", 0, false));
    assert!(remote_version_triple(None, Some(1), Some(true)).is_none());
}

#[test]
fn tombstone_queue_entry() {
    let q = queued_tombstone("t", "1", 7, 99, "offline".into());
    assert_eq!(q.kind, QueuedOperationKind::Tombstone { version: 7 });
    assert_eq!(q.retry_count, 0);
    assert_eq!(q.last_error.as_deref(), Some("offline"));
}
