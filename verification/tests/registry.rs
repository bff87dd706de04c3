use polykit::polybase::encryption::Encryption;
use polykit::polybase::errors::RegistryError;
use polykit::polybase::record::{FieldValue, Record};
use polykit::polybase::registry::schema::{ColumnShape, SchemaSnapshot, TableShape};
use polykit::polybase::registry::{ColumnDef, EntityConfig, ParentRelation, Registry, WritePath};

fn messages_config() -> EntityConfig {
    EntityConfig::synced("messages", "Message")
        .columns(&[
            ColumnDef::synced("id", "id", "id", "TEXT", "string", false),
            ColumnDef::synced("content", "content", "content", "TEXT", "string", true),
            ColumnDef::synced("version", "version", "version", "INTEGER", "integer", false),
            ColumnDef::synced("deleted", "deleted", "deleted", "INTEGER", "boolean", false),
        ])
        .parent(ParentRelation::new("conversations", "conversation_id"))
        .write_via_edge("messages-write", "send")
}

fn text(s: &str) -> FieldValue {
    FieldValue::Text(s.to_string())
}

fn json(s: &str) -> FieldValue {
    FieldValue::Json(s.to_string())
}

fn record(fields: &[(&str, FieldValue)]) -> Record {
    let mut r = Record::new();
    for (k, v) in fields {
        r.insert(k, v.duplicate());
    }
    r
}

fn enc() -> Encryption {
    Encryption::new("test-secret").unwrap()
}

#[test]
fn register_and_lookup_by_type_and_table() {
    let mut reg = Registry::new();
    reg.register(messages_config());
    let by_type = reg.config_for_type("Message").unwrap();
    let by_table = reg.config_for_table("messages").unwrap();
    assert_eq!(by_type.table_name, by_table.table_name);
    assert!(matches!(by_type.write_path, WritePath::Edge { function: "messages-write", .. }));
}

#[test]
fn encrypted_columns_filtered() {
    let cfg = messages_config();
    assert_eq!(cfg.encrypted_columns(), vec!["content"]);
}

#[test]
fn synced_default_conflict_target_is_id() {
    let cfg = EntityConfig::synced("conversations", "Conversation");
    assert_eq!(cfg.conflict_target, "id");
}

#[test]
fn conflict_target_builder_overrides_default() {
    let cfg = EntityConfig::synced("kvs", "Kvs").conflict_target("id,user_id");
    assert_eq!(cfg.conflict_target, "id,user_id");
}

#[test]
fn remote_columns_include_user_id_when_requested() {
    let cfg = messages_config();
    let names = cfg.remote_column_names();
    assert!(names.contains(&"user_id"));
}

#[test]
fn local_only_entities_register_but_dont_appear_in_synced_lookups() {
    let mut reg = Registry::new();
    reg.register(
        EntityConfig::local_only("sync_metadata").column(ColumnDef::local_only("table_name", "TEXT")),
    );
    assert!(reg.config_for_table("sync_metadata").is_some());
    assert!(reg.config_for_type("sync_metadata").is_none());
    assert!(!reg.is_registered_table("sync_metadata"));
}

#[test]
fn map_remote_to_local_renames_and_drops_unknown_fields() {
    let cfg = EntityConfig::synced("conversations", "Conversation").columns(&[
        ColumnDef::synced("id", "id_local", "id", "TEXT", "string", false),
        ColumnDef::synced("name", "name_local", "name", "TEXT", "string", false),
    ]);
    let remote = record(&[("id", text("c1")), ("name", text("alpha")), ("extra_remote_only", text("ignored"))]);
    let local = cfg.map_remote_to_local(&remote);
    assert_eq!(local.get("id_local"), Some(&text("c1")));
    assert_eq!(local.get("name_local"), Some(&text("alpha")));
    assert!(local.get("extra_remote_only").is_none());
    assert_eq!(local.len(), 2);
}

#[test]
fn map_local_to_remote_skips_local_only_columns() {
    let cfg = EntityConfig::synced("conversations", "Conversation").columns(&[
        ColumnDef::synced("id", "id", "id", "TEXT", "string", false),
        ColumnDef::local_only("draft_text", "TEXT"),
    ]);
    let local = record(&[("id", text("c1")), ("draft_text", text("in-progress"))]);
    let remote = cfg.map_local_to_remote(&local);
    assert_eq!(remote.get("id"), Some(&text("c1")));
    assert!(remote.get("draft_text").is_none());
    assert_eq!(remote.len(), 1);
}

#[test]
fn serialize_for_remote_injects_user_id_when_configured() {
    let cfg = messages_config();
    let payload = record(&[("id", text("m1")), ("version", json("1"))]);
    let serialized = cfg.serialize_for_remote(None, "user-42", &payload).unwrap();
    assert_eq!(serialized.get("user_id"), Some(&text("user-42")));
}

#[test]
fn serialize_for_remote_overwrites_caller_supplied_user_id() {
    let cfg = messages_config();
    let payload = record(&[("id", text("m1")), ("user_id", text("spoofed"))]);
    let serialized = cfg.serialize_for_remote(None, "real-user", &payload).unwrap();
    assert_eq!(serialized.get("user_id"), Some(&text("real-user")));
}

#[test]
fn serialize_for_remote_skips_user_id_when_not_configured() {
    let cfg = EntityConfig::synced("public", "Public")
        .columns(&[ColumnDef::synced("id", "id", "id", "TEXT", "string", false)])
        .include_user_id(false);
    let payload = record(&[("id", text("p1"))]);
    let serialized = cfg.serialize_for_remote(None, "user-1", &payload).unwrap();
    assert!(!serialized.contains_key("user_id"));
}

#[test]
fn serialize_for_remote_encrypts_only_flagged_columns() {
    let cfg = messages_config();
    let payload = record(&[("id", text("m1")), ("content", text("hello world")), ("version", json("7"))]);
    let serialized = cfg.serialize_for_remote(Some(&enc()), "user-1", &payload).unwrap();
    match serialized.get("content") {
        Some(FieldValue::Text(c)) => assert!(c.starts_with("enc:")),
        other => panic!("unexpected {other:?}"),
    }
    assert_eq!(serialized.get("id"), Some(&text("m1")));
    assert_eq!(serialized.get("version"), Some(&json("7")));
}

#[test]
fn serialize_for_remote_is_idempotent_over_already_encrypted() {
    let cfg = messages_config();
    let engine = enc();
    let user = "user-1";
    let pre = engine.encrypt("payload", Encryption::key_user_uuid(user)).unwrap();
    let payload = record(&[("id", text("m1")), ("content", text(&pre))]);
    let serialized = cfg.serialize_for_remote(Some(&engine), user, &payload).unwrap();
    assert_eq!(serialized.get("content"), Some(&text(&pre)));
}

#[test]
fn serialize_for_remote_is_pass_through_without_encryption() {
    let cfg = messages_config();
    let payload = record(&[("id", text("m1")), ("content", text("plain")), ("version", json("1"))]);
    let serialized = cfg.serialize_for_remote(None, "user-1", &payload).unwrap();
    assert_eq!(serialized.get("content"), Some(&text("plain")));
}

#[test]
fn serialized_ciphertext_decrypts_back() {
    let cfg = messages_config();
    let engine = enc();
    let payload = record(&[("id", text("m1")), ("content", text("secret words"))]);
    let serialized = cfg.serialize_for_remote(Some(&engine), "user-9", &payload).unwrap();
    match serialized.get("content") {
        Some(FieldValue::Text(c)) => {
            let plain = engine.decrypt(c, Encryption::key_user_uuid("user-9")).unwrap();
            assert_eq!(plain, "secret words");
        }
        other => panic!("unexpected {other:?}"),
    }
}

#[test]
fn registry_serialize_remote_payload_resolves_table() {
    let mut reg = Registry::new();
    reg.register(messages_config());
    let payload = record(&[("id", text("m1")), ("content", text("hi"))]);
    let serialized = reg.serialize_remote_payload("messages", &payload, Some(&enc()), "user-1").unwrap();
    match serialized.get("content") {
        Some(FieldValue::Text(c)) => assert!(c.starts_with("enc:")),
        other => panic!("unexpected {other:?}"),
    }
    assert_eq!(serialized.get("user_id"), Some(&text("user-1")));
}

#[test]
fn registry_serialize_remote_payload_rejects_unknown_table() {
    let reg = Registry::new();
    let err = reg
        .serialize_remote_payload("ghosts", &Record::new(), Some(&enc()), "user-1")
        .expect_err("unknown table");
    assert!(matches!(err, RegistryError::TableNotRegistered(t) if t == "ghosts"));
}

#[test]
fn build_remote_snapshot_from_registry_skips_local_only_tables() {
    let mut reg = Registry::new();
    reg.register(messages_config());
    reg.register(EntityConfig::local_only("drafts").columns(&[ColumnDef::local_only("id", "TEXT")]));
    let snap = reg.build_remote_snapshot_from_registry();
    assert!(snap.table("messages").is_some());
    assert!(snap.table("drafts").is_none());
    assert!(snap.table("messages").unwrap().column_map().get("user_id").is_some());
}

#[test]
fn validate_remote_schema_snapshot_reports_missing_table_and_column_drift() {
    let mut reg = Registry::new();
    reg.register(messages_config());
    let snap = SchemaSnapshot::new(vec![(
        "messages".to_string(),
        TableShape::new(vec![
            ColumnShape::new("id", "string"),
            ColumnShape::new("content", "integer"),
            ColumnShape::new("version", "integer"),
            ColumnShape::new("deleted", "boolean"),
            ColumnShape::new("user_id", "string"),
        ]),
    )]);
    let issues = reg.validate_remote_schema_snapshot(&snap);
    assert!(
        issues.iter().any(|i| i.contains("content") && i.contains("type mismatch")),
        "expected type-mismatch issue for content; got {issues:?}"
    );
    assert_eq!(
        issues,
        vec!["table 'messages' column 'content' type mismatch: expected string, found integer".to_string()]
    );
}

#[test]
fn validate_remote_schema_snapshot_passes_self_consistent_snapshot() {
    let mut reg = Registry::new();
    reg.register(messages_config());
    let snap = reg.build_remote_snapshot_from_registry();
    let issues = reg.validate_remote_schema_snapshot(&snap);
    assert!(issues.is_empty(), "self-consistent snapshot should validate cleanly: {issues:?}");
}

#[test]
fn validate_local_schema_snapshot_includes_local_only_tables() {
    let mut reg = Registry::new();
    reg.register(messages_config());
    reg.register(EntityConfig::local_only("drafts").columns(&[ColumnDef::local_only("id", "TEXT")]));
    let snap = SchemaSnapshot::new(vec![(
        "messages".to_string(),
        TableShape::new(vec![
            ColumnShape::new("id", "TEXT"),
            ColumnShape::new("content", "TEXT"),
            ColumnShape::new("version", "INTEGER"),
            ColumnShape::new("deleted", "INTEGER"),
        ]),
    )]);
    let issues = reg.validate_local_schema_snapshot(&snap);
    assert!(
        issues.iter().any(|i| i == "missing table: drafts"),
        "expected missing-table issue for drafts; got {issues:?}"
    );
}

#[test]
fn validate_reports_missing_column() {
    let mut reg = Registry::new();
    reg.register(messages_config());
    let snap = SchemaSnapshot::new(vec![(
        "messages".to_string(),
        TableShape::new(vec![ColumnShape::new("id", "TEXT")]),
    )]);
    let issues = reg.validate_local_schema_snapshot(&snap);
    assert_eq!(
        issues,
        vec![
            "table 'messages' missing column: content".to_string(),
            "table 'messages' missing column: version".to_string(),
            "table 'messages' missing column: deleted".to_string(),
        ]
    );
}

#[test]
fn registering_same_table_twice_replaces_it() {
    let mut reg = Registry::new();
    reg.register(messages_config());
    reg.register(EntityConfig::synced("messages", "Message").conflict_target("id,user_id"));
    assert_eq!(reg.config_for_table("messages").unwrap().conflict_target, "id,user_id");
    assert_eq!(reg.registered_tables(), vec!["messages".to_string()]);
    assert_eq!(reg.registered_types(), vec!["Message".to_string()]);
    assert!(reg.is_registered_type("Message"));
}

#[test]
fn effective_remote_name_falls_back_to_canonical() {
    let c = ColumnDef::local_only("draft", "TEXT");
    assert_eq!(c.effective_remote_name(), "draft");
    let s = ColumnDef::synced("a", "b", "c", "TEXT", "string", false);
    assert_eq!(s.effective_remote_name(), "c");
}

#[test]
fn create_entity_returns_factory_failed_when_no_factory() {
    let cfg = EntityConfig::synced("messages", "Message");
    let err = cfg.missing_factory_error();
    match err {
        RegistryError::FactoryFailed { table, message } => {
            assert_eq!(table, "messages");
            assert_eq!(message, "no factory registered");
        }
        other => panic!("expected FactoryFailed, got {other:?}"),
    }
}
