use polykit::polybase::events::{topic_for, PolyEvent};
use polykit::polybase::kvs::{decode_id, encode_id, kvs_entity_config, kvs_record, register_kvs, KVS_TABLE};
use polykit::polybase::record::FieldValue;
use polykit::polybase::registry::Registry;

#[test]
fn id_roundtrip() {
    let id = encode_id("prism", "default_model");
    assert_eq!(decode_id(&id), Some(("prism", "default_model")));
}

#[test]
fn entity_config_has_kvs_columns() {
    let cfg = kvs_entity_config();
    assert_eq!(cfg.table_name, KVS_TABLE);
    assert!(cfg.column_names().contains(&"namespace"));
    assert!(cfg.column_names().contains(&"value"));
}

#[test]
fn encode_id_joins_with_double_colon() {
    assert_eq!(encode_id("ns", "k"), "ns::k");
    assert_eq!(encode_id("", ""), "::");
}

#[test]
fn decode_id_splits_at_first_separator() {
    assert_eq!(decode_id("a::b::c"), Some(("a", "b::c")));
    assert_eq!(decode_id("::x"), Some(("", "x")));
    assert_eq!(decode_id("x::"), Some(("x", "")));
    assert_eq!(decode_id("a:b"), None);
    assert_eq!(decode_id(""), None);
    assert_eq!(decode_id(":::"), Some(("", ":")));
}

#[test]
fn kvs_config_is_synced_through_postgrest_with_user_id() {
    let cfg = kvs_entity_config();
    assert_eq!(cfg.entity_type_name, Some("Kvs"));
    assert!(cfg.is_synced());
    assert_eq!(cfg.conflict_target, "id");
    assert_eq!(cfg.columns.len(), 7);
    assert_eq!(
        cfg.remote_column_names(),
        vec!["id", "namespace", "key", "value", "version", "deleted", "updated_at", "user_id"]
    );
}

#[test]
fn kvs_record_holds_the_row() {
    let rec = kvs_record("prism", "default_model", "{\"a\":1}".to_string(), -3, "2024-01-01T00:00:00Z");
    assert_eq!(rec.len(), 7);
    assert_eq!(rec.get("id"), Some(&FieldValue::Text("prism::default_model".to_string())));
    assert_eq!(rec.get("namespace"), Some(&FieldValue::Text("prism".to_string())));
    assert_eq!(rec.get("key"), Some(&FieldValue::Text("default_model".to_string())));
    assert_eq!(rec.get("value"), Some(&FieldValue::Json("{\"a\":1}".to_string())));
    assert_eq!(rec.get("version"), Some(&FieldValue::Json("-3".to_string())));
    assert_eq!(rec.get("deleted"), Some(&FieldValue::Json("false".to_string())));
    assert_eq!(rec.get("updated_at"), Some(&FieldValue::Text("2024-01-01T00:00:00Z".to_string())));
}

#[test]
fn register_kvs_is_idempotent() {
    let mut registry = Registry::new();
    register_kvs(&mut registry);
    assert!(registry.is_registered_table(KVS_TABLE));
    assert_eq!(registry.registered_tables(), vec!["kvs".to_string()]);
    register_kvs(&mut registry);
    assert_eq!(registry.registered_tables(), vec!["kvs".to_string()]);
}

#[test]
fn event_topics() {
    assert_eq!(
        topic_for(&PolyEvent::KvsChanged { namespace: "n".to_string(), key: "k".to_string(), deleted: false }),
        "polybase:kvs_changed"
    );
    assert_eq!(topic_for(&PolyEvent::OfflineQueueChanged { depth: 1, in_flight: false }), "polybase:offline_queue_changed");
    assert_eq!(
        topic_for(&PolyEvent::PullProgress { table: "t".to_string(), rows_received: 0, complete: true }),
        "polybase:pull_progress"
    );
}

#[test]
fn ids_round_trip_for_namespaces_without_separators() {
    for (ns, key) in [("a", ""), ("", "k::with::colons"), ("ns-1", "k:v")] {
        let id = encode_id(ns, key);
        assert_eq!(decode_id(&id), Some((ns, key)));
    }
}
