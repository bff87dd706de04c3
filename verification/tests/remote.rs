use polykit::polybase::errors::{PolyError, PullError, PushError};
use polykit::polybase::persistence::VersionRow;
use polykit::polybase::record::{FieldValue, Record};
use polykit::polybase::remote::{
    fetch_records_query, fetch_versions_query, read_by_ids_query, read_failure, row_matches, tombstone_query,
    upsert_entity_id,
    upsert_failure, upsert_query, write_failure, RemoteFilter,
};

fn pairs(v: &[(&str, &str)]) -> Vec<(String, String)> {
    v.iter().map(|(a, b)| (a.to_string(), b.to_string())).collect()
}

#[test]
fn filter_from_pairs_keeps_order() {
    let f = RemoteFilter::from_pairs(vec![("namespace", "prism"), ("key", "x")]);
    assert_eq!(f.eq, pairs(&[("namespace", "prism"), ("key", "x")]));
}

#[test]
fn records_query_scopes_and_filters() {
    let f = RemoteFilter::from_pairs(vec![("namespace", "prism")]);
    assert_eq!(
        fetch_records_query("user_id", Some("u1"), Some(&f)),
        pairs(&[("select", "*"), ("user_id", "eq.u1"), ("namespace", "eq.prism")])
    );
    assert_eq!(fetch_records_query("user_id", None, None), pairs(&[("select", "*")]));
}

#[test]
fn versions_query_projects_version_columns() {
    assert_eq!(
        fetch_versions_query("owner", Some("u2")),
        pairs(&[("select", "id,version,deleted"), ("owner", "eq.u2")])
    );
}

#[test]
fn upsert_failure_detects_same_version_noop() {
    assert!(matches!(
        upsert_failure("t", 409, "Same-Version Mutation rejected"),
        PolyError::Push(PushError::SameVersionMutationIgnored { .. })
    ));
    match upsert_failure("t", 400, "invalid input syntax for type uuid") {
        PolyError::Push(PushError::Permanent { message, .. }) => {
            assert_eq!(message, "HTTP 400: invalid input syntax for type uuid")
        }
        other => panic!("unexpected {other:?}"),
    }
    assert!(matches!(write_failure("t", 503, "busy"), PolyError::Push(PushError::Transient { .. })));
}

#[test]
fn read_failure_carries_status() {
    match read_failure("t", 500, "down") {
        PolyError::Pull(PullError::Failed { table, message }) => {
            assert_eq!(table, "t");
            assert_eq!(message, "HTTP 500: down");
        }
        other => panic!("unexpected {other:?}"),
    }
}

#[test]
fn version_row_converts_to_triple() {
    let row = VersionRow { id: "a".into(), version: 3, deleted: true };
    let t = row.to_triple();
    assert_eq!((t.id.as_str(), t.version, t.deleted), ("a", 3, true));
}

#[test]
fn read_by_ids_query_lists_ids() {
    assert!(read_by_ids_query(&[]).is_none());
    let q = read_by_ids_query(&["a".to_string(), "b".to_string(), "c".to_string()]).unwrap();
    assert_eq!(q, vec![("id".to_string(), "in.(a,b,c)".to_string()), ("select".to_string(), "*".to_string())]);
    let q = read_by_ids_query(&["only".to_string()]).unwrap();
    assert_eq!(q[0].1, "in.(only)");
}

#[test]
fn tombstone_and_upsert_queries() {
    assert_eq!(tombstone_query("r1"), vec![("id".to_string(), "eq.r1".to_string())]);
    assert_eq!(upsert_query("id"), vec![("on_conflict".to_string(), "id".to_string())]);
}

#[test]
fn upsert_needs_a_string_id() {
    let mut rec = Record::new();
    rec.insert("name", FieldValue::Text("x".to_string()));
    match upsert_entity_id("personas", &rec) {
        Err(PolyError::Push(PushError::Permanent { table, message })) => {
            assert_eq!(table, "personas");
            assert_eq!(message, "record missing 'id' field");
        }
        other => panic!("unexpected {other:?}"),
    }
    rec.insert("id", FieldValue::Text("p1".to_string()));
    assert_eq!(upsert_entity_id("personas", &rec).unwrap(), "p1");
}

#[test]
fn memory_rows_match_scope_and_filter() {
    let mut row = Record::new();
    row.insert("id", FieldValue::Text("c1".to_string()));
    row.insert("user_id", FieldValue::Text("u1".to_string()));
    row.insert("status", FieldValue::Text("open".to_string()));
    row.insert("version", FieldValue::Json("3".to_string()));
    assert!(row_matches(&row, "user_id", None, None));
    assert!(row_matches(&row, "user_id", Some("u1"), None));
    assert!(!row_matches(&row, "user_id", Some("u2"), None));
    assert!(!row_matches(&row, "owner", Some("u1"), None));
    let open = RemoteFilter::from_pairs(vec![("status", "open")]);
    let closed = RemoteFilter::from_pairs(vec![("status", "closed")]);
    let numeric = RemoteFilter::from_pairs(vec![("version", "3")]);
    assert!(row_matches(&row, "user_id", Some("u1"), Some(&open)));
    assert!(!row_matches(&row, "user_id", Some("u1"), Some(&closed)));
    assert!(!row_matches(&row, "user_id", None, Some(&numeric)));
}
