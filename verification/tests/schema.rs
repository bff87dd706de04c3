use polykit::polybase::errors::RegistryError;
use polykit::polybase::registry::schema::{
    normalize_type, ColumnShape, OpenApiProperty, OpenApiSchema, SchemaSnapshot, TableShape,
};

#[test]
fn normalize_type_collapses_common_aliases() {
    assert_eq!(normalize_type("INTEGER"), "integer");
    assert_eq!(normalize_type("bigint"), "integer");
    assert_eq!(normalize_type("int8"), "integer");
    assert_eq!(normalize_type(" Real "), "real");
    assert_eq!(normalize_type("DOUBLE PRECISION"), "real");
    assert_eq!(normalize_type("Bool"), "boolean");
    assert_eq!(normalize_type("varchar"), "string");
    assert_eq!(normalize_type("TEXT"), "string");
    assert_eq!(normalize_type("custom_type"), "custom_type");
}

#[test]
fn column_map_indexes_by_name() {
    let shape = TableShape::new(vec![
        ColumnShape::new("id", "string"),
        ColumnShape::new("count", "integer"),
    ]);
    let map = shape.column_map();
    assert_eq!(map.get("id"), Some("string"));
    assert_eq!(map.get("count"), Some("integer"));
    assert_eq!(map.len(), 2);
}

#[test]
fn column_map_later_duplicate_wins() {
    let shape = TableShape::new(vec![
        ColumnShape::new("id", "string"),
        ColumnShape::new("id", "integer"),
    ]);
    let map = shape.column_map();
    assert_eq!(map.get("id"), Some("integer"));
    assert_eq!(map.get("missing"), None);
    assert_eq!(map.len(), 1);
}

#[test]
fn normalize_type_keeps_unknown_lowercased_and_trimmed() {
    assert_eq!(normalize_type("\tJSONB\n"), "jsonb");
    assert_eq!(normalize_type("character varying"), "string");
    assert_eq!(normalize_type("Character  Varying"), "character  varying");
    assert_eq!(normalize_type(""), "");
}

#[test]
fn snapshot_lookup_by_table_name() {
    let snap = SchemaSnapshot::new(vec![
        ("a".to_string(), TableShape::new(vec![ColumnShape::new("x", "TEXT")])),
        ("b".to_string(), TableShape::default()),
    ]);
    assert_eq!(snap.table("a").unwrap().columns.len(), 1);
    assert!(snap.table("b").unwrap().columns.is_empty());
    assert!(snap.table("c").is_none());
}

fn prop(name: &str, declared_type: Option<&str>, format: Option<&str>) -> OpenApiProperty {
    OpenApiProperty {
        name: name.to_string(),
        declared_type: declared_type.map(str::to_string),
        format: format.map(str::to_string),
    }
}

fn schema(name: &str, properties: Option<Vec<OpenApiProperty>>) -> OpenApiSchema {
    OpenApiSchema { name: name.to_string(), properties }
}

#[test]
fn from_openapi_parses_well_formed_document() {
    let doc = vec![
        schema(
            "personas",
            Some(vec![
                prop("id", Some("string"), None),
                prop("name", Some("string"), None),
                prop("version", Some("integer"), None),
            ]),
        ),
        schema("messages", Some(vec![prop("id", Some("string"), None), prop("content", Some("string"), None)])),
    ];
    let snapshot = SchemaSnapshot::from_openapi(Some(doc.as_slice())).expect("valid doc");
    assert_eq!(snapshot.tables.len(), 2);
    let personas = snapshot.table("personas").unwrap();
    let columns = personas.column_map();
    assert_eq!(columns.get("id"), Some("string"));
    assert_eq!(columns.get("name"), Some("string"));
    assert_eq!(columns.get("version"), Some("integer"));
}

#[test]
fn from_openapi_uses_format_when_type_missing() {
    let doc = vec![schema("things", Some(vec![prop("id", None, Some("uuid"))]))];
    let snapshot = SchemaSnapshot::from_openapi(Some(doc.as_slice())).expect("valid doc");
    let columns = snapshot.table("things").unwrap().column_map();
    assert_eq!(columns.get("id"), Some("uuid"));
}

#[test]
fn from_openapi_falls_back_to_unknown_when_neither_type_nor_format() {
    let doc = vec![schema("t", Some(vec![prop("c", None, None)]))];
    let snapshot = SchemaSnapshot::from_openapi(Some(doc.as_slice())).expect("valid doc");
    let columns = snapshot.table("t").unwrap().column_map();
    assert_eq!(columns.get("c"), Some("unknown"));
}

#[test]
fn from_openapi_skips_schemas_without_properties() {
    let doc = vec![
        schema("personas", Some(vec![prop("id", Some("string"), None)])),
        schema("rpc.do_something", None),
    ];
    let snapshot = SchemaSnapshot::from_openapi(Some(doc.as_slice())).expect("valid doc");
    assert!(snapshot.table("personas").is_some());
    assert!(snapshot.table("rpc.do_something").is_none());
}

#[test]
fn from_openapi_rejects_documents_without_components_schemas() {
    let err = SchemaSnapshot::from_openapi(None).expect_err("missing block");
    assert!(matches!(err, RegistryError::InvalidRemoteSchema(_)));
}

#[test]
fn from_openapi_prefers_type_over_format() {
    let doc = vec![schema("t", Some(vec![prop("c", Some("integer"), Some("int8"))]))];
    let snapshot = SchemaSnapshot::from_openapi(Some(doc.as_slice())).unwrap();
    assert_eq!(snapshot.table("t").unwrap().column_map().get("c"), Some("integer"));
}
