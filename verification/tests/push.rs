use polykit::polybase::errors::PushError;
use polykit::polybase::push::{
    classify_push_error_message, is_permanent_push_error_message, permanent_push_error_patterns,
};

#[test]
fn classifier_matches_swift_polybase_list() {
    for pattern in permanent_push_error_patterns() {
        assert!(
            is_permanent_push_error_message(pattern),
            "expected pattern to match itself: {pattern}",
        );
    }
}

#[test]
fn classifier_is_case_insensitive() {
    assert!(is_permanent_push_error_message("ERROR: VERSION REGRESSION detected"));
    assert!(is_permanent_push_error_message("Field IS IMMUTABLE for personas/123"));
}

#[test]
fn fk_violations_are_intentionally_transient() {
    assert!(!is_permanent_push_error_message(
        "insert or update on table \"messages\" violates foreign key constraint",
    ));
}

#[test]
fn classify_uuid_error_is_permanent() {
    assert!(matches!(
        classify_push_error_message("t", "invalid input syntax for type uuid"),
        PushError::Permanent { .. }
    ));
}

#[test]
fn classify_unknown_is_transient() {
    assert!(matches!(
        classify_push_error_message("t", "connection reset"),
        PushError::Transient { .. }
    ));
}

#[test]
fn classify_undelete_threshold_is_permanent() {
    assert!(matches!(
        classify_push_error_message("t", "undelete requires version >= 1005"),
        PushError::Permanent { .. }
    ));
}

#[test]
fn classify_constraint_violations_are_permanent() {
    for body in [
        "value too long for type character varying(255)",
        "duplicate key violates unique constraint \"messages_pkey\"",
        "null value in column \"id\" violates not-null constraint",
        "string is too long for tsvector",
        "new row for relation \"messages\" violates check constraint \"role_check\"",
    ] {
        assert!(
            is_permanent_push_error_message(body),
            "expected permanent classification for: {body}",
        );
    }
}

#[test]
fn classify_keeps_table_and_message() {
    match classify_push_error_message("messages", "Version Regression") {
        PushError::Permanent { table, message } => {
            assert_eq!(table, "messages");
            assert_eq!(message, "Version Regression");
        }
        _ => panic!("expected permanent"),
    }
    match classify_push_error_message("notes", "timeout") {
        PushError::Transient { table, message } => {
            assert_eq!(table, "notes");
            assert_eq!(message, "timeout");
        }
        _ => panic!("expected transient"),
    }
}

#[test]
fn push_error_transience_flags() {
    let p = classify_push_error_message("t", "is immutable");
    assert!(p.is_permanent());
    assert!(!p.is_transient());
    let t = classify_push_error_message("t", "socket closed");
    assert!(t.is_transient());
    assert!(!t.is_permanent());
}
