use polykit::polybase::client::{Client, ClientConfig};
use polykit::polybase::edge::{
    bearer, classify_error, edge_failure, edge_transport_failure, reply_verdict, TransportStage, EdgeClient, EdgeErrorBody, EdgeReply, EdgeRequest,
};
use polykit::polybase::errors::{EdgeError, PolyError};

fn make_client() -> Client {
    Client::new(ClientConfig {
        supabase_url: "https://example.supabase.co".into(),
        supabase_anon_key: "anon".into(),
        encryption_secret: None,
        storage_bucket: None,
    })
    .unwrap()
}

fn body(code: &str, message: &str) -> EdgeErrorBody {
    EdgeErrorBody { code: code.into(), message: message.into(), details: None }
}

#[test]
fn url_with_op_appends_v1_op_suffix() {
    let edge = EdgeClient::new(make_client());
    let url = edge.build_url("messages-write", Some("send"));
    assert_eq!(url, "https://example.supabase.co/functions/v1/messages-write/v1/send");
}

#[test]
fn url_without_op_omits_suffix() {
    let edge = EdgeClient::new(make_client());
    let url = edge.build_url("notify-new-message", None);
    assert_eq!(url, "https://example.supabase.co/functions/v1/notify-new-message");
    assert_eq!(edge.build_url("notify-new-message", Some("")), url);
}

#[test]
fn classify_401_is_forbidden() {
    match classify_error("x", 401, &body("auth", "no jwt")) {
        PolyError::Edge(EdgeError::Forbidden { .. }) => {}
        other => panic!("wrong: {other:?}"),
    }
}

#[test]
fn classify_5xx_is_transient_by_default() {
    match classify_error("x", 500, &body("boom", "oops")) {
        PolyError::Edge(EdgeError::Transient { .. }) => {}
        other => panic!("wrong: {other:?}"),
    }
}

#[test]
fn classify_conflict_code_routes_to_conflict() {
    match classify_error("x", 400, &body("version_conflict", "stale")) {
        PolyError::Edge(EdgeError::Conflict { .. }) => {}
        other => panic!("wrong: {other:?}"),
    }
}

#[test]
fn classify_5xx_permanent_code_any_case() {
    match classify_error("fn", 503, &body("PERMANENT", "gone")) {
        PolyError::Edge(EdgeError::Permanent { function, message }) => {
            assert_eq!(function, "fn");
            assert_eq!(message, "gone");
        }
        other => panic!("wrong: {other:?}"),
    }
}

#[test]
fn classify_403_and_validation() {
    assert!(matches!(classify_error("x", 403, &body("a", "b")), PolyError::Edge(EdgeError::Forbidden { .. })));
    match classify_error("x", 422, &body("Bad_Input", "nope")) {
        PolyError::Edge(EdgeError::Validation { code, .. }) => assert_eq!(code, "Bad_Input"),
        other => panic!("wrong: {other:?}"),
    }
    assert!(matches!(
        classify_error("x", 409, &body("IDEMPOTENCY_MISMATCH", "dup")),
        PolyError::Edge(EdgeError::Conflict { .. })
    ));
}

#[test]
fn failure_without_envelope_synthesizes_code() {
    match edge_failure("f", 404, None, "not found".to_string()) {
        PolyError::Edge(EdgeError::Validation { code, message, .. }) => {
            assert_eq!(code, "404");
            assert_eq!(message, "not found");
        }
        other => panic!("wrong: {other:?}"),
    }
    match edge_failure("f", 200, None, "{\"success\":false}".to_string()) {
        PolyError::Edge(EdgeError::Validation { code, .. }) => assert_eq!(code, "unknown"),
        other => panic!("wrong: {other:?}"),
    }
    match edge_failure("f", 502, Some(body("x", "upstream")), String::new()) {
        PolyError::Edge(EdgeError::Transient { message, .. }) => assert_eq!(message, "upstream"),
        other => panic!("wrong: {other:?}"),
    }
}

#[test]
fn request_builders_set_fields() {
    let r = EdgeRequest::new("messages-write", 5u32).with_op("send").with_idempotency_key("k").with_request_id("r");
    assert_eq!(r.function, "messages-write");
    assert_eq!(r.op.as_deref(), Some("send"));
    assert_eq!(r.idempotency_key.as_deref(), Some("k"));
    assert_eq!(r.request_id.as_deref(), Some("r"));
    assert_eq!(r.payload, 5);
}

#[test]
fn reply_verdict_follows_the_envelope() {
    assert_eq!(bearer("tok"), "Bearer tok");
    assert!(reply_verdict("f", 200, EdgeReply::Envelope { success: true, has_data: true, error: None }, String::new()).is_ok());
    match reply_verdict("f", 200, EdgeReply::Envelope { success: true, has_data: false, error: None }, String::new()) {
        Err(PolyError::Edge(EdgeError::Decode { function, message })) => {
            assert_eq!(function, "f");
            assert_eq!(message, "envelope.success was true but data was missing");
        }
        other => panic!("unexpected {other:?}"),
    }
    match reply_verdict("f", 200, EdgeReply::Undecodable("expected value".to_string()), "garbage".to_string()) {
        Err(PolyError::Edge(EdgeError::Decode { message, .. })) => assert_eq!(message, "expected value"),
        other => panic!("unexpected {other:?}"),
    }
    match reply_verdict("f", 200, EdgeReply::Envelope { success: false, has_data: false, error: None }, "raw".to_string()) {
        Err(PolyError::Edge(EdgeError::Validation { code, message, .. })) => {
            assert_eq!(code, "unknown");
            assert_eq!(message, "raw");
        }
        other => panic!("unexpected {other:?}"),
    }
    let conflict = EdgeErrorBody { code: "version_conflict".to_string(), message: "stale".to_string(), details: None };
    match reply_verdict("f", 409, EdgeReply::Envelope { success: false, has_data: false, error: Some(conflict) }, "raw".to_string()) {
        Err(PolyError::Edge(EdgeError::Conflict { code, .. })) => assert_eq!(code, "version_conflict"),
        other => panic!("unexpected {other:?}"),
    }
    match reply_verdict("f", 503, EdgeReply::Undecodable("html".to_string()), "<html>".to_string()) {
        Err(PolyError::Edge(EdgeError::Transient { message, .. })) => assert_eq!(message, "<html>"),
        other => panic!("unexpected {other:?}"),
    }
}

#[test]
fn transport_failures_are_transient() {
    match edge_transport_failure("messages-write", TransportStage::Send, "connection refused") {
        PolyError::Edge(EdgeError::Transient { function, message }) => {
            assert_eq!(function, "messages-write");
            assert_eq!(message, "connection refused");
        }
        other => panic!("unexpected {other:?}"),
    }
    let e = edge_transport_failure("f", TransportStage::ReadBody, "eof");
    assert!(e.is_transient());
    match e {
        PolyError::Edge(EdgeError::Transient { message, .. }) => assert_eq!(message, "read body: eof"),
        other => panic!("unexpected {other:?}"),
    }
}
