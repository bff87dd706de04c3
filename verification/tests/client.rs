use polykit::polybase::client::{Client, ClientConfig};
use polykit::polybase::errors::PolyError;

fn cfg() -> ClientConfig {
    ClientConfig {
        supabase_url: "https://example.supabase.co/".into(),
        supabase_anon_key: "anon".into(),
        encryption_secret: None,
        storage_bucket: None,
    }
}

#[test]
fn url_helpers_strip_trailing_slash() {
    let c = Client::new(cfg()).unwrap();
    assert_eq!(c.rest_url("messages"), "https://example.supabase.co/rest/v1/messages");
    assert_eq!(
        c.functions_url("messages-write"),
        "https://example.supabase.co/functions/v1/messages-write"
    );
    assert_eq!(
        c.storage_object_url("attachments", "/u/1/a.png"),
        "https://example.supabase.co/storage/v1/object/attachments/u/1/a.png"
    );
    assert_eq!(c.auth_url("token"), "https://example.supabase.co/auth/v1/token");
}

#[test]
fn empty_url_rejected() {
    let mut bad = cfg();
    bad.supabase_url.clear();
    assert!(matches!(Client::new(bad), Err(PolyError::NotConfigured(_))));
}

#[test]
fn empty_anon_rejected() {
    let mut bad = cfg();
    bad.supabase_anon_key.clear();
    assert!(matches!(Client::new(bad), Err(PolyError::NotConfigured(_))));
}

#[test]
fn storage_bucket_default_is_attachments() {
    let c = Client::new(cfg()).unwrap();
    assert_eq!(c.config().storage_bucket_or_default(), "attachments");
}

#[test]
fn whitespace_only_values_are_rejected_with_messages() {
    let mut bad = cfg();
    bad.supabase_url = "  \t".into();
    match bad.validate() {
        Err(PolyError::NotConfigured(m)) => assert_eq!(m, "supabase_url is empty"),
        other => panic!("unexpected {other:?}"),
    }
    let mut bad = cfg();
    bad.supabase_anon_key = " ".into();
    match bad.validate() {
        Err(PolyError::NotConfigured(m)) => assert_eq!(m, "supabase_anon_key is empty"),
        other => panic!("unexpected {other:?}"),
    }
    assert!(cfg().validate().is_ok());
}

#[test]
fn configured_bucket_is_used() {
    let mut c = cfg();
    c.storage_bucket = Some("avatars".into());
    assert_eq!(c.storage_bucket_or_default(), "avatars");
}
