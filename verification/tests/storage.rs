use polykit::polybase::client::{Client, ClientConfig};
use polykit::polybase::encryption::{Encryption, UserUuid};
use polykit::polybase::errors::{PolyError, StorageError};
use polykit::polybase::storage::{status_error, Bucket, ListOptions, ListSort, SignedUrl, StorageOp};

fn client() -> Client {
    Client::new(ClientConfig {
        supabase_url: "https://example.supabase.co".into(),
        supabase_anon_key: "anon".into(),
        encryption_secret: None,
        storage_bucket: Some("test-bucket".into()),
    })
    .expect("client")
}

fn user() -> UserUuid {
    Encryption::key_user_uuid("11111111-2222-3333-4444-555555555555")
}

fn enc() -> Encryption {
    Encryption::new("test-secret-1234").expect("enc")
}

#[test]
fn upload_passthrough_when_no_encryption() {
    let bucket = Bucket::new(client(), "test-bucket");
    let raw = b"hello world".to_vec();
    let out = bucket.maybe_encrypt("a.bin", raw.clone()).expect("passthrough");
    assert_eq!(out, raw, "no encryption attached → bytes unchanged");
    assert!(!out.starts_with(b"ENC\0"));
}

#[test]
fn upload_encrypts_when_encryption_attached() {
    let bucket = Bucket::new(client(), "test-bucket").with_encryption(enc(), user());
    let raw = b"plaintext attachment".to_vec();
    let cipher = bucket.maybe_encrypt("a.bin", raw.clone()).expect("encrypt");
    assert!(cipher.starts_with(b"ENC\0"), "encrypted upload must carry ENC\\0 header");
    assert_ne!(cipher, raw);
}

#[test]
fn download_passthrough_when_no_encryption() {
    let bucket = Bucket::new(client(), "test-bucket");
    let cipher = enc().encrypt_data(b"payload", user()).expect("encrypt");
    let out = bucket.maybe_decrypt("a.bin", cipher.clone()).expect("passthrough");
    assert_eq!(out, cipher, "no encryption attached → bytes unchanged");
}

#[test]
fn download_passthrough_when_payload_lacks_header() {
    let bucket = Bucket::new(client(), "test-bucket").with_encryption(enc(), user());
    let raw = b"legacy plaintext object".to_vec();
    let out = bucket.maybe_decrypt("a.bin", raw.clone()).expect("passthrough");
    assert_eq!(out, raw, "no ENC\\0 header → bytes unchanged");
}

#[test]
fn download_decrypts_when_payload_has_header() {
    let bucket = Bucket::new(client(), "test-bucket").with_encryption(enc(), user());
    let plain = b"plaintext attachment";
    let cipher = enc().encrypt_data(plain, user()).expect("encrypt");
    let out = bucket.maybe_decrypt("a.bin", cipher).expect("decrypt");
    assert_eq!(&out[..], plain);
}

#[test]
fn round_trip_via_helpers() {
    let bucket = Bucket::new(client(), "test-bucket").with_encryption(enc(), user());
    let plain = b"\x00\x01\x02 binary safe".to_vec();
    let cipher = bucket.maybe_encrypt("a.bin", plain.clone()).expect("encrypt");
    assert!(cipher.starts_with(b"ENC\0"));
    let back = bucket.maybe_decrypt("a.bin", cipher).expect("decrypt");
    assert_eq!(back, plain, "encrypt-then-decrypt must round-trip exactly");
}

#[test]
fn download_decrypt_failure_surfaces_storage_error() {
    let other_user = Encryption::key_user_uuid("22222222-2222-3333-4444-555555555555");
    let bucket = Bucket::new(client(), "test-bucket").with_encryption(enc(), other_user);
    let cipher = enc().encrypt_data(b"payload", user()).expect("encrypt");
    let err = bucket.maybe_decrypt("a.bin", cipher).expect_err("must fail");
    match err {
        PolyError::Storage(StorageError::Failed { message, .. }) => {
            assert!(message.contains("decrypt"), "error should mention decrypt: {message}");
            assert_eq!(message, "decrypt: encryption operation failed: decrypt_data: aead::Error");
        }
        other => panic!("expected StorageError::Failed, got {other:?}"),
    }
}

#[test]
fn bucket_urls() {
    let bucket = Bucket::new(client(), "test-bucket");
    assert_eq!(bucket.name(), "test-bucket");
    assert!(!bucket.is_encrypted());
    assert_eq!(bucket.object_url("/a/b.png"), "https://example.supabase.co/storage/v1/object/test-bucket/a/b.png");
    assert_eq!(bucket.list_url(), "https://example.supabase.co/storage/v1/object/list/test-bucket");
    assert_eq!(bucket.sign_url("//x.bin"), "https://example.supabase.co/storage/v1/object/sign/test-bucket/x.bin");
    let signed = SignedUrl { url: "/object/sign/test-bucket/x.bin?token=t".into() };
    assert_eq!(
        bucket.resolve_signed_url(&signed),
        "https://example.supabase.co/storage/v1/object/sign/test-bucket/x.bin?token=t"
    );
}

#[test]
fn status_errors_per_operation() {
    assert_eq!(status_error(StorageOp::Upload, "b", "p", 200, ""), None);
    assert_eq!(
        status_error(StorageOp::Upload, "b", "p", 413, "too big"),
        Some(StorageError::Failed { bucket: "b".into(), path: "p".into(), message: "HTTP 413: too big".into() })
    );
    assert_eq!(
        status_error(StorageOp::Download, "b", "p", 404, "nope"),
        Some(StorageError::NotFound { bucket: "b".into(), path: "p".into() })
    );
    assert_eq!(status_error(StorageOp::Delete, "b", "p", 404, ""), None);
    assert_eq!(
        status_error(StorageOp::Delete, "b", "p", 500, "x"),
        Some(StorageError::Failed { bucket: "b".into(), path: "p".into(), message: "HTTP 500: x".into() })
    );
}

#[test]
fn list_options_default_and_sort() {
    let o = ListOptions::default();
    assert!(o.limit.is_none() && o.offset.is_none() && o.search.is_none() && o.sort_by.is_none());
    let s = ListSort::new("name", "asc");
    assert_eq!(s.column, "name");
    assert_eq!(s.order, "asc");
}
