use polykit::polybase::encryption::EncryptionError;
use polykit::polybase::errors::{
    EdgeError, OfflineQueueError, PolyError, PullError, PushError, RegistryError, StorageError,
};

#[test]
fn error_messages_match_their_display() {
    assert_eq!(PolyError::NoSession.describe(), "no active session");
    assert_eq!(PolyError::NotConfigured("url".to_string()).describe(), "polybase not configured: url");
    assert_eq!(PolyError::Local("disk".to_string()).describe(), "local store error: disk");
    assert_eq!(PolyError::Other("boom".to_string()).describe(), "boom");
    assert_eq!(
        PolyError::Edge(EdgeError::Validation {
            function: "messages-write".to_string(),
            code: "validation".to_string(),
            message: "bad".to_string()
        })
        .describe(),
        "validation error from messages-write: validation: bad"
    );
    assert_eq!(
        PolyError::Push(PushError::SameVersionMutationIgnored { table: "kvs".to_string() }).describe(),
        "same-version mutation ignored on kvs"
    );
    assert_eq!(
        PolyError::Pull(PullError::Failed { table: "t".to_string(), message: "HTTP 500: x".to_string() }).describe(),
        "pull failed on t: HTTP 500: x"
    );
    assert_eq!(
        PolyError::Registry(RegistryError::MissingField { table: "t".to_string(), field: "id".to_string() }).describe(),
        "missing required field id on table t"
    );
    assert_eq!(
        PolyError::Storage(StorageError::NotFound { bucket: "b".to_string(), path: "p/q".to_string() }).describe(),
        "storage object not found at b/p/q"
    );
    assert_eq!(PolyError::OfflineQueue(OfflineQueueError::Io("full".to_string())).describe(), "queue io error: full");
    assert_eq!(PolyError::Encryption(EncryptionError::EmptySecret).describe(), "encryption secret is empty");
}
