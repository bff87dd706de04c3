//! Top-level and per-subsystem error types, with the retry classification the offline queue uses.

use vstd::prelude::*;
use crate::polybase::encryption::EncryptionError;
use crate::text::push_str;

verus! {

/// The transport error of the HTTP client.
#[verifier::external_type_specification]
#[verifier::external_body]
pub struct ExHttpError(reqwest::Error);

/// The JSON (de)serialization error.
#[verifier::external_type_specification]
#[verifier::external_body]
pub struct ExJsonError(serde_json::Error);

/// Top-level error covering anything the library can fail at.
#[derive(Debug)]
pub enum PolyError {
    /// Configuration is incomplete or invalid.
    NotConfigured(String),
    /// No active session — caller must sign in (or hand off a session).
    NoSession,
    /// Underlying HTTP transport failure.
    Http(reqwest::Error),
    /// JSON serialization/deserialization failure.
    Json(serde_json::Error),
    /// Edge Function call failed.
    Edge(EdgeError),
    /// Push to remote failed.
    Push(PushError),
    /// Pull from remote failed.
    Pull(PullError),
    /// Registry / field-mapping problem.
    Registry(RegistryError),
    /// Storage bucket operation failed.
    Storage(StorageError),
    /// Offline queue operation failed.
    OfflineQueue(OfflineQueueError),
    /// Local persistence (LocalStore) failed.
    Local(String),
    /// Encryption failure (key derivation, AES-GCM, or base64).
    Encryption(EncryptionError),
    /// Catch-all for app-level callbacks failing.
    Other(String),
}

/// Whether the offline queue retries after error `e`.
pub open spec fn transient_error(e: PolyError) -> bool {
    match e {
        PolyError::Edge(x) => x.spec_is_transient(),
        PolyError::Push(p) => p is Transient,
        PolyError::Http(_) => true,
        _ => false,
    }
}

impl PolyError {
    /// Convenience: build a `PolyError::Other` from a message.
    pub fn other(message: &str) -> (r: Self)
        ensures
            r matches PolyError::Other(m) && m@ == message@,
    {
        PolyError::Other(message.to_owned())
    }

    /// Whether the offline queue should retry the failed operation: transient and forbidden
    /// Edge failures, transient pushes and transport failures.
    pub fn is_transient(&self) -> (r: bool)
        ensures
            r == transient_error(*self),
    {
        match self {
            PolyError::Edge(e) => e.is_transient(),
            PolyError::Push(p) => p.is_transient(),
            PolyError::Http(_) => true,
            _ => false,
        }
    }
}

/// Error class for Edge Function calls.
#[derive(Debug, Clone, PartialEq, Eq)]
pub enum EdgeError {
    /// Validation failure on the server (HTTP 4xx). Should NOT be retried.
    Validation {
        /// Edge Function name that produced the error.
        function: String,
        /// Server-supplied error code.
        code: String,
        /// Human-readable message.
        message: String,
    },
    /// Conflict: version regression, idempotency mismatch, etc. Should NOT be retried.
    Conflict {
        /// Edge Function name that produced the error.
        function: String,
        /// Server-supplied error code (e.g. `version_conflict`).
        code: String,
        /// Human-readable message.
        message: String,
    },
    /// Authorization failure (HTTP 401/403). Caller should refresh session and retry.
    Forbidden {
        /// Edge Function name that produced the error.
        function: String,
        /// Human-readable message.
        message: String,
    },
    /// Transient failure — network, 5xx, or rate-limited. Retry with backoff.
    Transient {
        /// Edge Function name that produced the error.
        function: String,
        /// Human-readable message.
        message: String,
    },
    /// Permanent server-side failure (HTTP 5xx with no retry). Drop from queue.
    Permanent {
        /// Edge Function name that produced the error.
        function: String,
        /// Human-readable message.
        message: String,
    },
    /// Decode failure — server returned non-conforming response.
    Decode {
        /// Edge Function name whose response failed to decode.
        function: String,
        /// Decoder error detail.
        message: String,
    },
}

impl EdgeError {
    /// Transient and forbidden failures are retried.
    pub open spec fn spec_is_transient(&self) -> bool {
        self is Transient || self is Forbidden
    }

    /// Should the offline queue retry this?
    pub fn is_transient(&self) -> (r: bool)
        ensures
            r == self.spec_is_transient(),
    {
        match self {
            EdgeError::Transient { .. } | EdgeError::Forbidden { .. } => true,
            _ => false,
        }
    }
}

/// Error class for push operations (PostgREST upserts, tombstone updates).
#[derive(Debug, Clone, PartialEq, Eq)]
pub enum PushError {
    /// Network or server-side transient failure.
    Transient {
        /// Table name being pushed.
        table: String,
        /// Human-readable message.
        message: String,
    },
    /// Version regression, constraint violation, or invalid UUID — do not retry.
    Permanent {
        /// Table name being pushed.
        table: String,
        /// Human-readable message.
        message: String,
    },
    /// Same-version mutation; treated as benign no-op by callers.
    SameVersionMutationIgnored {
        /// Table name being pushed.
        table: String,
    },
}

impl PushError {
    /// True for transport-level failures the offline queue should retry.
    pub fn is_transient(&self) -> (r: bool)
        ensures
            r == (self is Transient),
    {
        match self {
            PushError::Transient { .. } => true,
            _ => false,
        }
    }

    /// True for failures that should drop the operation rather than retry.
    pub fn is_permanent(&self) -> (r: bool)
        ensures
            r == (self is Permanent),
    {
        match self {
            PushError::Permanent { .. } => true,
            _ => false,
        }
    }
}

/// Error class for pull / merge operations.
#[derive(Debug, Clone, PartialEq, Eq)]
pub enum PullError {
    /// Pull request failed (HTTP error or transport failure).
    Failed {
        /// Table name being pulled.
        table: String,
        /// Human-readable message.
        message: String,
    },
    /// Pull succeeded but the response failed to decode.
    Decode {
        /// Table name being pulled.
        table: String,
        /// Decoder error detail.
        message: String,
    },
}

/// Error class for registry / field mapping.
#[derive(Debug, Clone, PartialEq, Eq)]
pub enum RegistryError {
    /// Lookup by table name failed because the table was never registered.
    TableNotRegistered(String),
    /// Lookup by entity type name failed because the type was never registered.
    TypeNotRegistered(String),
    /// Encryption failed for a registered encrypted column.
    EncryptionFailed {
        /// Table name owning the column.
        table: String,
        /// Column name that failed to encrypt.
        column: String,
    },
    /// Required field was missing from a write payload.
    MissingField {
        /// Table name owning the field.
        table: String,
        /// Missing field name.
        field: String,
    },
    /// Active user id was missing when constructing a write payload.
    MissingUserId(String),
    /// A remote schema document lacked the expected structure.
    InvalidRemoteSchema(String),
    /// Turning a remote row into a typed entity failed.
    FactoryFailed {
        /// Table name owning the row.
        table: String,
        /// Failure detail.
        message: String,
    },
}

/// Error class for Storage bucket operations.
#[derive(Debug, Clone, PartialEq, Eq)]
pub enum StorageError {
    /// Storage REST request failed.
    Failed {
        /// Bucket name.
        bucket: String,
        /// Object path within the bucket.
        path: String,
        /// Human-readable message.
        message: String,
    },
    /// Storage object did not exist (HTTP 404).
    NotFound {
        /// Bucket name.
        bucket: String,
        /// Object path within the bucket.
        path: String,
    },
}

/// Error class for offline queue persistence/replay.
#[derive(Debug, Clone, PartialEq, Eq)]
pub enum OfflineQueueError {
    /// File-system or other I/O error reading/writing the queue.
    Io(String),
    /// Queue persistence file failed to deserialize.
    Decode(String),
}

/// The text of an HTTP transport error (its `Display`).
#[verifier::external_body]
fn http_error_text(e: &reqwest::Error) -> String {
    e.to_string()
}

/// The text of a JSON error (its `Display`).
#[verifier::external_body]
fn json_error_text(e: &serde_json::Error) -> String {
    e.to_string()
}

/// The message of an Edge Function error.
pub open spec fn edge_error_text(e: EdgeError) -> Seq<char> {
    match e {
        EdgeError::Validation { function, code, message } => "validation error from "@ + function@ + ": "@ + code@
            + ": "@ + message@,
        EdgeError::Conflict { function, code, message } => "conflict from "@ + function@ + ": "@ + code@ + ": "@
            + message@,
        EdgeError::Forbidden { function, message } => "forbidden from "@ + function@ + ": "@ + message@,
        EdgeError::Transient { function, message } => "transient error from "@ + function@ + ": "@ + message@,
        EdgeError::Permanent { function, message } => "permanent error from "@ + function@ + ": "@ + message@,
        EdgeError::Decode { function, message } => "decode failed for "@ + function@ + ": "@ + message@,
    }
}

/// The message of a push error.
pub open spec fn push_error_text(e: PushError) -> Seq<char> {
    match e {
        PushError::Transient { table, message } => "transient push failure on "@ + table@ + ": "@ + message@,
        PushError::Permanent { table, message } => "permanent push failure on "@ + table@ + ": "@ + message@,
        PushError::SameVersionMutationIgnored { table } => "same-version mutation ignored on "@ + table@,
    }
}

/// The message of a pull error.
pub open spec fn pull_error_text(e: PullError) -> Seq<char> {
    match e {
        PullError::Failed { table, message } => "pull failed on "@ + table@ + ": "@ + message@,
        PullError::Decode { table, message } => "decode failed on "@ + table@ + ": "@ + message@,
    }
}

/// The message of a registry error.
pub open spec fn registry_error_text(e: RegistryError) -> Seq<char> {
    match e {
        RegistryError::TableNotRegistered(t) => "table not registered: "@ + t@,
        RegistryError::TypeNotRegistered(t) => "entity type not registered: "@ + t@,
        RegistryError::EncryptionFailed { table, column } => "encryption failed for "@ + table@ + "."@ + column@,
        RegistryError::MissingField { table, field } => "missing required field "@ + field@ + " on table "@ + table@,
        RegistryError::MissingUserId(t) => "write payload missing active user id on table "@ + t@,
        RegistryError::InvalidRemoteSchema(m) => "invalid remote schema: "@ + m@,
        RegistryError::FactoryFailed { table, message } => "factory failed for "@ + table@ + ": "@ + message@,
    }
}

/// The message of a storage error.
pub open spec fn storage_error_text(e: StorageError) -> Seq<char> {
    match e {
        StorageError::Failed { bucket, path, message } => "storage error on "@ + bucket@ + "/"@ + path@ + ": "@
            + message@,
        StorageError::NotFound { bucket, path } => "storage object not found at "@ + bucket@ + "/"@ + path@,
    }
}

/// The message of an offline queue error.
pub open spec fn queue_error_text(e: OfflineQueueError) -> Seq<char> {
    match e {
        OfflineQueueError::Io(m) => "queue io error: "@ + m@,
        OfflineQueueError::Decode(m) => "queue decode failed: "@ + m@,
    }
}

/// The message of an encryption error.
pub open spec fn encryption_error_text(e: EncryptionError) -> Seq<char> {
    match e {
        EncryptionError::EmptySecret => "encryption secret is empty"@,
        EncryptionError::OperationFailed(m) => "encryption operation failed: "@ + m@,
    }
}

impl EdgeError {
    /// The error's message.
    pub fn describe(&self) -> (r: String)
        ensures
            r@ == edge_error_text(*self),
    {
        let mut out: String;
        match self {
            EdgeError::Validation { function, code, message } => {
                out = "validation error from ".to_owned();
                push_str(&mut out, function.as_str());
                push_str(&mut out, ": ");
                push_str(&mut out, code.as_str());
                push_str(&mut out, ": ");
                push_str(&mut out, message.as_str());
            },
            EdgeError::Conflict { function, code, message } => {
                out = "conflict from ".to_owned();
                push_str(&mut out, function.as_str());
                push_str(&mut out, ": ");
                push_str(&mut out, code.as_str());
                push_str(&mut out, ": ");
                push_str(&mut out, message.as_str());
            },
            EdgeError::Forbidden { function, message } => {
                out = "forbidden from ".to_owned();
                push_str(&mut out, function.as_str());
                push_str(&mut out, ": ");
                push_str(&mut out, message.as_str());
            },
            EdgeError::Transient { function, message } => {
                out = "transient error from ".to_owned();
                push_str(&mut out, function.as_str());
                push_str(&mut out, ": ");
                push_str(&mut out, message.as_str());
            },
            EdgeError::Permanent { function, message } => {
                out = "permanent error from ".to_owned();
                push_str(&mut out, function.as_str());
                push_str(&mut out, ": ");
                push_str(&mut out, message.as_str());
            },
            EdgeError::Decode { function, message } => {
                out = "decode failed for ".to_owned();
                push_str(&mut out, function.as_str());
                push_str(&mut out, ": ");
                push_str(&mut out, message.as_str());
            },
        }
        out
    }
}

impl PushError {
    /// The error's message.
    pub fn describe(&self) -> (r: String)
        ensures
            r@ == push_error_text(*self),
    {
        let mut out: String;
        match self {
            PushError::Transient { table, message } => {
                out = "transient push failure on ".to_owned();
                push_str(&mut out, table.as_str());
                push_str(&mut out, ": ");
                push_str(&mut out, message.as_str());
            },
            PushError::Permanent { table, message } => {
                out = "permanent push failure on ".to_owned();
                push_str(&mut out, table.as_str());
                push_str(&mut out, ": ");
                push_str(&mut out, message.as_str());
            },
            PushError::SameVersionMutationIgnored { table } => {
                out = "same-version mutation ignored on ".to_owned();
                push_str(&mut out, table.as_str());
            },
        }
        out
    }
}

impl PullError {
    /// The error's message.
    pub fn describe(&self) -> (r: String)
        ensures
            r@ == pull_error_text(*self),
    {
        let mut out: String;
        match self {
            PullError::Failed { table, message } => {
                out = "pull failed on ".to_owned();
                push_str(&mut out, table.as_str());
                push_str(&mut out, ": ");
                push_str(&mut out, message.as_str());
            },
            PullError::Decode { table, message } => {
                out = "decode failed on ".to_owned();
                push_str(&mut out, table.as_str());
                push_str(&mut out, ": ");
                push_str(&mut out, message.as_str());
            },
        }
        out
    }
}

impl RegistryError {
    /// The error's message.
    pub fn describe(&self) -> (r: String)
        ensures
            r@ == registry_error_text(*self),
    {
        let mut out: String;
        match self {
            RegistryError::TableNotRegistered(t) => {
                out = "table not registered: ".to_owned();
                push_str(&mut out, t.as_str());
            },
            RegistryError::TypeNotRegistered(t) => {
                out = "entity type not registered: ".to_owned();
                push_str(&mut out, t.as_str());
            },
            RegistryError::EncryptionFailed { table, column } => {
                out = "encryption failed for ".to_owned();
                push_str(&mut out, table.as_str());
                push_str(&mut out, ".");
                push_str(&mut out, column.as_str());
            },
            RegistryError::MissingField { table, field } => {
                out = "missing required field ".to_owned();
                push_str(&mut out, field.as_str());
                push_str(&mut out, " on table ");
                push_str(&mut out, table.as_str());
            },
            RegistryError::MissingUserId(t) => {
                out = "write payload missing active user id on table ".to_owned();
                push_str(&mut out, t.as_str());
            },
            RegistryError::InvalidRemoteSchema(m) => {
                out = "invalid remote schema: ".to_owned();
                push_str(&mut out, m.as_str());
            },
            RegistryError::FactoryFailed { table, message } => {
                out = "factory failed for ".to_owned();
                push_str(&mut out, table.as_str());
                push_str(&mut out, ": ");
                push_str(&mut out, message.as_str());
            },
        }
        out
    }
}

impl StorageError {
    /// The error's message.
    pub fn describe(&self) -> (r: String)
        ensures
            r@ == storage_error_text(*self),
    {
        let mut out: String;
        match self {
            StorageError::Failed { bucket, path, message } => {
                out = "storage error on ".to_owned();
                push_str(&mut out, bucket.as_str());
                push_str(&mut out, "/");
                push_str(&mut out, path.as_str());
                push_str(&mut out, ": ");
                push_str(&mut out, message.as_str());
            },
            StorageError::NotFound { bucket, path } => {
                out = "storage object not found at ".to_owned();
                push_str(&mut out, bucket.as_str());
                push_str(&mut out, "/");
                push_str(&mut out, path.as_str());
            },
        }
        out
    }
}

impl OfflineQueueError {
    /// The error's message.
    pub fn describe(&self) -> (r: String)
        ensures
            r@ == queue_error_text(*self),
    {
        let mut out: String;
        match self {
            OfflineQueueError::Io(m) => {
                out = "queue io error: ".to_owned();
                push_str(&mut out, m.as_str());
            },
            OfflineQueueError::Decode(m) => {
                out = "queue decode failed: ".to_owned();
                push_str(&mut out, m.as_str());
            },
        }
        out
    }
}

/// The message of a library error, as its `Display` renders it; the transport and JSON
/// variants show the underlying error's own text.
pub open spec fn poly_error_text(e: PolyError) -> Option<Seq<char>> {
    match e {
        PolyError::NotConfigured(m) => Some("polybase not configured: "@ + m@),
        PolyError::NoSession => Some("no active session"@),
        PolyError::Http(_) => None,
        PolyError::Json(_) => None,
        PolyError::Edge(x) => Some(edge_error_text(x)),
        PolyError::Push(x) => Some(push_error_text(x)),
        PolyError::Pull(x) => Some(pull_error_text(x)),
        PolyError::Registry(x) => Some(registry_error_text(x)),
        PolyError::Storage(x) => Some(storage_error_text(x)),
        PolyError::OfflineQueue(x) => Some(queue_error_text(x)),
        PolyError::Local(m) => Some("local store error: "@ + m@),
        PolyError::Encryption(x) => Some(encryption_error_text(x)),
        PolyError::Other(m) => Some(m@),
    }
}

impl PolyError {
    /// The error's message (what `Display` shows).
    pub fn describe(&self) -> (r: String)
        ensures
            poly_error_text(*self) matches Some(t) ==> r@ == t,
    {
        match self {
            PolyError::NotConfigured(m) => {
                let mut out = "polybase not configured: ".to_owned();
                push_str(&mut out, m.as_str());
                out
            },
            PolyError::NoSession => "no active session".to_owned(),
            PolyError::Http(e) => http_error_text(e),
            PolyError::Json(e) => json_error_text(e),
            PolyError::Edge(x) => x.describe(),
            PolyError::Push(x) => x.describe(),
            PolyError::Pull(x) => x.describe(),
            PolyError::Registry(x) => x.describe(),
            PolyError::Storage(x) => x.describe(),
            PolyError::OfflineQueue(x) => x.describe(),
            PolyError::Local(m) => {
                let mut out = "local store error: ".to_owned();
                push_str(&mut out, m.as_str());
                out
            },
            PolyError::Encryption(x) => x.message(),
            PolyError::Other(m) => m.clone(),
        }
    }
}

} // verus!
