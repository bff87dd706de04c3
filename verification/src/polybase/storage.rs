//! Supabase Storage: object listings and signed URLs, the bucket adapter's URLs and request
//! bodies, the mapping of HTTP statuses to storage errors, and the transparent binary
//! encryption applied on upload and undone on download.

use vstd::prelude::*;
use crate::polybase::client::{joined_url, Client};
use crate::polybase::encryption::{
    aead_max_plaintext, binary_ciphertext, decrypted_data, derived_key, failure_message, DecryptFailure, Encryption,
    EncryptionError, UserUuid,
};
use crate::polybase::errors::{PolyError, StorageError};
use crate::text::{push_str, string_from_chars, trim_end_char, trim_end_spec, trim_start_char, trim_start_spec, u32_decimal, decimal};

verus! {

/// Metadata reported alongside an [`ObjectEntry`].
#[derive(Debug, Clone, PartialEq, Eq)]
pub struct ObjectMetadata {
    /// Object size in bytes, when known.
    pub size: Option<u64>,
    /// MIME type, when known.
    pub mimetype: Option<String>,
}

/// Single entry of a bucket listing (a Supabase Storage `objects` row).
#[derive(Debug, Clone, PartialEq, Eq)]
pub struct ObjectEntry {
    /// Object name, relative to the requested prefix.
    pub name: String,
    /// Storage object id (UUID), or `None` for prefix-only entries (subdirectories).
    pub id: Option<String>,
    /// Size and type, when reported.
    pub metadata: Option<ObjectMetadata>,
    /// ISO-8601 creation timestamp.
    pub created_at: Option<String>,
    /// ISO-8601 last-update timestamp.
    pub updated_at: Option<String>,
}

/// Sort options of a listing.
#[derive(Debug, Clone, PartialEq, Eq)]
pub struct ListSort {
    /// Column to sort on, e.g. `name`, `updated_at`.
    pub column: String,
    /// `asc` or `desc`.
    pub order: String,
}

impl ListSort {
    /// Build a sort option.
    pub fn new(column: &str, order: &str) -> (r: Self)
        ensures
            r.column@ == column@,
            r.order@ == order@,
    {
        ListSort { column: column.to_owned(), order: order.to_owned() }
    }
}

/// Pagination and sort options of a listing; all optional.
#[derive(Debug, Clone, PartialEq, Eq)]
pub struct ListOptions {
    /// Page size; Supabase defaults to 100 when omitted, capped at 1000.
    pub limit: Option<u32>,
    /// Skip this many entries.
    pub offset: Option<u32>,
    /// Filename substring filter passed straight through to Storage.
    pub search: Option<String>,
    /// Sort column and direction.
    pub sort_by: Option<ListSort>,
}

impl Default for ListOptions {
    fn default() -> (r: Self)
        ensures
            r.limit is None && r.offset is None && r.search is None && r.sort_by is None,
    {
        ListOptions { limit: None, offset: None, search: None, sort_by: None }
    }
}

/// The signed-URL response of Storage.
#[derive(Debug, Clone, PartialEq, Eq)]
pub struct SignedUrl {
    /// The URL Storage returned, relative to `{base}/storage/v1/`.
    pub url: String,
}

/// The `HTTP {status}: {message}` text of a failed request.
pub open spec fn http_failure_text(status: u16, message: Seq<char>) -> Seq<char> {
    "HTTP "@ + decimal(status as nat) + ": "@ + message
}

/// What a completed request's status means for an operation: `None` for success, the
/// storage error otherwise. 404 is `NotFound` where the operation distinguishes it, and a
/// success for deletion.
#[derive(Debug, Clone, Copy, PartialEq, Eq)]
pub enum StorageOp {
    /// Upload and list: any non-2xx is a failure.
    Upload,
    /// Download and signed URLs: 404 is `NotFound`.
    Download,
    /// Delete: 404 counts as deleted.
    Delete,
}

/// The error of a request, if any.
pub open spec fn status_error_kind(op: StorageOp, status: u16) -> Option<bool> {
    let ok = 200 <= status <= 299;
    match op {
        StorageOp::Upload => if ok { None } else { Some(false) },
        StorageOp::Download => if status == 404 { Some(true) } else if ok { None } else { Some(false) },
        StorageOp::Delete => if ok || status == 404 { None } else { Some(false) },
    }
}

/// The storage error for a request of `op` on `bucket`/`path` that ended with `status` and
/// response text `message`: `None` when it succeeded, `Some(NotFound)` /
/// `Some(Failed { "HTTP {status}: {message}" })` otherwise (the `bool` of
/// [`status_error_kind`] is `true` for `NotFound`).
pub fn status_error(op: StorageOp, bucket: &str, path: &str, status: u16, message: &str) -> (r: Option<StorageError>)
    ensures
        match status_error_kind(op, status) {
            None => r is None,
            Some(true) => r matches Some(StorageError::NotFound { bucket: b, path: p }) && b@ == bucket@ && p@ == path@,
            Some(false) => r matches Some(StorageError::Failed { bucket: b, path: p, message: m })
                && b@ == bucket@ && p@ == path@ && m@ == http_failure_text(status, message@),
        },
{
    let ok = 200 <= status && status <= 299;
    let not_found = status == 404;
    let failed = match op {
        StorageOp::Upload => !ok,
        StorageOp::Download => {
            if not_found {
                return Some(StorageError::NotFound { bucket: bucket.to_owned(), path: path.to_owned() });
            }
            !ok
        },
        StorageOp::Delete => !ok && !not_found,
    };
    if failed {
        let mut m = "HTTP ".to_owned();
        let digits = string_from_chars(&u32_decimal(status as u32));
        push_str(&mut m, digits.as_str());
        push_str(&mut m, ": ");
        push_str(&mut m, message);
        Some(StorageError::Failed { bucket: bucket.to_owned(), path: path.to_owned(), message: m })
    } else {
        None
    }
}

/// What a download gives back for stored bytes: the bytes themselves without an encryptor or
/// without the `ENC\0` header, else their decryption.
pub open spec fn downloaded(encryption: Option<(Seq<u8>, UserUuid)>, data: Seq<u8>) -> Result<Seq<u8>, DecryptFailure> {
    match encryption {
        None => Ok(data),
        Some((secret, user)) => decrypted_data(secret, user, data),
    }
}

/// Adapter for one Supabase Storage bucket, optionally with an encryptor bound to a user that
/// makes upload and download transparent over the binary encryption format.
pub struct Bucket {
    client: Client,
    bucket: String,
    encryption: Option<(Encryption, UserUuid)>,
}

impl Bucket {
    /// The bucket's name.
    pub closed spec fn spec_name(&self) -> Seq<char> {
        self.bucket@
    }

    /// The attached encryptor's secret and user, if any.
    pub closed spec fn spec_encryption(&self) -> Option<(Seq<u8>, UserUuid)> {
        match self.encryption {
            Some((e, u)) => Some((e.secret(), u)),
            None => None,
        }
    }

    /// The client the bucket talks through.
    pub closed spec fn spec_client(&self) -> Client {
        self.client
    }

    /// An adapter for the named bucket, without encryption.
    pub fn new(client: Client, bucket: &str) -> (r: Self)
        ensures
            r.spec_name() == bucket@,
            r.spec_encryption() is None,
            r.spec_client() == client,
    {
        Bucket { client, bucket: bucket.to_owned(), encryption: None }
    }

    /// Attach an encryptor and user: uploads are encrypted, downloads carrying the `ENC\0`
    /// header are decrypted.
    pub fn with_encryption(self, encryption: Encryption, user: UserUuid) -> (r: Self)
        ensures
            r.spec_name() == self.spec_name(),
            r.spec_encryption() == Some((encryption.secret(), user)),
            r.spec_client() == self.spec_client(),
    {
        Bucket { client: self.client, bucket: self.bucket, encryption: Some((encryption, user)) }
    }

    /// The bucket name.
    pub fn name(&self) -> (r: &str)
        ensures
            r@ == self.spec_name(),
    {
        self.bucket.as_str()
    }

    /// True when an encryptor is attached.
    pub fn is_encrypted(&self) -> (r: bool)
        ensures
            r == self.spec_encryption() is Some,
    {
        self.encryption.is_some()
    }

    /// The object URL `{base}/storage/v1/object/{bucket}/{path}`.
    pub fn object_url(&self, path: &str) -> (r: String)
        ensures
            r@ == joined_url(
                self.spec_client().spec_config().supabase_url@,
                "/storage/v1/object/"@,
                self.spec_name() + "/"@ + trim_start_spec(path@, '/'),
            ),
    {
        self.client.storage_object_url(self.bucket.as_str(), path)
    }

    /// The listing URL `{base}/storage/v1/object/list/{bucket}`.
    pub fn list_url(&self) -> (r: String)
        ensures
            r@ == joined_url(self.spec_client().spec_config().supabase_url@, "/storage/v1/object/list/"@, self.spec_name()),
    {
        let mut out = trim_end_char(self.client.config().supabase_url.as_str(), '/').to_owned();
        push_str(&mut out, "/storage/v1/object/list/");
        push_str(&mut out, self.bucket.as_str());
        out
    }

    /// The signing URL `{base}/storage/v1/object/sign/{bucket}/{path}`.
    pub fn sign_url(&self, path: &str) -> (r: String)
        ensures
            r@ == joined_url(
                self.spec_client().spec_config().supabase_url@,
                "/storage/v1/object/sign/"@,
                self.spec_name() + "/"@ + trim_start_spec(path@, '/'),
            ),
    {
        let mut out = trim_end_char(self.client.config().supabase_url.as_str(), '/').to_owned();
        push_str(&mut out, "/storage/v1/object/sign/");
        push_str(&mut out, self.bucket.as_str());
        push_str(&mut out, "/");
        push_str(&mut out, trim_start_char(path, '/'));
        out
    }

    /// The download URL of a signed response: `{base}/storage/v1/{relative}`, leading slashes
    /// of the returned path removed.
    pub fn resolve_signed_url(&self, signed: &SignedUrl) -> (r: String)
        ensures
            r@ == joined_url(self.spec_client().spec_config().supabase_url@, "/storage/v1/"@, trim_start_spec(signed.url@, '/')),
    {
        let mut out = trim_end_char(self.client.config().supabase_url.as_str(), '/').to_owned();
        push_str(&mut out, "/storage/v1/");
        push_str(&mut out, trim_start_char(signed.url.as_str(), '/'));
        out
    }

    /// The bytes to upload for `bytes`: unchanged without an encryptor, else their binary
    /// encryption, which a download decrypts back to `bytes`.
    pub fn maybe_encrypt(&self, path: &str, bytes: Vec<u8>) -> (r: Result<Vec<u8>, PolyError>)
        ensures
            match self.spec_encryption() {
                None => r matches Ok(v) && v@ == bytes@,
                Some((secret, user)) => match r {
                    Ok(v) => downloaded(self.spec_encryption(), v@) == Ok::<Seq<u8>, DecryptFailure>(bytes@)
                        && (bytes@.len() == 0 ==> v@ == bytes@)
                        && (bytes@.len() != 0 ==> exists|n: Seq<u8>| n.len() == 12
                            && v@ == #[trigger] binary_ciphertext(derived_key(secret, user), n, bytes@)),
                    Err(e) => bytes@.len() > aead_max_plaintext()
                        && (e matches PolyError::Storage(StorageError::Failed { bucket: b, path: p, message: m })
                        && b@ == self.spec_name() && p@ == path@
                        && m@ == "encrypt: encryption operation failed: encrypt_data: aead::Error"@),
                },
            },
    {
        match &self.encryption {
            None => Ok(bytes),
            Some((enc, user)) => match enc.encrypt_data(bytes.as_slice(), *user) {
                Ok(v) => {
                    proof {
                        if bytes@.len() == 0 {
                            assert(!(v@.len() >= 4));
                        }
                    }
                    Ok(v)
                },
                Err(e) => {
                    let mut m = "encrypt: ".to_owned();
                    let text = e.message();
                    push_str(&mut m, text.as_str());
                    proof {
                        reveal_strlit("encrypt: ");
                        reveal_strlit("encryption operation failed: ");
                        reveal_strlit("encrypt_data: aead::Error");
                        reveal_strlit("encrypt: encryption operation failed: encrypt_data: aead::Error");
                        assert(m@ =~= "encrypt: encryption operation failed: encrypt_data: aead::Error"@);
                    }
                    Err(PolyError::Storage(StorageError::Failed { bucket: self.bucket.clone(), path: path.to_owned(), message: m }))
                },
            },
        }
    }

    /// The bytes a download gives for stored `bytes`: unchanged without an encryptor or
    /// without the `ENC\0` header, else their decryption; a failed decryption is a
    /// `Failed` storage error whose message starts with `decrypt: `.
    pub fn maybe_decrypt(&self, path: &str, bytes: Vec<u8>) -> (r: Result<Vec<u8>, PolyError>)
        ensures
            match downloaded(self.spec_encryption(), bytes@) {
                Ok(p) => r matches Ok(v) && v@ == p,
                Err(f) => r matches Err(PolyError::Storage(StorageError::Failed { bucket: b, path: p, message: m }))
                    && b@ == self.spec_name() && p@ == path@
                    && m@.len() >= 38 && m@.take(38) == "decrypt: encryption operation failed: "@
                    && failure_message(f, m@.skip(38), true),
            },
    {
        match &self.encryption {
            None => Ok(bytes),
            Some((enc, user)) => {
                if !enc.is_data_encrypted(bytes.as_slice()) {
                    return Ok(bytes);
                }
                match enc.decrypt_data(bytes.as_slice(), *user) {
                    Ok(p) => Ok(p),
                    Err(e) => {
                        let ghost inner = e->OperationFailed_0@;
                        let mut m = "decrypt: ".to_owned();
                        let text = e.message();
                        push_str(&mut m, text.as_str());
                        proof {
                            reveal_strlit("decrypt: ");
                            reveal_strlit("encryption operation failed: ");
                            reveal_strlit("decrypt: encryption operation failed: ");
                            assert(m@.take(38) =~= "decrypt: encryption operation failed: "@);
                            assert(m@.skip(38) =~= inner);
                        }
                        Err(PolyError::Storage(StorageError::Failed { bucket: self.bucket.clone(), path: path.to_owned(), message: m }))
                    },
                }
            },
        }
    }
}

} // verus!
