//! Supabase project configuration and the configured HTTP client: URL building and the
//! checks a configuration must pass before a client is made from it.

use reqwest::Client as HttpClient;
use vstd::prelude::*;
use crate::polybase::errors::PolyError;
use crate::text::{is_blank, is_blank_spec, push_str, trim_end_char, trim_end_spec, trim_start_char, trim_start_spec};

verus! {

/// The reusable HTTP client of the `reqwest` crate.
#[verifier::external_type_specification]
#[verifier::external_body]
pub struct ExHttpClient(HttpClient);

/// Static configuration for the Supabase project a client talks to.
#[derive(Debug, Clone)]
pub struct ClientConfig {
    /// e.g. `https://abcdefg.supabase.co`
    pub supabase_url: String,
    /// Public anon key.
    pub supabase_anon_key: String,
    /// Optional encryption secret (HKDF base material).
    pub encryption_secret: Option<String>,
    /// Optional default Storage bucket name.
    pub storage_bucket: Option<String>,
}

/// The message of the error a configuration is refused with, if any: a blank URL first, then
/// a blank anon key.
pub open spec fn config_problem(url: Seq<char>, anon_key: Seq<char>) -> Option<Seq<char>> {
    if is_blank_spec(url) {
        Some("supabase_url is empty"@)
    } else if is_blank_spec(anon_key) {
        Some("supabase_anon_key is empty"@)
    } else {
        None
    }
}

/// The bucket used when the configuration names none.
pub open spec fn default_bucket() -> Seq<char> {
    "attachments"@
}

impl ClientConfig {
    /// Validate the URL/anon-key combo: neither may be empty or whitespace only.
    pub fn validate(&self) -> (r: Result<(), PolyError>)
        ensures
            match config_problem(self.supabase_url@, self.supabase_anon_key@) {
                None => r is Ok,
                Some(m) => r matches Err(PolyError::NotConfigured(msg)) && msg@ == m,
            },
    {
        if is_blank(self.supabase_url.as_str()) {
            return Err(PolyError::NotConfigured("supabase_url is empty".to_owned()));
        }
        if is_blank(self.supabase_anon_key.as_str()) {
            return Err(PolyError::NotConfigured("supabase_anon_key is empty".to_owned()));
        }
        Ok(())
    }

    /// Default Storage bucket name; `attachments` when none is configured.
    pub fn storage_bucket_or_default(&self) -> (r: &str)
        ensures
            r@ == match self.storage_bucket {
                Some(b) => b@,
                None => default_bucket(),
            },
    {
        match &self.storage_bucket {
            Some(b) => b.as_str(),
            None => "attachments",
        }
    }
}

/// `{base}{segment}{tail}` where `base` is the project URL without trailing slashes.
pub open spec fn joined_url(url: Seq<char>, segment: Seq<char>, tail: Seq<char>) -> Seq<char> {
    trim_end_spec(url, '/') + segment + tail
}

fn join_url(url: &str, segment: &str, tail: &str) -> (r: String)
    ensures
        r@ == joined_url(url@, segment@, tail@),
{
    let mut out = trim_end_char(url, '/').to_owned();
    push_str(&mut out, segment);
    push_str(&mut out, tail);
    out
}

/// Builds the underlying HTTP client (`reqwest::Client::builder().build()`); it fails only
/// when the TLS backend or system configuration cannot be initialised.
#[verifier::external_body]
fn build_http_client() -> (r: Result<HttpClient, reqwest::Error>) {
    HttpClient::builder().build()
}

/// Shared Supabase client: a validated configuration and the HTTP client built for it.
pub struct Client {
    config: ClientConfig,
    http: HttpClient,
}

impl Client {
    /// The configuration this client was built from.
    pub closed spec fn spec_config(&self) -> ClientConfig {
        self.config
    }

    /// The HTTP client this client sends its requests with.
    pub closed spec fn spec_http(&self) -> HttpClient {
        self.http
    }

    /// Build a new client with a fresh internal HTTP client. A configuration refused by
    /// [`ClientConfig::validate`] gives that error; otherwise the client keeps the
    /// configuration, unless the HTTP client cannot be built (`PolyError::Http`).
    pub fn new(config: ClientConfig) -> (r: Result<Self, PolyError>)
        ensures
            match config_problem(config.supabase_url@, config.supabase_anon_key@) {
                Some(m) => r matches Err(PolyError::NotConfigured(msg)) && msg@ == m,
                None => match r {
                    Ok(c) => c.spec_config() == config,
                    Err(e) => e is Http,
                },
            },
    {
        match config.validate() {
            Err(e) => Err(e),
            Ok(()) => match build_http_client() {
                Ok(http) => Ok(Client { config, http }),
                Err(e) => Err(PolyError::Http(e)),
            },
        }
    }

    /// Build a client around a caller-supplied HTTP client (shared pools, test clients).
    pub fn with_http(config: ClientConfig, http: HttpClient) -> (r: Result<Self, PolyError>)
        ensures
            match config_problem(config.supabase_url@, config.supabase_anon_key@) {
                Some(m) => r matches Err(PolyError::NotConfigured(msg)) && msg@ == m,
                None => r matches Ok(c) && c.spec_config() == config && c.spec_http() == http,
            },
    {
        match config.validate() {
            Err(e) => Err(e),
            Ok(()) => Ok(Client { config, http }),
        }
    }

    /// The static configuration of this client.
    pub fn config(&self) -> (r: &ClientConfig)
        ensures
            *r == self.spec_config(),
    {
        &self.config
    }

    /// The underlying HTTP client, for raw requests outside the typed wrappers.
    pub fn http(&self) -> (r: &HttpClient)
        ensures
            *r == self.spec_http(),
    {
        &self.http
    }

    /// PostgREST table URL: `{base}/rest/v1/{table}`.
    pub fn rest_url(&self, table: &str) -> (r: String)
        ensures
            r@ == joined_url(self.spec_config().supabase_url@, "/rest/v1/"@, table@),
    {
        join_url(self.config.supabase_url.as_str(), "/rest/v1/", table)
    }

    /// Edge Function URL: `{base}/functions/v1/{function}`.
    pub fn functions_url(&self, function: &str) -> (r: String)
        ensures
            r@ == joined_url(self.spec_config().supabase_url@, "/functions/v1/"@, function@),
    {
        join_url(self.config.supabase_url.as_str(), "/functions/v1/", function)
    }

    /// Storage object URL: `{base}/storage/v1/object/{bucket}/{path}`, leading slashes of
    /// `path` removed.
    pub fn storage_object_url(&self, bucket: &str, path: &str) -> (r: String)
        ensures
            r@ == joined_url(
                self.spec_config().supabase_url@,
                "/storage/v1/object/"@,
                bucket@ + "/"@ + trim_start_spec(path@, '/'),
            ),
    {
        let mut tail = bucket.to_owned();
        push_str(&mut tail, "/");
        push_str(&mut tail, trim_start_char(path, '/'));
        join_url(self.config.supabase_url.as_str(), "/storage/v1/object/", tail.as_str())
    }

    /// Auth REST URL: `{base}/auth/v1/{path}`, leading slashes of `path` removed.
    pub fn auth_url(&self, path: &str) -> (r: String)
        ensures
            r@ == joined_url(self.spec_config().supabase_url@, "/auth/v1/"@, trim_start_spec(path@, '/')),
    {
        join_url(self.config.supabase_url.as_str(), "/auth/v1/", trim_start_char(path, '/'))
    }
}

} // verus!
