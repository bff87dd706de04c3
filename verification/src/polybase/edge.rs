//! Edge Function calls: the op-style URL (`{base}/functions/v1/{function}/v1/{op}`), the
//! request and response envelopes, and the classification of failures into the
//! [`EdgeError`] variants the offline queue acts on.

use vstd::prelude::*;
use crate::polybase::client::{joined_url, Client};
use crate::polybase::errors::{transient_error, EdgeError, PolyError};
use crate::text::{chars_of, contains_chars, contains_seq, lower_chars, lower_seq, push_str, seq_eq, string_from_chars, u32_decimal, decimal};

verus! {

/// Header name for caller-supplied idempotency keys.
pub const IDEMPOTENCY_HEADER: &'static str = "Idempotency-Key";
/// Header name for caller-supplied request ids (echoed in error responses).
pub const REQUEST_ID_HEADER: &'static str = "X-Request-Id";

/// Inputs for one Edge Function invocation.
#[derive(Debug, Clone)]
pub struct EdgeRequest<P> {
    /// Edge Function name, e.g. `messages-write` (no leading slash).
    pub function: String,
    /// Operation under `/v1/{op}`; `None` or empty means no suffix.
    pub op: Option<String>,
    /// Payload serialised into the request body.
    pub payload: P,
    /// Caller-supplied idempotency key; generated when omitted.
    pub idempotency_key: Option<String>,
    /// Caller-supplied request id; generated when omitted.
    pub request_id: Option<String>,
}

impl<P> EdgeRequest<P> {
    /// A request with no `op` suffix and generated idempotency / request ids.
    pub fn new(function: &str, payload: P) -> (r: Self)
        ensures
            r.function@ == function@,
            r.op is None,
            r.payload == payload,
            r.idempotency_key is None,
            r.request_id is None,
    {
        EdgeRequest { function: function.to_owned(), op: None, payload, idempotency_key: None, request_id: None }
    }

    /// Set the `/v1/{op}` suffix.
    pub fn with_op(self, op: &str) -> (r: Self)
        ensures
            r.op matches Some(o) && o@ == op@,
            r.function == self.function,
            r.payload == self.payload,
            r.idempotency_key == self.idempotency_key,
            r.request_id == self.request_id,
    {
        let mut s = self;
        s.op = Some(op.to_owned());
        s
    }

    /// Override the generated idempotency key.
    pub fn with_idempotency_key(self, key: &str) -> (r: Self)
        ensures
            r.idempotency_key matches Some(k) && k@ == key@,
            r.function == self.function,
            r.op == self.op,
            r.payload == self.payload,
            r.request_id == self.request_id,
    {
        let mut s = self;
        s.idempotency_key = Some(key.to_owned());
        s
    }

    /// Override the generated request id.
    pub fn with_request_id(self, id: &str) -> (r: Self)
        ensures
            r.request_id matches Some(i) && i@ == id@,
            r.function == self.function,
            r.op == self.op,
            r.payload == self.payload,
            r.idempotency_key == self.idempotency_key,
    {
        let mut s = self;
        s.request_id = Some(id.to_owned());
        s
    }
}

/// Decoded successful response: the function's payload and the echoed request id.
#[derive(Debug, Clone)]
pub struct EdgeOk<R> {
    /// Typed payload returned by the Edge Function.
    pub data: R,
    /// Server-echoed request id for log correlation.
    pub request_id: Option<String>,
}

/// Server-side error envelope.
#[derive(Debug, Clone, PartialEq, Eq)]
pub struct EdgeErrorBody {
    /// Error code identifying the failure class (e.g. `version_conflict`, `validation`).
    pub code: String,
    /// Human-readable error message.
    pub message: String,
    /// Optional additional details, as JSON text.
    pub details: Option<String>,
}

/// How a failed call is classified.
pub enum EdgeClass {
    /// HTTP 401 / 403.
    Forbidden,
    /// 5xx whose code says `permanent` (any case).
    Permanent,
    /// Any other 5xx.
    Transient,
    /// A code mentioning `conflict`, `version` or `idempotency` (any case).
    Conflict,
    /// Anything else.
    Validation,
}

/// The class of a failure with HTTP `status` and error `code`.
pub open spec fn edge_class(status: u16, code: Seq<char>) -> EdgeClass {
    let lower = lower_seq(code);
    if status == 401 || status == 403 {
        EdgeClass::Forbidden
    } else if 500 <= status <= 599 {
        if lower == "permanent"@ { EdgeClass::Permanent } else { EdgeClass::Transient }
    } else if contains_seq(lower, "conflict"@) || contains_seq(lower, "version"@) || contains_seq(lower, "idempotency"@) {
        EdgeClass::Conflict
    } else {
        EdgeClass::Validation
    }
}

/// `e` is the error of class `class` for `function`, carrying `code` and `message`.
pub open spec fn edge_error_is(e: PolyError, class: EdgeClass, function: Seq<char>, code: Seq<char>, message: Seq<char>) -> bool {
    match class {
        EdgeClass::Forbidden => e matches PolyError::Edge(EdgeError::Forbidden { function: f, message: m }) && f@ == function && m@ == message,
        EdgeClass::Permanent => e matches PolyError::Edge(EdgeError::Permanent { function: f, message: m }) && f@ == function && m@ == message,
        EdgeClass::Transient => e matches PolyError::Edge(EdgeError::Transient { function: f, message: m }) && f@ == function && m@ == message,
        EdgeClass::Conflict => e matches PolyError::Edge(EdgeError::Conflict { function: f, code: c, message: m })
            && f@ == function && c@ == code && m@ == message,
        EdgeClass::Validation => e matches PolyError::Edge(EdgeError::Validation { function: f, code: c, message: m })
            && f@ == function && c@ == code && m@ == message,
    }
}

fn contains_word(hay: &Vec<char>, word: &str) -> (r: bool)
    ensures
        r == contains_seq(hay@, word@),
{
    let w = chars_of(word);
    contains_chars(hay, &w)
}

/// Classify a failed call: 401/403 are `Forbidden`; a 5xx is `Permanent` when its code is
/// `permanent` (any case) and `Transient` otherwise; other statuses are `Conflict` when the
/// code mentions `conflict`, `version` or `idempotency`, else `Validation`.
pub fn classify_error(function_name: &str, status: u16, error: &EdgeErrorBody) -> (r: PolyError)
    ensures
        edge_error_is(r, edge_class(status, error.code@), function_name@, error.code@, error.message@),
{
    let function = function_name.to_owned();
    if status == 401 || status == 403 {
        return PolyError::Edge(EdgeError::Forbidden { function, message: error.message.clone() });
    }
    let code = chars_of(error.code.as_str());
    let lower = lower_chars(&code);
    if 500 <= status && status <= 599 {
        let permanent = chars_of("permanent");
        if seq_eq(&lower, &permanent) {
            return PolyError::Edge(EdgeError::Permanent { function, message: error.message.clone() });
        }
        return PolyError::Edge(EdgeError::Transient { function, message: error.message.clone() });
    }
    if contains_word(&lower, "conflict") || contains_word(&lower, "version") || contains_word(&lower, "idempotency") {
        return PolyError::Edge(EdgeError::Conflict {
            function,
            code: error.code.clone(),
            message: error.message.clone(),
        });
    }
    PolyError::Edge(EdgeError::Validation { function, code: error.code.clone(), message: error.message.clone() })
}

/// The error body a failed call is classified by: the decoded envelope error when there is
/// one, else a synthesised body whose message is the raw response body and whose code is
/// `unknown` for a 2xx reply with `success: false`, or the status number otherwise.
pub open spec fn failure_body(status: u16, decoded: Option<(Seq<char>, Seq<char>)>, body: Seq<char>) -> (Seq<char>, Seq<char>) {
    match decoded {
        Some(cm) => cm,
        None => (if 200 <= status <= 299 { "unknown"@ } else { decimal(status as nat) }, body),
    }
}

/// The error a failed call gives, from its status, the envelope error decoded from the body
/// (if any) and the raw body.
pub fn edge_failure(function_name: &str, status: u16, decoded: Option<EdgeErrorBody>, body: String) -> (r: PolyError)
    ensures
        ({
            let (code, message) = failure_body(status, match decoded {
                Some(e) => Some((e.code@, e.message@)),
                None => None,
            }, body@);
            edge_error_is(r, edge_class(status, code), function_name@, code, message)
        }),
{
    let error = match decoded {
        Some(e) => e,
        None => {
            let code = if 200 <= status && status <= 299 {
                "unknown".to_owned()
            } else {
                string_from_chars(&u32_decimal(status as u32))
            };
            EdgeErrorBody { code, message: body, details: None }
        },
    };
    classify_error(function_name, status, &error)
}

/// A reply body, as far as the call's decisions need it.
#[derive(Debug)]
pub enum EdgeReply {
    /// The body is not an envelope; the decoder's message.
    Undecodable(String),
    /// An envelope `{ success, data, error, request_id }`.
    Envelope {
        /// The envelope's `success` flag.
        success: bool,
        /// Whether `data` is present.
        has_data: bool,
        /// The envelope's `error`, when present.
        error: Option<EdgeErrorBody>,
    },
}

/// The message of the decode error for a successful envelope without `data`.
pub open spec fn missing_data_message() -> Seq<char> {
    "envelope.success was true but data was missing"@
}

/// `e` is the decode error of `function` with `message`.
pub open spec fn decode_error_is(e: PolyError, function: Seq<char>, message: Seq<char>) -> bool {
    e matches PolyError::Edge(EdgeError::Decode { function: f, message: m }) && f@ == function && m@ == message
}

/// The envelope error a reply carries, if any.
pub open spec fn reply_error(reply: EdgeReply) -> Option<(Seq<char>, Seq<char>)> {
    match reply {
        EdgeReply::Envelope { error: Some(e), .. } => Some((e.code@, e.message@)),
        _ => None,
    }
}

/// The call fails with the classified error of a reply with `status` (see [`edge_failure`]).
pub open spec fn classified_failure(e: PolyError, function: Seq<char>, status: u16, reply: EdgeReply, body: Seq<char>) -> bool {
    let (code, message) = failure_body(status, reply_error(reply), body);
    edge_error_is(e, edge_class(status, code), function, code, message)
}

/// What a call does with its reply: `Ok` to decode the `data` payload, or the error it fails
/// with. A 2xx reply must be an envelope (else a decode error); a successful envelope must
/// carry `data` (else a decode error); an unsuccessful one, and every non-2xx reply, fails
/// with the classified envelope error (synthesised from the status and body when missing).
pub fn reply_verdict(function_name: &str, status: u16, reply: EdgeReply, body: String) -> (r: Result<(), PolyError>)
    ensures
        200 <= status <= 299 ==> (match reply {
            EdgeReply::Undecodable(m) => r matches Err(e) && decode_error_is(e, function_name@, m@),
            EdgeReply::Envelope { success: true, has_data, .. } => if has_data {
                r is Ok
            } else {
                r matches Err(e) && decode_error_is(e, function_name@, missing_data_message())
            },
            EdgeReply::Envelope { success: false, .. } => r matches Err(e) && classified_failure(
                e,
                function_name@,
                status,
                reply,
                body@,
            ),
        }),
        !(200 <= status <= 299) ==> (r matches Err(e) && classified_failure(e, function_name@, status, reply, body@)),
{
    let ok_status = 200 <= status && status <= 299;
    let decoded: Option<EdgeErrorBody>;
    match reply {
        EdgeReply::Undecodable(m) => {
            if ok_status {
                return Err(PolyError::Edge(EdgeError::Decode { function: function_name.to_owned(), message: m }));
            }
            decoded = None;
        },
        EdgeReply::Envelope { success, has_data, error } => {
            if ok_status && success {
                if has_data {
                    return Ok(());
                }
                return Err(
                    PolyError::Edge(
                        EdgeError::Decode {
                            function: function_name.to_owned(),
                            message: "envelope.success was true but data was missing".to_owned(),
                        },
                    ),
                );
            }
            decoded = error;
        },
    }
    Err(edge_failure(function_name, status, decoded, body))
}

/// Where a call failed before any reply could be classified.
#[derive(Debug, Clone, Copy, PartialEq, Eq, Structural)]
pub enum TransportStage {
    /// Sending the request failed (connection, TLS, timeout).
    Send,
    /// Reading the reply body failed.
    ReadBody,
}

/// The message a transport failure carries: the error text, prefixed `read body: ` when the
/// body could not be read.
pub open spec fn transport_message(stage: TransportStage, message: Seq<char>) -> Seq<char> {
    match stage {
        TransportStage::Send => message,
        TransportStage::ReadBody => "read body: "@ + message,
    }
}

/// The error of a call whose request could not be sent or whose reply body could not be
/// read: always a `Transient` Edge error for the function, so the offline queue retries it.
pub fn edge_transport_failure(function_name: &str, stage: TransportStage, message: &str) -> (r: PolyError)
    ensures
        r matches PolyError::Edge(EdgeError::Transient { function: f, message: m }) && f@ == function_name@
            && m@ == transport_message(stage, message@),
        transient_error(r),
{
    let text = match stage {
        TransportStage::Send => message.to_owned(),
        TransportStage::ReadBody => {
            let mut t = "read body: ".to_owned();
            push_str(&mut t, message);
            t
        },
    };
    PolyError::Edge(EdgeError::Transient { function: function_name.to_owned(), message: text })
}

/// The `Authorization` header value for an access token.
pub fn bearer(access_token: &str) -> (r: String)
    ensures
        r@ == "Bearer "@ + access_token@,
{
    let mut out = "Bearer ".to_owned();
    push_str(&mut out, access_token);
    out
}

/// Edge Function client.
pub struct EdgeClient {
    client: Client,
}

impl EdgeClient {
    /// The configured client underneath.
    pub closed spec fn spec_client(&self) -> Client {
        self.client
    }

    /// Build an Edge Function client wrapping a configured [`Client`].
    pub fn new(client: Client) -> (r: Self)
        ensures
            r.spec_client() == client,
    {
        EdgeClient { client }
    }

    /// The configured client underneath.
    pub fn client(&self) -> (r: &Client)
        ensures
            *r == self.spec_client(),
    {
        &self.client
    }

    /// `{base}/functions/v1/{function}`, followed by `/v1/{op}` when `op` is given and not
    /// empty.
    pub fn build_url(&self, function: &str, op: Option<&str>) -> (r: String)
        ensures
            r@ == joined_url(self.spec_client().spec_config().supabase_url@, "/functions/v1/"@, function@) + match op {
                Some(o) => if o@.len() > 0 { "/v1/"@ + o@ } else { Seq::empty() },
                None => Seq::empty(),
            },
    {
        let mut url = self.client.functions_url(function);
        match op {
            Some(o) => {
                if o.unicode_len() > 0 {
                    push_str(&mut url, "/v1/");
                    push_str(&mut url, o);
                }
            },
            None => {},
        }
        url
    }
}

} // verus!
