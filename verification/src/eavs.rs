//! The EAVS key service's client rules: the addresses of its endpoints, how
//! each reply status is read, and the errors it reports.
//!
//! Sending the requests and reading the reply bodies is the caller's part.

use vstd::prelude::*;
use crate::text::lit;

verus! {

broadcast use vstd::string::group_string_axioms;

/// Errors that can occur during EAVS operations.
#[derive(Debug, Clone)]
pub enum EavsError {
    /// The HTTP request failed; holds the transport's message.
    RequestFailed(String),
    /// EAVS returned an error response.
    ApiError { message: String, code: String },
    /// Key not found.
    KeyNotFound(String),
    /// Unauthorized (invalid master key).
    Unauthorized,
    /// The EAVS keys feature is disabled.
    KeysDisabled,
    /// Failed to parse a response.
    ParseError(String),
    /// Connection failed.
    ConnectionFailed { url: String, message: String },
}

/// The text of an error.
pub open spec fn eavs_error_text(e: EavsError) -> Seq<char> {
    match e {
        EavsError::RequestFailed(m) => "HTTP request failed: "@ + m@,
        EavsError::ApiError { message, code } => "EAVS error: "@ + message@ + " (code: "@ + code@
            + ")"@,
        EavsError::KeyNotFound(k) => "Key not found: "@ + k@,
        EavsError::Unauthorized => "Unauthorized: invalid master key"@,
        EavsError::KeysDisabled => "EAVS keys feature is disabled"@,
        EavsError::ParseError(m) => "Failed to parse response: "@ + m@,
        EavsError::ConnectionFailed { url, message } => "Failed to connect to EAVS at "@ + url@
            + ": "@ + message@,
    }
}

impl EavsError {
    /// The error's text (see `eavs_error_text`).
    pub fn message(&self) -> (r: String)
        ensures
            r@ == eavs_error_text(*self),
    {
        match self {
            EavsError::RequestFailed(m) => {
                let mut r = lit("HTTP request failed: ");
                r.append(m.as_str());
                r
            },
            EavsError::ApiError { message, code } => {
                let mut r = lit("EAVS error: ");
                r.append(message.as_str());
                r.append(" (code: ");
                r.append(code.as_str());
                r.append(")");
                r
            },
            EavsError::KeyNotFound(k) => {
                let mut r = lit("Key not found: ");
                r.append(k.as_str());
                r
            },
            EavsError::Unauthorized => lit("Unauthorized: invalid master key"),
            EavsError::KeysDisabled => lit("EAVS keys feature is disabled"),
            EavsError::ParseError(m) => {
                let mut r = lit("Failed to parse response: ");
                r.append(m.as_str());
                r
            },
            EavsError::ConnectionFailed { url, message } => {
                let mut r = lit("Failed to connect to EAVS at ");
                r.append(url.as_str());
                r.append(": ");
                r.append(message.as_str());
                r
            },
        }
    }
}

/// The error body EAVS sends with a failed request.
#[derive(Debug, Clone)]
pub struct ApiErrorResponse {
    pub error: String,
    pub code: String,
}

// ---------------------------------------------------------------------------
// Endpoints
// ---------------------------------------------------------------------------

/// The health endpoint: `{base}/health`.
pub fn health_url(base_url: &str) -> (r: String)
    ensures
        r@ == base_url@ + "/health"@,
{
    let mut r = lit(base_url);
    r.append("/health");
    r
}

/// The key collection: `{base}/admin/keys`.
pub fn keys_url(base_url: &str) -> (r: String)
    ensures
        r@ == base_url@ + "/admin/keys"@,
{
    let mut r = lit(base_url);
    r.append("/admin/keys");
    r
}

/// One key, by ID or hash: `{base}/admin/keys/{key}`.
pub fn key_url(base_url: &str, key_id_or_hash: &str) -> (r: String)
    ensures
        r@ == base_url@ + "/admin/keys/"@ + key_id_or_hash@,
{
    let mut r = lit(base_url);
    r.append("/admin/keys/");
    r.append(key_id_or_hash);
    r
}

/// A key's usage history: `{base}/admin/keys/{key}/usage`.
pub fn usage_url(base_url: &str, key_id_or_hash: &str) -> (r: String)
    ensures
        r@ == base_url@ + "/admin/keys/"@ + key_id_or_hash@ + "/usage"@,
{
    let mut r = key_url(base_url, key_id_or_hash);
    r.append("/usage");
    r
}

/// The authorization header value for the master key: `Bearer {key}`.
pub fn bearer(master_key: &str) -> (r: String)
    ensures
        r@ == "Bearer "@ + master_key@,
{
    let mut r = lit("Bearer ");
    r.append(master_key);
    r
}

// ---------------------------------------------------------------------------
// Replies
// ---------------------------------------------------------------------------

/// Whether a status is a success (2xx); the health check reports this.
pub open spec fn is_success(status: u16) -> bool {
    200 <= status <= 299
}

/// Whether a reply status is a success.
pub fn status_is_success(status: u16) -> (r: bool)
    ensures
        r == is_success(status),
{
    200 <= status && status <= 299
}

/// How to go on with a reply, judged by its status.
#[derive(Debug, Clone)]
pub enum StatusReading {
    /// Read the body as the answer.
    Body,
    /// The request succeeded with nothing to read.
    Empty,
    /// The request failed with this error.
    Fail(EavsError),
    /// Read the body as an EAVS error (see `error_from_body`).
    ErrorBody,
}

/// How a reply to a read or a key creation is taken: a success status
/// (2xx) means the body is the answer; 401 means unauthorized, 404 that
/// the key was not found (named "unknown"), 503 that keys are disabled;
/// any other status carries an error body.
pub fn read_status(status: u16) -> (r: StatusReading)
    ensures
        is_success(status) ==> r is Body,
        !is_success(status) && status == 401 ==> (r matches StatusReading::Fail(e)
            && e is Unauthorized),
        !is_success(status) && status == 404 ==> (r matches StatusReading::Fail(e)
            && e matches EavsError::KeyNotFound(k) && k@ == "unknown"@),
        !is_success(status) && status == 503 ==> (r matches StatusReading::Fail(e)
            && e is KeysDisabled),
        !is_success(status) && status != 401 && status != 404 && status != 503 ==> r is ErrorBody,
{
    if status_is_success(status) {
        StatusReading::Body
    } else if status == 401 {
        StatusReading::Fail(EavsError::Unauthorized)
    } else if status == 404 {
        StatusReading::Fail(EavsError::KeyNotFound(lit("unknown")))
    } else if status == 503 {
        StatusReading::Fail(EavsError::KeysDisabled)
    } else {
        StatusReading::ErrorBody
    }
}

/// How a reply to a key revocation is taken: 204 means the key was
/// revoked; 404 that the named key was not found, 401 unauthorized, 503
/// that keys are disabled; any other status, other successes included,
/// carries an error body.
pub fn read_revoke_status(status: u16, key_id_or_hash: &str) -> (r: StatusReading)
    ensures
        status == 204 ==> r is Empty,
        status == 404 ==> (r matches StatusReading::Fail(e) && e matches EavsError::KeyNotFound(
            k,
        ) && k@ == key_id_or_hash@),
        status == 401 ==> (r matches StatusReading::Fail(e) && e is Unauthorized),
        status == 503 ==> (r matches StatusReading::Fail(e) && e is KeysDisabled),
        status != 204 && status != 404 && status != 401 && status != 503 ==> r is ErrorBody,
{
    if status == 204 {
        StatusReading::Empty
    } else if status == 404 {
        StatusReading::Fail(EavsError::KeyNotFound(lit(key_id_or_hash)))
    } else if status == 401 {
        StatusReading::Fail(EavsError::Unauthorized)
    } else if status == 503 {
        StatusReading::Fail(EavsError::KeysDisabled)
    } else {
        StatusReading::ErrorBody
    }
}

/// The error an error body gives: the EAVS error it holds, or, where it
/// could not be read, a parse error saying so with the reader's message.
pub fn error_from_body(parsed: Result<ApiErrorResponse, String>) -> (r: EavsError)
    ensures
        match parsed {
            Ok(b) => r matches EavsError::ApiError { message, code } && message@ == b.error@
                && code@ == b.code@,
            Err(m) => r matches EavsError::ParseError(t) && t@ == "Failed to parse error response: "@
                + m@,
        },
{
    match parsed {
        Ok(b) => EavsError::ApiError { message: b.error, code: b.code },
        Err(m) => {
            let mut t = lit("Failed to parse error response: ");
            t.append(m.as_str());
            EavsError::ParseError(t)
        },
    }
}

/// The error for an answer body that could not be read.
pub fn body_error(reader_message: &str) -> (r: EavsError)
    ensures
        r matches EavsError::ParseError(t) && t@ == "Failed to parse response: "@ + reader_message@,
{
    let mut t = lit("Failed to parse response: ");
    t.append(reader_message);
    EavsError::ParseError(t)
}

/// The error for a health check that could not reach EAVS.
pub fn connection_error(url: &str, message: &str) -> (r: EavsError)
    ensures
        r matches EavsError::ConnectionFailed { url: u, message: m } && u@ == url@ && m@
            == message@,
{
    EavsError::ConnectionFailed { url: lit(url), message: lit(message) }
}

} // verus!
