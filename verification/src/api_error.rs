//! Structured API errors: status codes, machine-readable codes, messages,
//! and the classification of internal failures by their message.

use vstd::prelude::*;
use vstd::string::*;
use crate::text::{contains_seq, lit, lowercase_of, str_contains, to_lowercase};

verus! {

broadcast use vstd::string::group_string_axioms;

/// API error type with structured responses.
#[derive(Debug, Clone)]
pub enum ApiError {
    NotFound(String),
    BadRequest(String),
    Unauthorized(String),
    Forbidden(String),
    Conflict(String),
    ServiceUnavailable(String),
    Internal(String),
    BadGateway(String),
}

/// Structured error response body.
#[derive(Debug, Clone)]
pub struct ErrorResponse {
    pub error: String,
    pub code: String,
    pub details: Option<String>,
}

/// The HTTP status of an error.
pub open spec fn api_status(e: ApiError) -> u16 {
    match e {
        ApiError::NotFound(_) => 404,
        ApiError::BadRequest(_) => 400,
        ApiError::Unauthorized(_) => 401,
        ApiError::Forbidden(_) => 403,
        ApiError::Conflict(_) => 409,
        ApiError::ServiceUnavailable(_) => 503,
        ApiError::Internal(_) => 500,
        ApiError::BadGateway(_) => 502,
    }
}

/// The machine-readable code of an error.
pub open spec fn api_code(e: ApiError) -> Seq<char> {
    match e {
        ApiError::NotFound(_) => "NOT_FOUND"@,
        ApiError::BadRequest(_) => "BAD_REQUEST"@,
        ApiError::Unauthorized(_) => "UNAUTHORIZED"@,
        ApiError::Forbidden(_) => "FORBIDDEN"@,
        ApiError::Conflict(_) => "CONFLICT"@,
        ApiError::ServiceUnavailable(_) => "SERVICE_UNAVAILABLE"@,
        ApiError::Internal(_) => "INTERNAL_ERROR"@,
        ApiError::BadGateway(_) => "BAD_GATEWAY"@,
    }
}

/// The message shown for an error.
pub open spec fn api_message(e: ApiError) -> Seq<char> {
    match e {
        ApiError::NotFound(m) => "Resource not found: "@ + m@,
        ApiError::BadRequest(m) => "Bad request: "@ + m@,
        ApiError::Unauthorized(m) => "Unauthorized: "@ + m@,
        ApiError::Forbidden(m) => "Forbidden: "@ + m@,
        ApiError::Conflict(m) => "Conflict: "@ + m@,
        ApiError::ServiceUnavailable(m) => "Service unavailable: "@ + m@,
        ApiError::Internal(m) => "Internal server error: "@ + m@,
        ApiError::BadGateway(m) => "Gateway error: "@ + m@,
    }
}

/// The detail string an error carries.
pub open spec fn api_detail(e: ApiError) -> Seq<char> {
    match e {
        ApiError::NotFound(m) => m@,
        ApiError::BadRequest(m) => m@,
        ApiError::Unauthorized(m) => m@,
        ApiError::Forbidden(m) => m@,
        ApiError::Conflict(m) => m@,
        ApiError::ServiceUnavailable(m) => m@,
        ApiError::Internal(m) => m@,
        ApiError::BadGateway(m) => m@,
    }
}

/// Kinds of error a failure message is classified into.
pub enum ApiErrorKind {
    NotFound,
    Unauthorized,
    Forbidden,
    Conflict,
    ServiceUnavailable,
    Internal,
}

/// The kind of error a failure with lowercased message `l` maps to: the
/// first matching keyword group wins.
pub open spec fn classify(l: Seq<char>) -> ApiErrorKind {
    if contains_seq(l, "not found"@) {
        ApiErrorKind::NotFound
    } else if contains_seq(l, "unauthorized"@) || contains_seq(l, "authentication"@) {
        ApiErrorKind::Unauthorized
    } else if contains_seq(l, "forbidden"@) || contains_seq(l, "permission"@) {
        ApiErrorKind::Forbidden
    } else if contains_seq(l, "conflict"@) || contains_seq(l, "already exists"@) {
        ApiErrorKind::Conflict
    } else if contains_seq(l, "unavailable"@) || contains_seq(l, "connection refused"@) {
        ApiErrorKind::ServiceUnavailable
    } else {
        ApiErrorKind::Internal
    }
}

/// The error of kind `k` carrying `m`.
pub open spec fn error_of_kind(k: ApiErrorKind, m: String) -> ApiError {
    match k {
        ApiErrorKind::NotFound => ApiError::NotFound(m),
        ApiErrorKind::Unauthorized => ApiError::Unauthorized(m),
        ApiErrorKind::Forbidden => ApiError::Forbidden(m),
        ApiErrorKind::Conflict => ApiError::Conflict(m),
        ApiErrorKind::ServiceUnavailable => ApiError::ServiceUnavailable(m),
        ApiErrorKind::Internal => ApiError::Internal(m),
    }
}

impl ApiError {
    pub fn not_found(msg: &str) -> (r: Self)
        ensures
            r matches ApiError::NotFound(m) && m@ == msg@,
    {
        ApiError::NotFound(lit(msg))
    }

    pub fn bad_request(msg: &str) -> (r: Self)
        ensures
            r matches ApiError::BadRequest(m) && m@ == msg@,
    {
        ApiError::BadRequest(lit(msg))
    }

    pub fn unauthorized(msg: &str) -> (r: Self)
        ensures
            r matches ApiError::Unauthorized(m) && m@ == msg@,
    {
        ApiError::Unauthorized(lit(msg))
    }

    pub fn forbidden(msg: &str) -> (r: Self)
        ensures
            r matches ApiError::Forbidden(m) && m@ == msg@,
    {
        ApiError::Forbidden(lit(msg))
    }

    pub fn conflict(msg: &str) -> (r: Self)
        ensures
            r matches ApiError::Conflict(m) && m@ == msg@,
    {
        ApiError::Conflict(lit(msg))
    }

    pub fn service_unavailable(msg: &str) -> (r: Self)
        ensures
            r matches ApiError::ServiceUnavailable(m) && m@ == msg@,
    {
        ApiError::ServiceUnavailable(lit(msg))
    }

    pub fn internal(msg: &str) -> (r: Self)
        ensures
            r matches ApiError::Internal(m) && m@ == msg@,
    {
        ApiError::Internal(lit(msg))
    }

    pub fn bad_gateway(msg: &str) -> (r: Self)
        ensures
            r matches ApiError::BadGateway(m) && m@ == msg@,
    {
        ApiError::BadGateway(lit(msg))
    }

    /// The HTTP status code.
    pub fn status_code(&self) -> (r: u16)
        ensures
            r == api_status(*self),
    {
        match self {
            ApiError::NotFound(_) => 404,
            ApiError::BadRequest(_) => 400,
            ApiError::Unauthorized(_) => 401,
            ApiError::Forbidden(_) => 403,
            ApiError::Conflict(_) => 409,
            ApiError::ServiceUnavailable(_) => 503,
            ApiError::Internal(_) => 500,
            ApiError::BadGateway(_) => 502,
        }
    }

    /// The machine-readable error code.
    pub fn error_code(&self) -> (r: String)
        ensures
            r@ == api_code(*self),
    {
        match self {
            ApiError::NotFound(_) => lit("NOT_FOUND"),
            ApiError::BadRequest(_) => lit("BAD_REQUEST"),
            ApiError::Unauthorized(_) => lit("UNAUTHORIZED"),
            ApiError::Forbidden(_) => lit("FORBIDDEN"),
            ApiError::Conflict(_) => lit("CONFLICT"),
            ApiError::ServiceUnavailable(_) => lit("SERVICE_UNAVAILABLE"),
            ApiError::Internal(_) => lit("INTERNAL_ERROR"),
            ApiError::BadGateway(_) => lit("BAD_GATEWAY"),
        }
    }

    /// The message shown to clients.
    pub fn message(&self) -> (r: String)
        ensures
            r@ == api_message(*self),
    {
        let (mut s, m) = match self {
            ApiError::NotFound(m) => (lit("Resource not found: "), m),
            ApiError::BadRequest(m) => (lit("Bad request: "), m),
            ApiError::Unauthorized(m) => (lit("Unauthorized: "), m),
            ApiError::Forbidden(m) => (lit("Forbidden: "), m),
            ApiError::Conflict(m) => (lit("Conflict: "), m),
            ApiError::ServiceUnavailable(m) => (lit("Service unavailable: "), m),
            ApiError::Internal(m) => (lit("Internal server error: "), m),
            ApiError::BadGateway(m) => (lit("Gateway error: "), m),
        };
        s.append(m.as_str());
        s
    }

    /// The HTTP status and body sent for this error.
    pub fn response(&self) -> (r: (u16, ErrorResponse))
        ensures
            r.0 == api_status(*self),
            r.1.error@ == api_message(*self),
            r.1.code@ == api_code(*self),
            r.1.details is None,
    {
        (self.status_code(), ErrorResponse {
            error: self.message(),
            code: self.error_code(),
            details: None,
        })
    }

    /// The error reported for an internal failure with message `msg`,
    /// chosen by keywords in the lowercased message (see `classify`).
    pub fn from_message(msg: String) -> (r: Self)
        ensures
            r == error_of_kind(classify(lowercase_of(msg@)), msg),
    {
        let l = to_lowercase(msg.as_str());
        let ls = l.as_str();
        if str_contains(ls, "not found") {
            ApiError::NotFound(msg)
        } else if str_contains(ls, "unauthorized") || str_contains(ls, "authentication") {
            ApiError::Unauthorized(msg)
        } else if str_contains(ls, "forbidden") || str_contains(ls, "permission") {
            ApiError::Forbidden(msg)
        } else if str_contains(ls, "conflict") || str_contains(ls, "already exists") {
            ApiError::Conflict(msg)
        } else if str_contains(ls, "unavailable") || str_contains(ls, "connection refused") {
            ApiError::ServiceUnavailable(msg)
        } else {
            ApiError::Internal(msg)
        }
    }
}

/// Classifying keeps the original message: the error carries `msg`
/// unchanged, whatever kind it is given.
pub proof fn law_classification_keeps_message(k: ApiErrorKind, msg: String)
    ensures
        api_detail(error_of_kind(k, msg)) == msg@,
{
}

/// How a failure message becomes an API error, by the keywords in its
/// lowercased form, earlier keywords taking precedence: "not found" gives
/// 404 (NOT_FOUND); "unauthorized" or "authentication" 401; "forbidden" or
/// "permission" 403; "conflict" or "already exists" 409; "unavailable" or
/// "connection refused" 503 (SERVICE_UNAVAILABLE); anything else 500
/// (INTERNAL_ERROR). The message is carried unchanged.
pub proof fn law_failure_status(msg: String)
    ensures
        ({
            let l = lowercase_of(msg@);
            let e = error_of_kind(classify(l), msg);
            let nf = contains_seq(l, "not found"@);
            let au = contains_seq(l, "unauthorized"@) || contains_seq(l, "authentication"@);
            let fb = contains_seq(l, "forbidden"@) || contains_seq(l, "permission"@);
            let cf = contains_seq(l, "conflict"@) || contains_seq(l, "already exists"@);
            let un = contains_seq(l, "unavailable"@) || contains_seq(l, "connection refused"@);
            &&& nf ==> api_status(e) == 404 && api_code(e) == "NOT_FOUND"@
            &&& !nf && au ==> api_status(e) == 401 && api_code(e) == "UNAUTHORIZED"@
            &&& !nf && !au && fb ==> api_status(e) == 403 && api_code(e) == "FORBIDDEN"@
            &&& !nf && !au && !fb && cf ==> api_status(e) == 409 && api_code(e) == "CONFLICT"@
            &&& !nf && !au && !fb && !cf && un ==> e is ServiceUnavailable && api_status(e) == 503 && api_code(e)
                == "SERVICE_UNAVAILABLE"@
            &&& !nf && !au && !fb && !cf && !un ==> api_status(e) == 500 && api_code(e) == "INTERNAL_ERROR"@
            &&& api_detail(e) == msg@
        }),
{
}

} // verus!
