//! Errors of the service, the taxonomy they fall into, and the response envelope.

use vstd::prelude::*;
use crate::text::{decimal, decimal_u64, same_text};

verus! {

/// What the envelope says of a failure.
#[derive(Debug)]
pub struct ErrorDetail {
    pub code: String,
    pub message: String,
    pub trace_id: String,
}

pub struct ErrorDetailView {
    pub code: Seq<char>,
    pub message: Seq<char>,
    pub trace_id: Seq<char>,
}

impl View for ErrorDetail {
    type V = ErrorDetailView;

    open spec fn view(&self) -> ErrorDetailView {
        ErrorDetailView { code: self.code@, message: self.message@, trace_id: self.trace_id@ }
    }
}

/// The envelope of every answer: `data` on success, `error` on failure.
#[derive(Debug)]
pub struct ApiResponse<T> {
    pub ok: bool,
    pub data: Option<T>,
    pub error: Option<ErrorDetail>,
}

/// What can go wrong, in ingestion and on the read side.
#[derive(Debug)]
pub enum ApiError {
    DatabaseError(String),
    UpstreamError { code: String, message: String },
    ValidationError(String),
    NotFound(String),
    RateLimitExceeded,
    InternalError(String),
}

pub enum ApiErrorView {
    DatabaseError(Seq<char>),
    UpstreamError { code: Seq<char>, message: Seq<char> },
    ValidationError(Seq<char>),
    NotFound(Seq<char>),
    RateLimitExceeded,
    InternalError(Seq<char>),
}

/// The classes of failure that ingestion tells apart.
#[derive(Debug, Clone, Copy, PartialEq, Eq, Structural)]
pub enum ErrorKind {
    /// A transport timeout: retried with backoff.
    TransientNetwork,
    /// HTTP 429: retried with the steeper backoff.
    UpstreamThrottled,
    /// Any other upstream refusal: permanent.
    UpstreamRejected,
    /// A body that is no JSON: permanent.
    InvalidPayload,
    /// The store failed: permanent for that run.
    StorageFailure,
    /// A failure of the read side, which ingestion never raises.
    Request,
}

/// What is read of a failed transport call.
#[derive(Debug)]
pub struct TransportFailure {
    /// The call timed out.
    pub timeout: bool,
    /// The failure was raised for a response status.
    pub from_status: bool,
    /// The status the failure carries, where it carries one.
    pub status: Option<u16>,
    /// The failure's own text.
    pub text: String,
}

pub struct TransportFailureView {
    pub timeout: bool,
    pub from_status: bool,
    pub status: Option<u16>,
    pub text: Seq<char>,
}

impl View for TransportFailure {
    type V = TransportFailureView;

    open spec fn view(&self) -> TransportFailureView {
        TransportFailureView {
            timeout: self.timeout,
            from_status: self.from_status,
            status: self.status,
            text: self.text@,
        }
    }
}

/// The code under which a response status is reported.
pub open spec fn status_code_text(status: u16) -> Seq<char> {
    "UPSTREAM_"@ + decimal(status as nat)
}

/// The error that a failed transport call becomes.
pub open spec fn transport_error(f: TransportFailureView) -> ApiErrorView {
    ApiErrorView::UpstreamError {
        code: if f.timeout {
            "UPSTREAM_TIMEOUT"@
        } else if f.from_status && f.status is Some {
            status_code_text(f.status->0)
        } else {
            "UPSTREAM_ERROR"@
        },
        message: f.text,
    }
}

/// The error for a response whose status is neither a success nor retried.
pub open spec fn status_error(status: u16, line: Seq<char>) -> ApiErrorView {
    ApiErrorView::UpstreamError { code: status_code_text(status), message: "HTTP error: "@ + line }
}

/// The error for a successful response whose body is no JSON.
pub open spec fn invalid_json_error(reason: Seq<char>) -> ApiErrorView {
    ApiErrorView::UpstreamError {
        code: "INVALID_JSON"@,
        message: "Failed to parse JSON: "@ + reason,
    }
}

/// The error of a store that has no id left for a new row.
pub open spec fn ids_exhausted() -> ApiErrorView {
    ApiErrorView::DatabaseError("nextval: reached maximum value of sequence"@)
}

impl ApiErrorView {
    /// The error as one line of text.
    pub open spec fn text(self) -> Seq<char> {
        match self {
            ApiErrorView::DatabaseError(msg) => "Database error: "@ + msg,
            ApiErrorView::UpstreamError { code, message } => "Upstream error: "@ + message,
            ApiErrorView::ValidationError(msg) => "Validation error: "@ + msg,
            ApiErrorView::NotFound(msg) => "Not found: "@ + msg,
            ApiErrorView::RateLimitExceeded => "Rate limit exceeded"@,
            ApiErrorView::InternalError(msg) => "Internal error: "@ + msg,
        }
    }

    /// The machine-readable code of the error.
    pub open spec fn code(self) -> Seq<char> {
        match self {
            ApiErrorView::DatabaseError(_) => "DATABASE_ERROR"@,
            ApiErrorView::UpstreamError { code, message } => code,
            ApiErrorView::ValidationError(_) => "VALIDATION_ERROR"@,
            ApiErrorView::NotFound(_) => "NOT_FOUND"@,
            ApiErrorView::RateLimitExceeded => "RATE_LIMIT_EXCEEDED"@,
            ApiErrorView::InternalError(_) => "INTERNAL_ERROR"@,
        }
    }

    /// The message that goes with the code.
    pub open spec fn message(self) -> Seq<char> {
        match self {
            ApiErrorView::DatabaseError(msg) => msg,
            ApiErrorView::UpstreamError { code, message } => message,
            ApiErrorView::ValidationError(msg) => msg,
            ApiErrorView::NotFound(msg) => msg,
            ApiErrorView::RateLimitExceeded => "Too many requests"@,
            ApiErrorView::InternalError(msg) => msg,
        }
    }

    /// The class of the failure.
    pub open spec fn kind(self) -> ErrorKind {
        match self {
            ApiErrorView::DatabaseError(_) => ErrorKind::StorageFailure,
            ApiErrorView::UpstreamError { code, message } => if code == "UPSTREAM_TIMEOUT"@ {
                ErrorKind::TransientNetwork
            } else if code == "UPSTREAM_429"@ {
                ErrorKind::UpstreamThrottled
            } else if code == "INVALID_JSON"@ {
                ErrorKind::InvalidPayload
            } else {
                ErrorKind::UpstreamRejected
            },
            _ => ErrorKind::Request,
        }
    }

    /// The envelope detail for the error, under the given trace id.
    pub open spec fn detail(self, trace_id: Seq<char>) -> ErrorDetailView {
        ErrorDetailView { code: self.code(), message: self.message(), trace_id }
    }
}

impl View for ApiError {
    type V = ApiErrorView;

    open spec fn view(&self) -> ApiErrorView {
        match self {
            ApiError::DatabaseError(msg) => ApiErrorView::DatabaseError(msg@),
            ApiError::UpstreamError { code, message } => ApiErrorView::UpstreamError {
                code: code@,
                message: message@,
            },
            ApiError::ValidationError(msg) => ApiErrorView::ValidationError(msg@),
            ApiError::NotFound(msg) => ApiErrorView::NotFound(msg@),
            ApiError::RateLimitExceeded => ApiErrorView::RateLimitExceeded,
            ApiError::InternalError(msg) => ApiErrorView::InternalError(msg@),
        }
    }
}

/// The error for a response with the status 429 is of the kind `UpstreamThrottled`.
pub proof fn lemma_throttled_kind(line: Seq<char>)
    ensures
        status_error(429, line).kind() == ErrorKind::UpstreamThrottled,
{
    reveal_strlit("UPSTREAM_");
    reveal_strlit("UPSTREAM_429");
    reveal_strlit("UPSTREAM_TIMEOUT");
    reveal_with_fuel(decimal, 3);
    assert(decimal(429) =~= seq!['4', '2', '9']);
    assert(status_code_text(429) =~= "UPSTREAM_429"@);
    assert("UPSTREAM_429"@.len() != "UPSTREAM_TIMEOUT"@.len());
}

impl ApiError {
    /// The error for a failed transport call: a timeout, a failure raised for a
    /// status, or anything else.
    pub fn from(failure: TransportFailure) -> (e: ApiError)
        ensures
            e@ == transport_error(failure@),
    {
        let code = if failure.timeout {
            String::from_str("UPSTREAM_TIMEOUT")
        } else if failure.from_status {
            match failure.status {
                Some(status) => Self::status_code(status),
                None => String::from_str("UPSTREAM_ERROR"),
            }
        } else {
            String::from_str("UPSTREAM_ERROR")
        };
        ApiError::UpstreamError { code, message: failure.text }
    }

    /// The error for a failure of the store, which keeps the store's own text.
    pub fn from_storage(text: String) -> (e: ApiError)
        ensures
            e@ == ApiErrorView::DatabaseError(text@),
    {
        ApiError::DatabaseError(text)
    }

    /// The error of a store that has no id left for a new row.
    pub fn no_id_left() -> (e: ApiError)
        ensures
            e@ == ids_exhausted(),
    {
        ApiError::DatabaseError(String::from_str("nextval: reached maximum value of sequence"))
    }

    /// `UPSTREAM_` followed by the status in decimal.
    pub fn status_code(status: u16) -> (code: String)
        ensures
            code@ == status_code_text(status),
    {
        let digits = decimal_u64(status as u64);
        String::from_str("UPSTREAM_").concat(digits.as_str())
    }

    /// The error for a response with the given status and status line.
    pub fn from_status(status: u16, line: &str) -> (e: ApiError)
        ensures
            e@ == status_error(status, line@),
    {
        ApiError::UpstreamError {
            code: Self::status_code(status),
            message: String::from_str("HTTP error: ").concat(line),
        }
    }

    /// The error for a body that could not be read as JSON.
    pub fn invalid_json(reason: &str) -> (e: ApiError)
        ensures
            e@ == invalid_json_error(reason@),
    {
        ApiError::UpstreamError {
            code: String::from_str("INVALID_JSON"),
            message: String::from_str("Failed to parse JSON: ").concat(reason),
        }
    }

    /// The error as one line of text.
    pub fn to_text(&self) -> (s: String)
        ensures
            s@ == self@.text(),
    {
        match self {
            ApiError::DatabaseError(msg) => String::from_str("Database error: ").concat(
                msg.as_str(),
            ),
            ApiError::UpstreamError { code, message } => String::from_str(
                "Upstream error: ",
            ).concat(message.as_str()),
            ApiError::ValidationError(msg) => String::from_str("Validation error: ").concat(
                msg.as_str(),
            ),
            ApiError::NotFound(msg) => String::from_str("Not found: ").concat(msg.as_str()),
            ApiError::RateLimitExceeded => String::from_str("Rate limit exceeded"),
            ApiError::InternalError(msg) => String::from_str("Internal error: ").concat(
                msg.as_str(),
            ),
        }
    }

    /// The machine-readable code of the error.
    pub fn code(&self) -> (s: String)
        ensures
            s@ == self@.code(),
    {
        match self {
            ApiError::DatabaseError(_) => String::from_str("DATABASE_ERROR"),
            ApiError::UpstreamError { code, message } => code.clone(),
            ApiError::ValidationError(_) => String::from_str("VALIDATION_ERROR"),
            ApiError::NotFound(_) => String::from_str("NOT_FOUND"),
            ApiError::RateLimitExceeded => String::from_str("RATE_LIMIT_EXCEEDED"),
            ApiError::InternalError(_) => String::from_str("INTERNAL_ERROR"),
        }
    }

    /// The message that goes with the code.
    pub fn message(&self) -> (s: String)
        ensures
            s@ == self@.message(),
    {
        match self {
            ApiError::DatabaseError(msg) => msg.clone(),
            ApiError::UpstreamError { code, message } => message.clone(),
            ApiError::ValidationError(msg) => msg.clone(),
            ApiError::NotFound(msg) => msg.clone(),
            ApiError::RateLimitExceeded => String::from_str("Too many requests"),
            ApiError::InternalError(msg) => msg.clone(),
        }
    }

    /// The class of the failure.
    pub fn kind(&self) -> (k: ErrorKind)
        ensures
            k == self@.kind(),
    {
        match self {
            ApiError::DatabaseError(_) => ErrorKind::StorageFailure,
            ApiError::UpstreamError { code, message } => {
                if same_text(code.as_str(), "UPSTREAM_TIMEOUT") {
                    ErrorKind::TransientNetwork
                } else if same_text(code.as_str(), "UPSTREAM_429") {
                    ErrorKind::UpstreamThrottled
                } else if same_text(code.as_str(), "INVALID_JSON") {
                    ErrorKind::InvalidPayload
                } else {
                    ErrorKind::UpstreamRejected
                }
            },
            _ => ErrorKind::Request,
        }
    }

    /// The failure as an envelope that carries the given trace id.
    pub fn respond_with(&self, trace_id: String) -> (r: ApiResponse<()>)
        ensures
            !r.ok,
            r.data is None,
            r.error is Some,
            r.error->0@ == self@.detail(trace_id@),
    {
        ApiResponse {
            ok: false,
            data: None,
            error: Some(ErrorDetail { code: self.code(), message: self.message(), trace_id }),
        }
    }

    /// The failure as an envelope under a fresh trace id.
    pub fn into_response(self) -> (r: ApiResponse<()>)
        ensures
            !r.ok,
            r.data is None,
            r.error is Some,
            r.error->0@.code == self@.code(),
            r.error->0@.message == self@.message(),
            r.error->0@.trace_id.len() == 36,
    {
        let trace_id = new_trace_id();
        self.respond_with(trace_id)
    }
}

/// `uuid::Uuid::new_v4().to_string()`: a random identifier in its hyphenated
/// form, which is 36 characters long whatever was drawn.
#[verifier::external_body]
fn new_trace_id() -> (id: String)
    ensures
        id@.len() == 36,
{
    uuid::Uuid::new_v4().to_string()
}

impl<T> ApiResponse<T> {
    /// The envelope of a success.
    pub fn success(data: T) -> (r: Self)
        ensures
            r.ok,
            r.data == Some(data),
            r.error is None,
    {
        Self { ok: true, data: Some(data), error: None }
    }

    /// The envelope of a failure, under the given trace id.
    pub fn failure(code: String, message: String, trace_id: String) -> (r: Self)
        ensures
            !r.ok,
            r.data is None,
            r.error is Some,
            r.error->0@ == (ErrorDetailView { code: code@, message: message@, trace_id: trace_id@ }),
    {
        Self { ok: false, data: None, error: Some(ErrorDetail { code, message, trace_id }) }
    }

    /// The envelope of a failure, under a fresh trace id.
    pub fn error(code: String, message: String) -> (r: Self)
        ensures
            !r.ok,
            r.data is None,
            r.error is Some,
            r.error->0@.code == code@,
            r.error->0@.message == message@,
            r.error->0@.trace_id.len() == 36,
    {
        let trace_id = new_trace_id();
        Self::failure(code, message, trace_id)
    }
}

} // verus!
