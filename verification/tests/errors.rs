use cassiopeia::error::{ApiError, ApiResponse, ErrorKind};

#[test]
fn success_carries_the_data_and_no_error() {
    let response = ApiResponse::success(41u32);
    assert!(response.ok);
    assert_eq!(response.data, Some(41));
    assert!(response.error.is_none());
}

#[test]
fn an_error_envelope_carries_code_message_and_a_fresh_trace_id() {
    let one: ApiResponse<()> =
        ApiResponse::error(String::from("RATE_LIMIT_EXCEEDED"), String::from("Too many requests"));
    let two: ApiResponse<()> =
        ApiResponse::error(String::from("RATE_LIMIT_EXCEEDED"), String::from("Too many requests"));
    assert!(!one.ok);
    assert!(one.data.is_none());
    let detail = one.error.expect("an error");
    assert_eq!(detail.code, "RATE_LIMIT_EXCEEDED");
    assert_eq!(detail.message, "Too many requests");
    assert_eq!(detail.trace_id.chars().count(), 36);
    assert_eq!(detail.trace_id.matches('-').count(), 4);
    assert_ne!(detail.trace_id, two.error.expect("an error").trace_id);
}

#[test]
fn a_failure_envelope_keeps_the_trace_id_it_is_given() {
    let response: ApiResponse<u8> =
        ApiResponse::failure(String::from("C"), String::from("M"), String::from("T"));
    let detail = response.error.expect("an error");
    assert_eq!((detail.code.as_str(), detail.message.as_str(), detail.trace_id.as_str()), ("C", "M", "T"));
}

#[test]
fn every_error_has_its_text_code_message_and_kind() {
    let cases = vec![
        (
            ApiError::DatabaseError(String::from("down")),
            "Database error: down",
            "DATABASE_ERROR",
            "down",
            ErrorKind::StorageFailure,
        ),
        (
            ApiError::UpstreamError { code: String::from("UPSTREAM_500"), message: String::from("boom") },
            "Upstream error: boom",
            "UPSTREAM_500",
            "boom",
            ErrorKind::UpstreamRejected,
        ),
        (
            ApiError::ValidationError(String::from("bad")),
            "Validation error: bad",
            "VALIDATION_ERROR",
            "bad",
            ErrorKind::Request,
        ),
        (
            ApiError::NotFound(String::from("gone")),
            "Not found: gone",
            "NOT_FOUND",
            "gone",
            ErrorKind::Request,
        ),
        (
            ApiError::RateLimitExceeded,
            "Rate limit exceeded",
            "RATE_LIMIT_EXCEEDED",
            "Too many requests",
            ErrorKind::Request,
        ),
        (
            ApiError::InternalError(String::from("oops")),
            "Internal error: oops",
            "INTERNAL_ERROR",
            "oops",
            ErrorKind::Request,
        ),
    ];
    for (error, text, code, message, kind) in cases {
        assert_eq!(error.to_text(), text);
        assert_eq!(error.code(), code);
        assert_eq!(error.message(), message);
        assert_eq!(error.kind(), kind);
    }
}

#[test]
fn the_kind_of_an_upstream_error_follows_its_code() {
    let upstream = |code: &str| ApiError::UpstreamError {
        code: String::from(code),
        message: String::new(),
    };
    assert_eq!(upstream("UPSTREAM_TIMEOUT").kind(), ErrorKind::TransientNetwork);
    assert_eq!(upstream("UPSTREAM_429").kind(), ErrorKind::UpstreamThrottled);
    assert_eq!(upstream("INVALID_JSON").kind(), ErrorKind::InvalidPayload);
    assert_eq!(upstream("UPSTREAM_404").kind(), ErrorKind::UpstreamRejected);
    assert_eq!(upstream("UPSTREAM_ERROR").kind(), ErrorKind::UpstreamRejected);
}

#[test]
fn an_error_becomes_an_envelope() {
    let response = ApiError::NotFound(String::from("no such source")).into_response();
    assert!(!response.ok);
    assert!(response.data.is_none());
    let detail = response.error.expect("an error");
    assert_eq!(detail.code, "NOT_FOUND");
    assert_eq!(detail.message, "no such source");
    assert_eq!(detail.trace_id.len(), 36);

    let fixed = ApiError::RateLimitExceeded.respond_with(String::from("trace-1"));
    let detail = fixed.error.expect("an error");
    assert_eq!(detail.code, "RATE_LIMIT_EXCEEDED");
    assert_eq!(detail.message, "Too many requests");
    assert_eq!(detail.trace_id, "trace-1");
}

#[test]
fn status_codes_are_written_in_decimal() {
    assert_eq!(ApiError::status_code(0), "UPSTREAM_0");
    assert_eq!(ApiError::status_code(7), "UPSTREAM_7");
    assert_eq!(ApiError::status_code(404), "UPSTREAM_404");
    assert_eq!(ApiError::status_code(65535), "UPSTREAM_65535");
}

#[test]
fn a_storage_failure_keeps_its_text() {
    let e = ApiError::from_storage(String::from("connection lost"));
    assert_eq!(e.kind(), ErrorKind::StorageFailure);
    assert_eq!(e.to_text(), "Database error: connection lost");
}
