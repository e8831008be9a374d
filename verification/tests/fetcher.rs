use cassiopeia::clients::base_client::{Action, BaseClient, Event, Fetch};
use cassiopeia::error::{ApiError, ErrorKind, TransportFailure};

fn throttled() -> Event<u8> {
    Event::Status { code: 429, line: String::from("429 Too Many Requests") }
}

fn timed_out() -> Event<u8> {
    Event::Failed(TransportFailure {
        timeout: true,
        from_status: false,
        status: None,
        text: String::from("operation timed out"),
    })
}

fn start(max_retries: u32) -> Fetch {
    BaseClient::new(30, max_retries).get_json("https://example.org/feed")
}

#[test]
fn always_throttled_makes_four_attempts_then_fails() {
    let mut fetch = start(3);
    let mut attempts = 0;
    let mut delays = Vec::new();
    let failure = loop {
        attempts += 1;
        match fetch.advance(throttled()) {
            Action::Retry { delay_secs } => delays.push(delay_secs),
            Action::Fail(e) => break e,
            other => panic!("unexpected action {:?}", other),
        }
    };
    assert_eq!(attempts, 4);
    assert_eq!(delays, vec![4, 8, 16]);
    assert_eq!(failure.kind(), ErrorKind::UpstreamThrottled);
    assert_eq!(failure.code(), "UPSTREAM_429");
    assert_eq!(failure.message(), "HTTP error: 429 Too Many Requests");
}

#[test]
fn timeouts_back_off_by_doubling_from_one_second() {
    let mut fetch = start(5);
    let mut delays = Vec::new();
    let failure = loop {
        match fetch.advance(timed_out()) {
            Action::Retry { delay_secs } => delays.push(delay_secs),
            Action::Fail(e) => break e,
            other => panic!("unexpected action {:?}", other),
        }
    };
    assert_eq!(delays, vec![1, 2, 4, 8, 16]);
    assert_eq!(failure.kind(), ErrorKind::TransientNetwork);
    assert_eq!(failure.code(), "UPSTREAM_TIMEOUT");
    assert_eq!(failure.message(), "operation timed out");
}

#[test]
fn success_reads_the_body_and_delivers_it() {
    let mut fetch = start(3);
    let first: Action<u8> = fetch.advance(Event::Status { code: 200, line: String::from("200 OK") });
    assert!(matches!(first, Action::ReadBody));
    assert_eq!(fetch.attempt_number(), 1);
    let second = fetch.advance(Event::Body(7u8));
    assert!(matches!(second, Action::Done(7)));
}

#[test]
fn every_status_from_200_to_299_is_a_success() {
    for code in [200u16, 204, 299] {
        let mut fetch = start(3);
        let action: Action<u8> = fetch.advance(Event::Status { code, line: String::new() });
        assert!(matches!(action, Action::ReadBody));
    }
    for code in [199u16, 300] {
        let mut fetch = start(3);
        let action: Action<u8> = fetch.advance(Event::Status { code, line: String::new() });
        assert!(matches!(action, Action::Fail(_)));
    }
}

#[test]
fn a_body_that_is_no_json_fails_without_a_retry() {
    let mut fetch = start(3);
    let action: Action<u8> = fetch.advance(Event::BadBody(String::from("expected value at line 1")));
    match action {
        Action::Fail(e) => {
            assert_eq!(e.kind(), ErrorKind::InvalidPayload);
            assert_eq!(e.code(), "INVALID_JSON");
            assert_eq!(e.message(), "Failed to parse JSON: expected value at line 1");
        }
        other => panic!("unexpected action {:?}", other),
    }
    assert_eq!(fetch.attempt_number(), 1);
}

#[test]
fn any_other_status_fails_at_once() {
    let mut fetch = start(3);
    let action: Action<u8> =
        fetch.advance(Event::Status { code: 503, line: String::from("503 Service Unavailable") });
    match action {
        Action::Fail(e) => {
            assert_eq!(e.kind(), ErrorKind::UpstreamRejected);
            assert_eq!(e.code(), "UPSTREAM_503");
            assert_eq!(e.message(), "HTTP error: 503 Service Unavailable");
            assert_eq!(e.to_text(), "Upstream error: HTTP error: 503 Service Unavailable");
        }
        other => panic!("unexpected action {:?}", other),
    }
}

#[test]
fn a_transport_error_that_is_no_timeout_fails_at_once() {
    let mut fetch = start(3);
    let action: Action<u8> = fetch.advance(Event::Failed(TransportFailure {
        timeout: false,
        from_status: false,
        status: None,
        text: String::from("connection refused"),
    }));
    match action {
        Action::Fail(e) => {
            assert_eq!(e.code(), "UPSTREAM_ERROR");
            assert_eq!(e.message(), "connection refused");
            assert_eq!(e.kind(), ErrorKind::UpstreamRejected);
        }
        other => panic!("unexpected action {:?}", other),
    }
}

#[test]
fn without_a_budget_the_first_failure_is_final() {
    let mut fetch = start(0);
    assert!(matches!(fetch.advance(throttled()), Action::Fail(_)));
    let mut fetch = start(0);
    assert!(matches!(fetch.advance(timed_out()), Action::Fail(_)));
}

#[test]
fn throttling_and_timeouts_share_one_budget() {
    let mut fetch = start(2);
    assert!(matches!(fetch.advance(throttled()), Action::Retry { delay_secs: 4 }));
    assert!(matches!(fetch.advance(timed_out()), Action::Retry { delay_secs: 2 }));
    assert_eq!(fetch.attempt_number(), 3);
    assert!(matches!(fetch.advance(throttled()), Action::Fail(_)));
}

#[test]
fn the_largest_budget_still_computes_its_longest_delay() {
    let mut fetch = start(62);
    let mut last = 0u64;
    for _ in 0..62 {
        match fetch.advance(throttled()) {
            Action::Retry { delay_secs } => last = delay_secs,
            other => panic!("unexpected action {:?}", other),
        }
    }
    assert_eq!(last, 1u64 << 63);
    assert!(matches!(fetch.advance(throttled()), Action::Fail(_)));
}

#[test]
fn a_request_keeps_its_address_and_parameters() {
    let client = BaseClient::new(20, 3);
    assert_eq!(client.timeout_secs(), 20);
    assert_eq!(client.max_retries(), 3);
    let query = vec![(String::from("a"), String::from("1")), (String::from("b"), String::from("2"))];
    let mut fetch: Fetch = client.get_json_with_query("https://example.org", query.clone());
    let _: Action<u8> = fetch.advance(throttled());
    assert_eq!(fetch.request().url, "https://example.org");
    assert_eq!(fetch.request().query, query);
    assert_eq!(fetch.attempt_number(), 2);
}

#[test]
fn transport_failures_are_named_by_what_they_carry() {
    let status = |status: Option<u16>| TransportFailure {
        timeout: false,
        from_status: true,
        status,
        text: String::from("status"),
    };
    assert_eq!(ApiError::from(status(Some(403))).code(), "UPSTREAM_403");
    assert_eq!(ApiError::from(status(Some(429))).code(), "UPSTREAM_429");
    assert_eq!(ApiError::from(status(Some(500))).code(), "UPSTREAM_500");
    assert_eq!(ApiError::from(status(None)).code(), "UPSTREAM_ERROR");
    let both = TransportFailure {
        timeout: true,
        from_status: true,
        status: Some(504),
        text: String::from("late"),
    };
    assert_eq!(ApiError::from(both).code(), "UPSTREAM_TIMEOUT");
}
