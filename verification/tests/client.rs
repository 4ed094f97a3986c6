use sa_core::client::{
    bytes_to_writer, default_backoff, next_attempt, retry_decision, Admission, Backoff, Pool,
    RequestBuilderWrapped, RetryDecision, StreamEvent, StreamStep, LOOSE_MAX_CONN, MAX_CONN,
    MAX_INTERVAL_SECS, MAX_THROTTLE_WEIGHT,
};
use sa_core::error::{classify_reqwest_error, Error, MiddlewareFailure, RequestFailure};
use sa_core::middleware::{
    parse_retry_after, BypassThrottle, ResponseAction, RetryMiddleware, TimeoutMiddleware,
};

fn status(code: u16) -> RequestFailure {
    RequestFailure { timeout: false, connect: false, request: false, status: Some(code) }
}

#[test]
fn limits() {
    assert_eq!(MAX_CONN, 4);
    assert_eq!(LOOSE_MAX_CONN, 64);
    assert_eq!(MAX_THROTTLE_WEIGHT, 4);
}

#[test]
fn classify_reqwest_error_retries_transient_failures() {
    let none = RequestFailure { timeout: false, connect: false, request: false, status: None };
    assert!(!classify_reqwest_error(&none));
    assert!(classify_reqwest_error(&RequestFailure { timeout: true, ..none }));
    assert!(classify_reqwest_error(&RequestFailure { connect: true, ..none }));
    assert!(classify_reqwest_error(&RequestFailure { request: true, ..none }));
    assert!(classify_reqwest_error(&status(500)));
    assert!(classify_reqwest_error(&status(503)));
    assert!(classify_reqwest_error(&status(599)));
    assert!(classify_reqwest_error(&status(408)));
    assert!(classify_reqwest_error(&status(429)));
    assert!(!classify_reqwest_error(&status(400)));
    assert!(!classify_reqwest_error(&status(403)));
    assert!(!classify_reqwest_error(&status(404)));
    assert!(!classify_reqwest_error(&status(499)));
}

#[test]
fn should_retry_by_kind_of_error() {
    assert!(Error::IO.should_retry(1));
    assert!(Error::StreamStuck.should_retry(1));
    assert!(Error::Reqwest(status(502)).should_retry(1));
    assert!(Error::ReqwestMiddleware(MiddlewareFailure::Reqwest(status(502))).should_retry(1));
    assert!(!Error::Reqwest(status(404)).should_retry(1));
    assert!(!Error::ReqwestMiddleware(MiddlewareFailure::Middleware).should_retry(1));
    for e in [
        Error::Sender,
        Error::Json,
        Error::Join,
        Error::Handlebars,
        Error::Base64Decode,
        Error::Rsa,
        Error::AtomicFilePoisoned,
        Error::AtomicFileWrite,
        Error::Rewriting,
        Error::Pattern,
        Error::UnknownName,
    ] {
        assert!(!e.should_retry(1));
        assert!(!e.message().is_empty());
    }
    assert_eq!(Error::Sender.message(), "channel closed");
    assert_eq!(Error::StreamStuck.message(), "bytes stream stuck");
    assert_eq!(Error::AtomicFilePoisoned.message(), "atomic file poisoned");
}

fn now_millis() -> i64 {
    std::time::SystemTime::now()
        .duration_since(std::time::UNIX_EPOCH)
        .unwrap()
        .as_millis() as i64
}

#[test]
fn default_backoff_allows_three_retries() {
    let b = default_backoff();
    assert_eq!(
        b,
        Backoff {
            max_n_retries: 3,
            min_retry_interval_secs: 1,
            max_retry_interval_secs: 1800,
            backoff_exponent: 3
        }
    );
    assert!(b.in_range());
    assert!(!Backoff { min_retry_interval_secs: MAX_INTERVAL_SECS + 1, ..b }.in_range());
    assert!(!Backoff { max_retry_interval_secs: u64::MAX, ..b }.in_range());
    assert!(Backoff { max_retry_interval_secs: MAX_INTERVAL_SECS, ..b }.in_range());
}

#[test]
fn retry_decision_follows_the_policy_and_the_error() {
    assert_eq!(
        retry_decision(Some(1234), &Error::IO),
        RetryDecision::Retry { execute_after_millis: 1234 }
    );
    assert_eq!(
        retry_decision(Some(-5), &Error::Reqwest(status(500))),
        RetryDecision::Retry { execute_after_millis: -5 }
    );
    assert_eq!(retry_decision(None, &Error::IO), RetryDecision::GiveUp);
    assert_eq!(retry_decision(Some(1234), &Error::Json), RetryDecision::GiveUp);
    assert_eq!(retry_decision(Some(1234), &Error::Reqwest(status(404))), RetryDecision::GiveUp);
    assert_eq!(retry_decision(None, &Error::Json), RetryDecision::GiveUp);
}

#[test]
fn next_attempt_counts_retries() {
    let b = default_backoff();
    for n in 0..3 {
        let before = now_millis();
        match next_attempt(&b, n, &Error::IO) {
            RetryDecision::Retry { execute_after_millis } => {
                assert!(execute_after_millis >= before);
                assert!(execute_after_millis <= now_millis() + 1_800_000);
            }
            RetryDecision::GiveUp => panic!("retries are left"),
        }
    }
    assert_eq!(next_attempt(&b, 3, &Error::IO), RetryDecision::GiveUp);
    assert_eq!(next_attempt(&b, 1000, &Error::StreamStuck), RetryDecision::GiveUp);
    assert_eq!(next_attempt(&b, 0, &Error::Json), RetryDecision::GiveUp);
    assert_eq!(next_attempt(&b, 0, &Error::Reqwest(status(404))), RetryDecision::GiveUp);
    let none = Backoff { max_n_retries: 0, ..b };
    assert_eq!(next_attempt(&none, 0, &Error::IO), RetryDecision::GiveUp);
    let wide = Backoff {
        max_n_retries: u32::MAX,
        min_retry_interval_secs: MAX_INTERVAL_SECS,
        max_retry_interval_secs: MAX_INTERVAL_SECS,
        backoff_exponent: u32::MAX,
    };
    assert!(matches!(next_attempt(&wide, 40, &Error::IO), RetryDecision::Retry { .. }));
    assert!(matches!(next_attempt(&wide, 0, &Error::IO), RetryDecision::Retry { .. }));
}

#[test]
fn requests_say_what_they_acquire() {
    let plain = RequestBuilderWrapped::into_request_builder_wrapped();
    assert_eq!(
        plain.admission(),
        Admission { pool: Pool::Strict, permits: 1, throttle: Some(1) }
    );
    let heavy = plain.with_conn_weight(4).with_throttle_weight(4);
    assert_eq!(
        heavy.admission(),
        Admission { pool: Pool::Strict, permits: 4, throttle: Some(4) }
    );
    let bulk = plain.bypass_max_conn().bypass_throttle();
    assert_eq!(bulk.admission(), Admission { pool: Pool::Loose, permits: 1, throttle: None });
    assert_eq!(
        plain.bypass_max_conn().admission(),
        Admission { pool: Pool::Loose, permits: 1, throttle: Some(1) }
    );
}

#[test]
fn parse_retry_after_reads_seconds() {
    assert_eq!(parse_retry_after("5"), Some(5));
    assert_eq!(parse_retry_after("+5"), Some(5));
    assert_eq!(parse_retry_after("007"), Some(7));
    assert_eq!(parse_retry_after("0"), Some(0));
    assert_eq!(parse_retry_after("18446744073709551615"), Some(u64::MAX));
    assert_eq!(parse_retry_after("18446744073709551616"), None);
    assert_eq!(parse_retry_after("99999999999999999999999"), None);
    assert_eq!(parse_retry_after(""), None);
    assert_eq!(parse_retry_after("+"), None);
    assert_eq!(parse_retry_after("-5"), None);
    assert_eq!(parse_retry_after(" 5"), None);
    assert_eq!(parse_retry_after("5 "), None);
    assert_eq!(parse_retry_after("5s"), None);
    assert_eq!(parse_retry_after("Wed, 21 Oct 2015 07:28:00 GMT"), None);
    assert_eq!(parse_retry_after("５"), None);
}

#[test]
fn too_many_requests_starts_one_cooldown() {
    assert_eq!(
        RetryMiddleware::on_response(429, Some("5")),
        ResponseAction::Stall { retry_after: 5 }
    );
    assert_eq!(RetryMiddleware::on_response(429, None), ResponseAction::Return);
    assert_eq!(RetryMiddleware::on_response(429, Some("soon")), ResponseAction::Return);
    assert_eq!(RetryMiddleware::on_response(200, Some("5")), ResponseAction::Return);
    assert_eq!(RetryMiddleware::on_response(503, Some("5")), ResponseAction::Return);
    assert_eq!(RetryMiddleware::stall_for(5, 0), Some(6));
    assert_eq!(RetryMiddleware::stall_for(5, 2), Some(4));
    assert_eq!(RetryMiddleware::stall_for(5, 5), None);
    assert_eq!(RetryMiddleware::stall_for(5, 9), None);
    assert_eq!(RetryMiddleware::stall_for(0, 0), None);
    assert_eq!(RetryMiddleware::stall_for(u64::MAX, 0), Some(u64::MAX));
}

#[test]
fn nothing_passes_during_a_cooldown() {
    let mut m = RetryMiddleware::new();
    assert!(m.enter(BypassThrottle(false)));
    assert!(!m.begin_stall());
    assert!(m.announce_stall());
    assert!(!m.enter(BypassThrottle(false)));
    assert!(!m.begin_stall());
    m.leave();
    assert!(m.begin_stall());
    assert!(!m.begin_stall());
    assert!(!m.enter(BypassThrottle(false)));
    assert!(m.enter(BypassThrottle(true)));
    m.end_stall();
    assert!(m.enter(BypassThrottle(false)));
    m.leave();
    m.leave();
    assert!(m.announce_stall());
    assert!(m.announce_stall());
    assert!(m.begin_stall());
    m.end_stall();
    assert!(!m.enter(BypassThrottle(false)));
    assert!(m.begin_stall());
    m.end_stall();
    assert!(m.enter(BypassThrottle(false)));
    assert_eq!(TimeoutMiddleware::new(10).0, 10);
}

#[test]
fn a_stalled_stream_fails_as_stuck() {
    assert_eq!(bytes_to_writer(StreamEvent::Bytes { written: true }), StreamStep::Continue);
    assert_eq!(
        bytes_to_writer(StreamEvent::Bytes { written: false }),
        StreamStep::Fail(Error::IO)
    );
    assert_eq!(bytes_to_writer(StreamEvent::Ended), StreamStep::Done);
    assert_eq!(bytes_to_writer(StreamEvent::TimedOut), StreamStep::Fail(Error::StreamStuck));
    assert_eq!(
        bytes_to_writer(StreamEvent::Failed(status(500))),
        StreamStep::Fail(Error::Reqwest(status(500)))
    );
}
