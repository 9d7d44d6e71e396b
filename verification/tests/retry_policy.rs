use backlog_sync::errors::AppError;
use backlog_sync::retry::{run_retry, AttemptResult, HttpResponse};

fn response(status: u16, body: &str) -> AttemptResult {
    AttemptResult::Got(HttpResponse { status, body: body.to_string() })
}

fn transient(detail: &str) -> AttemptResult {
    AttemptResult::TransportFailed {
        retryable: true,
        network_related: true,
        detail: detail.to_string(),
    }
}

#[test]
fn rate_limited_twice_then_success() {
    let events = vec![response(429, ""), response(429, ""), response(200, "done")];
    let (outcome, delays) = run_retry(events);
    let resp = outcome.expect("third attempt succeeds");
    assert_eq!(resp.status, 200);
    assert_eq!(resp.body, "done");
    // exactly two delayed retries, with the second delay doubled
    assert_eq!(delays, vec![1, 2]);
}

#[test]
fn transient_failures_exhaust_attempts() {
    let events = vec![transient("connect reset"), transient("connect reset"), transient("timed out")];
    let (outcome, delays) = run_retry(events);
    match outcome {
        Err(AppError::Network(detail)) => assert_eq!(detail, "timed out"),
        other => panic!("expected a terminal network error, got {:?}", other),
    }
    assert_eq!(delays, vec![1, 2]);
}

#[test]
fn non_retryable_status_stops_at_once() {
    let events = vec![response(401, ""), response(200, "never reached")];
    let (outcome, delays) = run_retry(events);
    assert!(matches!(outcome, Err(AppError::AuthInvalid)));
    assert!(delays.is_empty());
}

#[test]
fn non_retryable_transport_failure_stops_at_once() {
    let events = vec![
        AttemptResult::TransportFailed {
            retryable: false,
            network_related: false,
            detail: "bad request construction".to_string(),
        },
        response(200, "never reached"),
    ];
    let (outcome, delays) = run_retry(events);
    assert!(matches!(outcome, Err(AppError::Unknown(_))));
    assert!(delays.is_empty());
}

#[test]
fn rate_limit_on_last_attempt_is_terminal() {
    let events = vec![response(429, ""), response(429, ""), response(429, "")];
    let (outcome, delays) = run_retry(events);
    assert!(matches!(outcome, Err(AppError::RateLimit)));
    assert_eq!(delays, vec![1, 2]);
}

#[test]
fn empty_schedule_hits_defensive_fallback() {
    let (outcome, delays) = run_retry(Vec::new());
    match outcome {
        Err(AppError::Unknown(detail)) => assert_eq!(detail, "retry loop exhausted"),
        other => panic!("expected the defensive fallback, got {:?}", other),
    }
    assert!(delays.is_empty());
}
