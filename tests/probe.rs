use website_checker::probe::{
    contains_marker, url_is_secure, AttemptOutcome, Config, ProbeResult, ProbeSession, ProbeStep,
    BACKOFF_MS,
};

fn config(max_retries: usize) -> Config {
    Config { worker_threads: 10, timeout_ms: 5000, max_retries, interval_secs: 15 }
}

fn fail(ms: u64) -> AttemptOutcome {
    AttemptOutcome::TransportError { description: "connection refused".to_string(), elapsed_ms: ms }
}

fn respond(code: u16, ms: u64, body: &str) -> AttemptOutcome {
    AttemptOutcome::Response { code, elapsed_ms: ms, body: Some(body.as_bytes().to_vec()) }
}

/// Drives a probe with the given outcomes; returns the attempts made, the
/// backoffs asked for and the result.
fn drive(url: &str, max_retries: usize, outcomes: Vec<AttemptOutcome>) -> (usize, usize, ProbeResult) {
    let mut session = ProbeSession::new(url.to_string(), &config(max_retries));
    let mut attempts = 0;
    let mut backoffs = 0;
    for outcome in outcomes {
        attempts += 1;
        match session.record(outcome, 1_700_000_000_000) {
            ProbeStep::Retry { backoff_ms } => {
                assert_eq!(backoff_ms, BACKOFF_MS);
                backoffs += 1;
            }
            ProbeStep::Done(r) => {
                assert!(session.finished);
                return (attempts, backoffs, r);
            }
        }
    }
    panic!("the probe did not end");
}

#[test]
fn failing_url_is_tried_max_retries_plus_one_times() {
    for r in 0..4usize {
        let outcomes: Vec<AttemptOutcome> = (0..10).map(|i| fail(10 + i)).collect();
        let (attempts, backoffs, result) = drive("http://down.invalid", r, outcomes);
        assert_eq!(attempts, r + 1);
        assert_eq!(backoffs, r);
        assert_eq!(result.status, Err("connection refused".to_string()));
        assert_eq!(result.response_time_ms, 10 + r as u64);
        assert_eq!(result.ssl_valid, None);
        assert_eq!(result.body_contains, None);
    }
}

#[test]
fn first_response_ends_probe_without_backoff() {
    let (attempts, backoffs, result) =
        drive("https://www.rust-lang.org", 3, vec![respond(200, 42, "<html></html>")]);
    assert_eq!(attempts, 1);
    assert_eq!(backoffs, 0);
    assert_eq!(result.status, Ok(200));
    assert_eq!(result.response_time_ms, 42);
    assert_eq!(result.timestamp_ms, 1_700_000_000_000);
    assert_eq!(result.url, "https://www.rust-lang.org");
}

#[test]
fn error_status_codes_count_as_success() {
    let (_, _, result) = drive("http://example.com", 1, vec![respond(503, 7, "unavailable")]);
    assert_eq!(result.status, Ok(503));
    assert_eq!(result.body_contains, Some(false));
}

#[test]
fn ssl_valid_follows_scheme() {
    let (_, _, secure) = drive("https://example.com", 0, vec![respond(200, 1, "")]);
    assert_eq!(secure.ssl_valid, Some(true));
    let (_, _, plain) = drive("http://example.com", 0, vec![respond(200, 1, "")]);
    assert_eq!(plain.ssl_valid, Some(false));
    let (_, _, down) = drive("https://example.com", 0, vec![fail(1)]);
    assert_eq!(down.ssl_valid, None);
}

#[test]
fn body_marker_is_detected() {
    let (_, _, with) = drive("http://a.test", 0, vec![respond(200, 1, "<!doctype html>")]);
    assert_eq!(with.body_contains, Some(true));
    let (_, _, without) = drive("http://a.test", 0, vec![respond(200, 1, "{\"ok\":true}")]);
    assert_eq!(without.body_contains, Some(false));
}

#[test]
fn unreadable_body_degrades_marker_to_false() {
    let outcome = AttemptOutcome::Response { code: 200, elapsed_ms: 3, body: None };
    let (_, _, result) = drive("https://a.test", 0, vec![outcome]);
    assert_eq!(result.status, Ok(200));
    assert_eq!(result.body_contains, Some(false));
    assert_eq!(result.ssl_valid, Some(true));
}

#[test]
fn retry_then_success_keeps_last_timing() {
    let (attempts, backoffs, result) =
        drive("https://flaky.test", 1, vec![fail(900), respond(200, 30, "html")]);
    assert_eq!(attempts, 2);
    assert_eq!(backoffs, 1);
    assert_eq!(result.status, Ok(200));
    assert_eq!(result.response_time_ms, 30);
}

#[test]
fn secure_url_check() {
    assert!(url_is_secure("https://x"));
    assert!(url_is_secure("https://"));
    assert!(!url_is_secure("http://x"));
    assert!(!url_is_secure("https:/"));
    assert!(!url_is_secure("HTTPS://x"));
    assert!(!url_is_secure(""));
}

#[test]
fn marker_search() {
    assert!(contains_marker(&b"html".to_vec()));
    assert!(contains_marker(&b"xx<html>".to_vec()));
    assert!(contains_marker(&b"abchtml".to_vec()));
    assert!(!contains_marker(&b"htm".to_vec()));
    assert!(!contains_marker(&b"HTML".to_vec()));
    assert!(!contains_marker(&Vec::new()));
}
