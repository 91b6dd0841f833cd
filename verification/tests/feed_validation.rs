//! The validation scenarios, driven through the engine: each test hands the
//! engine the response a server would have produced and checks the verdict.

use opml_manager::feed::Feed;
use opml_manager::validation::{StatusStep, Step, TransportError, ValidationResult, Validator};

fn create_test_feed(title: &str, url: &str) -> Feed {
    Feed::new(title.to_string(), url.to_string(), None, vec![])
}

/// Drives one attempt: the response status, then (for a success status) the
/// body text, and expects a terminal outcome.
fn run_one_response(feed: &Feed, status: u16, body: Option<&str>) -> ValidationResult {
    let mut v = Validator::new(feed);
    assert!(v.can_attempt());
    match v.on_status(status) {
        StatusStep::ReadBody => match v.on_body(body.map(|s| s.to_string())) {
            Step::Finished(r) => r,
            Step::Retry { .. } => panic!("expected a terminal outcome"),
        },
        StatusStep::Finished(r) => r,
        StatusStep::Retry { .. } => panic!("expected a terminal outcome"),
    }
}

#[test]
fn feed_validation_test_validate_valid_feed() {
    let feed = create_test_feed("Test Feed", "http://example.com/feed.xml");
    let result = run_one_response(
        &feed,
        200,
        Some(r#"<?xml version="1.0"?><rss version="2.0"><channel><title>Test</title></channel></rss>"#),
    );

    assert_eq!(result.status, "valid");
    assert!(result.error.is_empty());
}

#[test]
fn test_malformed_xml() {
    let feed = create_test_feed("Malformed Feed", "http://example.com/feed.xml");
    let result = run_one_response(&feed, 200, Some("<?xml version='1.0'?><rss><broken>"));

    assert_eq!(result.status, "invalid");
    assert!(!result.error.is_empty());
}

#[test]
fn test_valid_xml_invalid_feed() {
    let feed = create_test_feed("Invalid Feed", "http://example.com/feed.xml");
    let result = run_one_response(
        &feed,
        200,
        Some(r#"<?xml version="1.0"?><note><body>Not a feed</body></note>"#),
    );

    assert_eq!(result.status, "invalid");
    assert!(!result.error.is_empty());
}

#[test]
fn test_redirect() {
    // Following redirects is the fetch client's job; the engine only sees
    // the final response, so a followed redirect looks like a success.
    let feed = create_test_feed("Redirect Feed", "http://example.com/old-feed.xml");
    let result = run_one_response(
        &feed,
        200,
        Some(r#"<?xml version="1.0"?><rss version="2.0"><channel><title>Test</title></channel></rss>"#),
    );

    assert_eq!(result.status, "valid");
    assert!(result.error.is_empty());
}

#[test]
fn test_different_encoding() {
    // A body that decoded to a bare XML prologue fragment.
    let feed = create_test_feed("Encoded Feed", "http://example.com/feed.xml");
    let result = run_one_response(&feed, 200, Some("<?xml "));

    assert_eq!(result.status, "invalid");
}

#[test]
fn test_rate_limit() {
    let feed = create_test_feed("Rate Limited Feed", "http://example.com/feed.xml");
    let result = run_one_response(&feed, 429, None);

    assert_eq!(result.status, "error");
    assert!(result.error.contains("429"));
}

#[test]
fn test_compressed_response() {
    // A compressed payload the client did not decompress: the decoded text
    // starts with the two gzip magic characters and is not XML.
    let feed = create_test_feed("Compressed Feed", "http://example.com/feed.xml");
    let result = run_one_response(&feed, 200, Some("\u{1f}\u{8b}"));

    assert_eq!(result.status, "invalid");
}

#[test]
fn test_validate_atom_feed() {
    let feed = create_test_feed("Test Atom Feed", "http://example.com/feed.atom");
    let result = run_one_response(
        &feed,
        200,
        Some(r#"<?xml version="1.0"?><feed xmlns="http://www.w3.org/2005/Atom"><title>Test</title></feed>"#),
    );

    assert_eq!(result.status, "valid");
    assert!(result.error.is_empty());
}

#[test]
fn test_invalid_feed_format() {
    let feed = create_test_feed("Invalid Feed Format", "http://example.com/feed.xml");
    let result = run_one_response(
        &feed,
        200,
        Some(r#"<?xml version="1.0"?><html><body>Not a feed</body></html>"#),
    );

    assert_eq!(result.status, "invalid");
    assert_eq!(result.error, "Document is not a valid RSS or Atom feed");
}

#[test]
fn test_timeout_is_terminal_without_retry() {
    let feed = create_test_feed("Slow Feed", "http://example.com/feed.xml");
    let mut v = Validator::new(&feed);
    assert!(v.can_attempt());
    match v.on_transport_error(TransportError::Timeout) {
        Step::Finished(r) => {
            assert_eq!(r.status, "error");
            assert_eq!(r.error, "Network timeout");
        },
        Step::Retry { .. } => panic!("a timeout must not be retried"),
    }
}

#[test]
fn test_server_error_exhausts_retries() {
    let feed = create_test_feed("Broken Server", "http://example.com/feed.xml");
    let mut v = Validator::new(&feed);
    let mut requests = 0;
    let mut backoffs: Vec<u64> = Vec::new();
    let result = loop {
        assert!(v.can_attempt());
        requests += 1;
        match v.on_status(500) {
            StatusStep::Retry { backoff_secs } => backoffs.push(backoff_secs),
            StatusStep::Finished(r) => break r,
            StatusStep::ReadBody => panic!("500 is not a success status"),
        }
    };
    assert_eq!(requests, 5);
    assert_eq!(backoffs, vec![1, 2, 4, 8]);
    assert_eq!(result.status, "error");
    assert_eq!(result.error, "Max retry attempts reached");
}

#[test]
fn test_connect_errors_exhaust_retries_with_message() {
    let feed = create_test_feed("Unreachable", "http://example.com/feed.xml");
    let mut v = Validator::new(&feed);
    let mut requests = 0;
    let result = loop {
        assert!(v.can_attempt());
        requests += 1;
        match v.on_transport_error(TransportError::Connect("connection refused".to_string())) {
            Step::Retry { .. } => {},
            Step::Finished(r) => break r,
        }
    };
    assert_eq!(requests, 5);
    assert_eq!(result.status, "error");
    assert_eq!(result.error, "connection refused");
}

#[test]
fn test_other_transport_error_is_terminal() {
    let feed = create_test_feed("Bad DNS", "http://nowhere.invalid/feed.xml");
    let mut v = Validator::new(&feed);
    match v.on_transport_error(TransportError::Other("dns failure".to_string())) {
        Step::Finished(r) => {
            assert_eq!(r.status, "error");
            assert_eq!(r.error, "dns failure");
        },
        Step::Retry { .. } => panic!("an unclassified transport error must not be retried"),
    }
}

#[test]
fn test_http_error_carries_exact_code() {
    let feed = create_test_feed("Gone", "http://example.com/feed.xml");
    let result = run_one_response(&feed, 404, None);
    assert_eq!(result.status, "error");
    assert_eq!(result.error, "HTTP 404");
}

#[test]
fn test_body_read_failure_retries_then_fails() {
    let feed = create_test_feed("Flaky Body", "http://example.com/feed.xml");
    let mut v = Validator::new(&feed);
    let mut requests = 0;
    let result = loop {
        assert!(v.can_attempt());
        requests += 1;
        match v.on_status(200) {
            StatusStep::ReadBody => match v.on_body(None) {
                Step::Retry { backoff_secs } => assert_eq!(backoff_secs, 0),
                Step::Finished(r) => break r,
            },
            _ => panic!("200 is a success status"),
        }
    };
    assert_eq!(requests, 5);
    assert_eq!(result.status, "error");
    assert_eq!(result.error, "Failed to read response text");
}

#[test]
fn test_result_echoes_feed_fields() {
    let feed = Feed::new(
        "Echo Feed".to_string(),
        "http://example.com/echo.xml".to_string(),
        Some("http://example.com".to_string()),
        vec!["Tech".to_string(), "News".to_string()],
    );
    let result = run_one_response(&feed, 404, None);
    assert_eq!(result.feed, "Echo Feed");
    assert_eq!(result.url, "http://example.com/echo.xml");
    assert_eq!(result.categories, vec!["Tech".to_string(), "News".to_string()]);
}
