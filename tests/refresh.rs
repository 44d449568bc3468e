use tabledash::config::TableSource;
use tabledash::extract::ExtractError;
use tabledash::refresh::{backoff_delay, FetchError, RefreshRecord, TickDecision, INITIAL_BACKOFF_MS, RETRY_THRESHOLD};

fn remote(interval: u64) -> TableSource {
    TableSource::Remote { url: "http://h/x".to_string(), refresh_interval_ms: interval, mapping: Some(vec!["a".to_string()]) }
}

fn rows(v: &str) -> Vec<Vec<String>> {
    vec![vec![v.to_string()]]
}

#[test]
fn backoff_doubles_from_threshold() {
    assert_eq!(RETRY_THRESHOLD, 3);
    assert_eq!(INITIAL_BACKOFF_MS, 5000);
    assert_eq!(backoff_delay(3), 5000);
    assert_eq!(backoff_delay(4), 10000);
    assert_eq!(backoff_delay(5), 20000);
    for f in 3..40u64 {
        assert_eq!(backoff_delay(f + 1), 2 * backoff_delay(f));
    }
}

#[test]
fn backoff_saturates() {
    assert_eq!(backoff_delay(54), 5000u64 << 51);
    assert_eq!(backoff_delay(55), u64::MAX);
    assert_eq!(backoff_delay(u64::MAX), u64::MAX);
}

#[test]
fn new_records() {
    let r = RefreshRecord::new(&remote(10));
    assert_eq!(r.cached_rows, vec![Vec::<String>::new()]);
    assert_eq!(r.consecutive_failures, 0);
    assert_eq!(r.backoff_until, None);
    assert_eq!(r.last_attempt_at, None);
    let st = TableSource::Static { data: rows("s") };
    assert_eq!(RefreshRecord::new(&st).cached_rows, rows("s"));
}

#[test]
fn decide_cases() {
    let src = remote(10_000);
    let mut r = RefreshRecord::new(&src);
    assert_eq!(r.decide(&src, 0), TickDecision::Fetch);
    r.record_success(rows("a"), 1000);
    assert_eq!(r.decide(&src, 5000), TickDecision::Idle);
    assert_eq!(r.decide(&src, 11_000), TickDecision::Fetch);
    let st = TableSource::Static { data: rows("s") };
    assert_eq!(r.decide(&st, 99_999), TickDecision::Idle);
    let nomap = TableSource::File { path: "p".to_string(), refresh_interval_ms: 1, mapping: None };
    assert_eq!(r.decide(&nomap, 99_999), TickDecision::ConfigError);
    r.backoff_until = Some(50_000);
    assert_eq!(r.decide(&src, 49_999), TickDecision::Idle);
    assert_eq!(r.decide(&src, 50_000), TickDecision::Fetch);
}

#[test]
fn failure_keeps_cache_and_counts() {
    let mut r = RefreshRecord::new(&remote(0));
    r.record_success(rows("good"), 10);
    r.record_failure(&FetchError::Network("timeout".to_string()), 20);
    assert_eq!(r.cached_rows, rows("good"));
    assert_eq!(r.consecutive_failures, 1);
    assert_eq!(r.last_error, Some("timeout".to_string()));
    assert_eq!(r.backoff_until, None);
    assert_eq!(r.last_attempt_at, Some(20));
    r.record_failure(&FetchError::Io("gone".to_string()), 30);
    assert_eq!(r.backoff_until, None);
    r.record_failure(&FetchError::Extract(ExtractError::MalformedJson), 40);
    assert_eq!(r.consecutive_failures, 3);
    assert_eq!(r.backoff_until, Some(40 + 5000));
    assert_eq!(r.last_error, Some("malformed JSON".to_string()));
    r.record_failure(&FetchError::Extract(ExtractError::NotAnArray), 6000);
    assert_eq!(r.backoff_until, Some(6000 + 10000));
    assert_eq!(r.cached_rows, rows("good"));
}

#[test]
fn failure_count_saturates() {
    let mut r = RefreshRecord::new(&remote(0));
    r.consecutive_failures = u64::MAX;
    r.record_failure(&FetchError::Io("x".to_string()), u64::MAX - 1);
    assert_eq!(r.consecutive_failures, u64::MAX);
    assert_eq!(r.backoff_until, Some(u64::MAX));
}

#[test]
fn success_resets_after_failures() {
    let mut r = RefreshRecord::new(&remote(0));
    for t in 0..6u64 {
        r.apply(Err(FetchError::Network("down".to_string())), t);
    }
    assert_eq!(r.consecutive_failures, 6);
    assert!(r.backoff_until.is_some());
    r.apply(Ok(rows("back")), 100_000);
    assert_eq!(r.consecutive_failures, 0);
    assert_eq!(r.backoff_until, None);
    assert_eq!(r.last_error, None);
    assert_eq!(r.cached_rows, rows("back"));
    assert_eq!(r.last_attempt_at, Some(100_000));
}

#[test]
fn config_error_is_recorded_without_retry() {
    let mut r = RefreshRecord::new(&remote(0));
    r.record_config_error();
    assert_eq!(r.last_error, Some("no field mapping".to_string()));
    assert_eq!(r.consecutive_failures, 0);
    assert_eq!(r.backoff_until, None);
}

#[test]
fn error_messages() {
    assert_eq!(FetchError::Io("disk".to_string()).message(), "disk");
    assert_eq!(FetchError::Network("503".to_string()).message(), "503");
    assert_eq!(ExtractError::NotAnArray.message(), "JSON root is not an array");
    assert_eq!(ExtractError::NoMapping.message(), "no field mapping");
}
