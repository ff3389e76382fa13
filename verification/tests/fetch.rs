use pcurl::fetch::{
    carries_range, parse_retry_after, range_header, Attempt, Cause, ChunkFetch, FetchFailure,
    Verdict,
};
use pcurl::retry::{jitter_at, pseudo_jitter, RetryCfg};
use pcurl::status::is_retryable_status;
use std::time::{Duration, UNIX_EPOCH};

fn by_count(retries: u32) -> RetryCfg {
    RetryCfg {
        retries,
        backoff_ms: 200,
        backoff_max_ms: 10_000,
        retry_max_secs: 0,
    }
}

fn by_clock(secs: u64) -> RetryCfg {
    RetryCfg {
        retry_max_secs: secs,
        ..by_count(0)
    }
}

fn status(code: u16) -> Attempt {
    Attempt::Status {
        code,
        retry_after: None,
    }
}

fn delay(verdict: Verdict) -> u64 {
    match verdict {
        Verdict::Retry { delay_ms } => delay_ms,
        other => panic!("expected a retry, got {other:?}"),
    }
}

fn failure(verdict: Verdict) -> String {
    match verdict {
        Verdict::Fail(failure) => failure.message(),
        other => panic!("expected a failure, got {other:?}"),
    }
}

#[test]
fn backoff_doubles_up_to_the_maximum() {
    let cfg = by_count(20);
    // 200 ms: a band of 51 from 175 on.
    assert_eq!(cfg.backoff_with(0, 0), 175);
    assert_eq!(cfg.backoff_with(0, 25), 200);
    assert_eq!(cfg.backoff_with(0, 50), 225);
    assert_eq!(cfg.backoff_with(0, 51), 175);
    assert_eq!(cfg.backoff_with(1, 0), 350);
    assert_eq!(cfg.backoff_with(2, 0), 700);
    // From the sixth doubling on the maximum counts.
    assert_eq!(cfg.backoff_with(5, 0), 5600);
    assert_eq!(cfg.backoff_with(6, 0), 8750);
    assert_eq!(cfg.backoff_with(6, 1249), 9999);
    assert_eq!(cfg.backoff_with(6, 2500), 10_000);
    assert_eq!(cfg.backoff_with(u32::MAX, 0), 8750);
}

#[test]
fn backoff_edges() {
    let none = RetryCfg {
        backoff_ms: 0,
        ..by_count(1)
    };
    assert_eq!(none.backoff_with(7, 12345), 0);
    let huge = RetryCfg {
        backoff_ms: u64::MAX,
        backoff_max_ms: u64::MAX,
        ..by_count(1)
    };
    let span = u64::MAX / 4 + 1;
    assert_eq!(huge.backoff_with(3, 0), u64::MAX - span / 2);
    assert_eq!(huge.backoff_with(3, span - 1), u64::MAX);
}

#[test]
fn drawn_backoff_stays_in_its_band() {
    let cfg = by_count(20);
    for attempt in 0..8u32 {
        let base = (200u64 << attempt).min(10_000);
        let ms = cfg.backoff(attempt);
        assert!(ms >= base - (base / 4 + 1) / 2);
        assert!(ms <= base + base / 8 + 1);
        assert!(ms <= 10_000);
    }
    assert!(pseudo_jitter() < 1_000_000_000);
}

#[test]
fn jitter_is_the_part_of_a_second() {
    assert_eq!(jitter_at(&UNIX_EPOCH), 0);
    assert_eq!(jitter_at(&(UNIX_EPOCH + Duration::new(7, 123_456_700))), 123_456_700);
    assert_eq!(jitter_at(&(UNIX_EPOCH + Duration::new(1 << 30, 999_999_900))), 999_999_900);
    assert_eq!(jitter_at(&(UNIX_EPOCH - Duration::new(7, 5_000_000))), 0);
}

#[test]
fn whole_chunk_is_accepted() {
    let mut fetch = ChunkFetch::new(by_count(0), 100);
    assert!(matches!(
        fetch.judge(Attempt::Body { len: 100 }, 0, 0),
        Verdict::Accept
    ));
}

#[test]
fn short_read_is_retried_and_then_reported() {
    let mut fetch = ChunkFetch::new(by_count(1), 100);
    assert_eq!(delay(fetch.judge(Attempt::Body { len: 99 }, 0, 0)), 175);
    assert_eq!(
        failure(fetch.judge(Attempt::Body { len: 99 }, 0, 0)),
        "giving up after 2 attempts: short read: got 99 bytes, expected 100"
    );
}

#[test]
fn flaky_chunk_recovers() {
    // A range that fails once with 503 and then succeeds.
    let mut fetch = ChunkFetch::new(by_count(5), 65536);
    assert_eq!(delay(fetch.judge(status(503), 3, 7)), 182);
    assert!(matches!(
        fetch.judge(Attempt::Body { len: 65536 }, 300, 0),
        Verdict::Accept
    ));
}

#[test]
fn retries_bound_the_attempts() {
    let mut fetch = ChunkFetch::new(by_count(3), 1);
    for _ in 0..3 {
        delay(fetch.judge(status(500), 1_000_000, 0));
    }
    assert_eq!(
        failure(fetch.judge(status(500), 1_000_000, 0)),
        "giving up after 4 attempts: server returned 500 Internal Server Error"
    );
}

#[test]
fn transient_failures_are_ridden_out() {
    for cfg in [by_count(20), by_clock(300)] {
        let mut fetch = ChunkFetch::new(cfg, 7);
        for i in 0..20u64 {
            let attempt = match i % 4 {
                0 => status(503),
                1 => status(429),
                2 => Attempt::TooSlow,
                _ => Attempt::Body { len: 6 },
            };
            delay(fetch.judge(attempt, i * 15_000, i));
        }
        assert_eq!(fetch.failures, 20);
        assert!(matches!(
            fetch.judge(Attempt::Body { len: 7 }, 400_000, 0),
            Verdict::Accept
        ));
    }
}

#[test]
fn refusals_among_transient_failures_are_ridden_out() {
    let mut fetch = ChunkFetch::new(by_count(9), 7);
    for code in [503u16, 200, 500, 403, 429, 404, 503, 408, 502] {
        delay(fetch.judge(status(code), 0, 0));
    }
    assert!(matches!(
        fetch.judge(Attempt::Body { len: 7 }, 0, 0),
        Verdict::Accept
    ));
    assert_eq!(
        failure(fetch.judge(status(503), 0, 0)),
        "giving up after 10 attempts: server returned 503 Service Unavailable"
    );
}

#[test]
fn chunk_lacks_bytes_until_all_came() {
    let fetch = ChunkFetch::new(by_count(0), 10);
    assert!(fetch.lacks_bytes(0));
    assert!(fetch.lacks_bytes(9));
    assert!(!fetch.lacks_bytes(10));
    assert!(!fetch.lacks_bytes(11));
}

#[test]
fn clock_budget_replaces_the_count() {
    let mut fetch = ChunkFetch::new(by_clock(300), 1);
    for i in 0..1000u64 {
        delay(fetch.judge(
            Attempt::Transport {
                error: "refused".to_string(),
            },
            i * 299,
            0,
        ));
    }
    // The wait does not run past the end of the budget.
    assert_eq!(delay(fetch.judge(Attempt::TooSlow, 299_990, 0)), 10);
    assert_eq!(
        failure(fetch.judge(Attempt::TooSlow, 300_000, 0)),
        "giving up after 1002 attempts: throughput stayed below the minimum speed"
    );
}

#[test]
fn transport_error_is_reported_as_it_is() {
    let mut fetch = ChunkFetch::new(by_count(0), 1);
    let attempt = Attempt::Transport {
        error: "request error: refused".to_string(),
    };
    assert_eq!(
        failure(fetch.judge(attempt, 0, 0)),
        "giving up after 1 attempts: request error: refused"
    );
}

#[test]
fn ignored_range_is_believed_after_a_few_answers() {
    let mut fetch = ChunkFetch::new(by_clock(300), 65536);
    let mut waited = 0;
    for _ in 0..3 {
        waited += delay(fetch.judge(status(200), waited, 0));
    }
    let verdict = fetch.judge(status(200), waited, 0);
    assert!(matches!(verdict, Verdict::Fail(FetchFailure::RangeIgnored)));
    assert!(failure(verdict).contains("re-run with --single"));
    assert!(waited < 15_000);
}

#[test]
fn flaky_full_response_recovers() {
    let mut fetch = ChunkFetch::new(by_clock(300), 65536);
    delay(fetch.judge(status(200), 0, 0));
    assert!(matches!(
        fetch.judge(Attempt::Body { len: 65536 }, 200, 0),
        Verdict::Accept
    ));
}

#[test]
fn ignored_range_fails_at_once_without_a_budget() {
    let mut fetch = ChunkFetch::new(by_count(0), 65536);
    assert!(matches!(
        fetch.judge(status(200), 0, 0),
        Verdict::Fail(FetchFailure::RangeIgnored)
    ));
}

#[test]
fn other_statuses_are_believed_after_a_few_answers() {
    for code in [301u16, 400, 403, 404, 416, 204] {
        let mut fetch = ChunkFetch::new(by_clock(300), 1);
        for wait in [175u64, 350, 700] {
            assert_eq!(delay(fetch.judge(status(code), 0, 0)), wait);
        }
        let verdict = fetch.judge(status(code), 0, 0);
        assert!(matches!(
            verdict,
            Verdict::Fail(FetchFailure::NonRetryable { code: c }) if c == code
        ));
    }
}

#[test]
fn refusals_of_all_kinds_count_together() {
    let mut fetch = ChunkFetch::new(by_count(20), 1);
    delay(fetch.judge(status(403), 0, 0));
    delay(fetch.judge(status(503), 0, 0));
    delay(fetch.judge(status(200), 0, 0));
    delay(fetch.judge(status(404), 0, 0));
    assert_eq!(fetch.soft_failures, 3);
    delay(fetch.judge(status(500), 0, 0));
    assert_eq!(
        failure(fetch.judge(status(403), 0, 0)),
        "server returned non-retryable status 403 Forbidden for the range request"
    );
}

#[test]
fn flaky_refusal_recovers() {
    for code in [200u16, 204, 301, 403, 404, 416, 429, 503] {
        let mut fetch = ChunkFetch::new(by_count(1), 65536);
        delay(fetch.judge(status(code), 0, 0));
        assert!(matches!(
            fetch.judge(Attempt::Body { len: 65536 }, 200, 0),
            Verdict::Accept
        ));
    }
}

#[test]
fn refusal_fails_at_once_without_a_budget() {
    let mut fetch = ChunkFetch::new(by_count(0), 1);
    assert_eq!(
        failure(fetch.judge(status(404), 0, 0)),
        "server returned non-retryable status 404 Not Found for the range request"
    );
    let mut fetch = ChunkFetch::new(by_clock(1), 1);
    assert!(matches!(
        fetch.judge(status(404), 1000, 0),
        Verdict::Fail(FetchFailure::NonRetryable { code: 404 })
    ));
}

#[test]
fn retry_after_lengthens_the_wait() {
    let patient = |secs| Attempt::Status {
        code: 429,
        retry_after: Some(secs),
    };
    let mut fetch = ChunkFetch::new(by_count(9), 1);
    assert_eq!(delay(fetch.judge(patient(5), 0, 0)), 5000);
    assert_eq!(delay(fetch.judge(patient(0), 0, 0)), 350);
    assert_eq!(delay(fetch.judge(patient(u64::MAX), 0, 0)), u64::MAX);
    let mut fetch = ChunkFetch::new(by_clock(10), 1);
    assert_eq!(delay(fetch.judge(patient(5), 1000, 0)), 5000);
    assert_eq!(delay(fetch.judge(patient(60), 1000, 0)), 9000);
}

#[test]
fn retry_after_values() {
    let read = |value: &str| parse_retry_after(Some(value.as_bytes()));
    assert_eq!(read(" 120 "), Some(120));
    assert_eq!(read("Wed, 21 Oct 2015 07:28:00 GMT"), None);
    assert_eq!(read(""), None);
    assert_eq!(parse_retry_after(Some(b"12\xff")), None);
    assert_eq!(parse_retry_after(None), None);
}

#[test]
fn transient_statuses() {
    for code in [500u16, 503, 599, 429, 408] {
        assert!(is_retryable_status(code));
    }
    for code in [200u16, 206, 403, 404, 416, 499, 600] {
        assert!(!is_retryable_status(code));
    }
}

#[test]
fn range_headers() {
    assert_eq!(range_header(0, 0), "bytes=0-0");
    assert_eq!(
        range_header(1000, u64::MAX),
        "bytes=1000-18446744073709551615"
    );
    assert!(carries_range(206));
    assert!(!carries_range(200));
}

#[test]
fn cause_messages() {
    assert_eq!(Cause::Status { code: 503 }.message(), "server returned 503 Service Unavailable");
    assert_eq!(
        Cause::TooSlow.message(),
        "throughput stayed below the minimum speed"
    );
}
