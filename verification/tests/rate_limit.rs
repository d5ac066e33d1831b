use slatedb_cache::rate_limit::UploadRateLimiter;
use slatedb_cache::time::Span;
use slatedb_cache::time::Timestamp;
use slatedb_cache::time::MAX_SECS;

const NANOS: u64 = 1_000_000_000;

fn at(nanos: u64) -> Timestamp {
    Timestamp {
        secs: (nanos / NANOS) as i64,
        nanos: (nanos % NANOS) as u32,
    }
}

fn cost(bytes: u64, bytes_per_sec: f64) -> Span {
    let cost = std::time::Duration::from_secs_f64(bytes as f64 / bytes_per_sec);
    Span {
        secs: cost.as_secs(),
        nanos: cost.subsec_nanos(),
    }
}

fn span(secs: u64, nanos: u32) -> Span {
    Span { secs, nanos }
}

/// Sleeps on a clock that only moves when someone sleeps.
fn sleep(now: &mut u64, wait: Option<Span>) {
    if let Some(wait) = wait {
        *now += wait.secs * NANOS + wait.nanos as u64;
    }
}

#[test]
fn test_acquire_paces_sequential_claims() {
    let mut now = 5 * NANOS;
    let mut limiter = UploadRateLimiter::new(at(now)); // 1 MiB/s
    let t0 = now;
    for _ in 0..3 {
        let wait = limiter.acquire(at(now), cost(1048576, 1048576.0));
        sleep(&mut now, wait);
    }
    // The third claim starts once the first two have used 2s of budget; the
    // idle first claim starts immediately.
    assert_eq!((now - t0) / NANOS, 2);
}

#[test]
fn test_acquire_bounds_concurrent_uploads() {
    let now = 5 * NANOS;
    let mut limiter = UploadRateLimiter::new(at(now)); // 10 MiB/s
    let waits: Vec<Option<Span>> = (0..5)
        .map(|_| limiter.acquire(at(now), cost(10 * 1048576, 10.0 * 1048576.0)))
        .collect();
    // 5 x 10 MiB at 10 MiB/s: the last claim is scheduled 4s in.
    assert_eq!(waits[0], None);
    assert_eq!(waits[4], Some(span(4, 0)));
}

#[test]
fn test_acquire_idle_admits_immediately() {
    let mut limiter = UploadRateLimiter::new(at(NANOS));
    assert_eq!(limiter.acquire(at(NANOS), cost(1024, 1048576.0)), None);
}

#[test]
fn idle_time_earns_no_credit() {
    let mut limiter = UploadRateLimiter::new(at(0));
    assert_eq!(limiter.acquire(at(100 * NANOS), span(3, 500_000_000)), None);
    assert_eq!(
        limiter.acquire(at(101 * NANOS), span(0, 600_000_000)),
        Some(span(2, 500_000_000))
    );
    assert_eq!(
        limiter.acquire(at(104 * NANOS + 1), span(1, 0)),
        Some(span(0, 99_999_999))
    );
    assert_eq!(limiter.acquire(at(200 * NANOS), span(1, 0)), None);
}

#[test]
fn a_clock_that_goes_back_waits_longer() {
    let mut limiter = UploadRateLimiter::new(at(50 * NANOS));
    assert_eq!(limiter.acquire(at(20 * NANOS), span(0, 1)), Some(span(30, 0)));
    assert_eq!(limiter.acquire(at(50 * NANOS + 1), span(0, 0)), None);
}

#[test]
fn a_cost_beyond_representation_takes_all_time() {
    let start = at(NANOS);
    let rest = span((MAX_SECS - 1) as u64, 999_999_999);
    for cost in [
        span(u64::MAX, 0),
        span(9_223_372_036_854_775, 807_000_001),
        span(9_223_372_036_854_775, 807_000_000),
        cost(10_000_000_000_000_000, 1.0),
    ] {
        let mut limiter = UploadRateLimiter::new(start);
        assert_eq!(limiter.acquire(start, cost), None);
        // The earlier claim uses the whole budget: the next one must wait.
        assert_eq!(limiter.acquire(start, span(1, 0)), Some(rest));
        assert_eq!(limiter.acquire(start, span(0, 0)), Some(rest));
    }
}

#[test]
fn the_schedule_can_reach_the_last_nanosecond() {
    let end = Timestamp::last();
    let start = Timestamp {
        secs: MAX_SECS - 1,
        nanos: 999_999_998,
    };
    assert_eq!(
        chrono::DateTime::<chrono::Utc>::MAX_UTC.timestamp(),
        MAX_SECS
    );
    assert_eq!(
        chrono::DateTime::<chrono::Utc>::MIN_UTC.timestamp(),
        slatedb_cache::time::MIN_SECS
    );
    assert_eq!(end.secs, MAX_SECS);
    assert_eq!(end.nanos, 999_999_999);
    let mut limiter = UploadRateLimiter::new(start);
    assert_eq!(limiter.acquire(start, span(1, 0)), None);
    assert_eq!(limiter.acquire(start, span(0, 1)), Some(span(1, 0)));
    assert_eq!(limiter.acquire(start, span(0, 1)), Some(span(1, 1)));
    assert_eq!(limiter.acquire(start, span(0, 0)), Some(span(1, 1)));
    assert_eq!(limiter.acquire(end, span(5, 0)), None);
}

#[test]
fn timestamps_are_checked_and_ordered() {
    assert!(at(7).is_valid());
    assert!(!Timestamp { secs: 0, nanos: 1_000_000_000 }.is_valid());
    assert!(!Timestamp { secs: MAX_SECS + 1, nanos: 0 }.is_valid());
    assert!(!Timestamp { secs: i64::MIN, nanos: 0 }.is_valid());
    assert_eq!(at(7).max(at(8)), at(8));
    assert_eq!(at(NANOS).max(at(8)), at(NANOS));
    let before = Timestamp { secs: -1, nanos: 5 };
    let mut limiter = UploadRateLimiter::new(at(2));
    assert_eq!(limiter.acquire(before, span(0, 0)), Some(span(0, 999_999_997)));
    assert!(span(0, 0).is_zero());
    assert!(!span(0, 1).is_zero());
}
