use shorty::rate_limit::{Allowance, RateLimiter};
use shorty::time::{Duration, Instant};

fn secs(n: u64) -> Duration {
    Duration::from_secs(n)
}

fn at(n: u64) -> Instant {
    Instant::at(secs(n))
}

fn is_allowed(verdict: Allowance) -> bool {
    matches!(verdict, Allowance::Allowed)
}

fn retry_after(verdict: Allowance) -> Duration {
    match verdict {
        Allowance::Denied { retry_after } => retry_after,
        Allowance::Allowed => panic!("the request passed"),
    }
}

/// The limit comes back with time: three in a minute, the fourth refused, then open again.
#[test]
fn sliding_window_restores_limit() {
    let window = secs(60);
    let mut limiter = RateLimiter::new(3, window, 100);
    let start: u64 = 1000;

    for _ in 0..3 {
        assert!(is_allowed(limiter.check("ip", at(start))), "the first three have to pass");
    }

    match limiter.check("ip", at(start)) {
        Allowance::Denied { retry_after } => {
            assert!(secs(58).is_shorter(retry_after));
        }
        Allowance::Allowed => panic!("the fourth request has to run into the limit"),
    }

    assert!(
        is_allowed(limiter.check("ip", at(start + 60 + 1))),
        "behind the window the limit has to be restored"
    );
}

/// Memory does not grow without bound: clients that went quiet are removed.
#[test]
fn stale_clients_are_pruned() {
    let window = secs(60);
    let mut limiter = RateLimiter::new(1, window, 60);
    let start: u64 = 1000;

    limiter.check("a", at(start));
    limiter.check("b", at(start));
    assert_eq!(limiter.len(), 2);

    let removed = limiter.remove_expired(at(start + 60 + 1));
    assert_eq!(removed, 2);
    assert_eq!(limiter.len(), 0);
}

/// Clients are independent: one that used up its limit does not block another.
#[test]
fn independent_clients() {
    let mut limiter = RateLimiter::new(2, secs(60), 60);
    let now = at(1000);
    assert!(is_allowed(limiter.check("a", now)));
    assert!(is_allowed(limiter.check("a", now)));
    assert!(matches!(limiter.check("a", now), Allowance::Denied { .. }));
    assert!(is_allowed(limiter.check("b", now)));
    assert!(is_allowed(limiter.check("b", now)));
}

#[test]
fn retry_after_is_the_time_until_the_oldest_leaves() {
    let mut limiter = RateLimiter::new(2, secs(60), 10);
    assert!(is_allowed(limiter.check("a", at(100))));
    assert!(is_allowed(limiter.check("a", at(110))));
    assert_eq!(retry_after(limiter.check("a", at(125))), secs(35));
    // On the edge of the window the oldest request still counts.
    assert_eq!(retry_after(limiter.check("a", at(160))), secs(0));
    assert!(is_allowed(limiter.check("a", Instant::at(Duration::new(160, 1)))));
    assert_eq!(retry_after(limiter.check("a", at(161))), secs(9));
}

#[test]
fn refused_requests_are_not_counted() {
    let mut limiter = RateLimiter::new(1, secs(60), 10);
    assert!(is_allowed(limiter.check("a", at(100))));
    for t in 101..160 {
        assert!(!is_allowed(limiter.check("a", at(t))));
    }
    assert!(is_allowed(limiter.check("a", at(161))));
}

#[test]
fn limit_holds_in_a_window_that_slides() {
    let mut limiter = RateLimiter::new(2, secs(10), 10);
    let mut passed: Vec<u64> = Vec::new();
    for t in 0..60 {
        if is_allowed(limiter.check("a", at(t))) {
            passed.push(t);
        }
    }
    assert_eq!(passed, vec![0, 1, 11, 12, 22, 23, 33, 34, 44, 45, 55, 56]);
    for w in passed.windows(3) {
        assert!(w[2] - w[0] > 10);
    }
}

#[test]
fn full_limiter_displaces_the_oldest_client() {
    let mut limiter = RateLimiter::new(1, secs(60), 2);
    limiter.check("old", at(100));
    limiter.check("young", at(101));
    assert!(is_allowed(limiter.check("new", at(102))));
    assert_eq!(limiter.len(), 2);
    assert!(!is_allowed(limiter.check("young", at(103))));
    assert!(!is_allowed(limiter.check("new", at(103))));
    // The displaced client starts afresh, at the expense of the oldest that is left.
    assert!(is_allowed(limiter.check("old", at(103))));
    assert_eq!(limiter.len(), 2);
    assert!(is_allowed(limiter.check("young", at(104))));
}

#[test]
fn known_client_displaces_nobody() {
    let mut limiter = RateLimiter::new(2, secs(60), 2);
    limiter.check("a", at(100));
    limiter.check("b", at(101));
    limiter.check("b", at(102));
    assert_eq!(limiter.len(), 2);
    assert!(is_allowed(limiter.check("a", at(103))));
    assert!(!is_allowed(limiter.check("a", at(104))));
}

#[test]
fn number_of_clients_stays_bounded() {
    let mut limiter = RateLimiter::new(3, secs(60), 5);
    for i in 0..100u64 {
        let key = format!("client-{i}");
        assert!(is_allowed(limiter.check(&key, at(1000 + i % 7))));
        assert!(limiter.len() <= 5);
    }
}

#[test]
fn zero_limit_lets_nothing_through() {
    let mut limiter = RateLimiter::new(0, secs(60), 10);
    for t in [100, 101, 500] {
        assert_eq!(retry_after(limiter.check("a", at(t))), secs(60));
        assert_eq!(limiter.len(), 0);
    }
}

#[test]
fn zero_clients_pass_uncounted() {
    let mut limiter = RateLimiter::new(1, secs(60), 0);
    for key in ["a", "b", "a", "a"] {
        assert!(is_allowed(limiter.check(key, at(100))));
        assert_eq!(limiter.len(), 0);
    }
    let mut closed = RateLimiter::new(0, secs(60), 0);
    assert_eq!(retry_after(closed.check("a", at(100))), secs(60));
    assert_eq!(closed.len(), 0);
}

#[test]
fn limit_needs_no_order() {
    let mut limiter = RateLimiter::new(3, secs(60), 10);
    let mut passed: usize = 0;
    for t in [130, 100, 160, 120, 110, 140] {
        if is_allowed(limiter.check("a", at(t))) {
            passed += 1;
        }
    }
    assert_eq!(passed, 3);
}

#[test]
fn refusal_means_that_the_limit_is_used_up() {
    let mut limiter = RateLimiter::new(2, secs(10), 10);
    let mut passed: Vec<u64> = Vec::new();
    for t in [0, 3, 7, 10, 11, 12, 14, 20, 30, 30, 30] {
        let used = passed.iter().filter(|&&p| p + 10 >= t).count();
        let allowed = is_allowed(limiter.check("a", at(t)));
        assert_eq!(allowed, used < 2);
        if allowed {
            passed.push(t);
        } else {
            assert_eq!(used, 2);
        }
    }
}

#[test]
fn busy_client_leaves_the_answers_of_another_alone() {
    let mut alone = RateLimiter::new(1, secs(60), 2);
    let mut beside = RateLimiter::new(1, secs(60), 2);
    alone.check("a", at(100));
    beside.check("a", at(100));
    for t in 101..110 {
        beside.check("busy", at(t));
    }
    assert_eq!(retry_after(alone.check("a", at(110))), retry_after(beside.check("a", at(110))));
}

#[test]
fn clients_that_fit_are_not_displaced() {
    let mut limiter = RateLimiter::new(1, secs(60), 3);
    for key in ["a", "b", "c"] {
        assert!(is_allowed(limiter.check(key, at(100))));
    }
    for key in ["a", "b", "c", "a"] {
        assert!(!is_allowed(limiter.check(key, at(160))));
    }
    assert_eq!(limiter.len(), 3);
}

#[test]
fn cleanup_is_invisible() {
    let mut plain = RateLimiter::new(2, secs(60), 10);
    let mut cleaned = RateLimiter::new(2, secs(60), 10);
    for t in [100, 120, 130, 161, 170, 181, 182, 300] {
        cleaned.remove_expired(at(t - 1));
        let left = plain.check("a", at(t));
        let right = cleaned.check("a", at(t));
        match (left, right) {
            (Allowance::Allowed, Allowance::Allowed) => {}
            (Allowance::Denied { retry_after: l }, Allowance::Denied { retry_after: r }) => {
                assert_eq!(l, r)
            }
            _ => panic!("the verdicts differ at {t}"),
        }
    }
}

#[test]
fn cleanup_keeps_what_is_live() {
    let mut limiter = RateLimiter::new(2, secs(60), 10);
    limiter.check("a", at(100));
    limiter.check("b", at(130));
    assert_eq!(limiter.remove_expired(at(160)), 0);
    assert_eq!(limiter.remove_expired(at(161)), 1);
    assert_eq!(limiter.len(), 1);
    assert_eq!(limiter.remove_expired(at(191)), 1);
    assert_eq!(limiter.remove_expired(at(191)), 0);
}

#[test]
fn clock_that_steps_back_waits_a_whole_window() {
    let mut limiter = RateLimiter::new(1, secs(60), 10);
    limiter.check("a", at(100));
    assert_eq!(retry_after(limiter.check("a", at(90))), secs(60));
}

#[test]
fn window_longer_than_the_clock_has_run() {
    let mut limiter = RateLimiter::new(1, Duration::new(u64::MAX, 999_999_999), 10);
    assert!(is_allowed(limiter.check("a", at(0))));
    assert!(!is_allowed(limiter.check("a", at(u64::MAX))));
}

#[test]
fn durations_count_nanoseconds() {
    let d = Duration::new(3, 250_000_000);
    assert_eq!(d.as_secs(), 3);
    assert_eq!(d.subsec_nanos(), 250_000_000);
    assert_eq!(d.saturating_sub(secs(1)), Duration::new(2, 250_000_000));
    assert_eq!(secs(1).saturating_sub(d), secs(0));
    assert_eq!(d.checked_add(Duration::new(0, 750_000_000)), Some(secs(4)));
    assert_eq!(Duration::new(u64::MAX, 999_999_999).checked_add(Duration::new(0, 1)), None);
    assert!(at(1).is_before(at(2)) && !at(2).is_before(at(2)));
    assert_eq!(at(5).saturating_duration_since(at(2)), secs(3));
    assert_eq!(at(2).saturating_duration_since(at(5)), secs(0));
}
