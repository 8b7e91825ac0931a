use chatbot::rate_limit::RateLimiter;
use chatbot::retry::{RetryDecision, RetryingTransport, RETRY_COUNT, RETRY_DELAY_SECS};

#[test]
fn limiter_keeps_its_settings() {
    let limiter = RateLimiter::new(3, 300);
    assert_eq!(limiter.limit(), 3);
    assert_eq!(limiter.window(), 300);
}

#[test]
fn excess_requests_in_one_window_are_denied() {
    let mut limiter = RateLimiter::new(3, 300);
    assert!(limiter.try_acquire(7, 1000));
    assert!(limiter.try_acquire(7, 1001));
    assert!(limiter.try_acquire(7, 1299));
    assert!(!limiter.try_acquire(7, 1299));
    assert!(!limiter.try_acquire(7, 1299));
}

#[test]
fn admission_returns_after_the_window() {
    let mut limiter = RateLimiter::new(2, 10);
    assert!(limiter.try_acquire(1, 100));
    assert!(limiter.try_acquire(1, 105));
    assert!(!limiter.try_acquire(1, 109));
    assert!(limiter.try_acquire(1, 110));
    assert!(limiter.try_acquire(1, 111));
    assert!(!limiter.try_acquire(1, 112));
}

#[test]
fn window_is_fixed_not_sliding() {
    let mut limiter = RateLimiter::new(1, 10);
    assert!(limiter.try_acquire(1, 0));
    assert!(!limiter.try_acquire(1, 9));
    // the denied request did not move the window
    assert!(limiter.try_acquire(1, 10));
}

#[test]
fn users_do_not_share_a_window() {
    let mut limiter = RateLimiter::new(1, 100);
    assert!(limiter.try_acquire(1, 0));
    assert!(limiter.try_acquire(2, 1));
    assert!(limiter.try_acquire(-3, 2));
    assert!(!limiter.try_acquire(1, 3));
    assert!(!limiter.try_acquire(2, 3));
}

#[test]
fn first_request_opens_a_window_under_any_limit() {
    let mut limiter = RateLimiter::new(0, 100);
    assert!(limiter.try_acquire(1, 0));
    assert!(!limiter.try_acquire(1, 1));
}

#[test]
fn window_of_no_length_never_runs() {
    let mut limiter = RateLimiter::new(1, 0);
    assert!(limiter.try_acquire(1, 5));
    assert!(limiter.try_acquire(1, 5));
    assert!(limiter.try_acquire(1, 4));
}

#[test]
fn clock_that_reads_earlier_stays_in_the_window() {
    let mut limiter = RateLimiter::new(1, 10);
    assert!(limiter.try_acquire(1, 100));
    assert!(!limiter.try_acquire(1, 50));
}

#[test]
fn success_at_once_is_returned_without_retry() {
    let mut policy = RetryingTransport::new();
    assert_eq!(policy.on_attempt(true), RetryDecision::Return);
    assert_eq!(RetryingTransport::settle(&vec![true]), Some((0, true)));
    assert_eq!(RetryingTransport::settle(&vec![true, false, false]), Some((0, true)));
}

#[test]
fn three_failures_then_success_returns_the_success() {
    let mut policy = RetryingTransport::new();
    assert_eq!(policy.on_attempt(false), RetryDecision::RetryAfter { delay_secs: 2, retry: 1 });
    assert_eq!(policy.on_attempt(false), RetryDecision::RetryAfter { delay_secs: 2, retry: 2 });
    assert_eq!(policy.on_attempt(false), RetryDecision::RetryAfter { delay_secs: 2, retry: 3 });
    assert_eq!(policy.on_attempt(true), RetryDecision::Return);
    assert_eq!(RetryingTransport::settle(&vec![false, false, false, true]), Some((3, true)));
}

#[test]
fn four_failures_give_the_last_error() {
    let mut policy = RetryingTransport::new();
    for retry in 1..=3 {
        assert_eq!(
            policy.on_attempt(false),
            RetryDecision::RetryAfter { delay_secs: RETRY_DELAY_SECS, retry }
        );
    }
    assert_eq!(policy.on_attempt(false), RetryDecision::GiveUp { attempts: 4 });
    assert_eq!(RetryingTransport::settle(&vec![false, false, false, false]), Some((3, false)));
    assert_eq!(
        RetryingTransport::settle(&vec![false, false, false, false, true]),
        Some((3, false))
    );
}

#[test]
fn unsettled_calls_give_nothing() {
    assert_eq!(RetryingTransport::settle(&vec![]), None);
    assert_eq!(RetryingTransport::settle(&vec![false]), None);
    assert_eq!(RetryingTransport::settle(&vec![false, false, false]), None);
}

#[test]
fn success_after_one_failure() {
    assert_eq!(RetryingTransport::settle(&vec![false, true]), Some((1, true)));
    assert_eq!(RETRY_COUNT, 3);
}
