use jobqueue::retry::{exponential_backoff, Backoff, Decision, RetryPolicy};

#[test]
fn fixed_backoff_retries_until_max_attempts() {
    let p = RetryPolicy { max_attempts: 3, backoff: Backoff::Fixed { delay: 30 } };
    assert_eq!(p.decide(1), Decision::Retry { delay: 30 });
    assert_eq!(p.decide(2), Decision::Retry { delay: 30 });
    assert_eq!(p.decide(3), Decision::GiveUp);
    assert_eq!(p.decide(4), Decision::GiveUp);
}

#[test]
fn exponential_backoff_doubles_and_caps() {
    let p = RetryPolicy { max_attempts: 10, backoff: Backoff::Exponential { base: 2, cap: 60 } };
    assert_eq!(p.decide(1), Decision::Retry { delay: 2 });
    assert_eq!(p.decide(2), Decision::Retry { delay: 4 });
    assert_eq!(p.decide(3), Decision::Retry { delay: 8 });
    assert_eq!(p.decide(5), Decision::Retry { delay: 32 });
    assert_eq!(p.decide(6), Decision::Retry { delay: 60 });
    assert_eq!(p.decide(9), Decision::Retry { delay: 60 });
    assert_eq!(p.decide(10), Decision::GiveUp);
}

#[test]
fn exponential_backoff_edges() {
    assert_eq!(exponential_backoff(5, 100, 0), 5);
    assert_eq!(exponential_backoff(0, 100, 50), 0);
    assert_eq!(exponential_backoff(7, 0, 3), 0);
    assert_eq!(exponential_backoff(u64::MAX, u64::MAX, 3), u64::MAX);
    assert_eq!(exponential_backoff(1, u64::MAX, u64::MAX), u64::MAX);
    assert_eq!(exponential_backoff(1, u64::MAX, 64), 1u64 << 63);
}
