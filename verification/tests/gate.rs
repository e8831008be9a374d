use cassiopeia::middleware::{RateLimiter, TokenBucket, BILLION};

#[test]
fn two_tokens_allow_two_then_deny_then_allow_after_a_second() {
    let mut limiter = RateLimiter::new(2);
    let t0 = 5 * BILLION;
    assert!(limiter.allow("10.0.0.1", t0));
    assert!(limiter.allow("10.0.0.1", t0));
    assert!(!limiter.allow("10.0.0.1", t0));
    assert!(limiter.allow("10.0.0.1", t0 + BILLION));
}

#[test]
fn a_new_client_starts_with_a_full_bucket() {
    let mut limiter = RateLimiter::new(3);
    assert_eq!(limiter.tokens_per_second(), 3);
    assert_eq!(limiter.bucket("a"), None);
    assert!(limiter.allow("a", 100));
    assert_eq!(limiter.bucket("a"), Some(TokenBucket { tokens: 2 * BILLION, last_update: 100 }));
}

#[test]
fn clients_do_not_share_tokens() {
    let mut limiter = RateLimiter::new(1);
    assert!(limiter.allow("a", 0));
    assert!(!limiter.allow("a", 0));
    assert!(limiter.allow("b", 0));
    assert!(!limiter.allow("b", 0));
    assert_eq!(limiter.bucket("a"), Some(TokenBucket { tokens: 0, last_update: 0 }));
}

#[test]
fn a_refill_is_exact_and_capped() {
    let mut limiter = RateLimiter::new(2);
    assert!(limiter.allow("a", 0));
    assert!(limiter.allow("a", 0));
    // A quarter of a second at two tokens a second brings half a token.
    assert!(!limiter.allow("a", 250_000_000));
    assert_eq!(limiter.bucket("a"), Some(TokenBucket { tokens: 500_000_000, last_update: 250_000_000 }));
    // Another quarter brings the rest of the token, which is spent at once.
    assert!(limiter.allow("a", 500_000_000));
    assert_eq!(limiter.bucket("a"), Some(TokenBucket { tokens: 0, last_update: 500_000_000 }));
    // A long wait fills the bucket, and no further.
    assert!(limiter.allow("a", 500_000_000 + 3600 * BILLION));
    assert_eq!(
        limiter.bucket("a"),
        Some(TokenBucket { tokens: BILLION, last_update: 500_000_000 + 3600 * BILLION })
    );
}

#[test]
fn a_clock_that_goes_back_refills_nothing() {
    let mut limiter = RateLimiter::new(1);
    assert!(limiter.allow("a", 10 * BILLION));
    assert!(!limiter.allow("a", 2 * BILLION));
    assert_eq!(limiter.bucket("a"), Some(TokenBucket { tokens: 0, last_update: 2 * BILLION }));
    assert!(limiter.allow("a", 3 * BILLION));
}

#[test]
fn a_rate_of_zero_lets_nothing_through() {
    let mut limiter = RateLimiter::new(0);
    assert!(!limiter.allow("a", 0));
    assert!(!limiter.allow("a", u64::MAX));
}

#[test]
fn the_largest_rate_and_wait_do_not_overflow() {
    let mut limiter = RateLimiter::new(u32::MAX);
    assert!(limiter.allow("a", 0));
    assert!(limiter.allow("a", u64::MAX));
    let bucket = limiter.bucket("a").expect("a bucket");
    assert_eq!(bucket.tokens, (u32::MAX as u64 - 1) * BILLION);
}

#[test]
fn a_burst_is_capped_at_the_rate() {
    let mut limiter = RateLimiter::new(5);
    let allowed: Vec<bool> = (0..8).map(|_| limiter.allow("c", 42)).collect();
    assert_eq!(allowed, vec![true, true, true, true, true, false, false, false]);
}
