use veea::rate::RateLimiter;

#[test]
fn sliding_window_refuses_fourth_attempt_and_heals() {
    let mut rl = RateLimiter::new(3);
    assert!(rl.try_consume(0));
    assert!(rl.try_consume(10_000));
    assert!(rl.try_consume(20_000));
    // Fourth attempt within the 60 s window is refused.
    assert!(!rl.try_consume(30_000));
    // At t = 61 s the entry from t = 0 has expired.
    assert!(rl.try_consume(61_000));
}

#[test]
fn refusal_does_not_record_the_attempt() {
    let mut rl = RateLimiter::new(1);
    assert!(rl.try_consume(0));
    assert!(!rl.try_consume(1_000));
    assert!(!rl.try_consume(2_000));
    // Only the accepted entry at t = 0 counts; it expires after 60 s.
    assert!(rl.try_consume(60_001));
}

#[test]
fn zero_limit_always_accepts() {
    let mut rl = RateLimiter::new(0);
    for k in 0..100i64 {
        assert!(rl.try_consume(k));
    }
}
