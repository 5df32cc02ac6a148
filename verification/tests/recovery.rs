use tt_spotify_bot::spotify::recovery::{
    delay_before_attempt, resume_seek_ms, RecoveryGuard, MAX_ATTEMPTS, RECOVERY_BACKOFF,
};

#[test]
fn backoff_schedule_matches_spec() {
    assert_eq!(
        RECOVERY_BACKOFF,
        [
            2,
            5,
            15,
            45,
            90,
        ]
    );
}

#[test]
fn max_attempts_is_schedule_length() {
    assert_eq!(MAX_ATTEMPTS, 5);
}

#[test]
fn delay_before_each_attempt_then_give_up() {
    assert_eq!(delay_before_attempt(0), Some(2));
    assert_eq!(delay_before_attempt(1), Some(5));
    assert_eq!(delay_before_attempt(2), Some(15));
    assert_eq!(delay_before_attempt(3), Some(45));
    assert_eq!(delay_before_attempt(4), Some(90));
    // Attempt index 5 exceeds the cap -> give up.
    assert_eq!(delay_before_attempt(5), None);
    assert_eq!(delay_before_attempt(100), None);
}

#[test]
fn guard_is_single_flight() {
    let mut g = RecoveryGuard::new();
    assert!(!g.is_active());
    assert!(g.try_begin(), "first caller wins");
    assert!(g.is_active());
    assert!(!g.try_begin(), "second concurrent caller is rejected");
    assert!(!g.try_begin());
    g.finish();
    assert!(!g.is_active());
    assert!(g.try_begin(), "after finish a new cycle can begin");
}

#[test]
fn resume_seek_rewinds_but_never_underflows() {
    assert_eq!(resume_seek_ms(60_000), 58_000);
    assert_eq!(resume_seek_ms(2_000), 0);
    assert_eq!(resume_seek_ms(500), 0); // saturating, no underflow panic
    assert_eq!(resume_seek_ms(0), 0);
}

#[test]
fn driver_sequence_is_five_bounded_attempts() {
    let mut delays = Vec::new();
    let mut attempt = 0;
    while let Some(d) = delay_before_attempt(attempt) {
        delays.push(d);
        attempt += 1;
    }
    assert_eq!(delays.len(), MAX_ATTEMPTS);
    assert_eq!(delays.last(), Some(&90));
}
