use lobby::liveness::{classify, Liveness};

#[test]
fn fresh_just_under_ten_seconds() {
    assert_eq!(classify(9_900, Some(0)), Liveness::Fresh);
}

#[test]
fn stale_just_over_ten_seconds() {
    assert_eq!(classify(10_100, Some(0)), Liveness::Stale);
}

#[test]
fn stale_just_under_two_minutes() {
    assert_eq!(classify(119_900, Some(0)), Liveness::Stale);
}

#[test]
fn lost_just_over_two_minutes() {
    assert_eq!(classify(120_100, Some(0)), Liveness::Lost);
}

#[test]
fn exact_boundaries_are_exclusive() {
    // age < 10s is fresh, so exactly 10s is already stale;
    // age < 120s is stale, so exactly 120s is already lost.
    assert_eq!(classify(10_000, Some(0)), Liveness::Stale);
    assert_eq!(classify(120_000, Some(0)), Liveness::Lost);
    assert_eq!(classify(9_999, Some(0)), Liveness::Fresh);
    assert_eq!(classify(119_999, Some(0)), Liveness::Stale);
}

#[test]
fn no_heartbeat_is_lost() {
    assert_eq!(classify(0, None), Liveness::Lost);
    assert_eq!(classify(i64::MAX, None), Liveness::Lost);
}

#[test]
fn heartbeat_from_the_future_is_fresh() {
    assert_eq!(classify(100, Some(5_000)), Liveness::Fresh);
}

#[test]
fn classification_works_at_realistic_epoch_times() {
    let now: i64 = 1_700_000_000_000;
    assert_eq!(classify(now, Some(now - 500)), Liveness::Fresh);
    assert_eq!(classify(now, Some(now - 60_000)), Liveness::Stale);
    assert_eq!(classify(now, Some(now - 600_000)), Liveness::Lost);
}
