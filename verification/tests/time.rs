use launch_pad::Duration;

#[test]
fn spans_are_seconds_and_nanoseconds() {
    let span = Duration::from_millis(61_234);
    assert_eq!(span.as_secs(), 61);
    assert_eq!(span.subsec_nanos(), 234_000_000);
    assert_eq!(span.as_millis(), 61_234);
    assert_eq!(Duration::new(61, 234_999_999).as_millis(), 61_234);
    assert_eq!(Duration::from_secs(2), Duration::from_millis(2000));
    assert_eq!(
        Duration::new(u64::MAX, 999_999_999).as_millis(),
        u64::MAX as u128 * 1000 + 999
    );
}

#[test]
fn nanoseconds_are_read_back() {
    let span = Duration::from_nanos(61_000_000_234);
    assert_eq!(span, Duration::new(61, 234));
    assert_eq!(span.as_nanos(), 61_000_000_234);
    let longest = Duration::new(u64::MAX, 999_999_999);
    assert_eq!(Duration::from_nanos(longest.as_nanos()), longest);
}

#[test]
fn differences_saturate() {
    let two = Duration::new(2, 100);
    let one = Duration::new(1, 300);
    assert_eq!(two.saturating_sub(one), Duration::new(0, 999_999_800));
    assert_eq!(one.saturating_sub(two), Duration::from_secs(0));
    assert_eq!(two.saturating_sub(Duration::new(2, 40)), Duration::new(0, 60));
    assert_eq!(
        Duration::new(2, 40).saturating_sub(two),
        Duration::from_secs(0)
    );
}

#[test]
fn order_is_by_length() {
    let short = Duration::new(1, 999_999_999);
    let long = Duration::new(2, 0);
    assert!(long.is_at_least(&short));
    assert!(long.is_at_least(&long));
    assert!(!short.is_at_least(&long));
    assert!(!Duration::new(2, 0).is_at_least(&Duration::new(2, 1)));
    assert!(short < long);
}
