use launch_pad::backoff::{backoff_delay, backoff_range, backoff_steps};
use launch_pad::{Duration, ProcessManager, DEFAULT_MAX_BACKOFF_SECS};

fn default_max_backoff() -> Duration {
    Duration::from_secs(DEFAULT_MAX_BACKOFF_SECS)
}

fn delay(base_ms: u64, cap: Duration, restarts: usize) -> Duration {
    ProcessManager::exponential_backoff(Duration::from_millis(base_ms), cap, restarts)
}

/// With a formula of `2^restarts * U(0, base)` and a 10ms base, restart 21 would sleep for three
/// and a half hours, and by restart 30 it would be months.
#[test]
fn is_capped() {
    let cap = default_max_backoff();
    for restarts in [0, 1, 10, 21, 30, 64, 1000, usize::MAX] {
        let d = delay(10, cap, restarts);
        assert!(
            d <= cap,
            "restart {restarts} produced {d:?}, over the {cap:?} cap"
        );
    }
}

/// Absurd inputs clamp instead of overflowing or panicking.
#[test]
fn survives_extreme_inputs() {
    let _ = delay(u64::MAX, Duration::from_millis(u64::MAX), usize::MAX);
    let _ = delay(0, Duration::from_secs(0), 0);
    let _ = delay(1, Duration::from_secs(0), 99);
}

/// An empty range cannot be sampled; a zero base must not lead to one.
#[test]
fn zero_base_does_not_panic() {
    assert_eq!(
        delay(0, default_max_backoff(), 5),
        Duration::from_secs(0)
    );
}

/// Never below the base delay, so a restart storm cannot become a hot loop.
#[test]
fn never_below_base() {
    for restarts in 0..40 {
        assert!(delay(50, default_max_backoff(), restarts) >= Duration::from_millis(50));
    }
}

/// Growth actually happens between the base and the ceiling.
#[test]
fn grows_with_restarts() {
    let cap = Duration::from_secs(600);
    // Jittered, so compare the ceilings a large sample can reach.
    let early = (0..200).map(|_| delay(10, cap, 1)).max().unwrap();
    let late = (0..200).map(|_| delay(10, cap, 12)).max().unwrap();
    assert!(late > early, "expected growth: {early:?} -> {late:?}");
}

#[test]
fn range_doubles_up_to_the_cap() {
    let base = Duration::from_millis(10);
    let cap = Duration::from_millis(100);
    let ranges: Vec<(u128, u128)> = (0..6)
        .map(|n| backoff_range(base, cap, n))
        .map(|(low, high)| (low / 1_000_000, high / 1_000_000))
        .collect();
    assert_eq!(
        ranges,
        vec![(10, 10), (10, 20), (10, 40), (10, 80), (10, 100), (10, 100)]
    );
    let long = Duration::from_secs(600);
    assert_eq!(backoff_range(base, long, 1).1, 20_000_000);
    assert_eq!(backoff_range(base, long, 12).1, 40_960_000_000);
}

#[test]
fn range_is_exact_at_the_edges() {
    let max = Duration::new(u64::MAX, 999_999_999);
    let most = u64::MAX as u128 * 1_000_000_000 + 999_999_999;
    assert_eq!(
        backoff_range(Duration::from_nanos(1), max, 93),
        (1, 1 << 93)
    );
    assert_eq!(backoff_range(Duration::from_nanos(1), max, 94), (1, most));
    assert_eq!(backoff_range(max, max, 0), (most, most));
    assert_eq!(backoff_range(max, max, usize::MAX), (most, most));
    // A cap below the base wins.
    assert_eq!(
        backoff_range(Duration::from_millis(50), Duration::from_millis(20), 3),
        (20_000_000, 20_000_000)
    );
    // Part of a millisecond counts.
    assert_eq!(
        backoff_range(Duration::new(0, 1_999_999), Duration::from_secs(1), 2),
        (1_999_999, 7_999_996)
    );
}

#[test]
fn steps_are_milliseconds() {
    let base = Duration::from_millis(10);
    let cap = Duration::from_millis(100);
    assert_eq!(backoff_steps(base, cap, 0), 0);
    assert_eq!(backoff_steps(base, cap, 2), 30);
    for step in 0..=30 {
        assert_eq!(
            backoff_delay(base, cap, 2, step),
            Duration::from_millis(10 + step)
        );
    }
    assert_eq!(
        backoff_delay(base, cap, 2, u64::MAX),
        Duration::from_millis(40)
    );
}

/// Delays that are possible after few restarts are possible after more.
#[test]
fn possible_delays_stay_possible() {
    let base = Duration::from_millis(3);
    let cap = Duration::from_millis(20);
    let delays = |restarts: usize| -> Vec<Duration> {
        (0..=backoff_steps(base, cap, restarts))
            .map(|step| backoff_delay(base, cap, restarts, step))
            .collect()
    };
    for restarts in 0..5 {
        let later = delays(restarts + 1);
        assert!(delays(restarts).iter().all(|delay| later.contains(delay)));
    }
    assert_eq!(delays(9).len(), 18);
}

/// A base below a millisecond is a base all the same, and it grows.
#[test]
fn short_bases_count() {
    let base = Duration::new(0, 500_000);
    let cap = default_max_backoff();
    assert_eq!(backoff_steps(base, cap, 2), 2);
    let delays: Vec<Duration> = (0..=2)
        .map(|step| backoff_delay(base, cap, 2, step))
        .collect();
    assert_eq!(
        delays,
        vec![
            Duration::new(0, 500_000),
            Duration::new(0, 1_500_000),
            Duration::new(0, 2_000_000)
        ]
    );
    for restarts in 0..40 {
        let delay = ProcessManager::exponential_backoff(base, cap, restarts);
        assert!(delay >= base);
        assert!(delay <= cap);
    }
    // A cap between two milliseconds.
    let base = Duration::new(0, 1_200_000);
    let cap = Duration::new(0, 1_500_000);
    for restarts in 0..40 {
        let delay = ProcessManager::exponential_backoff(base, cap, restarts);
        assert!(delay == base || delay == cap);
    }
}

/// Not even the longest spans there are fall below the base.
#[test]
fn long_bases_count() {
    let max = Duration::new(u64::MAX, 999_999_999);
    assert_eq!(ProcessManager::exponential_backoff(max, max, 7), max);
    assert_eq!(
        backoff_steps(Duration::from_nanos(1), max, usize::MAX),
        u64::MAX
    );
}

#[test]
fn jitter_spreads_over_the_range() {
    let cap = Duration::from_secs(600);
    let drawn: Vec<Duration> = (0..500).map(|_| delay(1, cap, 5)).collect();
    assert!(drawn.iter().all(|d| *d >= Duration::from_millis(1)));
    assert!(drawn.iter().all(|d| *d <= Duration::from_millis(32)));
    assert!(drawn.iter().any(|d| *d != drawn[0]));
    assert!(drawn.iter().any(|d| *d != Duration::from_millis(1)));
    assert!(drawn.iter().any(|d| *d != Duration::from_millis(32)));
}

#[test]
fn no_jitter_without_growth() {
    for _ in 0..50 {
        assert_eq!(
            delay(25, default_max_backoff(), 0),
            Duration::from_millis(25)
        );
        assert_eq!(
            delay(25, Duration::from_millis(7), 9),
            Duration::from_millis(7)
        );
    }
}
