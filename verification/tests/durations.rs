use robotssh::duration::{Duration, MAX_NANOS, NANOS_PER_SEC};
use std::time::Duration as StdDuration;

fn of_std(span: StdDuration) -> Duration {
    Duration::new(span.as_secs(), span.subsec_nanos())
}

fn samples() -> Vec<StdDuration> {
    vec![
        StdDuration::ZERO,
        StdDuration::new(0, 1),
        StdDuration::new(0, 999_999_999),
        StdDuration::new(1, 0),
        StdDuration::new(15, 7),
        StdDuration::new(600, 123_456_789),
        StdDuration::new(3600, 0),
        StdDuration::new(u64::MAX / 3, 333_333_333),
        StdDuration::MAX,
    ]
}

#[test]
fn parts_are_kept() {
    for span in samples() {
        let ours = of_std(span);
        assert_eq!(ours.as_secs(), span.as_secs());
        assert_eq!(ours.subsec_nanos(), span.subsec_nanos());
        assert_eq!(ours.is_zero(), span.is_zero());
    }
}

#[test]
fn seconds_and_milliseconds() {
    assert_eq!(Duration::from_secs(7), Duration::new(7, 0));
    assert_eq!(Duration::from_millis(20), Duration::new(0, 20_000_000));
    assert_eq!(Duration::from_millis(1500), Duration::new(1, 500_000_000));
    assert_eq!(MAX_NANOS, StdDuration::MAX.as_nanos());
    assert_eq!(NANOS_PER_SEC, StdDuration::from_secs(1).as_nanos());
}

#[test]
fn division_agrees_with_std() {
    for span in samples() {
        for parts in [1u32, 2, 3, 7, 10, 100, u32::MAX] {
            assert_eq!(of_std(span).divide(parts), of_std(span / parts));
        }
    }
    assert_eq!(Duration::from_secs(1).divide(3), Duration::new(0, 333_333_333));
}

#[test]
fn multiplication_agrees_with_std() {
    for span in samples() {
        for times in [0u32, 1, 2, 3, 48, 65_536, u32::MAX] {
            assert_eq!(of_std(span).checked_mul(times), span.checked_mul(times).map(of_std));
        }
    }
    assert_eq!(Duration::new(u64::MAX, 0).checked_mul(2), None);
}

#[test]
fn differences_and_order_agree_with_std() {
    for a in samples() {
        for b in samples() {
            assert_eq!(of_std(a).saturating_sub(of_std(b)), of_std(a.saturating_sub(b)));
            assert_eq!(of_std(a).min(of_std(b)), of_std(a.min(b)));
            assert_eq!(of_std(a).max(of_std(b)), of_std(a.max(b)));
            assert_eq!(of_std(a).at_least(of_std(b)), a >= b);
        }
    }
}
