use double_buffered_io::diagnostics::{
    is_excellent_channel_latency, is_excellent_spin_latency, is_high_notify_latency,
    min_and_median, timer_resolution, TimerResolution,
};

#[test]
fn latency_verdicts() {
    assert!(!is_high_notify_latency(10_000_000));
    assert!(is_high_notify_latency(10_000_001));
    assert!(is_excellent_channel_latency(999_999));
    assert!(!is_excellent_channel_latency(1_000_000));
    assert!(is_excellent_spin_latency(9_999));
    assert!(!is_excellent_spin_latency(10_000));
}

#[test]
fn timer_resolution_verdicts() {
    assert_eq!(timer_resolution(10_000_001), TimerResolution::TooCoarse);
    assert_eq!(timer_resolution(10_000_000), TimerResolution::CouldBeBetter);
    assert_eq!(timer_resolution(1_000_001), TimerResolution::CouldBeBetter);
    assert_eq!(timer_resolution(1_000_000), TimerResolution::Good);
    assert_eq!(timer_resolution(120_000), TimerResolution::Good);
}

#[test]
fn min_and_median_of_sorted() {
    assert_eq!(min_and_median(&vec![1, 2, 3, 4, 5]), (1, 3));
    assert_eq!(min_and_median(&vec![5, 9]), (5, 9));
    assert_eq!(min_and_median(&vec![7]), (7, 7));
}
