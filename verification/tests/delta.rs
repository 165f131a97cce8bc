use monitor_app::delta::{delta, megabits_per_second, CounterPair, DeltaTracker};
use monitor_app::sample::Sample;

#[test]
fn delta_of_growing_counters_is_the_difference() {
    let prev = CounterPair { rx: 100, tx: 50 };
    let curr = CounterPair { rx: 180, tx: 70 };
    assert_eq!(delta(prev, curr), (80, 20));
}

#[test]
fn rate_of_eighty_bytes_is_640_millionths_of_a_megabit() {
    let rate = megabits_per_second(80);
    assert_eq!(rate, Sample::from_micros(640));
    let as_float = rate.micros() as f64 / 1_000_000.0;
    assert!((as_float - 0.00064).abs() < 1e-12);
}

#[test]
fn rate_of_one_megabyte_is_eight_megabits() {
    assert_eq!(megabits_per_second(1_000_000).micros(), 8_000_000);
    assert_eq!(megabits_per_second(0).micros(), 0);
    assert_eq!(megabits_per_second(125_000).micros(), 1_000_000);
}

#[test]
fn rate_saturates_at_the_largest_sample() {
    assert_eq!(megabits_per_second(u64::MAX).micros(), i64::MAX);
    assert_eq!(megabits_per_second(1u64 << 60).micros(), i64::MAX);
    assert_eq!(megabits_per_second((1u64 << 60) - 1).micros(), i64::MAX - 7);
}

#[test]
fn delta_of_equal_counters_is_zero() {
    let c = CounterPair { rx: 7, tx: 9 };
    assert_eq!(delta(c, c), (0, 0));
}

#[test]
fn delta_saturates_at_zero_when_a_counter_resets() {
    let prev = CounterPair { rx: 1_000, tx: 500 };
    let curr = CounterPair { rx: 10, tx: 700 };
    assert_eq!(delta(prev, curr), (0, 200));
    let both = CounterPair { rx: 0, tx: 0 };
    assert_eq!(delta(prev, both), (0, 0));
}

#[test]
fn delta_handles_extreme_counters() {
    let low = CounterPair { rx: 0, tx: 0 };
    let high = CounterPair { rx: u64::MAX, tx: u64::MAX };
    assert_eq!(delta(low, high), (u64::MAX, u64::MAX));
    assert_eq!(delta(high, low), (0, 0));
}

#[test]
fn tracker_replaces_previous_after_each_use() {
    let mut t = DeltaTracker::new(CounterPair { rx: 100, tx: 50 });
    assert_eq!(t.previous(), CounterPair { rx: 100, tx: 50 });
    assert_eq!(t.advance(CounterPair { rx: 180, tx: 70 }), (80, 20));
    assert_eq!(t.previous(), CounterPair { rx: 180, tx: 70 });
    assert_eq!(t.advance(CounterPair { rx: 200, tx: 70 }), (20, 0));
    assert_eq!(t.previous(), CounterPair { rx: 200, tx: 70 });
}

#[test]
fn tracker_recovers_after_a_reset() {
    let mut t = DeltaTracker::new(CounterPair { rx: 500, tx: 500 });
    assert_eq!(t.advance(CounterPair { rx: 5, tx: 600 }), (0, 100));
    assert_eq!(t.advance(CounterPair { rx: 25, tx: 650 }), (20, 50));
}

#[test]
fn deltas_of_consecutive_intervals_add_up() {
    let a = CounterPair { rx: 10, tx: 1 };
    let b = CounterPair { rx: 25, tx: 4 };
    let c = CounterPair { rx: 90, tx: 4 };
    let ab = delta(a, b);
    let bc = delta(b, c);
    let ac = delta(a, c);
    assert_eq!((ab.0 + bc.0, ab.1 + bc.1), ac);
}
