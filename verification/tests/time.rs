use pll::time::{clock_millis, interval_millis, NANOS_PER_MILLI};

#[test]
fn a_millisecond_is_a_million_nanoseconds() {
    assert_eq!(NANOS_PER_MILLI, 1_000_000);
}

#[test]
fn intervals_are_rounded_down() {
    assert_eq!(interval_millis(0), Some(0));
    assert_eq!(interval_millis(999_999), Some(0));
    assert_eq!(interval_millis(1_000_000), Some(1));
    assert_eq!(interval_millis(1_999_999), Some(1));
    assert_eq!(interval_millis(250_000_000), Some(250));
    assert_eq!(interval_millis(2_000_000_000), Some(2000));
    assert_eq!(interval_millis(60_000_000_000), Some(60_000));
}

#[test]
fn intervals_beyond_64_bits_of_milliseconds_are_refused() {
    let most = u64::MAX as u128 * 1_000_000;
    assert_eq!(interval_millis(most), Some(u64::MAX));
    assert_eq!(interval_millis(most + 999_999), Some(u64::MAX));
    assert_eq!(interval_millis(most + 1_000_000), None);
    assert_eq!(interval_millis(u128::MAX), None);
}

#[test]
fn clock_readings_are_rounded_up() {
    assert_eq!(clock_millis(0), 0);
    assert_eq!(clock_millis(1), 1);
    assert_eq!(clock_millis(999_999), 1);
    assert_eq!(clock_millis(1_000_000), 1);
    assert_eq!(clock_millis(1_000_001), 2);
    assert_eq!(clock_millis(60_000_000_000), 60_000);
    assert_eq!(clock_millis(60_000_000_001), 60_001);
}

#[test]
fn clock_readings_stop_at_the_largest() {
    let most = u64::MAX as u128 * 1_000_000;
    assert_eq!(clock_millis(most), u64::MAX);
    assert_eq!(clock_millis(most - 1), u64::MAX);
    assert_eq!(clock_millis(most - 1_000_000), u64::MAX - 1);
    assert_eq!(clock_millis(most + 1), u64::MAX);
    assert_eq!(clock_millis(u128::MAX), u64::MAX);
}

#[test]
fn rounded_clock_passes_a_deadline_when_the_exact_clock_does() {
    for deadline in [0u64, 1, 2, 1000, 60_000] {
        let edge = deadline as u128 * 1_000_000;
        assert!(clock_millis(edge) <= deadline);
        assert!(clock_millis(edge + 1) > deadline);
        if edge > 0 {
            assert!(clock_millis(edge - 1) <= deadline);
        }
    }
}
