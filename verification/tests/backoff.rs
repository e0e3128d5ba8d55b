use pll::backoff::{grow, jitter, Multiplier, JITTER_MS};

fn ratio(numerator: u64, denominator: u64) -> Multiplier {
    Multiplier::new(numerator, denominator).unwrap()
}

fn waits(first: u64, multiplier: &Multiplier, max_wait: u64, count: usize) -> Vec<u64> {
    let mut all = vec![first];
    let mut wait = first;
    for _ in 0..count {
        wait = grow(wait, multiplier, max_wait);
        all.push(wait);
    }
    all
}

#[test]
fn jitter_is_two_milliseconds() {
    assert_eq!(jitter(), 2);
    assert_eq!(JITTER_MS, 2);
}

#[test]
fn multiplier_needs_positive_parts() {
    assert!(Multiplier::new(0, 10).is_none());
    assert!(Multiplier::new(13, 0).is_none());
    assert!(Multiplier::new(0, 0).is_none());
    let m = Multiplier::new(13, 10).unwrap();
    assert_eq!(m.numerator(), 13);
    assert_eq!(m.denominator(), 10);
}

#[test]
fn grow_multiplies_rounds_down_and_adds_jitter() {
    let m = ratio(13, 10);
    assert_eq!(grow(250, &m, 2000), 327);
    assert_eq!(grow(327, &m, 2000), 427);
    assert_eq!(grow(1, &m, 2000), 3);
    assert_eq!(grow(7, &ratio(1, 3), 2000), 4);
}

#[test]
fn grow_is_capped_at_the_longest_wait() {
    let m = ratio(13, 10);
    assert_eq!(grow(1600, &m, 2000), 2000);
    assert_eq!(grow(2000, &m, 2000), 2000);
    assert_eq!(grow(1537, &m, 2000), 2000);
    assert_eq!(grow(1536, &m, 2000), 1998);
}

#[test]
fn grow_reaches_the_cap_exactly() {
    assert_eq!(grow(998, &ratio(2, 1), 1998), 1998);
    assert_eq!(grow(998, &ratio(2, 1), 1997), 1997);
}

#[test]
fn grow_does_not_overflow_on_the_largest_values() {
    let m = ratio(u64::MAX, 1);
    assert_eq!(grow(u64::MAX, &m, u64::MAX), u64::MAX);
    assert_eq!(grow(u64::MAX, &ratio(1, 1), u64::MAX), u64::MAX);
    assert_eq!(grow(u64::MAX - 2, &ratio(1, 1), u64::MAX), u64::MAX);
    assert_eq!(grow(u64::MAX - 3, &ratio(1, 1), u64::MAX), u64::MAX - 1);
    assert_eq!(grow(u64::MAX, &ratio(1, u64::MAX), u64::MAX), 3);
}

#[test]
fn default_settings_give_the_known_waits() {
    let all = waits(250, &ratio(13, 10), 2000, 9);
    assert_eq!(all, vec![250, 327, 427, 557, 726, 945, 1230, 1601, 2000, 2000]);
}

#[test]
fn waits_never_shrink_and_never_exceed_the_cap() {
    for (first, numerator, denominator, max_wait) in
        [(250u64, 13u64, 10u64, 2000u64), (1, 1, 1, 50), (10, 3, 2, 10), (5, 7, 1, 100_000)]
    {
        let all = waits(first, &ratio(numerator, denominator), max_wait, 40);
        for pair in all.windows(2) {
            assert!(pair[0] <= pair[1]);
        }
        for wait in all {
            assert!(wait > 0 && wait <= max_wait);
        }
    }
}

#[test]
fn a_small_multiplier_can_shrink_the_wait() {
    let half = ratio(1, 2);
    assert_eq!(grow(1000, &half, 2000), 502);
    assert_eq!(waits(1000, &half, 2000, 10), vec![1000, 502, 253, 128, 66, 35, 19, 11, 7, 5, 4]);
    assert_eq!(grow(4, &half, 2000), 4);
    assert_eq!(waits(1, &half, 2000, 4), vec![1, 2, 3, 3, 3]);
}

#[test]
fn a_multiplier_of_one_adds_the_jitter_each_time() {
    let all = waits(250, &ratio(1, 1), 261, 8);
    assert_eq!(all, vec![250, 252, 254, 256, 258, 260, 261, 261, 261]);
    let same = waits(250, &ratio(7, 7), 261, 8);
    assert_eq!(same, all);
}
