use pll::backoff::{grow, Multiplier};
use pll::decimal::parse_multiplier;

fn parts(text: &str) -> Option<(u64, u64)> {
    parse_multiplier(text).map(|m| (m.numerator(), m.denominator()))
}

#[test]
fn numeral_with_fraction_is_read_exactly() {
    assert_eq!(parts("1.3"), Some((13, 10)));
    assert_eq!(parts("1.30"), Some((130, 100)));
    assert_eq!(parts("12.345"), Some((12345, 1000)));
    assert_eq!(parts("0.5"), Some((5, 10)));
    assert_eq!(parts("0.001"), Some((1, 1000)));
}

#[test]
fn numeral_without_point_is_a_whole_number() {
    assert_eq!(parts("1"), Some((1, 1)));
    assert_eq!(parts("2"), Some((2, 1)));
    assert_eq!(parts("007"), Some((7, 1)));
    assert_eq!(parts("45"), Some((45, 1)));
}

#[test]
fn point_may_stand_first_or_last() {
    assert_eq!(parts(".5"), Some((5, 10)));
    assert_eq!(parts("1."), Some((1, 1)));
    assert_eq!(parts("."), None);
}

#[test]
fn zero_is_no_multiplier() {
    assert_eq!(parts("0"), None);
    assert_eq!(parts("0.0"), None);
    assert_eq!(parts("000.000"), None);
    assert_eq!(parts(".0"), None);
}

#[test]
fn text_that_is_no_numeral_is_refused() {
    assert_eq!(parts(""), None);
    assert_eq!(parts("abc"), None);
    assert_eq!(parts("1.3x"), None);
    assert_eq!(parts("x1.3"), None);
    assert_eq!(parts("1.3.4"), None);
    assert_eq!(parts("1..3"), None);
    assert_eq!(parts("-1.3"), None);
    assert_eq!(parts("+1.3"), None);
    assert_eq!(parts("1e3"), None);
    assert_eq!(parts(" 1.3"), None);
    assert_eq!(parts("1.3 "), None);
    assert_eq!(parts("1,3"), None);
    assert_eq!(parts("1/3"), None);
    assert_eq!(parts("1:3"), None);
    assert_eq!(parts("\u{661}.\u{663}"), None);
}

#[test]
fn largest_digits_that_fit_are_read() {
    assert_eq!(parts("18446744073709551615"), Some((u64::MAX, 1)));
    assert_eq!(parts("1844674407370955161.5"), Some((u64::MAX, 10)));
    assert_eq!(parts("1.8446744073709551615"), Some((u64::MAX, 10_000_000_000_000_000_000)));
    assert_eq!(parts("0000000000000000000000001.5"), Some((15, 10)));
}

#[test]
fn digits_that_do_not_fit_are_refused() {
    assert_eq!(parts("18446744073709551616"), None);
    assert_eq!(parts("1844674407370955161.6"), None);
    assert_eq!(parts("99999999999999999999"), None);
    assert_eq!(parts("100000000000000000000"), None);
    assert_eq!(parts("0.00000000000000000001"), None);
    assert_eq!(parts("1.00000000000000000000"), None);
}

#[test]
fn parsed_default_multiplier_grows_the_default_wait() {
    let m = parse_multiplier("1.3").unwrap();
    assert_eq!(m, Multiplier::new(13, 10).unwrap());
    assert_eq!(grow(250, &m, 2000), 327);
}
