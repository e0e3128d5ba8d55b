//! A multiplier written as a decimal numeral.
//!
//! The numeral is a run of digits with at most one point in it, such as
//! `2`, `1.3`, `.5` or `1.`, in the bytes of a text. Its value is kept
//! exactly, as the digits over a power of ten.

use vstd::prelude::*;
use vstd::string::StringSliceAdditionalSpecFns;
use crate::backoff::{Multiplier, Ratio};

verus! {

/// The byte of the decimal point.
pub const POINT: u8 = 0x2e;

/// The byte of the digit zero; the other digits follow it.
pub const DIGIT_ZERO: u8 = 0x30;

/// The byte is one of the ten digits.
pub open spec fn is_digit(byte: u8) -> bool {
    DIGIT_ZERO <= byte <= DIGIT_ZERO + 9
}

/// Every byte is a digit.
pub open spec fn all_digits(bytes: Seq<u8>) -> bool {
    forall|i: int| 0 <= i < bytes.len() ==> is_digit(#[trigger] bytes[i])
}

/// The number that a run of digits writes; an empty run writes zero.
pub open spec fn digits_value(digits: Seq<u8>) -> nat
    decreases digits.len(),
{
    if digits.len() == 0 {
        0
    } else {
        10 * digits_value(digits.drop_last()) + (digits.last() - DIGIT_ZERO) as nat
    }
}

/// Ten to the power `n`.
pub open spec fn power_of_ten(n: nat) -> nat
    decreases n,
{
    if n == 0 {
        1
    } else {
        10 * power_of_ten((n - 1) as nat)
    }
}

/// Where the first point stands in `text`; the length of `text` where it
/// holds no point.
pub open spec fn point_position(text: Seq<u8>) -> int
    decreases text.len(),
{
    if text.len() == 0 || text[0] == POINT {
        0
    } else {
        1 + point_position(text.drop_first())
    }
}

/// What stands before the first point.
pub open spec fn whole_part(text: Seq<u8>) -> Seq<u8> {
    text.take(point_position(text))
}

/// What stands after the first point; nothing where there is no point.
pub open spec fn fraction_part(text: Seq<u8>) -> Seq<u8> {
    if point_position(text) < text.len() {
        text.skip(point_position(text) + 1)
    } else {
        Seq::empty()
    }
}

/// The digits of the numeral, the point left out.
pub open spec fn numeral_digits(text: Seq<u8>) -> Seq<u8> {
    whole_part(text) + fraction_part(text)
}

/// `text` is a decimal numeral: digits before and after at most one point,
/// and at least one digit in all.
pub open spec fn is_decimal(text: Seq<u8>) -> bool {
    all_digits(whole_part(text)) && all_digits(fraction_part(text)) && numeral_digits(text).len()
        > 0
}

/// The value of a decimal numeral: its digits over ten to the number of
/// digits behind the point.
pub open spec fn decimal_ratio(text: Seq<u8>) -> Ratio {
    Ratio {
        num: digits_value(numeral_digits(text)),
        den: power_of_ten(fraction_part(text).len()),
    }
}

/// The multiplier that `text` writes: the value of the numeral, where
/// `text` is one, the value is not zero, and digits and power of ten each
/// fit in 64 bits.
pub open spec fn multiplier_of(text: Seq<u8>) -> Option<Ratio> {
    if is_decimal(text) && 0 < decimal_ratio(text).num <= u64::MAX && decimal_ratio(text).den
        <= u64::MAX {
        Some(decimal_ratio(text))
    } else {
        None
    }
}

/// The first point stands at `at` where no point stands before `at` and
/// `at` is the end of the text or holds a point.
proof fn lemma_point_found(text: Seq<u8>, at: int)
    requires
        0 <= at <= text.len(),
        forall|j: int| 0 <= j < at ==> text[j] != POINT,
        at < text.len() ==> text[at] == POINT,
    ensures
        point_position(text) == at,
    decreases text.len(),
{
    if at > 0 {
        let rest = text.drop_first();
        assert forall|j: int| 0 <= j < at - 1 implies rest[j] != POINT by {
            assert(rest[j] == text[j + 1]);
        }
        lemma_point_found(rest, at - 1);
    }
}

/// The first point stands within the text or at its end, no point stands
/// before it, and where it stands within the text there is a point.
proof fn lemma_point_position(text: Seq<u8>)
    ensures
        0 <= point_position(text) <= text.len(),
        forall|j: int| 0 <= j < point_position(text) ==> text[j] != POINT,
        point_position(text) < text.len() ==> text[point_position(text)] == POINT,
    decreases text.len(),
{
    if !(text.len() == 0 || text[0] == POINT) {
        let rest = text.drop_first();
        lemma_point_position(rest);
        assert forall|j: int| 0 <= j < point_position(text) implies text[j] != POINT by {
            if j > 0 {
                assert(text[j] == rest[j - 1]);
            }
        }
    }
}

/// A run of digits writes no less than any run it begins with.
proof fn lemma_digits_value_of_prefix(digits: Seq<u8>, length: int)
    requires
        all_digits(digits),
        0 <= length <= digits.len(),
    ensures
        digits_value(digits.take(length)) <= digits_value(digits),
    decreases digits.len(),
{
    if length < digits.len() {
        let shorter = digits.drop_last();
        assert(shorter.take(length) == digits.take(length));
        assert(is_digit(digits.last()));
        lemma_digits_value_of_prefix(shorter, length);
    } else {
        assert(digits.take(length) == digits);
    }
}

/// One more digit: ten times the number so far, and the digit.
proof fn lemma_digits_value_push(digits: Seq<u8>, digit: u8)
    ensures
        digits_value(digits.push(digit)) == 10 * digits_value(digits) + (digit - DIGIT_ZERO) as nat,
{
    assert(digits.push(digit).drop_last() == digits);
}

/// Powers of ten are positive and grow with the exponent.
proof fn lemma_power_of_ten_grows(smaller: nat, larger: nat)
    requires
        smaller <= larger,
    ensures
        0 < power_of_ten(smaller) <= power_of_ten(larger),
    decreases larger,
{
    if smaller < larger {
        lemma_power_of_ten_grows(smaller, (larger - 1) as nat);
    } else if larger > 0 {
        lemma_power_of_ten_grows((smaller - 1) as nat, (larger - 1) as nat);
    }
}

/// Reads a multiplier from a decimal numeral: digits with at most one
/// point among them, nothing else. There is none where the text is no such
/// numeral, where its value is zero, or where its digits or the power of
/// ten under them do not fit in 64 bits.
pub fn parse_multiplier(text: &str) -> (made: Option<Multiplier>)
    ensures
        match made {
            Some(multiplier) => multiplier_of(text.spec_bytes()) == Some(multiplier@),
            None => multiplier_of(text.spec_bytes()) is None,
        },
{
    let bytes = text.as_bytes();
    let ghost all = bytes@;
    let mut numerator: u64 = 0;
    let mut denominator: u64 = 1;
    let mut seen_point = false;
    let mut seen_digit = false;
    let ghost mut point: int = 0;
    let ghost mut whole: Seq<u8> = Seq::empty();
    let ghost mut fraction: Seq<u8> = Seq::empty();
    let mut i: usize = 0;
    proof {
        assert(all.take(0) == whole);
        assert(whole + fraction == Seq::<u8>::empty());
    }
    while i < bytes.len()
        invariant
            all == bytes@,
            all == text.spec_bytes(),
            i <= all.len(),
            !seen_point ==> whole == all.take(i as int) && fraction == Seq::<u8>::empty() && (
            forall|j: int| 0 <= j < i ==> all[j] != POINT),
            seen_point ==> 0 <= point < i && all[point] == POINT && whole == all.take(point)
                && fraction == all.subrange(point + 1, i as int) && (forall|j: int|
                0 <= j < point ==> all[j] != POINT),
            all_digits(whole),
            all_digits(fraction),
            numerator == digits_value(whole + fraction),
            denominator == power_of_ten(fraction.len()),
            seen_digit <==> (whole + fraction).len() > 0,
        decreases all.len() - i,
    {
        let byte = bytes[i];
        let ghost digits = whole + fraction;
        proof {
            lemma_point_position(all);
            if seen_point {
                lemma_point_found(all, point);
                assert(fraction_part(all).take(fraction.len() as int) == fraction);
                assert(fraction_part(all)[fraction.len() as int] == byte);
            } else {
                assert(point_position(all) >= i);
                if byte != POINT {
                    assert(whole_part(all)[i as int] == byte);
                    assert(whole_part(all).take(i as int) == whole);
                }
            }
        }
        if byte == POINT {
            if seen_point {
                return None;
            }
            seen_point = true;
            proof {
                point = i as int;
                assert(whole == all.take(point));
                fraction = Seq::empty();
                assert(fraction == all.subrange(point + 1, i + 1));
            }
        } else if DIGIT_ZERO <= byte && byte <= DIGIT_ZERO + 9 {
            let digit: u64 = (byte - DIGIT_ZERO) as u64;
            proof {
                lemma_digits_value_push(digits, byte);
                if is_decimal(all) {
                    let full = numeral_digits(all);
                    assert(all_digits(full));
                    assert(full.take(digits.len() as int + 1) == digits.push(byte));
                    lemma_digits_value_of_prefix(full, digits.len() as int + 1);
                    if seen_point {
                        lemma_power_of_ten_grows(fraction.len() + 1, fraction_part(all).len());
                    }
                }
            }
            if numerator > (u64::MAX - digit) / 10 {
                return None;
            }
            if seen_point && denominator > u64::MAX / 10 {
                return None;
            }
            numerator = 10 * numerator + digit;
            seen_digit = true;
            if seen_point {
                denominator = 10 * denominator;
                proof {
                    fraction = fraction.push(byte);
                    assert(fraction == all.subrange(point + 1, i + 1));
                }
            } else {
                proof {
                    whole = whole.push(byte);
                    assert(whole == all.take(i + 1));
                }
            }
            proof {
                assert(whole + fraction == digits.push(byte));
            }
        } else {
            return None;
        }
        i = i + 1;
    }
    proof {
        if seen_point {
            lemma_point_found(all, point);
            assert(fraction_part(all) == fraction);
        } else {
            lemma_point_found(all, all.len() as int);
            assert(all.take(all.len() as int) == all);
        }
        lemma_power_of_ten_grows(0, fraction.len());
    }
    if seen_digit {
        Multiplier::new(numerator, denominator)
    } else {
        None
    }
}

} // verus!
