//! Whole milliseconds from nanoseconds.
//!
//! The engine counts in whole milliseconds. A wait given in nanoseconds is
//! rounded down, as it is when it grows; a clock reading is rounded up, so
//! that a reading is past a deadline on the millisecond clock exactly when
//! it is past it on the nanosecond clock.

use vstd::prelude::*;

verus! {

/// The nanoseconds in one millisecond.
pub const NANOS_PER_MILLI: u128 = 1_000_000;

/// The whole milliseconds in `nanos` nanoseconds.
pub open spec fn floor_millis(nanos: nat) -> nat {
    nanos / (NANOS_PER_MILLI as nat)
}

/// The milliseconds that cover `nanos` nanoseconds: the least number of
/// whole milliseconds that is not shorter.
pub open spec fn ceil_millis(nanos: nat) -> nat {
    if nanos % (NANOS_PER_MILLI as nat) == 0 {
        floor_millis(nanos)
    } else {
        floor_millis(nanos) + 1
    }
}

/// A wait of `nanos` nanoseconds in whole milliseconds, rounded down; none
/// where the milliseconds do not fit in 64 bits.
pub fn interval_millis(nanos: u128) -> (millis: Option<u64>)
    ensures
        millis is Some <==> floor_millis(nanos as nat) <= u64::MAX,
        millis matches Some(m) ==> m == floor_millis(nanos as nat),
{
    let whole: u128 = nanos / NANOS_PER_MILLI;
    if whole <= u64::MAX as u128 {
        Some(whole as u64)
    } else {
        None
    }
}

/// The clock reading, in milliseconds, for `elapsed_nanos` nanoseconds on
/// the clock: rounded up, and the largest reading there is where the
/// milliseconds do not fit in 64 bits.
pub fn clock_millis(elapsed_nanos: u128) -> (clock: u64)
    ensures
        clock == if ceil_millis(elapsed_nanos as nat) <= u64::MAX {
            ceil_millis(elapsed_nanos as nat)
        } else {
            u64::MAX as nat
        },
{
    let whole: u128 = elapsed_nanos / NANOS_PER_MILLI;
    let covered: u128 = if elapsed_nanos % NANOS_PER_MILLI == 0 {
        whole
    } else {
        whole + 1
    };
    if covered <= u64::MAX as u128 {
        covered as u64
    } else {
        u64::MAX
    }
}

/// Rounding the clock up keeps the deadline where it is: the reading for
/// `elapsed_nanos` is past a deadline of `deadline` milliseconds exactly
/// when more than that many milliseconds have elapsed.
pub proof fn lemma_rounded_clock_keeps_deadline(elapsed_nanos: nat, deadline: nat)
    ensures
        ceil_millis(elapsed_nanos) > deadline <==> elapsed_nanos > deadline * NANOS_PER_MILLI,
        ceil_millis(deadline * NANOS_PER_MILLI as nat) == deadline,
        floor_millis(deadline * NANOS_PER_MILLI as nat) == deadline,
{
    assert(elapsed_nanos == 1_000_000 * (elapsed_nanos / 1_000_000) + elapsed_nanos % 1_000_000);
    assert((deadline * 1_000_000) / 1_000_000 == deadline);
    assert((deadline * 1_000_000) % 1_000_000 == 0);
}

} // verus!
