//! How the wait between two attempts grows.
//!
//! After a failed attempt the wait is multiplied, rounded down to a whole
//! millisecond, raised by a fixed jitter and capped at the longest wait
//! allowed. The multiplier is a ratio of two whole numbers, so the rounding
//! is exact.

use vstd::prelude::*;
use vstd::arithmetic::div_mod::{lemma_div_is_ordered, lemma_div_multiples_vanish};
use vstd::arithmetic::mul::{lemma_mul_inequality, lemma_mul_is_commutative};

verus! {

/// The milliseconds added to every grown wait. The jitter is a constant, not
/// a random number: the same settings always give the same waits.
pub const JITTER_MS: u64 = 2;

/// A multiplier as mathematics sees it: the ratio `num / den`.
pub struct Ratio {
    pub num: nat,
    pub den: nat,
}

impl Ratio {
    /// The ratio is a positive number.
    pub open spec fn positive(self) -> bool {
        self.num > 0 && self.den > 0
    }

    /// The ratio is at least one.
    pub open spec fn at_least_one(self) -> bool {
        self.den > 0 && self.num >= self.den
    }

    /// The ratio is exactly one.
    pub open spec fn is_one(self) -> bool {
        self.den > 0 && self.num == self.den
    }

    /// `amount` times the ratio, rounded down.
    pub open spec fn scale(self, amount: nat) -> nat {
        (amount * self.num) / self.den
    }
}

/// The wait that follows `wait` where no cap applies.
pub open spec fn grown_wait(wait: nat, multiplier: Ratio) -> nat {
    multiplier.scale(wait) + JITTER_MS as nat
}

/// The wait that follows `wait`: the grown wait, capped at `max_wait`.
pub open spec fn next_wait(wait: nat, multiplier: Ratio, max_wait: nat) -> nat {
    if grown_wait(wait, multiplier) <= max_wait {
        grown_wait(wait, multiplier)
    } else {
        max_wait
    }
}

/// The wait after `n` growths, starting from `wait`.
pub open spec fn wait_after(n: nat, wait: nat, multiplier: Ratio, max_wait: nat) -> nat
    decreases n,
{
    if n == 0 {
        wait
    } else {
        next_wait(wait_after((n - 1) as nat, wait, multiplier, max_wait), multiplier, max_wait)
    }
}

/// Settings from which a run may start: a wait that is not zero and not
/// above the cap, and a positive multiplier.
pub open spec fn valid_intervals(wait: nat, multiplier: Ratio, max_wait: nat) -> bool {
    0 < wait <= max_wait && multiplier.positive()
}

/// A positive multiplier, held as numerator and denominator.
#[derive(Debug, Clone, Copy, PartialEq, Eq)]
pub struct Multiplier {
    numerator: u64,
    denominator: u64,
}

impl View for Multiplier {
    type V = Ratio;

    closed spec fn view(&self) -> Ratio {
        Ratio { num: self.numerator as nat, den: self.denominator as nat }
    }
}

impl Multiplier {
    /// What holds of every multiplier: both of its parts are positive.
    #[verifier::type_invariant]
    pub open spec fn well_formed(&self) -> bool {
        self@.positive()
    }

    /// The multiplier `numerator / denominator`, where both are positive;
    /// otherwise there is none.
    pub fn new(numerator: u64, denominator: u64) -> (made: Option<Multiplier>)
        ensures
            made is Some <==> numerator > 0 && denominator > 0,
            made matches Some(m) ==> m@ == (Ratio {
                num: numerator as nat,
                den: denominator as nat,
            }),
    {
        if numerator > 0 && denominator > 0 {
            Some(Multiplier { numerator, denominator })
        } else {
            None
        }
    }

    /// The numerator, which is positive.
    pub fn numerator(&self) -> (n: u64)
        ensures
            n == self@.num,
            n > 0,
    {
        proof {
            use_type_invariant(self);
        }
        self.numerator
    }

    /// The denominator, which is positive.
    pub fn denominator(&self) -> (d: u64)
        ensures
            d == self@.den,
            d > 0,
    {
        proof {
            use_type_invariant(self);
        }
        self.denominator
    }
}

/// The jitter, in milliseconds: the same at every call.
pub fn jitter() -> (j: u64)
    ensures
        j == JITTER_MS,
{
    JITTER_MS
}

/// The wait that follows `wait` under `multiplier`, capped at `max_wait`.
pub fn grow(wait: u64, multiplier: &Multiplier, max_wait: u64) -> (next: u64)
    ensures
        next == next_wait(wait as nat, multiplier@, max_wait as nat),
        next <= max_wait,
{
    let numerator = multiplier.numerator();
    let denominator = multiplier.denominator();
    assert(wait * numerator <= 0xffff_ffff_ffff_ffff * 0xffff_ffff_ffff_ffff) by (nonlinear_arith)
        requires
            wait <= 0xffff_ffff_ffff_ffff,
            numerator <= 0xffff_ffff_ffff_ffff,
    ;
    let product: u128 = (wait as u128) * (numerator as u128);
    let scaled: u128 = product / (denominator as u128);
    assert(scaled <= product) by (nonlinear_arith)
        requires
            scaled == product / (denominator as u128),
            denominator > 0,
    ;
    let grown: u128 = scaled + jitter() as u128;
    if grown <= max_wait as u128 {
        grown as u64
    } else {
        max_wait
    }
}

/// A longer wait never grows into a shorter one.
pub proof fn lemma_next_wait_monotone(shorter: nat, longer: nat, multiplier: Ratio, max_wait: nat)
    requires
        shorter <= longer,
        multiplier.den > 0,
    ensures
        grown_wait(shorter, multiplier) <= grown_wait(longer, multiplier),
        next_wait(shorter, multiplier, max_wait) <= next_wait(longer, multiplier, max_wait),
{
    lemma_mul_inequality(shorter as int, longer as int, multiplier.num as int);
    lemma_div_is_ordered(
        (shorter * multiplier.num) as int,
        (longer * multiplier.num) as int,
        multiplier.den as int,
    );
}

/// Under a multiplier of at least one the grown wait is at least the jitter
/// above the wait it grew from; under a multiplier of exactly one it is that
/// wait plus the jitter.
pub proof fn lemma_multiplier_at_least_one_grows(wait: nat, multiplier: Ratio)
    requires
        multiplier.at_least_one(),
    ensures
        wait + JITTER_MS <= grown_wait(wait, multiplier),
        multiplier.is_one() ==> grown_wait(wait, multiplier) == wait + JITTER_MS,
{
    lemma_mul_is_commutative(wait as int, multiplier.den as int);
    lemma_mul_is_commutative(wait as int, multiplier.num as int);
    lemma_mul_inequality(multiplier.den as int, multiplier.num as int, wait as int);
    lemma_div_multiples_vanish(wait as int, multiplier.den as int);
    lemma_div_is_ordered(
        (wait * multiplier.den) as int,
        (wait * multiplier.num) as int,
        multiplier.den as int,
    );
}

/// No wait exceeds the cap: from valid settings, the wait after any number
/// of growths is at most `max_wait`, and it is never zero.
pub proof fn lemma_waits_never_exceed_max(n: nat, wait: nat, multiplier: Ratio, max_wait: nat)
    requires
        valid_intervals(wait, multiplier, max_wait),
    ensures
        0 < wait_after(n, wait, multiplier, max_wait) <= max_wait,
    decreases n,
{
    if n > 0 {
        lemma_waits_never_exceed_max((n - 1) as nat, wait, multiplier, max_wait);
    }
}

/// The waits never shrink, provided the first growth does not: from valid
/// settings whose grown wait is not below the first wait, the wait after
/// `earlier` growths is at most the wait after `later` growths.
pub proof fn lemma_waits_non_decreasing(
    earlier: nat,
    later: nat,
    wait: nat,
    multiplier: Ratio,
    max_wait: nat,
)
    requires
        valid_intervals(wait, multiplier, max_wait),
        wait <= grown_wait(wait, multiplier),
        earlier <= later,
    ensures
        wait_after(earlier, wait, multiplier, max_wait) <= wait_after(
            later,
            wait,
            multiplier,
            max_wait,
        ),
    decreases later,
{
    if earlier < later {
        lemma_waits_step_up((later - 1) as nat, wait, multiplier, max_wait);
        lemma_waits_non_decreasing(earlier, (later - 1) as nat, wait, multiplier, max_wait);
    }
}

/// One step of the law above: growth number `n + 1` does not shorten the
/// wait.
proof fn lemma_waits_step_up(n: nat, wait: nat, multiplier: Ratio, max_wait: nat)
    requires
        valid_intervals(wait, multiplier, max_wait),
        wait <= grown_wait(wait, multiplier),
    ensures
        wait_after(n, wait, multiplier, max_wait) <= wait_after(
            n + 1,
            wait,
            multiplier,
            max_wait,
        ),
    decreases n,
{
    if n > 0 {
        lemma_waits_step_up((n - 1) as nat, wait, multiplier, max_wait);
        lemma_next_wait_monotone(
            wait_after((n - 1) as nat, wait, multiplier, max_wait),
            wait_after(n, wait, multiplier, max_wait),
            multiplier,
            max_wait,
        );
    }
}

/// Where the first growth shortens the wait, the waits do shrink: the
/// condition of the law above leaves out exactly the settings on which it
/// fails.
pub proof fn lemma_waits_shrink_when_first_growth_does(
    wait: nat,
    multiplier: Ratio,
    max_wait: nat,
)
    requires
        valid_intervals(wait, multiplier, max_wait),
        grown_wait(wait, multiplier) < wait,
    ensures
        wait_after(1, wait, multiplier, max_wait) < wait_after(0, wait, multiplier, max_wait),
{
    reveal_with_fuel(wait_after, 2);
}

/// Under a multiplier of at least one the waits never shrink.
pub proof fn lemma_waits_non_decreasing_from_one(
    earlier: nat,
    later: nat,
    wait: nat,
    multiplier: Ratio,
    max_wait: nat,
)
    requires
        valid_intervals(wait, multiplier, max_wait),
        multiplier.at_least_one(),
        earlier <= later,
    ensures
        wait_after(earlier, wait, multiplier, max_wait) <= wait_after(
            later,
            wait,
            multiplier,
            max_wait,
        ),
{
    lemma_multiplier_at_least_one_grows(wait, multiplier);
    lemma_waits_non_decreasing(earlier, later, wait, multiplier, max_wait);
}

/// Under a multiplier of exactly one, each growth adds the jitter until the
/// cap is reached: the wait after `n` growths is the first wait plus `n`
/// times the jitter, or the cap where that is less.
pub proof fn lemma_unit_multiplier_adds_jitter(n: nat, wait: nat, multiplier: Ratio, max_wait: nat)
    requires
        valid_intervals(wait, multiplier, max_wait),
        multiplier.is_one(),
    ensures
        wait_after(n, wait, multiplier, max_wait) == if wait + n * JITTER_MS <= max_wait {
            wait + n * JITTER_MS
        } else {
            max_wait as int
        },
    decreases n,
{
    if n > 0 {
        let before = wait_after((n - 1) as nat, wait, multiplier, max_wait);
        lemma_unit_multiplier_adds_jitter((n - 1) as nat, wait, multiplier, max_wait);
        lemma_multiplier_at_least_one_grows(before, multiplier);
        assert(n * JITTER_MS == (n - 1) * JITTER_MS + JITTER_MS) by (nonlinear_arith);
    }
}

} // verus!
