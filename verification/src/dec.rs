//! Fixed-point decimal arithmetic.
//!
//! A [`Dec`] stores a non-negative decimal value as an integer count of
//! fractional units, `SCALE` units to one whole. All monetary and rate
//! arithmetic of the engine is done on these units with explicit floor
//! rounding, never on floating point.

use vstd::prelude::*;
use vstd::arithmetic::mul::{lemma_mul_inequality, lemma_mul_upper_bound};
use vstd::arithmetic::div_mod::{lemma_div_is_ordered, lemma_div_multiples_vanish};

verus! {

/// Number of fractional units in one whole: a `Dec` with `units == SCALE`
/// has the value 1.
pub const SCALE: u128 = 1_000_000_000_000_000_000;

/// Upper bound, in units, on every rate-valued decimal the engine accepts
/// (a value of 10). Keeping rates under this cap lets every intermediate
/// product of the engine fit in 128 bits.
pub const RATE_UNITS_CAP: u128 = 10_000_000_000_000_000_000;

/// A non-negative fixed-point decimal with `SCALE` fractional units to one
/// whole; its value is `units / SCALE`.
#[derive(Clone, Copy, Debug, PartialEq, Eq, Structural)]
pub struct Dec {
    pub units: u128,
}

/// Floor of the product of two fixed-point values, in units.
pub open spec fn mul_floor_units(a: int, b: int) -> int {
    (a * b) / (SCALE as int)
}

/// Floor of the quotient `a / b` of an integer amount by a fixed-point
/// value, in integer amount terms.
pub open spec fn div_floor_units(a: int, b: int) -> int {
    (a * (SCALE as int)) / b
}

impl Dec {
    /// The decimal value 0.
    pub fn zero() -> (r: Dec)
        ensures
            r.units == 0,
    {
        Dec { units: 0 }
    }

    /// The decimal value 1.
    pub fn one() -> (r: Dec)
        ensures
            r.units == SCALE,
    {
        Dec { units: SCALE }
    }

    /// A decimal from a raw count of fractional units.
    pub fn from_units(units: u128) -> (r: Dec)
        ensures
            r.units == units,
    {
        Dec { units }
    }

    /// The decimal value `p / 100`.
    pub fn percent(p: u64) -> (r: Dec)
        ensures
            r.units == p * (SCALE / 100),
    {
        proof {
            lemma_mul_inequality(p as int, u64::MAX as int, (SCALE / 100) as int);
        }
        Dec { units: (p as u128) * (SCALE / 100) }
    }

    /// The decimal value `p / 1000`.
    pub fn permille(p: u64) -> (r: Dec)
        ensures
            r.units == p * (SCALE / 1000),
    {
        proof {
            lemma_mul_inequality(p as int, u64::MAX as int, (SCALE / 1000) as int);
        }
        Dec { units: (p as u128) * (SCALE / 1000) }
    }
}

/// Divides an integer amount by a fixed-point rate, rounding down:
/// `amount * SCALE / rate`. Returns `None` exactly when the quotient does
/// not fit in 64 bits.
pub fn amount_div_rate(amount: u64, rate: Dec) -> (r: Option<u64>)
    requires
        0 < rate.units,
    ensures
        match r {
            Some(v) => v == div_floor_units(amount as int, rate.units as int),
            None => div_floor_units(amount as int, rate.units as int) > u64::MAX,
        },
{
    proof {
        lemma_mul_inequality(amount as int, u64::MAX as int, SCALE as int);
    }
    let numerator: u128 = (amount as u128) * SCALE;
    let q: u128 = numerator / rate.units;
    if q > u64::MAX as u128 {
        None
    } else {
        Some(q as u64)
    }
}

/// Multiplies an integer amount by a fixed-point rate, rounding down:
/// `amount * rate / SCALE`. Returns `None` exactly when the product does
/// not fit in 64 bits.
pub fn amount_mul_rate(amount: u64, rate: Dec) -> (r: Option<u64>)
    requires
        rate.units <= RATE_UNITS_CAP,
    ensures
        match r {
            Some(v) => v == mul_floor_units(amount as int, rate.units as int),
            None => mul_floor_units(amount as int, rate.units as int) > u64::MAX,
        },
{
    proof {
        lemma_mul_upper_bound(amount as int, u64::MAX as int, rate.units as int, RATE_UNITS_CAP as int);
    }
    let numerator: u128 = (amount as u128) * rate.units;
    let q: u128 = numerator / SCALE;
    if q > u64::MAX as u128 {
        None
    } else {
        Some(q as u64)
    }
}

/// Floor of the product of two unit counts, `a * b / SCALE`, for the
/// bounded operands of the rate engine.
pub fn units_mul_floor(a: u128, b: u128) -> (r: u128)
    requires
        a <= RATE_UNITS_CAP,
        b <= 2 * SCALE,
    ensures
        r == mul_floor_units(a as int, b as int),
{
    proof {
        lemma_mul_upper_bound(a as int, RATE_UNITS_CAP as int, b as int, 2 * SCALE as int);
    }
    (a * b) / SCALE
}

/// The fraction `numerator / denominator` as a count of fixed-point units,
/// rounded down; at most one whole when the numerator does not exceed the
/// denominator.
pub fn ratio_units(numerator: u64, denominator: u64) -> (r: u128)
    requires
        0 < denominator,
        numerator <= denominator,
    ensures
        r == div_floor_units(numerator as int, denominator as int),
        r <= SCALE,
{
    proof {
        lemma_mul_inequality(numerator as int, u64::MAX as int, SCALE as int);
        lemma_mul_inequality(numerator as int, denominator as int, SCALE as int);
        lemma_div_is_ordered(
            numerator as int * SCALE as int,
            denominator as int * SCALE as int,
            denominator as int,
        );
        lemma_div_multiples_vanish(SCALE as int, denominator as int);
    }
    ((numerator as u128) * SCALE) / (denominator as u128)
}

} // verus!
