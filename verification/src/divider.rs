//! From a desired output rate to a clock-divider pair.
//!
//! A timer slice divides its reference clock by `integer + fraction / 16`,
//! with an eight-bit integer part and a four-bit fractional part.

use vstd::prelude::*;
use vstd::arithmetic::div_mod::lemma_fundamental_div_mod;

verus! {

/// Largest integer part that the divider register holds.
pub const INTEGER_MAX: u8 = 255;

/// Largest fractional part that the divider register holds.
pub const FRACTION_MAX: u8 = 15;

/// Why a divider pair could not be produced.
#[derive(Clone, Copy, Debug, PartialEq, Eq, Structural)]
pub enum DividerError {
    /// One of the two rates is zero.
    ZeroRate,
    /// The integer part does not fit the register.
    IntegerOverflow,
    /// The fractional part does not fit the register.
    FractionOverflow,
    /// Both parts are zero, which would divide by nothing.
    Degenerate,
}

/// The integer and fractional parts of a clock divider.
#[derive(Clone, Copy, Debug, PartialEq, Eq, Structural)]
pub struct DividerPair {
    integer: u8,
    fraction: u8,
}

/// The truncated ratio of the two rates.
pub open spec fn quotient(reference: nat, desired: nat) -> nat
    recommends
        desired > 0,
{
    reference / desired
}

/// The fractional remainder of the ratio in sixteenths, rounded to the
/// nearest whole step, halves upwards. It lies between 0 and 16.
pub open spec fn rounded_steps(reference: nat, desired: nat) -> nat
    recommends
        desired > 0,
{
    (32 * (reference % desired) + desired) / (2 * desired)
}

/// The fractional part that is programmed: the rounded remainder, held back
/// at the largest value of the register where it would round up to a whole.
pub open spec fn fraction_steps(reference: nat, desired: nat) -> nat
    recommends
        desired > 0,
{
    if rounded_steps(reference, desired) >= 16 {
        15
    } else {
        rounded_steps(reference, desired)
    }
}

/// What `compute` returns for a pair of rates, the pair given as its integer
/// and fractional parts.
pub open spec fn divider_for(reference: nat, desired: nat) -> Result<(nat, nat), DividerError> {
    if reference == 0 || desired == 0 {
        Err(DividerError::ZeroRate)
    } else if quotient(reference, desired) > 255 {
        Err(DividerError::IntegerOverflow)
    } else if quotient(reference, desired) == 0 && fraction_steps(reference, desired) == 0 {
        Err(DividerError::Degenerate)
    } else {
        Ok((quotient(reference, desired), fraction_steps(reference, desired)))
    }
}

/// What `DividerPair::new` returns for two raw register values.
pub open spec fn pair_from_parts(integer: nat, fraction: nat) -> Result<(nat, nat), DividerError> {
    if fraction > 15 {
        Err(DividerError::FractionOverflow)
    } else if integer == 0 && fraction == 0 {
        Err(DividerError::Degenerate)
    } else {
        Ok((integer, fraction))
    }
}

impl DividerPair {
    #[verifier::type_invariant]
    spec fn well_formed(self) -> bool {
        self.fraction <= 15 && (self.integer != 0 || self.fraction != 0)
    }

    /// The integer part, from 0 to 255.
    pub closed spec fn integer_part(self) -> nat {
        self.integer as nat
    }

    /// The fractional part in sixteenths, from 0 to 15.
    pub closed spec fn fraction_part(self) -> nat {
        self.fraction as nat
    }

    /// The whole divider in sixteenths.
    pub open spec fn total_steps(self) -> nat {
        16 * self.integer_part() + self.fraction_part()
    }

    /// Whether this pair has the given parts.
    pub open spec fn has_parts(self, parts: (nat, nat)) -> bool {
        self.integer_part() == parts.0 && self.fraction_part() == parts.1
    }

    /// Builds a pair from raw register values. A fractional part above 15 and
    /// the pair of two zeros are rejected.
    pub fn new(integer: u8, fraction: u8) -> (made: Result<DividerPair, DividerError>)
        ensures
            match pair_from_parts(integer as nat, fraction as nat) {
                Ok(parts) => made.is_ok() && made.unwrap().has_parts(parts),
                Err(e) => made == Err::<DividerPair, DividerError>(e),
            },
    {
        if fraction > FRACTION_MAX {
            Err(DividerError::FractionOverflow)
        } else if integer == 0 && fraction == 0 {
            Err(DividerError::Degenerate)
        } else {
            Ok(DividerPair { integer, fraction })
        }
    }

    /// The integer part.
    pub fn integer(&self) -> (part: u8)
        ensures
            part == self.integer_part(),
    {
        self.integer
    }

    /// The fractional part, in sixteenths.
    pub fn fraction(&self) -> (part: u8)
        ensures
            part == self.fraction_part(),
            part <= 15,
    {
        proof {
            use_type_invariant(self);
        }
        self.fraction
    }

    /// The whole divider in sixteenths. It is never zero.
    pub fn steps(&self) -> (total: u16)
        ensures
            total == self.total_steps(),
            1 <= total <= 4095,
    {
        proof {
            use_type_invariant(self);
        }
        let whole: u16 = self.integer as u16;
        let part: u16 = self.fraction as u16;
        16 * whole + part
    }
}

/// Two pairs with the same parts are the same pair.
pub proof fn lemma_parts_determine_pair(a: DividerPair, b: DividerPair)
    requires
        a.integer_part() == b.integer_part(),
        a.fraction_part() == b.fraction_part(),
    ensures
        a == b,
{
}

/// Computes the divider pair for a desired rate under a reference rate, both
/// in the same unit. The integer part is the truncated ratio; the fractional
/// part is the remainder in sixteenths, rounded to the nearest step and held
/// at 15 where it would round up to a whole.
pub fn compute(reference_rate: u32, desired_rate: u32) -> (made: Result<DividerPair, DividerError>)
    ensures
        match divider_for(reference_rate as nat, desired_rate as nat) {
            Ok(parts) => made.is_ok() && made.unwrap().has_parts(parts),
            Err(e) => made == Err::<DividerPair, DividerError>(e),
        },
{
    if reference_rate == 0 || desired_rate == 0 {
        return Err(DividerError::ZeroRate);
    }
    let whole: u32 = reference_rate / desired_rate;
    if whole > INTEGER_MAX as u32 {
        return Err(DividerError::IntegerOverflow);
    }
    let rest: u64 = (reference_rate % desired_rate) as u64;
    let wide: u64 = desired_rate as u64;
    let rounded: u64 = (32 * rest + wide) / (2 * wide);
    proof {
        lemma_rounded_steps_bound(reference_rate as nat, desired_rate as nat);
    }
    let part: u8 = if rounded >= 16 {
        FRACTION_MAX
    } else {
        rounded as u8
    };
    if whole == 0 && part == 0 {
        return Err(DividerError::Degenerate);
    }
    Ok(DividerPair { integer: whole as u8, fraction: part })
}

/// The rounded remainder never exceeds one whole, and it is the nearest step
/// to sixteen times the remainder of the ratio.
pub proof fn lemma_rounded_steps_bound(reference: nat, desired: nat)
    requires
        desired > 0,
    ensures
        rounded_steps(reference, desired) <= 16,
        2 * desired * rounded_steps(reference, desired) <= 32 * (reference % desired) + desired,
        32 * (reference % desired) + desired < 2 * desired * rounded_steps(reference, desired) + 2
            * desired,
{
    let rest = reference % desired;
    let top = 32 * rest + desired;
    let bottom = 2 * desired;
    let n = top / bottom;
    lemma_fundamental_div_mod(top as int, bottom as int);
    assert(0 <= top % bottom < bottom);
    assert(rest < desired);
    assert(n <= 16) by (nonlinear_arith)
        requires
            top == bottom * n + top % bottom,
            0 <= top % bottom,
            top < 33 * desired,
            bottom == 2 * desired,
            desired > 0,
    ;
}

/// A desired rate that does not exceed the reference, with a ratio that fits
/// the register, always gets a divider. That divider is at least one whole,
/// and the desired rate lies strictly between the rates of the next finer and
/// the next coarser divider: `16 * reference / (steps + 1)` and
/// `16 * reference / (steps - 1)`, compared here without dividing. Where the
/// fractional part was not held back at 15, the divider is the nearest step.
pub proof fn law_rate_within_one_step(reference: nat, desired: nat)
    requires
        0 < desired <= reference,
        quotient(reference, desired) <= 255,
    ensures
        divider_for(reference, desired).is_ok(),
        ({
            let parts = divider_for(reference, desired).unwrap();
            let steps = 16 * parts.0 + parts.1;
            &&& parts.0 == quotient(reference, desired)
            &&& parts.1 <= 15
            &&& steps >= 16
            &&& (steps - 1) * desired < 16 * reference
            &&& 16 * reference < (steps + 1) * desired
            &&& rounded_steps(reference, desired) <= 15 ==> 2 * steps * desired - desired <= 32
                * reference < 2 * steps * desired + desired
        }),
{
    let whole = reference / desired;
    let rest = reference % desired;
    let n = rounded_steps(reference, desired);
    lemma_fundamental_div_mod(reference as int, desired as int);
    lemma_rounded_steps_bound(reference, desired);
    assert(whole >= 1) by (nonlinear_arith)
        requires
            reference == desired * whole + rest,
            rest < desired,
            desired <= reference,
    ;
    let part = fraction_steps(reference, desired);
    let steps = 16 * whole + part;
    assert(16 * reference == 16 * whole * desired + 16 * rest) by (nonlinear_arith)
        requires
            reference == desired * whole + rest,
    ;
    assert(steps * desired == 16 * whole * desired + part * desired) by (nonlinear_arith)
        requires
            steps == 16 * whole + part,
    ;
    let scaled = steps * desired;
    assert((steps - 1) * desired == scaled - desired) by (nonlinear_arith)
        requires
            scaled == steps * desired,
    ;
    assert((steps + 1) * desired == scaled + desired) by (nonlinear_arith)
        requires
            scaled == steps * desired,
    ;
    assert(2 * steps * desired == 2 * scaled) by (nonlinear_arith)
        requires
            scaled == steps * desired,
    ;
    if n >= 16 {
        assert(n == 16);
        assert(2 * desired * n == 32 * desired) by (nonlinear_arith)
            requires
                n == 16,
        ;
        assert(part * desired == 15 * desired) by (nonlinear_arith)
            requires
                part == 15,
        ;
    } else {
        assert(2 * desired * n == 2 * (part * desired)) by (nonlinear_arith)
            requires
                n == part,
        ;
    }
}

/// A desired rate above the reference has the integer part zero. It is
/// refused as degenerate exactly where the fractional part rounds to zero as
/// well, which is where the desired rate is more than 32 times the reference;
/// otherwise the divider holds the fractional part alone.
pub proof fn law_faster_than_reference(reference: nat, desired: nat)
    requires
        0 < reference < desired,
    ensures
        quotient(reference, desired) == 0,
        fraction_steps(reference, desired) == 0 <==> 32 * reference < desired,
        match divider_for(reference, desired) {
            Ok(parts) => parts.0 == 0 && 1 <= parts.1 <= 15 && desired <= 32 * reference,
            Err(e) => e == DividerError::Degenerate && 32 * reference < desired,
        },
{
    let n = rounded_steps(reference, desired);
    vstd::arithmetic::div_mod::lemma_small_mod(reference, desired);
    vstd::arithmetic::div_mod::lemma_basic_div(reference as int, desired as int);
    lemma_rounded_steps_bound(reference, desired);
    assert(n == 0 <==> 32 * reference < desired) by (nonlinear_arith)
        requires
            2 * desired * n <= 32 * reference + desired,
            32 * reference + desired < 2 * desired * n + 2 * desired,
            desired > 0,
    ;
}

} // verus!
