//! Frequencies as the `fugit` crate holds them.

use vstd::prelude::*;

verus! {

/// `fugit::Rate`, a frequency held as a raw count of a unit that its two
/// constants fix. Nothing inside it is visible here.
#[verifier::external_type_specification]
#[verifier::external_body]
#[verifier::reject_recursive_types(T)]
pub struct ExRate<T, const NOM: u32, const DENOM: u32>(fugit::Rate<T, NOM, DENOM>);

/// The whole number of kilohertz that a frequency in kilohertz holds.
pub uninterp spec fn kilohertz_of(rate: fugit::KilohertzU32) -> u32;

/// `fugit::Rate::to_kHz` on a rate whose unit is the kilohertz: the number of
/// kilohertz that the rate holds. The conversion from kilohertz to kilohertz
/// multiplies and divides by one, so it cannot overflow.
#[verifier::external_body]
pub(crate) fn to_kilohertz(rate: &fugit::KilohertzU32) -> (khz: u32)
    ensures
        khz == kilohertz_of(*rate),
{
    rate.to_kHz()
}

} // verus!
