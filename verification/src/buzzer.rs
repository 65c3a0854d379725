//! The onboard buzzer: one timer slice and one pin, and the divider that
//! sets its tone.

use vstd::prelude::*;
use crate::divider::{compute, divider_for, pair_from_parts, DividerError, DividerPair};
use crate::rate::{kilohertz_of, to_kilohertz};
use crate::registry::{Claim, Slot};

verus! {

/// Processor clock rate of the board, in kilohertz. The timer slices divide
/// this rate.
pub const CLOCK_RATE_KHZ: u32 = 130_000;

/// The onboard buzzer. It owns its timer slice and its pin until it is
/// destroyed, and remembers the divider it was last set to.
pub struct Buzzer {
    timer: Claim,
    pin: Claim,
    divider: Option<DividerPair>,
}

impl Buzzer {
    #[verifier::type_invariant]
    spec fn well_formed(self) -> bool {
        self.timer@ == Slot::TimerSlice && self.pin@ == Slot::BuzzerPin
    }

    /// The divider that the buzzer was last set to, if any.
    pub closed spec fn programmed(self) -> Option<DividerPair> {
        self.divider
    }

    /// Makes the buzzer from the claims of the timer slice and of the buzzer
    /// pin. Any other pair of claims comes back. No divider is set yet.
    pub fn new(timer: Claim, pin: Claim) -> (made: Result<Buzzer, (Claim, Claim)>)
        ensures
            made.is_ok() == (timer@ == Slot::TimerSlice && pin@ == Slot::BuzzerPin),
            match made {
                Ok(buzzer) => buzzer.programmed().is_none(),
                Err(back) => back == (timer, pin),
            },
    {
        match (timer.slot(), pin.slot()) {
            (Slot::TimerSlice, Slot::BuzzerPin) => Ok(Buzzer { timer, pin, divider: None }),
            _ => Err((timer, pin)),
        }
    }

    /// Sets the tone of the buzzer to a frequency. The divider is computed
    /// against the clock rate of the board and returned for the timer slice;
    /// where none can be computed the buzzer stays as it was.
    pub fn set_frequency(&mut self, frequency: fugit::KilohertzU32) -> (made: Result<
        DividerPair,
        DividerError,
    >)
        ensures
            match divider_for(CLOCK_RATE_KHZ as nat, kilohertz_of(frequency) as nat) {
                Ok(parts) => made.is_ok() && made.unwrap().has_parts(parts)
                    && final(self).programmed() == Some(made.unwrap()),
                Err(e) => made == Err::<DividerPair, DividerError>(e) && final(self).programmed()
                    == old(self).programmed(),
            },
    {
        proof {
            use_type_invariant(&*self);
        }
        let desired: u32 = to_kilohertz(&frequency);
        let made = compute(CLOCK_RATE_KHZ, desired);
        if let Ok(pair) = made {
            self.divider = Some(pair);
        }
        made
    }

    /// Sets the divider of the buzzer from its raw parts: eight integer bits
    /// and four fractional ones. Parts that are no divider are refused and
    /// the buzzer stays as it was.
    pub fn set_frequency_raw(&mut self, div_int: u8, div_frac: u8) -> (made: Result<
        DividerPair,
        DividerError,
    >)
        ensures
            match pair_from_parts(div_int as nat, div_frac as nat) {
                Ok(parts) => made.is_ok() && made.unwrap().has_parts(parts)
                    && final(self).programmed() == Some(made.unwrap()),
                Err(e) => made == Err::<DividerPair, DividerError>(e) && final(self).programmed()
                    == old(self).programmed(),
            },
    {
        proof {
            use_type_invariant(&*self);
        }
        let made = DividerPair::new(div_int, div_frac);
        if let Ok(pair) = made {
            self.divider = Some(pair);
        }
        made
    }

    /// The divider that the buzzer was last set to, if any.
    pub fn divider(&self) -> (last: Option<DividerPair>)
        ensures
            last == self.programmed(),
    {
        self.divider
    }

    /// Consumes the buzzer and yields the claims of its timer slice and of
    /// its pin.
    pub fn destroy(self) -> (back: (Claim, Claim))
        ensures
            back.0@ == Slot::TimerSlice,
            back.1@ == Slot::BuzzerPin,
    {
        proof {
            use_type_invariant(&self);
        }
        (self.timer, self.pin)
    }
}

} // verus!
