//! One-time acquisition of the board's peripherals, and one-time extraction
//! of each of their parts.
//!
//! The hardware can be claimed once. A `Registry` stands for the board before
//! and after that claim; the `PeripheralSet` it gives out holds one slot per
//! part, and each slot is given out once, as a `Claim` that cannot be copied.

use vstd::prelude::*;

verus! {

/// A named part of the board.
#[derive(Clone, Copy, Debug, PartialEq, Eq, Structural)]
pub enum Slot {
    Gpio0,
    Gpio1,
    Gpio2,
    Gpio3,
    Gpio4,
    Gpio26,
    Gpio27,
    Gpio28,
    Gpio29,
    /// The pin wired to the buzzer.
    BuzzerPin,
    /// The data line of the two-wire bus.
    BusData,
    /// The clock line of the two-wire bus.
    BusClock,
    /// The controller of the two-wire bus.
    BusController,
    /// The timer slice that drives the buzzer.
    TimerSlice,
    /// The altimeter on the two-wire bus.
    Altimeter,
}

/// Number of slots in a `PeripheralSet`.
pub const SLOT_COUNT: usize = 15;

/// Why a claim was refused. Neither kind can be retried with success.
#[derive(Clone, Copy, Debug, PartialEq, Eq, Structural)]
pub enum ClaimError {
    /// The peripherals were acquired before.
    AlreadyAcquired,
    /// The slot was extracted before.
    AlreadyTaken,
}

/// Ownership of one slot. There is no way to copy one.
#[derive(Debug, PartialEq, Eq, Structural)]
pub struct Claim {
    slot: Slot,
}

/// The board's peripherals as a claimable whole.
#[derive(Debug)]
pub struct Registry {
    acquired: bool,
}

/// Every peripheral of the board, each to be extracted once.
#[derive(Debug)]
pub struct PeripheralSet {
    flags: Vec<bool>,
}

impl Slot {
    /// The place of the slot among all slots, from 0.
    pub open spec fn position(self) -> nat {
        match self {
            Slot::Gpio0 => 0,
            Slot::Gpio1 => 1,
            Slot::Gpio2 => 2,
            Slot::Gpio3 => 3,
            Slot::Gpio4 => 4,
            Slot::Gpio26 => 5,
            Slot::Gpio27 => 6,
            Slot::Gpio28 => 7,
            Slot::Gpio29 => 8,
            Slot::BuzzerPin => 9,
            Slot::BusData => 10,
            Slot::BusClock => 11,
            Slot::BusController => 12,
            Slot::TimerSlice => 13,
            Slot::Altimeter => 14,
        }
    }

    /// The place of the slot among all slots, from 0.
    pub fn index(self) -> (at: usize)
        ensures
            at == self.position(),
            at < SLOT_COUNT,
    {
        match self {
            Slot::Gpio0 => 0,
            Slot::Gpio1 => 1,
            Slot::Gpio2 => 2,
            Slot::Gpio3 => 3,
            Slot::Gpio4 => 4,
            Slot::Gpio26 => 5,
            Slot::Gpio27 => 6,
            Slot::Gpio28 => 7,
            Slot::Gpio29 => 8,
            Slot::BuzzerPin => 9,
            Slot::BusData => 10,
            Slot::BusClock => 11,
            Slot::BusController => 12,
            Slot::TimerSlice => 13,
            Slot::Altimeter => 14,
        }
    }
}

/// No two slots share a place.
pub proof fn lemma_position_distinct(a: Slot, b: Slot)
    requires
        a.position() == b.position(),
    ensures
        a == b,
{
}

impl View for Claim {
    type V = Slot;

    closed spec fn view(&self) -> Slot {
        self.slot
    }
}

impl Claim {
    /// The slot that this claim owns.
    pub fn slot(&self) -> (slot: Slot)
        ensures
            slot == self@,
    {
        self.slot
    }
}

/// The state of a registry after one more acquisition, and whether that
/// acquisition is granted.
pub open spec fn acquire_step(acquired: bool) -> (bool, bool) {
    (true, !acquired)
}

/// The slots taken after one more extraction, and whether that extraction is
/// granted.
pub open spec fn extract_step(taken: Set<Slot>, slot: Slot) -> (Set<Slot>, bool) {
    (taken.insert(slot), !taken.contains(slot))
}

/// The slots taken after extracting each of `slots` in turn, granted or not.
pub open spec fn extract_all(taken: Set<Slot>, slots: Seq<Slot>) -> Set<Slot>
    decreases slots.len(),
{
    if slots.len() == 0 {
        taken
    } else {
        extract_all(extract_step(taken, slots[0]).0, slots.subrange(1, slots.len() as int))
    }
}

/// The state of a registry after `count` more acquisitions.
pub open spec fn acquire_times(acquired: bool, count: nat) -> bool
    decreases count,
{
    if count == 0 {
        acquired
    } else {
        acquire_times(acquire_step(acquired).0, (count - 1) as nat)
    }
}

impl Registry {
    /// Whether the peripherals have been acquired.
    pub closed spec fn is_acquired(self) -> bool {
        self.acquired
    }

    /// A registry whose peripherals nobody has acquired.
    pub fn new() -> (fresh: Registry)
        ensures
            !fresh.is_acquired(),
    {
        Registry { acquired: false }
    }

    /// Whether the peripherals have been acquired.
    pub fn acquired(&self) -> (yes: bool)
        ensures
            yes == self.is_acquired(),
    {
        self.acquired
    }

    /// Acquires the peripherals. The first call gives the whole set with no
    /// slot taken; every later call is refused.
    pub fn acquire(&mut self) -> (granted: Result<PeripheralSet, ClaimError>)
        ensures
            final(self).is_acquired() == acquire_step(old(self).is_acquired()).0,
            granted.is_ok() == acquire_step(old(self).is_acquired()).1,
            match granted {
                Ok(set) => set.taken() == Set::<Slot>::empty(),
                Err(e) => e == ClaimError::AlreadyAcquired,
            },
    {
        if self.acquired {
            return Err(ClaimError::AlreadyAcquired);
        }
        self.acquired = true;
        let mut flags: Vec<bool> = Vec::new();
        let mut filled: usize = 0;
        while filled < SLOT_COUNT
            invariant
                filled <= SLOT_COUNT,
                flags@.len() == filled,
                forall|i: int| 0 <= i < filled ==> !#[trigger] flags@[i],
            decreases SLOT_COUNT - filled,
        {
            flags.push(false);
            filled = filled + 1;
        }
        let set = PeripheralSet { flags };
        assert(set.taken() =~= Set::<Slot>::empty());
        Ok(set)
    }
}

/// A copy of the flags with the one at `at` set.
fn raised(flags: &Vec<bool>, at: usize) -> (out: Vec<bool>)
    requires
        at < flags@.len(),
    ensures
        out@ == flags@.update(at as int, true),
{
    let mut out: Vec<bool> = Vec::new();
    let mut done: usize = 0;
    while done < flags.len()
        invariant
            done <= flags@.len(),
            out@.len() == done,
            forall|i: int| 0 <= i < done ==> #[trigger] out@[i] == (i == at || flags@[i]),
        decreases flags@.len() - done,
    {
        out.push(done == at || flags[done]);
        done = done + 1;
    }
    assert(out@ =~= flags@.update(at as int, true));
    out
}

impl PeripheralSet {
    #[verifier::type_invariant]
    spec fn well_formed(self) -> bool {
        self.flags@.len() == SLOT_COUNT
    }

    /// The slots that have been extracted.
    pub closed spec fn taken(self) -> Set<Slot> {
        Set::new(|slot: Slot| self.flags@[slot.position() as int])
    }

    /// Whether the slot has been extracted.
    pub fn is_taken(&self, slot: Slot) -> (yes: bool)
        ensures
            yes == self.taken().contains(slot),
    {
        proof {
            use_type_invariant(self);
        }
        self.flags[slot.index()]
    }

    /// Gives out ownership of a slot. The first extraction of a slot is
    /// granted; every later one of the same slot is refused and changes
    /// nothing.
    pub fn extract_device_slot(&mut self, slot: Slot) -> (granted: Result<Claim, ClaimError>)
        ensures
            granted.is_ok() == extract_step(old(self).taken(), slot).1,
            match granted {
                Ok(claim) => claim@ == slot && final(self).taken() == extract_step(
                    old(self).taken(),
                    slot,
                ).0,
                Err(e) => e == ClaimError::AlreadyTaken && final(self).taken() == old(self).taken(),
            },
    {
        proof {
            use_type_invariant(&*self);
        }
        let at: usize = slot.index();
        if self.flags[at] {
            return Err(ClaimError::AlreadyTaken);
        }
        self.flags = raised(&self.flags, at);
        proof {
            assert forall|other: Slot|
                final(self).taken().contains(other) == old(self).taken().insert(slot).contains(
                    other,
                ) by {
                if other.position() == slot.position() {
                    lemma_position_distinct(other, slot);
                }
            }
            assert(self.taken() =~= old(self).taken().insert(slot));
        }
        Ok(Claim { slot })
    }
}

/// Acquisitions never release the peripherals.
pub proof fn lemma_acquired_stays(acquired: bool, count: nat)
    requires
        acquired,
    ensures
        acquire_times(acquired, count),
    decreases count,
{
    if count > 0 {
        lemma_acquired_stays(acquire_step(acquired).0, (count - 1) as nat);
    }
}

/// Extractions never give a slot back.
pub proof fn lemma_taken_stays(taken: Set<Slot>, slots: Seq<Slot>, slot: Slot)
    requires
        taken.contains(slot),
    ensures
        extract_all(taken, slots).contains(slot),
    decreases slots.len(),
{
    if slots.len() > 0 {
        lemma_taken_stays(
            extract_step(taken, slots[0]).0,
            slots.subrange(1, slots.len() as int),
            slot,
        );
    }
}

/// The peripherals are granted once. On a board that nobody has acquired the
/// first acquisition is granted; after any acquisition, granted or not, and
/// any number of further ones, the next is refused.
pub proof fn law_acquired_once(acquired: bool, between: nat)
    ensures
        acquire_step(false).1,
        !acquire_step(acquire_times(acquire_step(acquired).0, between)).1,
{
    lemma_acquired_stays(acquire_step(acquired).0, between);
}

/// A slot is granted once. A slot that is not taken is granted; after any
/// extraction of it, granted or not, and any further extractions of any
/// slots, the next extraction of it is refused.
pub proof fn law_slot_granted_once(taken: Set<Slot>, slot: Slot, between: Seq<Slot>)
    ensures
        !taken.contains(slot) ==> extract_step(taken, slot).1,
        !extract_step(extract_all(extract_step(taken, slot).0, between), slot).1,
{
    lemma_taken_stays(extract_step(taken, slot).0, between, slot);
}

/// Extracting one slot leaves every other slot as it was.
pub proof fn law_extraction_is_local(taken: Set<Slot>, slot: Slot, other: Slot)
    requires
        other != slot,
    ensures
        extract_step(taken, slot).0.contains(other) == taken.contains(other),
{
}

} // verus!
