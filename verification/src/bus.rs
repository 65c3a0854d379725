//! Sharing of one two-wire bus controller among several device drivers.
//!
//! A `BusHandle` owns the controller. Any number of `DeviceView`s can be made
//! from it, one per device on the bus. A transaction goes through a view and
//! holds the handle exclusively from its first byte to its last, so two
//! transactions never mix on the wire. The controller itself is handed in as
//! the operation that carries a request out, and whatever it answers is
//! returned as it is.

use vstd::prelude::*;
use crate::registry::{Claim, Slot};

verus! {

/// How the drivers that share a bus are kept apart.
#[derive(Clone, Copy, Debug, PartialEq, Eq, Structural)]
pub enum SharingStrategy {
    /// Every transaction comes from one thread of control.
    SingleContext,
    /// Transactions may also come from interrupt handlers; each one runs in a
    /// critical section.
    PreemptionSafe,
}

/// What a bus controller reports when a transaction fails.
#[derive(Clone, Copy, Debug, PartialEq, Eq, Structural)]
pub enum BusError {
    /// The device did not acknowledge.
    NoAcknowledge,
    /// Another controller won the bus.
    ArbitrationLoss,
    /// The transaction did not complete in time.
    Timeout,
    /// Any other failure.
    Other,
}

/// Whether a transaction reads from the device or writes to it.
#[derive(Clone, Copy, Debug, PartialEq, Eq, Structural)]
pub enum Direction {
    Read,
    Write,
}

/// One transaction as the controller gets it: the bytes to write, or a
/// buffer of the length to read.
#[derive(Debug)]
pub struct Request {
    pub address: u8,
    pub direction: Direction,
    pub bytes: Vec<u8>,
}

/// One completed transaction: what was asked and what the controller
/// answered.
pub struct Exchange {
    pub address: u8,
    pub direction: Direction,
    pub bytes: Seq<u8>,
    pub outcome: Result<Seq<u8>, BusError>,
}

/// Ownership of one bus controller, shared by the views made from it.
pub struct BusHandle {
    controller: Claim,
    strategy: SharingStrategy,
    journal: Ghost<Seq<Exchange>>,
}

/// The access path of one device on a shared bus.
#[derive(Debug)]
pub struct DeviceView {
    address: u8,
}

/// The answer of a controller with its bytes as a sequence.
pub open spec fn answer(outcome: Result<Vec<u8>, BusError>) -> Result<Seq<u8>, BusError> {
    match outcome {
        Ok(bytes) => Ok(bytes@),
        Err(e) => Err(e),
    }
}

/// The bytes that one exchange puts on the wire, each with the address of
/// its device: those of the request, then those of the answer.
pub open spec fn frame(exchange: Exchange) -> Seq<(u8, u8)> {
    let answered = match exchange.outcome {
        Ok(bytes) => bytes,
        Err(_) => Seq::<u8>::empty(),
    };
    (exchange.bytes + answered).map_values(|byte: u8| (exchange.address, byte))
}

/// Everything that a run of exchanges puts on the wire, in order.
pub open spec fn wire(journal: Seq<Exchange>) -> Seq<(u8, u8)>
    decreases journal.len(),
{
    if journal.len() == 0 {
        Seq::<(u8, u8)>::empty()
    } else {
        wire(journal.drop_last()) + frame(journal.last())
    }
}

/// Runs `perform` on `request` inside `critical_section::with`. That function
/// enters the critical section, calls the closure it is given once, leaves
/// the critical section and returns what the closure returned; so the
/// outcome is one that `perform` gives for `request`.
#[verifier::external_body]
fn guarded<F: FnOnce(Request) -> Result<Vec<u8>, BusError>>(
    perform: F,
    request: Request,
) -> (outcome: Result<Vec<u8>, BusError>)
    requires
        perform.requires((request,)),
    ensures
        perform.ensures((request,), outcome),
{
    critical_section::with(|_section| perform(request))
}

impl BusHandle {
    /// How the views of this handle are kept apart.
    pub closed spec fn sharing(self) -> SharingStrategy {
        self.strategy
    }

    /// Every transaction that went through this handle, oldest first.
    pub closed spec fn journal(self) -> Seq<Exchange> {
        self.journal@
    }

    /// Wraps the bus controller for sharing. Only the claim of the bus
    /// controller is accepted; any other comes back.
    pub fn new(controller: Claim, strategy: SharingStrategy) -> (made: Result<BusHandle, Claim>)
        ensures
            made.is_ok() == (controller@ == Slot::BusController),
            match made {
                Ok(bus) => bus.sharing() == strategy && bus.journal() == Seq::<Exchange>::empty(),
                Err(back) => back == controller,
            },
    {
        match controller.slot() {
            Slot::BusController => Ok(
                BusHandle { controller, strategy, journal: Ghost(Seq::<Exchange>::empty()) },
            ),
            _ => Err(controller),
        }
    }

    /// How the views of this handle are kept apart.
    pub fn strategy(&self) -> (strategy: SharingStrategy)
        ensures
            strategy == self.sharing(),
    {
        self.strategy
    }

    /// A new view for the device at `address`. Any number can be made.
    pub fn create_device_view(&self, address: u8) -> (view: DeviceView)
        ensures
            view@ == address,
    {
        DeviceView { address }
    }
}

impl View for DeviceView {
    type V = u8;

    closed spec fn view(&self) -> u8 {
        self.address
    }
}

impl DeviceView {
    /// The address of the device.
    pub fn address(&self) -> (address: u8)
        ensures
            address == self@,
    {
        self.address
    }

    /// The request that a transaction of this view hands to the controller.
    pub open spec fn request(self, direction: Direction, bytes: Vec<u8>) -> Request {
        Request { address: self@, direction, bytes }
    }

    /// Carries out one transaction on the bus. The handle is held for the
    /// whole of it. `perform` is the controller: it is called once, with the
    /// request of this view, and its answer is returned unchanged, bus errors
    /// included. The exchange is added to the journal of the handle.
    pub fn transact<F: FnOnce(Request) -> Result<Vec<u8>, BusError>>(
        &self,
        bus: &mut BusHandle,
        direction: Direction,
        bytes: Vec<u8>,
        perform: F,
    ) -> (outcome: Result<Vec<u8>, BusError>)
        requires
            perform.requires((self.request(direction, bytes),)),
        ensures
            perform.ensures((self.request(direction, bytes),), outcome),
            final(bus).sharing() == old(bus).sharing(),
            final(bus).journal() == old(bus).journal().push(
                (Exchange { address: self@, direction, bytes: bytes@, outcome: answer(outcome) }),
            ),
    {
        let ghost sent = bytes@;
        let request = Request { address: self.address, direction, bytes };
        let outcome = match bus.strategy {
            SharingStrategy::SingleContext => perform(request),
            SharingStrategy::PreemptionSafe => guarded(perform, request),
        };
        bus.journal = Ghost(
            bus.journal@.push(
                Exchange { address: self.address, direction, bytes: sent, outcome: answer(outcome) },
            ),
        );
        outcome
    }
}

/// The wire of two runs of exchanges, one after the other, is the wire of
/// the first followed by the wire of the second.
pub proof fn lemma_wire_of_concatenation(first: Seq<Exchange>, second: Seq<Exchange>)
    ensures
        wire(first + second) == wire(first) + wire(second),
    decreases second.len(),
{
    if second.len() == 0 {
        assert(first + second =~= first);
        assert(wire(first) + wire(second) =~= wire(first));
    } else {
        lemma_wire_of_concatenation(first, second.drop_last());
        assert((first + second).drop_last() =~= first + second.drop_last());
        assert((first + second).last() == second.last());
        assert(wire(first) + (wire(second.drop_last()) + frame(second.last())) =~= (wire(first)
            + wire(second.drop_last())) + frame(second.last()));
    }
}

/// Transactions do not mix on the wire. Whatever views the exchanges of a
/// journal came from, and in whatever order they were made, the bytes of each
/// exchange stand together: the wire is what came before it, then its own
/// frame whole, then what came after it.
pub proof fn law_exchanges_stay_whole(journal: Seq<Exchange>, at: int)
    requires
        0 <= at < journal.len(),
    ensures
        wire(journal) == wire(journal.take(at)) + frame(journal[at]) + wire(journal.skip(at + 1)),
{
    let before = journal.take(at);
    let one = seq![journal[at]];
    let after = journal.skip(at + 1);
    assert(journal =~= (before + one) + after);
    lemma_wire_of_concatenation(before + one, after);
    lemma_wire_of_concatenation(before, one);
    assert(one.drop_last() =~= Seq::<Exchange>::empty());
    assert(wire(one) =~= frame(journal[at])) by {
        assert(wire(one.drop_last()) =~= Seq::<(u8, u8)>::empty());
    }
}

/// Two transactions made one after the other, through the same view or
/// through two, leave on the wire the frame of the first and then the frame
/// of the second, after all that was there before.
pub proof fn law_transactions_are_ordered(journal: Seq<Exchange>, first: Exchange, second: Exchange)
    ensures
        wire(journal.push(first).push(second)) == wire(journal) + frame(first) + frame(second),
{
    let one = journal.push(first);
    let two = one.push(second);
    assert(two.drop_last() =~= one);
    assert(one.drop_last() =~= journal);
    assert(two.last() == second);
    assert(one.last() == first);
    assert(wire(one) == wire(journal) + frame(first));
    assert(wire(two) == wire(one) + frame(second));
}

} // verus!
