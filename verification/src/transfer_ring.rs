//! A transfer ring's consumer position (xHCI 4.9.2).
use crate::guest_memory::GuestAddress;
use vstd::prelude::*;

verus! {

/// Where a transfer ring's consumer reads next, and the cycle bit that
/// marks TRBs the producer has written; toggled when the ring wraps.
pub struct TransferRing {
    dequeue_pointer: GuestAddress,
    consumer_cycle_state: bool,
}

impl TransferRing {
    pub closed spec fn dequeue_pointer(self) -> u64 {
        self.dequeue_pointer.0
    }

    pub closed spec fn consumer_cycle_state(self) -> bool {
        self.consumer_cycle_state
    }

    /// A ring at address 0 with cycle state 1.
    pub fn new() -> (r: TransferRing)
        ensures
            r.dequeue_pointer() == 0,
            r.consumer_cycle_state(),
    {
        TransferRing { dequeue_pointer: GuestAddress(0), consumer_cycle_state: true }
    }
}

} // verus!
