//! The consumer side of a ring: when to take the next transfer descriptor
//! and how starting and stopping go. Waking the consumer and running the
//! descriptor handlers is the caller's part.
use crate::guest_memory::{GuestAddress, GuestMemory};
use crate::ring_buffer::{complete_td, walk, RingBuffer, MAX_DEQUEUE_STEPS};
use crate::xhci_abi::{AddressedTrb, TransferDescriptor};
use vstd::prelude::*;

verus! {

/// Running: descriptors are consumed. Stopping: asked to stop, it stops at
/// the next descriptor. Stopped: nothing is consumed.
#[derive(Debug, Copy, Clone, PartialEq, Eq, Structural)]
pub enum RingBufferState {
    Running,
    Stopping,
    Stopped,
}

/// What the consumer does after waking up.
pub enum RingBufferAction {
    /// Nothing: the ring is stopped.
    Idle,
    /// The ring has just stopped: the stop requests are done.
    Stopped,
    /// Hand this descriptor to the handler.
    Handle(TransferDescriptor),
}

/// What a consumer wake-up does to a controller (`c0` to `c1`) over memory
/// regions `m`, returning `r`: the next descriptor is taken off the ring;
/// a stopped controller does nothing more, a stopping one or one that found
/// no complete descriptor stops, and a running one hands the descriptor on.
pub open spec fn on_event_post(
    c0: RingBufferController,
    m: Seq<(u64, Seq<u8>)>,
    c1: RingBufferController,
    r: RingBufferAction,
) -> bool {
    let end = walk(
        m,
        c0.ring().dequeue_pointer(),
        c0.ring().consumer_cycle_state(),
        Seq::<AddressedTrb>::empty(),
        MAX_DEQUEUE_STEPS as nat,
    );
    &&& c1.ring().dequeue_pointer() == end.dequeue_pointer
    &&& c1.ring().consumer_cycle_state() == end.consumer_cycle_state
    &&& if c0.state() == RingBufferState::Stopped {
        r is Idle && c1.state() == RingBufferState::Stopped
    } else if c0.state() == RingBufferState::Stopping || !complete_td(end.td) {
        r is Stopped && c1.state() == RingBufferState::Stopped
    } else {
        r matches RingBufferAction::Handle(td) && td@ == end.td && c1.state() == RingBufferState::Running
    }
}

/// A ring and its consumer state.
pub struct RingBufferController {
    state: RingBufferState,
    ring_buffer: RingBuffer,
}

impl RingBufferController {
    pub closed spec fn state(self) -> RingBufferState {
        self.state
    }

    pub closed spec fn ring(self) -> RingBuffer {
        self.ring_buffer
    }

    /// A stopped controller of a ring at address 0.
    pub fn create_controller() -> (r: RingBufferController)
        ensures
            r.state() == RingBufferState::Stopped,
            r.ring().dequeue_pointer() == 0,
            !r.ring().consumer_cycle_state(),
    {
        RingBufferController { state: RingBufferState::Stopped, ring_buffer: RingBuffer::new() }
    }

    /// Moves the ring's dequeue pointer.
    pub fn set_dequeue_pointer(&mut self, ptr: GuestAddress)
        ensures
            final(self).state() == old(self).state(),
            final(self).ring().dequeue_pointer() == ptr.0,
            final(self).ring().consumer_cycle_state() == old(self).ring().consumer_cycle_state(),
    {
        self.ring_buffer.set_dequeue_pointer(ptr);
    }

    /// Sets the ring's consumer cycle state.
    pub fn set_consumer_cycle_state(&mut self, state: bool)
        ensures
            final(self).state() == old(self).state(),
            final(self).ring().dequeue_pointer() == old(self).ring().dequeue_pointer(),
            final(self).ring().consumer_cycle_state() == state,
    {
        self.ring_buffer.set_consumer_cycle_state(state);
    }

    /// Starts consuming. Returns whether the consumer must be woken (it was
    /// not running).
    pub fn start(&mut self) -> (r: bool)
        ensures
            final(self).state() == RingBufferState::Running,
            final(self).ring() == old(self).ring(),
            r == (old(self).state() != RingBufferState::Running),
    {
        if self.state != RingBufferState::Running {
            self.state = RingBufferState::Running;
            true
        } else {
            false
        }
    }

    /// Asks the consumer to stop after the current descriptor. Returns
    /// whether the request is pending (false when already stopped: it is
    /// done at once).
    pub fn stop(&mut self) -> (r: bool)
        ensures
            final(self).ring() == old(self).ring(),
            r == (old(self).state() != RingBufferState::Stopped),
            final(self).state() == if r { RingBufferState::Stopping } else { RingBufferState::Stopped },
    {
        if self.state == RingBufferState::Stopped {
            return false;
        }
        self.state = RingBufferState::Stopping;
        true
    }

    /// The consumer woke up: it takes the next descriptor off the ring,
    /// then hands it on if running; a stopping ring, or one with nothing
    /// to take, stops.
    pub fn on_event(&mut self, mem: &GuestMemory) -> (r: RingBufferAction)
        ensures
            on_event_post(*old(self), mem.regions(), *final(self), r),
    {
        let transfer_descriptor = self.ring_buffer.dequeue_transfer_descriptor(mem);
        if self.state == RingBufferState::Stopped {
            return RingBufferAction::Idle;
        }
        match transfer_descriptor {
            Some(td) => {
                if self.state == RingBufferState::Stopping {
                    self.state = RingBufferState::Stopped;
                    RingBufferAction::Stopped
                } else {
                    RingBufferAction::Handle(td)
                }
            },
            None => {
                self.state = RingBufferState::Stopped;
                RingBufferAction::Stopped
            },
        }
    }
}

} // verus!
