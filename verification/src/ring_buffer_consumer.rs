//! A ring consumer that hands each transfer descriptor to a handler.
use crate::guest_memory::{GuestAddress, GuestMemory};
use crate::ring_buffer::{complete_td, walk, RingBuffer, MAX_DEQUEUE_STEPS};
use crate::xhci_abi::{AddressedTrb, TransferDescriptor};
use vstd::prelude::*;

verus! {

/// State of a consumer.
#[derive(Debug, Copy, Clone, PartialEq, Eq, Structural)]
pub enum ConsumerState {
    Stopped,
    Stopping,
    Running,
}

/// Takes the transfer descriptors a consumer hands on.
pub trait TransferDescriptorHandler {
    fn handle_transfer_descriptor(&mut self, descriptor: Option<TransferDescriptor>);
}

/// A ring, the consumer's state, and the handler of what it consumes.
pub struct RingBufferConsumer<H> {
    state: ConsumerState,
    ring: RingBuffer,
    handler: H,
}

impl<H: TransferDescriptorHandler> RingBufferConsumer<H> {
    pub closed spec fn state(self) -> ConsumerState {
        self.state
    }

    pub closed spec fn ring(self) -> RingBuffer {
        self.ring
    }

    /// A stopped consumer of a ring at address 0.
    pub fn new(handler: H) -> (r: RingBufferConsumer<H>)
        ensures
            r.state() == ConsumerState::Stopped,
            r.ring().dequeue_pointer() == 0,
    {
        RingBufferConsumer { state: ConsumerState::Stopped, ring: RingBuffer::new(), handler }
    }

    /// Starts consuming. Returns whether consumption must be kicked off (it
    /// was not running).
    pub fn start(&mut self) -> (r: bool)
        ensures
            final(self).state() == ConsumerState::Running,
            final(self).ring() == old(self).ring(),
            r == (old(self).state() != ConsumerState::Running),
    {
        if self.state != ConsumerState::Running {
            self.state = ConsumerState::Running;
            true
        } else {
            false
        }
    }

    /// Asks the consumer to stop after the descriptor under way.
    pub fn stop(&mut self)
        ensures
            final(self).ring() == old(self).ring(),
            final(self).state() == if old(self).state() == ConsumerState::Stopped {
                ConsumerState::Stopped
            } else {
                ConsumerState::Stopping
            },
    {
        if self.state != ConsumerState::Stopped {
            self.state = ConsumerState::Stopping;
        }
    }

    /// Moves the ring's dequeue pointer.
    pub fn set_dequeue_pointer(&mut self, ptr: GuestAddress)
        ensures
            final(self).state() == old(self).state(),
            final(self).ring().dequeue_pointer() == ptr.0,
            final(self).ring().consumer_cycle_state() == old(self).ring().consumer_cycle_state(),
    {
        self.ring.set_dequeue_pointer(ptr);
    }

    /// Sets the ring's consumer cycle state.
    pub fn set_consumer_cycle_state(&mut self, state: bool)
        ensures
            final(self).state() == old(self).state(),
            final(self).ring().dequeue_pointer() == old(self).ring().dequeue_pointer(),
            final(self).ring().consumer_cycle_state() == state,
    {
        self.ring.set_consumer_cycle_state(state);
    }

    /// Consumes one descriptor, unless stopped, and hands it (or its
    /// absence) to the handler; a stopping consumer, or one that found
    /// nothing, stops.
    pub fn consume_one(&mut self, mem: &GuestMemory)
        ensures
            old(self).state() == ConsumerState::Stopped ==> final(self).state() == ConsumerState::Stopped
                && final(self).ring() == old(self).ring(),
            old(self).state() != ConsumerState::Stopped ==> {
                let end = walk(
                    mem.regions(),
                    old(self).ring().dequeue_pointer(),
                    old(self).ring().consumer_cycle_state(),
                    Seq::<AddressedTrb>::empty(),
                    MAX_DEQUEUE_STEPS as nat,
                );
                &&& final(self).ring().dequeue_pointer() == end.dequeue_pointer
                &&& final(self).ring().consumer_cycle_state() == end.consumer_cycle_state
                &&& final(self).state() == if old(self).state() == ConsumerState::Stopping || !complete_td(end.td) {
                    ConsumerState::Stopped
                } else {
                    old(self).state()
                }
            },
    {
        if self.state == ConsumerState::Stopped {
            return;
        }
        let transfer_descriptor = self.ring.dequeue_transfer_descriptor(mem);
        if self.state == ConsumerState::Stopping || transfer_descriptor.is_none() {
            self.state = ConsumerState::Stopped;
        }
        self.handler.handle_transfer_descriptor(transfer_descriptor);
    }
}

} // verus!
