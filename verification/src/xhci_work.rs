//! The order in which the controller carries out its work once a ring
//! consumer wakes up: the next command of the command ring, with the waits
//! for transfer rings to stop that its outcome asks for, and the hand-off
//! of transfer descriptors to devices.
use crate::guest_memory::GuestMemory;
use crate::ring_buffer::{complete_td, walk, MAX_DEQUEUE_STEPS};
use crate::ring_buffer_controller::{RingBufferAction, RingBufferController, RingBufferState};
use crate::usb_hub::XhciBackendDevice;
use crate::xhci::{CommandOutcome, Xhci};
use crate::xhci_abi::{type_of, AddressedTrb, TransferDescriptor, TrbCompletionCode};
use crate::xhci_regs::{MAX_PORTS, MAX_SLOTS};
use vstd::prelude::*;

verus! {

/// Device context index of a slot's last transfer ring.
pub const LAST_ENDPOINT: u8 = 31;

/// What carrying out the next command of the command ring did.
#[derive(Debug, Copy, Clone, PartialEq, Eq, Structural)]
pub enum CommandStep {
    /// The ring holds no command to carry out.
    Idle,
    /// A command was carried out and its completion event sent; whether to
    /// interrupt the guest.
    Done(bool),
    /// Guest memory could not be read or written, or the command
    /// descriptor is not a single TRB: the controller fails.
    Failed,
}

/// Whether the consumer of ring `c` takes a whole descriptor off it over
/// memory `m` when it wakes up (see `on_event_post`).
pub open spec fn descriptor_ready(c: RingBufferController, m: Seq<(u64, Seq<u8>)>) -> bool {
    let end = walk(
        m,
        c.ring().dequeue_pointer(),
        c.ring().consumer_cycle_state(),
        Seq::<AddressedTrb>::empty(),
        MAX_DEQUEUE_STEPS as nat,
    );
    c.state() != RingBufferState::Stopped && c.state() != RingBufferState::Stopping && complete_td(end.td)
}

/// Whether a transfer descriptor can be handed to a device: it names a
/// slot, is not empty, and each of its TRBs has a known type.
pub open spec fn handable(slot_id: u8, td: Seq<AddressedTrb>) -> bool {
    &&& 1 <= slot_id <= MAX_SLOTS
    &&& td.len() > 0
    &&& forall|k: int| 0 <= k < td.len() ==> type_of(#[trigger] td[k].trb) is Some
}

/// Whether each TRB of `td` has a known type.
fn types_known(td: &TransferDescriptor) -> (r: bool)
    ensures
        r == forall|k: int| 0 <= k < td@.len() ==> type_of(#[trigger] td@[k].trb) is Some,
{
    let mut i: usize = 0;
    while i < td.len()
        invariant
            i <= td@.len(),
            forall|k: int| 0 <= k < i ==> type_of(#[trigger] td@[k].trb) is Some,
        decreases td@.len() - i,
    {
        if td[i].trb.trb_type().is_err() {
            return false;
        }
        i = i + 1;
    }
    true
}

impl<D: XhciBackendDevice> Xhci<D> {
    /// Hands a transfer descriptor taken off the transfer ring of endpoint
    /// `endpoint_id` of slot `slot_id` to its device (see
    /// `handle_transfer_descriptor`); one that cannot be handed on is
    /// dropped as done. Returns whether the descriptor is done already, and
    /// whether to interrupt the guest.
    pub fn hand_on(&mut self, mem: &mut GuestMemory, slot_id: u8, endpoint_id: u8, td: TransferDescriptor) -> (r: (
        bool,
        bool,
    ))
        requires
            old(self).wf(),
        ensures
            final(self).wf(),
            forall|s: u8| 1 <= s <= MAX_SLOTS ==> #[trigger] final(self).slot(s) == old(self).slot(s),
            forall|q: u8| 1 <= q <= MAX_PORTS ==> #[trigger] final(self).hub().connected(q) == old(self).hub().connected(q),
            !handable(slot_id, td@) ==> r == (true, false) && *final(self) == *old(self),
    {
        if slot_id == 0 || slot_id > MAX_SLOTS || td.len() == 0 || !types_known(&td) {
            return (true, false);
        }
        self.handle_transfer_descriptor(mem, slot_id, endpoint_id, td)
    }

    /// Wakes the transfer ring of endpoint `endpoint_id` of slot `slot_id`
    /// once, so that a stop asked of it completes; a descriptor it still
    /// hands out is handed on. Returns whether to interrupt the guest.
    pub fn finish_stopping_ring(&mut self, mem: &mut GuestMemory, slot_id: u8, endpoint_id: u8) -> (r: bool)
        requires
            old(self).wf(),
        ensures
            final(self).wf(),
            forall|q: u8| 1 <= q <= MAX_PORTS ==> #[trigger] final(self).hub().connected(q) == old(self).hub().connected(q),
            !(1 <= slot_id <= MAX_SLOTS && 1 <= endpoint_id < 32 && old(self).slot(slot_id).trc(endpoint_id - 1) is Some)
                ==> !r && forall|s: u8| 1 <= s <= MAX_SLOTS ==> #[trigger] final(self).slot(s) == old(self).slot(s),
    {
        match self.transfer_ring_on_event(&*mem, slot_id, endpoint_id) {
            Some(RingBufferAction::Handle(td)) => {
                let (_, fire) = self.hand_on(mem, slot_id, endpoint_id, td);
                fire
            },
            _ => false,
        }
    }

    /// Wakes each transfer ring of slot `slot_id` once (see
    /// `finish_stopping_ring`). Returns whether to interrupt the guest.
    pub fn finish_stopping_slot_rings(&mut self, mem: &mut GuestMemory, slot_id: u8) -> (r: bool)
        requires
            old(self).wf(),
        ensures
            final(self).wf(),
            forall|q: u8| 1 <= q <= MAX_PORTS ==> #[trigger] final(self).hub().connected(q) == old(self).hub().connected(q),
    {
        let mut fire = false;
        let mut endpoint_id: u8 = 1;
        while endpoint_id <= LAST_ENDPOINT
            invariant
                self.wf(),
                1 <= endpoint_id <= LAST_ENDPOINT + 1,
                forall|q: u8| 1 <= q <= MAX_PORTS ==> #[trigger] self.hub().connected(q) == old(self).hub().connected(q),
            decreases LAST_ENDPOINT + 1 - endpoint_id,
        {
            let f = self.finish_stopping_ring(mem, slot_id, endpoint_id);
            fire = fire || f;
            endpoint_id = endpoint_id + 1;
        }
        fire
    }

    /// Wakes every transfer ring once (see `finish_stopping_ring`). Returns
    /// whether to interrupt the guest.
    pub fn finish_stopping_all_rings(&mut self, mem: &mut GuestMemory) -> (r: bool)
        requires
            old(self).wf(),
        ensures
            final(self).wf(),
            forall|q: u8| 1 <= q <= MAX_PORTS ==> #[trigger] final(self).hub().connected(q) == old(self).hub().connected(q),
    {
        let mut fire = false;
        let mut slot_id: u8 = 1;
        while slot_id <= MAX_SLOTS
            invariant
                self.wf(),
                1 <= slot_id <= MAX_SLOTS + 1,
                forall|q: u8| 1 <= q <= MAX_PORTS ==> #[trigger] self.hub().connected(q) == old(self).hub().connected(q),
            decreases MAX_SLOTS + 1 - slot_id,
        {
            let f = self.finish_stopping_slot_rings(mem, slot_id);
            fire = fire || f;
            slot_id = slot_id + 1;
        }
        fire
    }

    /// Carries out the next command of the command ring (xHCI 4.6): a
    /// disable slot or reset device command waits for the slot's transfer
    /// rings to stop, a stop endpoint command for the endpoint's, and then
    /// the command completion event is sent.
    pub fn run_next_command(&mut self, mem: &mut GuestMemory) -> (r: CommandStep)
        requires
            old(self).wf(),
        ensures
            final(self).wf(),
            (r is Idle) == !descriptor_ready(old(self).command_ring(), old(mem).regions()),
    {
        let td = match self.command_ring_on_event(&*mem) {
            RingBufferAction::Handle(td) => td,
            _ => {
                return CommandStep::Idle;
            },
        };
        if td.len() != 1 {
            return CommandStep::Failed;
        }
        let atrb = td[0];
        let outcome = match self.handle_command(mem, &atrb) {
            Ok(o) => o,
            Err(_) => {
                return CommandStep::Failed;
            },
        };
        let mut fire = false;
        let (code, slot_id) = match outcome {
            CommandOutcome::Done(code, slot_id) => (code, slot_id),
            CommandOutcome::DisablePending(slot_id) => {
                fire = self.finish_stopping_slot_rings(mem, slot_id);
                match self.finish_disable_slot(mem, slot_id) {
                    Ok(code) => (code, slot_id),
                    Err(_) => {
                        return CommandStep::Failed;
                    },
                }
            },
            CommandOutcome::ResetPending(slot_id) => {
                fire = self.finish_stopping_slot_rings(mem, slot_id);
                match self.finish_reset_device(mem, slot_id) {
                    Ok(code) => (code, slot_id),
                    Err(_) => {
                        return CommandStep::Failed;
                    },
                }
            },
            CommandOutcome::StopEndpointPending(slot_id) => {
                fire = self.finish_stopping_ring(mem, slot_id, atrb.trb.get_endpoint_id());
                (TrbCompletionCode::Success, slot_id)
            },
        };
        let f = self.complete_command(mem, code, slot_id, atrb.gpa);
        CommandStep::Done(fire || f)
    }
}

} // verus!
