//! The interrupter (xHCI 4.17): queues event TRBs on the event ring and
//! decides when the guest is interrupted. Raising the interrupt line itself
//! is left to the caller, told so by a `true` result.
use crate::event_ring::{add_event_post, add_event_result, EventRing, EventRingState};
use crate::guest_memory::{GuestAddress, GuestMemory};
use crate::mmio_register::RegisterValue;
use crate::usb_error::Error;
use crate::xhci_abi::{with_field32, PrimitiveEnum, Trb, TrbCompletionCode, TrbType};
use crate::xhci_regs::{
    XHCIRegs, ERDP_EVENT_HANDLER_BUSY, IMAN_INTERRUPT_PENDING, USB_STS_EVENT_INTERRUPT,
};
use vstd::prelude::*;

verus! {

/// The interrupter's flags.
pub struct InterrupterState {
    pub event_handler_busy: bool,
    pub enabled: bool,
    pub pending: bool,
    pub moderation_interval: u16,
    pub moderation_counter: u16,
}

/// The guest is interrupted when interrupts are enabled, an event is
/// pending and the guest's event handler is not busy.
pub open spec fn fires(s: InterrupterState) -> bool {
    s.enabled && s.pending && !s.event_handler_busy
}

/// The flags after an interrupt decision: firing marks the handler busy and
/// nothing pending.
pub open spec fn after_decision(s: InterrupterState) -> InterrupterState {
    if fires(s) {
        InterrupterState { event_handler_busy: true, pending: false, ..s }
    } else {
        s
    }
}

/// The registers after an interrupt decision: firing sets the event
/// interrupt bit of usbsts, the interrupt pending bit of iman and the
/// event handler busy bit of erdp; nothing else changes.
pub open spec fn regs_after_decision(old: &XHCIRegs, new: &XHCIRegs, fired: bool) -> bool {
    &&& new.usbcmd == old.usbcmd
    &&& new.dnctrl == old.dnctrl
    &&& new.crcr == old.crcr
    &&& new.dcbaap == old.dcbaap
    &&& new.config == old.config
    &&& new.portsc == old.portsc
    &&& new.doorbells == old.doorbells
    &&& new.imod == old.imod
    &&& new.erstsz == old.erstsz
    &&& new.erstba == old.erstba
    &&& new.usbsts.same_layout(old.usbsts) && new.usbsts.has_write_cb() == old.usbsts.has_write_cb()
    &&& new.iman.same_layout(old.iman) && new.iman.has_write_cb() == old.iman.has_write_cb()
    &&& new.erdp.same_layout(old.erdp) && new.erdp.has_write_cb() == old.erdp.has_write_cb()
    &&& if fired {
        &&& new.usbsts.value().spec_value() == old.usbsts.value().spec_value() | (USB_STS_EVENT_INTERRUPT as u64)
        &&& new.iman.value().spec_value() == old.iman.value().spec_value() | (IMAN_INTERRUPT_PENDING as u64)
        &&& new.erdp.value().spec_value() == old.erdp.value().spec_value() | ERDP_EVENT_HANDLER_BUSY
    } else {
        &&& new.usbsts == old.usbsts
        &&& new.iman == old.iman
        &&& new.erdp == old.erdp
    }
}

/// A port status change event for `port_id`.
pub open spec fn port_status_change_trb(port_id: u8) -> Trb {
    Trb {
        d0: with_field32(0, 24, 0xff, port_id as u32),
        d1: 0,
        d2: with_field32(0, 24, 0xff, TrbCompletionCode::Success.spec_to() as u32),
        d3: with_field32(0, 10, 0x3f, TrbType::PortStatusChangeEvent.spec_to() as u32),
    }
}

/// A command completion event for the command TRB at `trb_addr`.
pub open spec fn command_completion_trb(code: TrbCompletionCode, slot_id: u8, trb_addr: u64) -> Trb {
    Trb {
        d0: trb_addr as u32,
        d1: (trb_addr >> 32u64) as u32,
        d2: with_field32(with_field32(0, 0, 0xffffff, 0), 24, 0xff, code.spec_to() as u32),
        d3: with_field32(
            with_field32(
                with_field32(0, 10, 0x3f, TrbType::CommandCompletionEvent.spec_to() as u32),
                16,
                0xff,
                0,
            ),
            24,
            0xff,
            slot_id as u32,
        ),
    }
}

/// A transfer event for the transfer TRB at `trb_pointer`.
pub open spec fn transfer_event_trb(
    code: TrbCompletionCode,
    trb_pointer: u64,
    transfer_length: u32,
    event_data: bool,
    slot_id: u8,
    endpoint_id: u8,
) -> Trb {
    Trb {
        d0: trb_pointer as u32,
        d1: (trb_pointer >> 32u64) as u32,
        d2: with_field32(with_field32(0, 0, 0xffffff, transfer_length), 24, 0xff, code.spec_to() as u32),
        d3: with_field32(
            with_field32(
                with_field32(
                    with_field32(0, 2, 1, if event_data { 1 } else { 0 }),
                    10,
                    0x3f,
                    TrbType::TransferEvent.spec_to() as u32,
                ),
                16,
                0x1f,
                endpoint_id as u32,
            ),
            24,
            0xff,
            slot_id as u32,
        ),
    }
}

/// What queueing a port status change event for `port_id` did to an
/// interrupter (`i0` to `i1`) and memory (`m0` to `m1`), `fired` telling
/// whether the guest is to be interrupted; a failed queueing changes nothing
/// and does not interrupt.
pub open spec fn add_port_event(
    i0: Interrupter,
    m0: Seq<(u64, Seq<u8>)>,
    i1: Interrupter,
    m1: Seq<(u64, Seq<u8>)>,
    port_id: u8,
    fired: bool,
) -> bool {
    let t = port_status_change_trb(port_id);
    let er = add_event_result(i0.ring(), m0, t);
    let pending = InterrupterState { pending: true, ..i0@ };
    &&& add_event_post(i0.ring(), m0, t, er, i1.ring(), m1)
    &&& match er {
        Ok(()) => fired == fires(pending) && i1@ == after_decision(pending),
        Err(_) => !fired && i1@ == i0@,
    }
}

/// The interrupter of the controller's one event ring.
pub struct Interrupter {
    event_handler_busy: bool,
    enabled: bool,
    pending: bool,
    moderation_interval: u16,
    moderation_counter: u16,
    event_ring: EventRing,
}

impl Interrupter {
    pub closed spec fn view(self) -> InterrupterState {
        InterrupterState {
            event_handler_busy: self.event_handler_busy,
            enabled: self.enabled,
            pending: self.pending,
            moderation_interval: self.moderation_interval,
            moderation_counter: self.moderation_counter,
        }
    }

    pub closed spec fn ring(self) -> EventRingState {
        self.event_ring@
    }

    /// A disabled interrupter with an uninitialized event ring.
    pub fn new() -> (r: Interrupter)
        ensures
            r@ == (InterrupterState {
                event_handler_busy: false,
                enabled: false,
                pending: false,
                moderation_interval: 0,
                moderation_counter: 0,
            }),
            r.ring() == EventRing::new_state(),
    {
        Interrupter {
            event_handler_busy: false,
            enabled: false,
            pending: false,
            moderation_interval: 0,
            moderation_counter: 0,
            event_ring: EventRing::new(),
        }
    }

    /// Whether the guest has consumed every event.
    pub fn event_ring_is_empty(&self) -> (r: Result<bool, Error>)
        ensures
            r == if crate::event_ring::inited(self.ring()) {
                Ok::<bool, Error>(self.ring().enqueue_pointer == self.ring().dequeue_pointer)
            } else {
                Err::<bool, Error>(Error::BadState)
            },
    {
        match self.event_ring.is_empty() {
            Ok(b) => Ok(b),
            Err(_) => Err(Error::BadState),
        }
    }

    /// Queues an event; on success an event is pending and the interrupt
    /// decision is taken. Returns whether to interrupt the guest.
    fn add_event(&mut self, regs: &mut XHCIRegs, mem: &mut GuestMemory, trb: Trb) -> (r: Result<bool, Error>)
        ensures
            ({
                let pending = InterrupterState { pending: true, ..old(self)@ };
                let er = add_event_result(old(self).ring(), old(mem).regions(), trb);
                &&& add_event_post(old(self).ring(), old(mem).regions(), trb, er, final(self).ring(), final(mem).regions())
                &&& match er {
                    Ok(()) => r == Ok::<bool, Error>(fires(pending)) && final(self)@ == after_decision(pending)
                        && regs_after_decision(old(regs), final(regs), fires(pending)),
                    Err(_) => r == Err::<bool, Error>(Error::BadState) && final(self)@ == old(self)@
                        && *final(regs) == *old(regs),
                }
            }),
    {
        let er = self.event_ring.add_event(mem, trb);
        match er {
            Ok(()) => {
                self.pending = true;
                let fired = self.interrupt_if_needed(regs);
                Ok(fired)
            },
            Err(_) => Err(Error::BadState),
        }
    }

    /// Sends a port status change event for `port_id`.
    pub fn send_port_status_change_trb(&mut self, regs: &mut XHCIRegs, mem: &mut GuestMemory, port_id: u8) -> (r: Result<bool, Error>)
        ensures
            ({
                let pending = InterrupterState { pending: true, ..old(self)@ };
                let er = add_event_result(old(self).ring(), old(mem).regions(), port_status_change_trb(port_id));
                &&& add_event_post(old(self).ring(), old(mem).regions(), port_status_change_trb(port_id), er, final(self).ring(), final(mem).regions())
                &&& match er {
                    Ok(()) => r == Ok::<bool, Error>(fires(pending)) && final(self)@ == after_decision(pending)
                        && regs_after_decision(old(regs), final(regs), fires(pending)),
                    Err(_) => r == Err::<bool, Error>(Error::BadState) && final(self)@ == old(self)@
                        && *final(regs) == *old(regs),
                }
            }),
    {
        let mut trb = Trb::new();
        trb.set_port_id(port_id);
        trb.set_completion_code(TrbCompletionCode::Success.to());
        trb.set_trb_type(TrbType::PortStatusChangeEvent.to());
        assert(trb == port_status_change_trb(port_id));
        self.add_event(regs, mem, trb)
    }

    /// Sends a command completion event for the command TRB at `trb_addr`.
    pub fn send_command_completion_trb(
        &mut self,
        regs: &mut XHCIRegs,
        mem: &mut GuestMemory,
        completion_code: TrbCompletionCode,
        slot_id: u8,
        trb_addr: GuestAddress,
    ) -> (r: Result<bool, Error>)
        ensures
            ({
                let pending = InterrupterState { pending: true, ..old(self)@ };
                let er = add_event_result(old(self).ring(), old(mem).regions(), command_completion_trb(completion_code, slot_id, trb_addr.0));
                &&& add_event_post(old(self).ring(), old(mem).regions(), command_completion_trb(completion_code, slot_id, trb_addr.0), er, final(self).ring(), final(mem).regions())
                &&& match er {
                    Ok(()) => r == Ok::<bool, Error>(fires(pending)) && final(self)@ == after_decision(pending)
                        && regs_after_decision(old(regs), final(regs), fires(pending)),
                    Err(_) => r == Err::<bool, Error>(Error::BadState) && final(self)@ == old(self)@
                        && *final(regs) == *old(regs),
                }
            }),
    {
        let mut trb = Trb::new();
        trb.set_trb_pointer(trb_addr.0);
        trb.set_command_completion_parameter(0);
        trb.set_completion_code(completion_code.to());
        trb.set_trb_type(TrbType::CommandCompletionEvent.to());
        trb.set_vf_id(0);
        trb.set_slot_id(slot_id);
        assert(trb == command_completion_trb(completion_code, slot_id, trb_addr.0));
        self.add_event(regs, mem, trb)
    }

    /// Sends a transfer event for the transfer TRB at `trb_pointer`.
    pub fn send_transfer_event_trb(
        &mut self,
        regs: &mut XHCIRegs,
        mem: &mut GuestMemory,
        completion_code: TrbCompletionCode,
        trb_pointer: u64,
        transfer_length: u32,
        event_data: bool,
        slot_id: u8,
        endpoint_id: u8,
    ) -> (r: Result<bool, Error>)
        ensures
            ({
                let pending = InterrupterState { pending: true, ..old(self)@ };
                let t = transfer_event_trb(completion_code, trb_pointer, transfer_length, event_data, slot_id, endpoint_id);
                let er = add_event_result(old(self).ring(), old(mem).regions(), t);
                &&& add_event_post(old(self).ring(), old(mem).regions(), t, er, final(self).ring(), final(mem).regions())
                &&& match er {
                    Ok(()) => r == Ok::<bool, Error>(fires(pending)) && final(self)@ == after_decision(pending)
                        && regs_after_decision(old(regs), final(regs), fires(pending)),
                    Err(_) => r == Err::<bool, Error>(Error::BadState) && final(self)@ == old(self)@
                        && *final(regs) == *old(regs),
                }
            }),
    {
        let mut trb = Trb::new();
        trb.set_event_data_flag(if event_data { 1 } else { 0 });
        trb.set_trb_pointer(trb_pointer);
        trb.set_event_trb_transfer_length(transfer_length);
        trb.set_completion_code(completion_code.to());
        trb.set_trb_type(TrbType::TransferEvent.to());
        trb.set_endpoint_id(endpoint_id);
        trb.set_slot_id(slot_id);
        assert(trb == transfer_event_trb(completion_code, trb_pointer, transfer_length, event_data, slot_id, endpoint_id));
        self.add_event(regs, mem, trb)
    }

    /// Enables or disables the interrupter. Returns whether to interrupt
    /// the guest.
    pub fn set_enabled(&mut self, regs: &mut XHCIRegs, enabled: bool) -> (r: bool)
        ensures
            r == fires(InterrupterState { enabled, ..old(self)@ }),
            final(self)@ == after_decision(InterrupterState { enabled, ..old(self)@ }),
            final(self).ring() == old(self).ring(),
            regs_after_decision(old(regs), final(regs), r),
    {
        self.enabled = enabled;
        self.interrupt_if_needed(regs)
    }

    /// Sets interrupt moderation (recorded; moderation is not applied).
    pub fn set_moderation(&mut self, regs: &mut XHCIRegs, interval: u16, counter: u16) -> (r: bool)
        ensures
            ({
                let s = InterrupterState { moderation_interval: interval, moderation_counter: counter, ..old(self)@ };
                &&& r == fires(s)
                &&& final(self)@ == after_decision(s)
            }),
            final(self).ring() == old(self).ring(),
            regs_after_decision(old(regs), final(regs), r),
    {
        self.moderation_interval = interval;
        self.moderation_counter = counter;
        self.interrupt_if_needed(regs)
    }

    /// Sets the event ring's segment table size.
    pub fn set_event_ring_seg_table_size(&mut self, size: u16)
        ensures
            final(self)@ == old(self)@,
            final(self).ring() == (EventRingState { segment_table_size: size, ..old(self).ring() }),
    {
        self.event_ring.set_seg_table_size(size)
    }

    /// Sets the event ring's segment table address.
    pub fn set_event_ring_seg_table_base_addr(&mut self, mem: &GuestMemory, addr: GuestAddress) -> (r: Result<(), Error>)
        ensures
            final(self)@ == old(self)@,
            ({
                let s = EventRingState { segment_table_base_address: addr.0, ..old(self).ring() };
                if s.segment_table_size == 0 || addr.0 == 0 {
                    r == Ok::<(), Error>(()) && final(self).ring() == s
                } else {
                    match crate::event_ring::load_current(s, mem.regions()) {
                        Some(s2) => r == Ok::<(), Error>(()) && final(self).ring() == s2,
                        None => r == Err::<(), Error>(Error::BadState) && final(self).ring() == s,
                    }
                }
            }),
    {
        match self.event_ring.set_seg_table_base_addr(mem, addr) {
            Ok(()) => Ok(()),
            Err(_) => Err(Error::BadState),
        }
    }

    /// Sets the event ring's dequeue pointer; when the guest has caught up
    /// with the enqueue pointer nothing is pending any more. Returns whether
    /// to interrupt the guest.
    pub fn set_event_ring_dequeue_pointer(&mut self, regs: &mut XHCIRegs, addr: GuestAddress) -> (r: bool)
        ensures
            ({
                let s = if addr.0 == old(self).ring().enqueue_pointer {
                    InterrupterState { pending: false, ..old(self)@ }
                } else {
                    old(self)@
                };
                &&& r == fires(s)
                &&& final(self)@ == after_decision(s)
            }),
            final(self).ring() == (EventRingState { dequeue_pointer: addr.0, ..old(self).ring() }),
            regs_after_decision(old(regs), final(regs), r),
    {
        self.event_ring.set_dequeue_pointer(addr);
        if addr.0 == self.event_ring.get_enqueue_pointer().0 {
            self.pending = false;
        }
        self.interrupt_if_needed(regs)
    }

    /// Marks the guest's event handler busy or idle. Returns whether to
    /// interrupt the guest.
    pub fn set_event_handler_busy(&mut self, regs: &mut XHCIRegs, busy: bool) -> (r: bool)
        ensures
            r == fires(InterrupterState { event_handler_busy: busy, ..old(self)@ }),
            final(self)@ == after_decision(InterrupterState { event_handler_busy: busy, ..old(self)@ }),
            final(self).ring() == old(self).ring(),
            regs_after_decision(old(regs), final(regs), r),
    {
        self.event_handler_busy = busy;
        self.interrupt_if_needed(regs)
    }

    fn interrupt_if_needed(&mut self, regs: &mut XHCIRegs) -> (r: bool)
        ensures
            r == fires(old(self)@),
            final(self)@ == after_decision(old(self)@),
            final(self).ring() == old(self).ring(),
            regs_after_decision(old(regs), final(regs), r),
    {
        if self.enabled && self.pending && !self.event_handler_busy {
            self.event_handler_busy = true;
            self.pending = false;
            regs.usbsts.set_bits(USB_STS_EVENT_INTERRUPT);
            regs.iman.set_bits(IMAN_INTERRUPT_PENDING);
            regs.erdp.set_bits(ERDP_EVENT_HANDLER_BUSY);
            true
        } else {
            false
        }
    }
}

} // verus!
