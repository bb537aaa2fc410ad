//! The xHCI controller's logic: what guest register writes do (xHCI
//! chapter 5), the command ring's commands (xHCI 4.6) and the hand-off of
//! transfer descriptors to devices. Waking ring consumers, raising the
//! interrupt and running completion callbacks are left to the caller, told
//! so by the results.
use crate::device_slot::{
    address_outcome, configure_laid_out, ctx_state, device_context_addr, device_context_laid_out, evaluate_outcome, slot_state_at,
    spec_valid_endpoint_id, stop_requested, DeviceSlot,
};
use crate::guest_memory::{Error as MemError, GuestAddress, GuestMemory};
use crate::event_ring::{add_event_post, add_event_result};
use crate::interrupter::{
    after_decision, command_completion_trb, fires, regs_after_decision, transfer_event_trb, Interrupter, InterrupterState,
};
use crate::mmio_register::{
    is_guest_write, range_of, ranges_overlap, read_view, valid_access, BarRange, Register,
    RegisterInterface, RegisterValue, StaticRegister,
};
use crate::ring_buffer_controller::{on_event_post, RingBufferAction, RingBufferController, RingBufferState};
use crate::usb_error::Error;
use crate::usb_hub::{UsbHub, XhciBackendDevice};
use crate::xhci_abi::{
    field32, obj_at, type_of, AddressedTrb, EndpointContext, EndpointState, PrimitiveEnum, TransferDescriptor, Trb,
    TrbCompletionCode, TrbType,
};
use crate::xhci_regs::{
    valid_slot_id, XHCIRegs, XhciMmioSpace, CRCR_COMMAND_RING_POINTER, CRCR_COMMAND_RING_RUNNING,
    CRCR_RING_CYCLE_STATE, DOORBELL_STREAM_ID_OFFSET, DOORBELL_TARGET, ERDP_EVENT_HANDLER_BUSY,
    ERDP_EVENT_RING_DEQUEUE_POINTER, ERSTBA_SEGMENT_TABLE_BASE_ADDRESS, ERSTSZ_SEGMENT_TABLE_SIZE,
    IMAN_INTERRUPT_ENABLE, IMOD_INTERRUPT_MODERATION_COUNTER_OFFSET,
    IMOD_INTERRUPT_MODERATION_INTERVAL, MAX_PORTS, MAX_SLOTS, PORTSC_PORT_ENABLED,
    PORTSC_PORT_LINK_STATE_MASK, PORTSC_PORT_RESET, PORTSC_PORT_RESET_CHANGE,
    PORTSC_WARM_PORT_RESET, USB_CMD_INTERRUPTER_ENABLE, USB_CMD_RESET, USB_CMD_RUNSTOP,
    USB_STS_CONTROLLER_NOT_READY, USB_STS_HALTED,
};
use crate::xhci_transfer::{
    after_cancel, completion_fits, invalid_trb_events, TransferEvent, TransferStatus, XhciTransfer, XhciTransferManager,
    XhciTransferState,
};
use vstd::prelude::*;

verus! {

/// What a write to usbcmd leaves to do.
#[derive(Debug, Copy, Clone, PartialEq, Eq, Structural)]
pub enum UsbcmdAction {
    /// Reset the controller: once every transfer ring has stopped, call
    /// `finish_reset`.
    Reset,
    /// Halt the controller: once every transfer ring has stopped, call
    /// `finish_halt`.
    Halt,
    /// Run.
    Run,
}

/// Which ring consumer a doorbell wakes.
#[derive(Debug, Copy, Clone, PartialEq, Eq, Structural)]
pub enum Wake {
    Nothing,
    CommandRing,
    TransferRing { slot_id: u8, endpoint_id: u8 },
}

/// How a command turned out.
#[derive(Debug, Copy, Clone, PartialEq, Eq, Structural)]
pub enum CommandOutcome {
    /// Done: send a command completion event with this code and slot id.
    Done(TrbCompletionCode, u8),
    /// Waiting for the slot's transfer rings to stop; then call
    /// `finish_disable_slot`.
    DisablePending(u8),
    /// Waiting for the slot's transfer rings to stop; then call
    /// `finish_reset_device`.
    ResetPending(u8),
    /// Waiting for the endpoint's transfer ring to stop; then the command
    /// completes with success for this slot.
    StopEndpointPending(u8),
}

/// The usbcmd value kept after a guest write: the reset bit never stays set.
pub open spec fn usbcmd_kept(value: u32) -> u32 {
    if value & USB_CMD_RESET > 0 {
        value & !USB_CMD_RESET
    } else {
        value
    }
}

/// The portsc value kept after a guest write: a port reset or warm port
/// reset completes at once, leaving the port enabled in link state 0 with
/// the reset change bit set (xHCI 4.19.5).
pub open spec fn portsc_kept(value: u32) -> u32 {
    if value & PORTSC_PORT_RESET > 0 || value & PORTSC_WARM_PORT_RESET > 0 {
        (((value & !PORTSC_PORT_LINK_STATE_MASK) & !PORTSC_PORT_RESET) | PORTSC_PORT_ENABLED)
            | PORTSC_PORT_RESET_CHANGE
    } else {
        value
    }
}

/// The registers that no register callback changes (dnctrl, dcbaap,
/// config, imod, erstsz and erstba) are the same in `new` as in `old`.
pub open spec fn plain_regs_kept(new: XHCIRegs, old: XHCIRegs) -> bool {
    &&& new.dnctrl == old.dnctrl
    &&& new.dcbaap == old.dcbaap
    &&& new.config == old.config
    &&& new.imod == old.imod
    &&& new.erstsz == old.erstsz
    &&& new.erstba == old.erstba
}

/// `new` is `old` after a guest write of `data` at `addr`, for a register
/// without a write callback: it took the written bits its masks let through.
pub open spec fn guest_wrote<T: RegisterValue>(new: Register<T>, old: Register<T>, addr: u64, data: Seq<u8>) -> bool {
    !old.has_write_cb() ==> is_guest_write(
        new.value().spec_value(),
        old.value().spec_value(),
        old.writeable_mask().spec_value(),
        old.w1c_mask().spec_value(),
        old.offset(),
        addr,
        data,
        T::spec_size(),
    )
}

/// The transfer event TRB for `e` on endpoint `endpoint_id` of slot
/// `slot_id`.
pub open spec fn event_trb(e: TransferEvent, slot_id: u8, endpoint_id: u8) -> Trb {
    transfer_event_trb(e.completion_code, e.trb_pointer, e.transfer_length, e.event_data, slot_id, endpoint_id)
}

/// What queueing event `t` did to the interrupter (`i0` to `i1`), memory
/// (`m0` to `m1`) and registers (`g0` to `g1`), `fired` telling whether the
/// guest is to be interrupted: on success an event is pending and the
/// interrupt decision is taken; an event that cannot be queued changes
/// nothing and does not interrupt.
pub open spec fn event_queued(
    i0: Interrupter,
    m0: Seq<(u64, Seq<u8>)>,
    g0: XHCIRegs,
    i1: Interrupter,
    m1: Seq<(u64, Seq<u8>)>,
    g1: XHCIRegs,
    t: Trb,
    fired: bool,
) -> bool {
    let er = add_event_result(i0.ring(), m0, t);
    let pending = InterrupterState { pending: true, ..i0@ };
    &&& add_event_post(i0.ring(), m0, t, er, i1.ring(), m1)
    &&& match er {
        Ok(()) => fired == fires(pending) && i1@ == after_decision(pending) && regs_after_decision(&g0, &g1, fires(pending)),
        Err(_) => !fired && i1@ == i0@ && g1 == g0,
    }
}

/// Interrupters `is`, memories `ms` and registers `gs` are the states
/// before and after queueing each of `events` in turn, `fs` whether each
/// queueing interrupts the guest.
pub open spec fn transfer_events_sent(
    is: Seq<Interrupter>,
    ms: Seq<Seq<(u64, Seq<u8>)>>,
    gs: Seq<XHCIRegs>,
    fs: Seq<bool>,
    events: Seq<TransferEvent>,
    slot_id: u8,
    endpoint_id: u8,
) -> bool {
    &&& is.len() == events.len() + 1
    &&& ms.len() == events.len() + 1
    &&& gs.len() == events.len() + 1
    &&& fs.len() == events.len()
    &&& forall|k: int| 0 <= k < events.len() ==> event_queued(
        #[trigger] is[k],
        ms[k],
        gs[k],
        is[k + 1],
        ms[k + 1],
        gs[k + 1],
        event_trb(events[k], slot_id, endpoint_id),
        fs[k],
    )
}

proof fn lemma_push_contains(s: Seq<bool>, b: bool)
    ensures
        s.push(b).contains(true) == (s.contains(true) || b),
{
    if s.contains(true) {
        let k = choose|k: int| 0 <= k < s.len() && s[k] == true;
        assert(s.push(b)[k] == true);
    }
    if b {
        assert(s.push(b)[s.len() as int] == true);
    }
    if s.push(b).contains(true) {
        let k = choose|k: int| 0 <= k < s.push(b).len() && s.push(b)[k] == true;
        if k < s.len() {
            assert(s[k] == true);
        }
    }
}

/// A guest write of `len` bytes at `addr` touches register `r`.
pub open spec fn touched<T: RegisterValue>(r: Register<T>, addr: u64, len: nat) -> bool {
    ranges_overlap(range_of(r.offset(), T::spec_size()), range_of(addr, len))
}

/// Of the registers whose writes have side effects, and dcbaap, a guest
/// write of `len` bytes at `addr` touches doorbell `i` only.
pub open spec fn only_doorbell(regs: XHCIRegs, addr: u64, len: nat, i: int) -> bool {
    &&& 0 <= i < regs.doorbells@.len()
    &&& touched(regs.doorbells@[i], addr, len)
    &&& !regs.doorbells@[i].has_write_cb()
    &&& !touched(regs.usbcmd, addr, len)
    &&& !touched(regs.crcr, addr, len)
    &&& !touched(regs.dcbaap, addr, len)
    &&& forall|j: int| 0 <= j < regs.portsc@.len() ==> !touched(#[trigger] regs.portsc@[j], addr, len)
    &&& forall|j: int| 0 <= j < regs.doorbells@.len() && j != i ==> !touched(#[trigger] regs.doorbells@[j], addr, len)
    &&& !touched(regs.iman, addr, len)
    &&& !touched(regs.imod, addr, len)
    &&& !touched(regs.erstsz, addr, len)
    &&& !touched(regs.erstba, addr, len)
    &&& !touched(regs.erdp, addr, len)
}

/// `v` is what a guest write of `data` at `addr` makes of `reg`'s value,
/// through its masks.
pub open spec fn written_as<T: RegisterValue>(reg: Register<T>, v: T, addr: u64, data: Seq<u8>) -> bool {
    is_guest_write(
        v.spec_value(),
        reg.value().spec_value(),
        reg.writeable_mask().spec_value(),
        reg.w1c_mask().spec_value(),
        reg.offset(),
        addr,
        data,
        T::spec_size(),
    )
}

/// What a usbcmd value asks for.
pub open spec fn usbcmd_action(value: u32) -> UsbcmdAction {
    if value & USB_CMD_RESET > 0 {
        UsbcmdAction::Reset
    } else if value & USB_CMD_RUNSTOP > 0 {
        UsbcmdAction::Run
    } else {
        UsbcmdAction::Halt
    }
}

/// After a guest write of `data` at `addr` to registers `regs`, usbcmd is
/// `cmd` and the action asked for `action`: a write to usbcmd keeps
/// `usbcmd_kept` of the written value and asks for what it says; usbcmd is
/// left alone otherwise.
pub open spec fn usbcmd_written(regs: XHCIRegs, cmd: Register<u32>, action: Option<UsbcmdAction>, addr: u64, data: Seq<u8>) -> bool {
    !regs.usbcmd.has_write_cb() ==> if touched(regs.usbcmd, addr, data.len()) {
        exists|v: u32|
            #![trigger written_as(regs.usbcmd, v, addr, data)]
            written_as(regs.usbcmd, v, addr, data) && cmd.value() == usbcmd_kept(v) && action == Some(usbcmd_action(v))
    } else {
        cmd == regs.usbcmd && action is None
    }
}

/// After a guest write of `data` at `addr` to registers `regs`, the port
/// status registers are `ps`: each written one keeps `portsc_kept` of the
/// written value, the others are left alone.
pub open spec fn portsc_written(regs: XHCIRegs, ps: Seq<Register<u32>>, addr: u64, data: Seq<u8>) -> bool {
    portsc_written_upto(regs, ps, addr, data, ps.len() as int)
}

/// The first `n` port status registers of `ps` are as `portsc_written`
/// says; the others are as they were.
pub open spec fn portsc_written_upto(regs: XHCIRegs, ps: Seq<Register<u32>>, addr: u64, data: Seq<u8>, n: int) -> bool {
    &&& ps.len() == regs.portsc@.len()
    &&& forall|i: int|
        #![trigger ps[i]]
        #![trigger regs.portsc@[i]]
        0 <= i < n && i < ps.len() && !regs.portsc@[i].has_write_cb() ==> if touched(regs.portsc@[i], addr, data.len()) {
            exists|v: u32|
                #![trigger written_as(regs.portsc@[i], v, addr, data)]
                written_as(regs.portsc@[i], v, addr, data) && ps[i].value() == portsc_kept(v)
        } else {
            ps[i] == regs.portsc@[i]
        }
    &&& forall|i: int| #![trigger ps[i]] n <= i < ps.len() ==> ps[i] == regs.portsc@[i]
}

/// After a guest write of `data` at `addr` to registers `regs` that leaves
/// usbcmd alone, the command ring is `cr`: a write to crcr while the ring
/// does not run sets the ring's dequeue pointer and cycle state.
pub open spec fn crcr_written(regs: XHCIRegs, cr: RingBufferController, addr: u64, data: Seq<u8>) -> bool {
    (!regs.crcr.has_write_cb() && touched(regs.crcr, addr, data.len()) && !touched(regs.usbcmd, addr, data.len())
        && regs.crcr.value() & CRCR_COMMAND_RING_RUNNING == 0) ==> exists|v: u64|
        #![trigger written_as(regs.crcr, v, addr, data)]
        {
            &&& written_as(regs.crcr, v, addr, data)
            &&& cr.ring().dequeue_pointer() == v & CRCR_COMMAND_RING_POINTER
            &&& cr.ring().consumer_cycle_state() == (v & CRCR_RING_CYCLE_STATE > 0)
        }
}

/// A guest write of `len` bytes at `addr` touches neither usbcmd nor a port
/// status register, whose callbacks may raise the interrupt and so change
/// iman and erdp before their own writes are applied.
pub open spec fn no_event_before_iman(regs: XHCIRegs, addr: u64, len: nat) -> bool {
    &&& !touched(regs.usbcmd, addr, len)
    &&& forall|j: int| 0 <= j < regs.portsc@.len() ==> !touched(#[trigger] regs.portsc@[j], addr, len)
}

/// After a guest write of `data` at `addr` to registers `regs`, with usbcmd
/// then `cmd`, the interrupter is `it`: each written interrupter register
/// took the written value (iman: enabled when usbcmd enables interrupts
/// too; imod: moderation interval and counter; erstsz: segment table size;
/// erstba: segment table address; erdp: dequeue pointer).
pub open spec fn interrupter_written(regs: XHCIRegs, cmd: Register<u32>, it: Interrupter, addr: u64, data: Seq<u8>) -> bool {
    &&& (!regs.iman.has_write_cb() && touched(regs.iman, addr, data.len()) && no_event_before_iman(regs, addr, data.len()))
        ==> exists|v: u32|
        #![trigger written_as(regs.iman, v, addr, data)]
        written_as(regs.iman, v, addr, data) && it@.enabled == (v & IMAN_INTERRUPT_ENABLE > 0 && cmd.value()
            & USB_CMD_INTERRUPTER_ENABLE > 0)
    &&& (!regs.imod.has_write_cb() && touched(regs.imod, addr, data.len())) ==> exists|v: u32|
        #![trigger written_as(regs.imod, v, addr, data)]
        written_as(regs.imod, v, addr, data) && it@.moderation_interval == (v & IMOD_INTERRUPT_MODERATION_INTERVAL) as u16
            && it@.moderation_counter == (v >> IMOD_INTERRUPT_MODERATION_COUNTER_OFFSET) as u16
    &&& (!regs.erstsz.has_write_cb() && touched(regs.erstsz, addr, data.len())) ==> exists|v: u32|
        #![trigger written_as(regs.erstsz, v, addr, data)]
        written_as(regs.erstsz, v, addr, data) && it.ring().segment_table_size == (v & ERSTSZ_SEGMENT_TABLE_SIZE) as u16
    &&& (!regs.erstba.has_write_cb() && touched(regs.erstba, addr, data.len())) ==> exists|v: u64|
        #![trigger written_as(regs.erstba, v, addr, data)]
        written_as(regs.erstba, v, addr, data) && it.ring().segment_table_base_address == v & ERSTBA_SEGMENT_TABLE_BASE_ADDRESS
    &&& (!regs.erdp.has_write_cb() && touched(regs.erdp, addr, data.len()) && no_event_before_iman(regs, addr, data.len())
        && !touched(regs.iman, addr, data.len()) && !touched(regs.imod, addr, data.len())) ==> exists|v: u64|
        #![trigger written_as(regs.erdp, v, addr, data)]
        written_as(regs.erdp, v, addr, data) && it.ring().dequeue_pointer == v & ERDP_EVENT_RING_DEQUEUE_POINTER
}

/// The slot a command names: slot ids run from 1 to `MAX_SLOTS`.
pub open spec fn slot_index(slot_id: u8) -> int {
    slot_id - 1
}

/// A register as seen by a guest read: its value and its byte range.
pub open spec fn window<T: RegisterValue>(r: Register<T>) -> (u64, BarRange) {
    (r.value().spec_value(), range_of(r.offset(), T::spec_size()))
}

/// A fixed register as seen by a guest read.
pub open spec fn static_window<T: RegisterValue>(r: StaticRegister<T>) -> (u64, BarRange) {
    (r.value().spec_value(), range_of(r.offset(), T::spec_size()))
}

/// The bytes a guest read of the registers `w`, one after the other,
/// leaves in `d`: each byte in a register's range holds that register's
/// byte.
pub open spec fn fold_reads(d: Seq<u8>, w: Seq<(u64, BarRange)>, addr: u64) -> Seq<u8>
    decreases w.len(),
{
    if w.len() == 0 {
        d
    } else {
        read_view(fold_reads(d, w.drop_last(), addr), w.last().0, w.last().1, addr)
    }
}

/// Every register of the register file, in the order reads visit them.
pub open spec fn all_windows(m: XhciMmioSpace, regs: XHCIRegs) -> Seq<(u64, BarRange)> {
    seq![static_window(m.caplength), static_window(m.hciversion)]
        + m.statics@.map_values(|r: StaticRegister<u32>| static_window(r))
        + seq![window(regs.usbcmd), window(regs.usbsts), window(regs.dnctrl), window(regs.crcr), window(regs.dcbaap), window(regs.config)]
        + regs.portsc@.map_values(|r: Register<u32>| window(r))
        + m.portpmsc@.map_values(|r: Register<u32>| window(r))
        + m.portli@.map_values(|r: Register<u32>| window(r))
        + m.porthlpmc@.map_values(|r: Register<u32>| window(r))
        + regs.doorbells@.map_values(|r: Register<u32>| window(r))
        + seq![window(regs.iman), window(regs.imod), window(regs.erstsz), window(regs.erstba), window(regs.erdp)]
}

/// Reads every register of `v` into `data`, after the registers `acc`.
fn read_registers(v: &Vec<Register<u32>>, addr: u64, data: &mut [u8], Ghost(d0): Ghost<Seq<u8>>, Ghost(acc): Ghost<Seq<(u64, BarRange)>>)
    requires
        valid_access(addr, old(data)@.len()),
        old(data)@ == fold_reads(d0, acc, addr),
    ensures
        final(data)@.len() == old(data)@.len(),
        final(data)@ == fold_reads(d0, acc + v@.map_values(|r: Register<u32>| window(r)), addr),
{
    let mut i: usize = 0;
    while i < v.len()
        invariant
            i <= v@.len(),
            valid_access(addr, data@.len()),
            data@.len() == old(data)@.len(),
            data@ == fold_reads(d0, acc + v@.subrange(0, i as int).map_values(|r: Register<u32>| window(r)), addr),
        decreases v@.len() - i,
    {
        let ghost before = acc + v@.subrange(0, i as int).map_values(|r: Register<u32>| window(r));
        v[i].read_bar(addr, data);
        proof {
            let after = acc + v@.subrange(0, i + 1).map_values(|r: Register<u32>| window(r));
            assert(after.drop_last() =~= before);
            assert(after.last() == window(v@[i as int]));
        }
        i = i + 1;
    }
    assert(v@.subrange(0, v@.len() as int) =~= v@);
}

/// Reads one register into `data`, after the registers `acc`.
fn read_one<T: RegisterValue>(r: &Register<T>, addr: u64, data: &mut [u8], Ghost(d0): Ghost<Seq<u8>>, Ghost(acc): Ghost<Seq<(u64, BarRange)>>)
    requires
        valid_access(addr, old(data)@.len()),
        old(data)@ == fold_reads(d0, acc, addr),
    ensures
        final(data)@.len() == old(data)@.len(),
        final(data)@ == fold_reads(d0, acc.push(window(*r)), addr),
{
    r.read_bar(addr, data);
    assert(acc.push(window(*r)).drop_last() =~= acc);
}

/// Reads one fixed register into `data`, after the registers `acc`.
fn read_static<T: RegisterValue>(r: &StaticRegister<T>, addr: u64, data: &mut [u8], Ghost(d0): Ghost<Seq<u8>>, Ghost(acc): Ghost<Seq<(u64, BarRange)>>)
    requires
        valid_access(addr, old(data)@.len()),
        old(data)@ == fold_reads(d0, acc, addr),
    ensures
        final(data)@.len() == old(data)@.len(),
        final(data)@ == fold_reads(d0, acc.push(static_window(*r)), addr),
{
    r.read_bar(addr, data);
    assert(acc.push(static_window(*r)).drop_last() =~= acc);
}

/// Reads every fixed register of `v` into `data`, after the registers
/// `acc`.
fn read_statics(v: &Vec<StaticRegister<u32>>, addr: u64, data: &mut [u8], Ghost(d0): Ghost<Seq<u8>>, Ghost(acc): Ghost<Seq<(u64, BarRange)>>)
    requires
        valid_access(addr, old(data)@.len()),
        old(data)@ == fold_reads(d0, acc, addr),
    ensures
        final(data)@.len() == old(data)@.len(),
        final(data)@ == fold_reads(d0, acc + v@.map_values(|r: StaticRegister<u32>| static_window(r)), addr),
{
    let mut i: usize = 0;
    while i < v.len()
        invariant
            i <= v@.len(),
            valid_access(addr, data@.len()),
            data@.len() == old(data)@.len(),
            data@ == fold_reads(d0, acc + v@.subrange(0, i as int).map_values(|r: StaticRegister<u32>| static_window(r)), addr),
        decreases v@.len() - i,
    {
        let ghost before = acc + v@.subrange(0, i as int).map_values(|r: StaticRegister<u32>| static_window(r));
        v[i].read_bar(addr, data);
        proof {
            let after = acc + v@.subrange(0, i + 1).map_values(|r: StaticRegister<u32>| static_window(r));
            assert(after.drop_last() =~= before);
            assert(after.last() == static_window(v@[i as int]));
        }
        i = i + 1;
    }
    assert(v@.subrange(0, v@.len() as int) =~= v@);
}

/// What a guest register write leaves to do.
pub struct WriteOutcome {
    /// A usbcmd write asked to reset, halt or run the controller.
    pub usbcmd: Option<UsbcmdAction>,
    /// Ring consumers to wake.
    pub wake: Vec<Wake>,
    /// Whether to interrupt the guest.
    pub interrupt: bool,
}

/// Applies a guest write to each register of `v`.
fn write_registers(v: &mut Vec<Register<u32>>, addr: u64, data: &[u8])
    requires
        valid_access(addr, data@.len()),
    ensures
        final(v)@.len() == old(v)@.len(),
        forall|i: int| 0 <= i < old(v)@.len() ==> (#[trigger] final(v)@[i]).same_layout(old(v)@[i])
            && final(v)@[i].has_write_cb() == old(v)@[i].has_write_cb()
            && guest_wrote(final(v)@[i], old(v)@[i], addr, data@),
{
    let mut i: usize = 0;
    while i < v.len()
        invariant
            valid_access(addr, data@.len()),
            v@.len() == old(v)@.len(),
            forall|k: int| 0 <= k < old(v)@.len() ==> (#[trigger] v@[k]).same_layout(old(v)@[k])
                && v@[k].has_write_cb() == old(v)@[k].has_write_cb(),
            forall|k: int| 0 <= k < i ==> guest_wrote(#[trigger] v@[k], old(v)@[k], addr, data@),
            forall|k: int| i <= k < old(v)@.len() ==> #[trigger] v@[k] == old(v)@[k],
        decreases v@.len() - i,
    {
        let mut r = v.remove(i);
        r.write_bar(addr, data);
        v.insert(i, r);
        i = i + 1;
    }
}

/// The controller: registers, interrupter, root hub, command ring, device
/// slots and transfers in flight.
pub struct Xhci<D> {
    regs: XHCIRegs,
    interrupter: Interrupter,
    hub: UsbHub<D>,
    command_ring: RingBufferController,
    slots: Vec<DeviceSlot>,
    transfers: XhciTransferManager,
}

impl<D: XhciBackendDevice> Xhci<D> {
    pub closed spec fn regs(self) -> XHCIRegs {
        self.regs
    }

    pub closed spec fn interrupter(self) -> Interrupter {
        self.interrupter
    }

    pub closed spec fn hub(self) -> UsbHub<D> {
        self.hub
    }

    pub closed spec fn command_ring(self) -> RingBufferController {
        self.command_ring
    }

    pub closed spec fn transfers(self) -> XhciTransferManager {
        self.transfers
    }

    pub closed spec fn slot(self, slot_id: u8) -> DeviceSlot {
        self.slots@[slot_index(slot_id)]
    }

    /// What writing `value` to doorbell `index` wakes, over memory `m`
    /// (xHCI 4.7); `None` when the endpoint context it names cannot be
    /// read. Only a running controller answers doorbells: doorbell 0 with
    /// target and stream 0 starts the command ring; doorbell `n` of a slot
    /// starts the transfer ring of the endpoint its target names, when that
    /// endpoint's context says it runs.
    pub open spec fn doorbell_wake(self, m: Seq<(u64, Seq<u8>)>, index: u32, value: u32) -> Option<Wake> {
        let target = value & DOORBELL_TARGET;
        if self.regs().usbcmd.value() & USB_CMD_RUNSTOP == 0 {
            Some(Wake::Nothing)
        } else if index == 0 {
            if target != 0 || (value >> DOORBELL_STREAM_ID_OFFSET) as u16 != 0 {
                Some(Wake::Nothing)
            } else if self.command_ring().state() != RingBufferState::Running {
                Some(Wake::CommandRing)
            } else {
                Some(Wake::Nothing)
            }
        } else if index > MAX_SLOTS {
            Some(Wake::Nothing)
        } else {
            let slot = self.slot(index as u8);
            if !(1 <= target < 32 && slot.trc(target - 1) is Some) {
                Some(Wake::Nothing)
            } else {
                match device_context_addr(m, self.regs().dcbaap.value(), index as u8) {
                    None => None,
                    Some(a) => match obj_at::<EndpointContext>(m, a + target * 32) {
                        None => None,
                        Some(ep) => Some(
                            if field32(ep.d0, 0, 0x7) == EndpointState::Running.spec_to() && slot.trc(
                                target - 1,
                            ).unwrap().state() != RingBufferState::Running {
                                Wake::TransferRing { slot_id: index as u8, endpoint_id: target as u8 }
                            } else {
                                Wake::Nothing
                            },
                        ),
                    },
                }
            }
        }
    }

    /// What a guest write of `data` at offset `addr` of the register file
    /// does, from this controller over memory `m0` to `after`, with result
    /// `r`: whether usbcmd asks for an action, the doorbells rung, the
    /// registers without side effects written through their masks, and when
    /// it succeeds.
    pub open spec fn write_bar_post(
        self,
        m0: Seq<(u64, Seq<u8>)>,
        addr: u64,
        data: Seq<u8>,
        r: Result<WriteOutcome, MemError>,
        after: Self,
    ) -> bool {
        &&& r matches Ok(o) ==> (o.usbcmd is Some == ranges_overlap(
            range_of(self.regs().usbcmd.offset(), 4),
            range_of(addr, data.len()),
        ))
        &&& r matches Ok(o) ==> o.wake@.len() <= MAX_SLOTS + 1
        &&& r matches Ok(o) ==> usbcmd_written(self.regs(), after.regs().usbcmd, o.usbcmd, addr, data)
        &&& r is Ok ==> portsc_written(self.regs(), after.regs().portsc@, addr, data)
        &&& r is Ok ==> crcr_written(self.regs(), after.command_ring(), addr, data)
        &&& r is Ok ==> interrupter_written(self.regs(), after.regs().usbcmd, after.interrupter(), addr, data)
        &&& guest_wrote(after.regs().dnctrl, self.regs().dnctrl, addr, data)
        &&& guest_wrote(after.regs().dcbaap, self.regs().dcbaap, addr, data)
        &&& guest_wrote(after.regs().config, self.regs().config, addr, data)
        &&& (forall|j: int| 1 <= j < self.regs().doorbells@.len() ==> !touched(#[trigger] self.regs().doorbells@[j], addr, data.len()))
            ==> r is Ok
        &&& forall|i: int| #[trigger] only_doorbell(self.regs(), addr, data.len(), i) ==> exists|v: u32|
            #![trigger self.doorbell_wake(m0, i as u32, v)]
            {
            &&& is_guest_write(
                v as u64,
                self.regs().doorbells@[i].value() as u64,
                self.regs().doorbells@[i].writeable_mask() as u64,
                self.regs().doorbells@[i].w1c_mask() as u64,
                self.regs().doorbells@[i].offset(),
                addr,
                data,
                4,
            )
            &&& match self.doorbell_wake(m0, i as u32, v) {
                Some(w) => r matches Ok(o) && o.wake@ == seq![w] && o.usbcmd is None,
                None => r is Err,
            }
        }
    }

    pub closed spec fn wf(self) -> bool {
        &&& self.regs.portsc@.len() == MAX_PORTS
        &&& self.regs.doorbells@.len() == MAX_SLOTS + 1
        &&& self.hub.wf()
        &&& self.transfers.wf()
        &&& self.slots@.len() == MAX_SLOTS
        &&& forall|i: int| 0 <= i < MAX_SLOTS ==> (#[trigger] self.slots@[i]).wf() && self.slots@[i].slot_id() == i + 1
    }

    /// A controller with the given registers, no devices and every slot
    /// disabled.
    pub fn new(regs: XHCIRegs) -> (r: Xhci<D>)
        requires
            regs.portsc@.len() == MAX_PORTS,
            regs.doorbells@.len() == MAX_SLOTS + 1,
        ensures
            r.wf(),
            r.regs() == regs,
            r.command_ring().state() == RingBufferState::Stopped,
            forall|s: u8| 1 <= s <= MAX_SLOTS ==> !(#[trigger] r.slot(s)).enabled(),
    {
        let mut slots: Vec<DeviceSlot> = Vec::new();
        let mut i: u8 = 0;
        while i < MAX_SLOTS
            invariant
                i <= MAX_SLOTS,
                slots@.len() == i,
                forall|k: int| 0 <= k < i ==> (#[trigger] slots@[k]).wf() && slots@[k].slot_id() == k + 1 && !slots@[k].enabled(),
            decreases MAX_SLOTS - i,
        {
            slots.push(DeviceSlot::new(i + 1));
            i = i + 1;
        }
        Xhci {
            regs,
            interrupter: Interrupter::new(),
            hub: UsbHub::new(),
            command_ring: RingBufferController::create_controller(),
            slots,
            transfers: XhciTransferManager::new(),
        }
    }

    /// The registers.
    pub fn get_regs(&self) -> (r: &XHCIRegs)
        ensures
            *r == self.regs(),
    {
        &self.regs
    }

    /// A guest wrote `value` to usbcmd. Returns the value to keep, what is
    /// left to do, and whether to interrupt the guest. A reset sets the
    /// controller-not-ready bit and stops every transfer ring; running
    /// clears the halted bit; stopping stops every transfer ring and the
    /// command ring. The interrupter is enabled when both usbcmd and iman
    /// enable interrupts.
    pub fn usbcmd_callback(&mut self, value: u32) -> (r: (u32, UsbcmdAction, bool))
        requires
            old(self).wf(),
        ensures
            final(self).wf(),
            plain_regs_kept(final(self).regs(), old(self).regs()),
            final(self).regs().doorbells@ == old(self).regs().doorbells@,
            final(self).regs().portsc@ == old(self).regs().portsc@,
            r.0 == usbcmd_kept(value),
            r.1 == if value & USB_CMD_RESET > 0 {
                UsbcmdAction::Reset
            } else if value & USB_CMD_RUNSTOP > 0 {
                UsbcmdAction::Run
            } else {
                UsbcmdAction::Halt
            },
            value & USB_CMD_RESET > 0 ==> !r.2 && final(self).regs().usbsts.value().spec_value()
                == old(self).regs().usbsts.value().spec_value() | (USB_STS_CONTROLLER_NOT_READY as u64),
            value & USB_CMD_RESET == 0 && value & USB_CMD_RUNSTOP == 0 ==> final(self).regs().crcr.value().spec_value()
                == old(self).regs().crcr.value().spec_value() & !CRCR_COMMAND_RING_RUNNING,
            value & USB_CMD_RESET == 0 ==> final(self).interrupter()@.enabled == (value & USB_CMD_INTERRUPTER_ENABLE > 0
                && old(self).regs().iman.value() & IMAN_INTERRUPT_ENABLE > 0),
    {
        if (value & USB_CMD_RESET) > 0 {
            self.regs.usbsts.set_bits(USB_STS_CONTROLLER_NOT_READY);
            self.stop_all_transfer_rings();
            return (value & (!USB_CMD_RESET), UsbcmdAction::Reset, false);
        }
        let action = if (value & USB_CMD_RUNSTOP) > 0 {
            self.regs.usbsts.clear_bits(USB_STS_HALTED);
            UsbcmdAction::Run
        } else {
            self.stop_all_transfer_rings();
            self.regs.crcr.clear_bits(CRCR_COMMAND_RING_RUNNING);
            UsbcmdAction::Halt
        };
        let enabled = (value & USB_CMD_INTERRUPTER_ENABLE) > 0
            && (self.regs.iman.get_value() & IMAN_INTERRUPT_ENABLE) > 0;
        let fire = self.interrupter.set_enabled(&mut self.regs, enabled);
        (value, action, fire)
    }

    /// Asks every transfer ring of every slot to stop.
    fn stop_all_transfer_rings(&mut self)
        requires
            old(self).wf(),
        ensures
            final(self).wf(),
            final(self).regs() == old(self).regs(),
            final(self).interrupter() == old(self).interrupter(),
            final(self).hub == old(self).hub,
            final(self).transfers == old(self).transfers,
            final(self).command_ring == old(self).command_ring,
            forall|k: int| 0 <= k < MAX_SLOTS ==> stop_requested(old(self).slots@[k], #[trigger] final(self).slots@[k]),
    {
        let mut i: usize = 0;
        while i < self.slots.len()
            invariant
                self.wf(),
                self.regs == old(self).regs(),
                self.interrupter == old(self).interrupter(),
                self.hub == old(self).hub,
                self.transfers == old(self).transfers,
                self.command_ring == old(self).command_ring,
                forall|k: int| 0 <= k < i ==> stop_requested(old(self).slots@[k], #[trigger] self.slots@[k]),
                forall|k: int| i <= k < MAX_SLOTS ==> #[trigger] self.slots@[k] == old(self).slots@[k],
            decreases self.slots@.len() - i,
        {
            let mut slot = self.slots.remove(i);
            slot.stop_all_trc();
            self.slots.insert(i, slot);
            proof {
                self.reestablish_slots(i);
            }
            i = i + 1;
        }
    }

    /// The transfer rings stopped after a reset: every slot and the hub are
    /// reset, and the controller is ready again. Returns whether to
    /// interrupt the guest.
    pub fn finish_reset(&mut self, mem: &mut GuestMemory) -> (r: bool)
        requires
            old(self).wf(),
        ensures
            final(self).wf(),
            forall|s: u8| 1 <= s <= MAX_SLOTS ==> !(#[trigger] final(self).slot(s)).enabled(),
            final(self).regs().usbsts.value().spec_value() & (USB_STS_CONTROLLER_NOT_READY as u64) == 0,
    {
        let mut fire = false;
        let mut i: usize = 0;
        while i < self.slots.len()
            invariant
                self.wf(),
                i <= MAX_SLOTS,
                forall|k: int| 0 <= k < i ==> !(#[trigger] self.slots@[k]).enabled(),
            decreases self.slots@.len() - i,
        {
            let mut slot = self.slots.remove(i);
            slot.reset();
            self.slots.insert(i, slot);
            proof {
                self.reestablish_slots(i);
            }
            if self.hub.reset(&mut self.regs, &mut self.interrupter, mem) {
                fire = true;
            }
            i = i + 1;
        }
        let ghost before = self.regs.usbsts.value().spec_value();
        self.regs.usbsts.clear_bits(USB_STS_CONTROLLER_NOT_READY);
        proof {
            assert((before & !0x800u64) & 0x800u64 == 0) by (bit_vector);
        }
        fire
    }

    /// The transfer rings stopped after a halt: the controller is halted.
    pub fn finish_halt(&mut self)
        requires
            old(self).wf(),
        ensures
            final(self).wf(),
            final(self).regs().usbsts.value().spec_value() == old(self).regs().usbsts.value().spec_value() | (USB_STS_HALTED as u64),
    {
        self.regs.usbsts.set_bits(USB_STS_HALTED);
    }

    /// A guest wrote `value` to crcr. While the command ring runs the write
    /// is ignored; otherwise the ring's dequeue pointer and cycle state are
    /// taken from it. Returns the value to keep.
    pub fn crcr_callback(&mut self, value: u64) -> (r: u64)
        requires
            old(self).wf(),
        ensures
            final(self).wf(),
            plain_regs_kept(final(self).regs(), old(self).regs()),
            final(self).regs().doorbells@ == old(self).regs().doorbells@,
            final(self).regs().iman == old(self).regs().iman,
            final(self).regs().erdp == old(self).regs().erdp,
            final(self).regs().usbcmd == old(self).regs().usbcmd,
            final(self).regs().portsc@ == old(self).regs().portsc@,
            final(self).interrupter() == old(self).interrupter(),
            old(self).regs().crcr.value() & CRCR_COMMAND_RING_RUNNING == 0 ==> {
                &&& r == value
                &&& final(self).command_ring().ring().dequeue_pointer() == value & CRCR_COMMAND_RING_POINTER
                &&& final(self).command_ring().ring().consumer_cycle_state() == (value & CRCR_RING_CYCLE_STATE > 0)
                &&& final(self).command_ring().state() == old(self).command_ring().state()
            },
            old(self).regs().crcr.value() & CRCR_COMMAND_RING_RUNNING != 0 ==> r == old(self).regs().crcr.value()
                && final(self).command_ring() == old(self).command_ring(),
    {
        if (self.regs.crcr.get_value() & CRCR_COMMAND_RING_RUNNING) == 0 {
            self.command_ring.set_dequeue_pointer(GuestAddress(value & CRCR_COMMAND_RING_POINTER));
            self.command_ring.set_consumer_cycle_state((value & CRCR_RING_CYCLE_STATE) > 0);
            value
        } else {
            self.regs.crcr.get_value()
        }
    }

    /// A guest wrote `value` to the portsc register of port `index + 1`.
    /// Returns the value to keep (`portsc_kept`) and whether to interrupt
    /// the guest; a reset also sends a port status change event.
    pub fn portsc_callback(&mut self, mem: &mut GuestMemory, index: u32, value: u32) -> (r: (u32, bool))
        requires
            old(self).wf(),
            index < MAX_PORTS,
        ensures
            final(self).wf(),
            plain_regs_kept(final(self).regs(), old(self).regs()),
            final(self).regs().doorbells@ == old(self).regs().doorbells@,
            final(self).regs().usbcmd == old(self).regs().usbcmd,
            final(self).regs().portsc@ == old(self).regs().portsc@,
            final(self).command_ring() == old(self).command_ring(),
            r.0 == portsc_kept(value),
            !(value & PORTSC_PORT_RESET > 0 || value & PORTSC_WARM_PORT_RESET > 0) ==> !r.1
                && final(self).interrupter()@ == old(self).interrupter()@,
    {
        let mut value = value;
        let mut fire = false;
        if (value & PORTSC_PORT_RESET) > 0 || (value & PORTSC_WARM_PORT_RESET) > 0 {
            value = value & !PORTSC_PORT_LINK_STATE_MASK;
            value = value & !PORTSC_PORT_RESET;
            value = value | PORTSC_PORT_ENABLED;
            value = value | PORTSC_PORT_RESET_CHANGE;
            fire = match self.interrupter.send_port_status_change_trb(&mut self.regs, mem, (index + 1) as u8) {
                Ok(b) => b,
                Err(_) => false,
            };
        }
        (value, fire)
    }

    /// A guest wrote `value` to doorbell `index` (xHCI 4.7). While the
    /// controller runs, doorbell 0 with target and stream 0 starts the
    /// command ring, and doorbell `n` rings slot `n`. Returns the ring
    /// consumer to wake.
    pub fn doorbell_callback(&mut self, mem: &GuestMemory, index: u32, value: u32) -> (r: Result<Wake, MemError>)
        requires
            old(self).wf(),
        ensures
            final(self).wf(),
            plain_regs_kept(final(self).regs(), old(self).regs()),
            final(self).regs().doorbells@ == old(self).regs().doorbells@,
            final(self).regs().iman == old(self).regs().iman,
            final(self).regs().erdp == old(self).regs().erdp,
            final(self).regs().usbcmd == old(self).regs().usbcmd,
            final(self).regs().portsc@ == old(self).regs().portsc@,
            final(self).interrupter() == old(self).interrupter(),
            final(self).command_ring().ring() == old(self).command_ring().ring(),
            old(self).regs().usbcmd.value() & USB_CMD_RUNSTOP == 0 ==> r == Ok::<Wake, MemError>(Wake::Nothing)
                && *final(self) == *old(self),
            old(self).regs().usbcmd.value() & USB_CMD_RUNSTOP > 0 && index == 0 ==> if value & DOORBELL_TARGET != 0
                || (value >> DOORBELL_STREAM_ID_OFFSET) as u16 != 0 {
                r == Ok::<Wake, MemError>(Wake::Nothing) && *final(self) == *old(self)
            } else {
                &&& final(self).regs().crcr.value().spec_value() == old(self).regs().crcr.value().spec_value() | CRCR_COMMAND_RING_RUNNING
                &&& final(self).command_ring().state() == RingBufferState::Running
                &&& r == Ok::<Wake, MemError>(if old(self).command_ring().state() != RingBufferState::Running {
                    Wake::CommandRing
                } else {
                    Wake::Nothing
                })
            },
            old(self).regs().usbcmd.value() & USB_CMD_RUNSTOP > 0 && index > MAX_SLOTS ==> r == Ok::<Wake, MemError>(Wake::Nothing)
                && *final(self) == *old(self),
            match old(self).doorbell_wake(mem.regions(), index, value) {
                Some(w) => r == Ok::<Wake, MemError>(w),
                None => r is Err,
            },
    {
        let target = value & DOORBELL_TARGET;
        let stream_id: u16 = (value >> DOORBELL_STREAM_ID_OFFSET) as u16;
        if (self.regs.usbcmd.get_value() & USB_CMD_RUNSTOP) == 0 {
            return Ok(Wake::Nothing);
        }
        if index == 0 {
            if target != 0 || stream_id != 0 {
                return Ok(Wake::Nothing);
            }
            self.regs.crcr.set_bits(CRCR_COMMAND_RING_RUNNING);
            if self.command_ring.start() {
                return Ok(Wake::CommandRing);
            }
            return Ok(Wake::Nothing);
        }
        if index > MAX_SLOTS as u32 {
            return Ok(Wake::Nothing);
        }
        let slot_id = index as u8;
        let i = (slot_id - 1) as usize;
        let dcbaap = self.regs.dcbaap.get_value();
        let mut slot = self.slots.remove(i);
        let res = slot.ring_doorbell(mem, dcbaap, target as usize, stream_id);
        self.slots.insert(i, slot);
        proof {
            assert forall|k: int| 0 <= k < MAX_SLOTS implies (#[trigger] self.slots@[k]).wf() && self.slots@[k].slot_id() == k + 1 by {
                if k != i {
                    assert(self.slots@[k] == old(self).slots@[k]);
                }
            }
        }
        match res {
            Ok((_, true)) => Ok(Wake::TransferRing { slot_id, endpoint_id: target as u8 }),
            Ok(_) => Ok(Wake::Nothing),
            Err(e) => Err(e),
        }
    }

    /// A guest wrote `value` to iman: the interrupter is enabled when both
    /// iman and usbcmd enable interrupts. Returns whether to interrupt the
    /// guest.
    pub fn iman_callback(&mut self, value: u32) -> (r: bool)
        requires
            old(self).wf(),
        ensures
            final(self).wf(),
            plain_regs_kept(final(self).regs(), old(self).regs()),
            final(self).regs().doorbells@ == old(self).regs().doorbells@,
            final(self).regs().usbcmd == old(self).regs().usbcmd,
            final(self).regs().portsc@ == old(self).regs().portsc@,
            final(self).command_ring() == old(self).command_ring(),
            final(self).interrupter().ring() == old(self).interrupter().ring(),
            final(self).interrupter()@.enabled == (value & IMAN_INTERRUPT_ENABLE > 0
                && old(self).regs().usbcmd.value() & USB_CMD_INTERRUPTER_ENABLE > 0),
    {
        let enabled: bool = ((value & IMAN_INTERRUPT_ENABLE) > 0)
            && ((self.regs.usbcmd.get_value() & USB_CMD_INTERRUPTER_ENABLE) > 0);
        self.interrupter.set_enabled(&mut self.regs, enabled)
    }

    /// A guest wrote `value` to imod: interval in the low half, counter in
    /// the high half. Returns whether to interrupt the guest.
    pub fn imod_callback(&mut self, value: u32) -> (r: bool)
        requires
            old(self).wf(),
        ensures
            final(self).wf(),
            plain_regs_kept(final(self).regs(), old(self).regs()),
            final(self).regs().doorbells@ == old(self).regs().doorbells@,
            final(self).regs().usbcmd == old(self).regs().usbcmd,
            final(self).regs().portsc@ == old(self).regs().portsc@,
            final(self).command_ring() == old(self).command_ring(),
            final(self).interrupter().ring() == old(self).interrupter().ring(),
            final(self).interrupter()@.enabled == old(self).interrupter()@.enabled,
            final(self).interrupter()@.moderation_interval == (value & IMOD_INTERRUPT_MODERATION_INTERVAL) as u16,
            final(self).interrupter()@.moderation_counter == (value >> IMOD_INTERRUPT_MODERATION_COUNTER_OFFSET) as u16,
    {
        self.interrupter.set_moderation(
            &mut self.regs,
            (value & IMOD_INTERRUPT_MODERATION_INTERVAL) as u16,
            (value >> IMOD_INTERRUPT_MODERATION_COUNTER_OFFSET) as u16,
        )
    }

    /// A guest wrote `value` to erstsz: the event ring segment table size.
    pub fn erstsz_callback(&mut self, value: u32)
        requires
            old(self).wf(),
        ensures
            final(self).wf(),
            plain_regs_kept(final(self).regs(), old(self).regs()),
            final(self).regs().doorbells@ == old(self).regs().doorbells@,
            final(self).regs().iman == old(self).regs().iman,
            final(self).regs().erdp == old(self).regs().erdp,
            final(self).regs().usbcmd == old(self).regs().usbcmd,
            final(self).regs().portsc@ == old(self).regs().portsc@,
            final(self).command_ring() == old(self).command_ring(),
            final(self).interrupter()@ == old(self).interrupter()@,
            final(self).interrupter().ring().segment_table_size == (value & ERSTSZ_SEGMENT_TABLE_SIZE) as u16,
    {
        self.interrupter.set_event_ring_seg_table_size((value & ERSTSZ_SEGMENT_TABLE_SIZE) as u16);
    }

    /// A guest wrote `value` to erstba: the event ring segment table
    /// address, 64-byte aligned.
    pub fn erstba_callback(&mut self, mem: &GuestMemory, value: u64) -> (r: Result<(), Error>)
        requires
            old(self).wf(),
        ensures
            final(self).wf(),
            plain_regs_kept(final(self).regs(), old(self).regs()),
            final(self).regs().doorbells@ == old(self).regs().doorbells@,
            final(self).regs().iman == old(self).regs().iman,
            final(self).regs().erdp == old(self).regs().erdp,
            final(self).regs().usbcmd == old(self).regs().usbcmd,
            final(self).regs().portsc@ == old(self).regs().portsc@,
            final(self).command_ring() == old(self).command_ring(),
            final(self).interrupter()@ == old(self).interrupter()@,
            final(self).interrupter().ring().segment_table_size == old(self).interrupter().ring().segment_table_size,
            final(self).interrupter().ring().segment_table_base_address == value & ERSTBA_SEGMENT_TABLE_BASE_ADDRESS,
    {
        self.interrupter.set_event_ring_seg_table_base_addr(mem, GuestAddress(value & ERSTBA_SEGMENT_TABLE_BASE_ADDRESS))
    }

    /// A guest wrote `value` to erdp: the event ring dequeue pointer and
    /// the event handler busy bit. Returns whether to interrupt the guest.
    pub fn erdp_callback(&mut self, value: u64) -> (r: bool)
        requires
            old(self).wf(),
        ensures
            final(self).wf(),
            plain_regs_kept(final(self).regs(), old(self).regs()),
            final(self).regs().doorbells@ == old(self).regs().doorbells@,
            final(self).regs().usbcmd == old(self).regs().usbcmd,
            final(self).regs().portsc@ == old(self).regs().portsc@,
            final(self).command_ring() == old(self).command_ring(),
            final(self).interrupter()@.enabled == old(self).interrupter()@.enabled,
            final(self).interrupter()@.moderation_interval == old(self).interrupter()@.moderation_interval,
            final(self).interrupter()@.moderation_counter == old(self).interrupter()@.moderation_counter,
            final(self).interrupter().ring().segment_table_size == old(self).interrupter().ring().segment_table_size,
            final(self).interrupter().ring().segment_table_base_address == old(self).interrupter().ring().segment_table_base_address,
            final(self).interrupter().ring().dequeue_pointer == value & ERDP_EVENT_RING_DEQUEUE_POINTER,
    {
        let a = self.interrupter.set_event_ring_dequeue_pointer(&mut self.regs, GuestAddress(value & ERDP_EVENT_RING_DEQUEUE_POINTER));
        let b = self.interrupter.set_event_handler_busy(&mut self.regs, (value & ERDP_EVENT_HANDLER_BUSY) > 0);
        a || b
    }

    /// The command ring's consumer woke up: the next command descriptor, if
    /// any (see `RingBufferController::on_event`).
    pub fn command_ring_on_event(&mut self, mem: &GuestMemory) -> (r: RingBufferAction)
        requires
            old(self).wf(),
        ensures
            final(self).wf(),
            on_event_post(old(self).command_ring(), mem.regions(), final(self).command_ring(), r),
            final(self).regs() == old(self).regs(),
            final(self).interrupter() == old(self).interrupter(),
    {
        self.command_ring.on_event(mem)
    }

    /// Sends the completion event of the command TRB at `gpa`. Returns
    /// whether to interrupt the guest.
    pub fn complete_command(&mut self, mem: &mut GuestMemory, code: TrbCompletionCode, slot_id: u8, gpa: u64) -> (r: bool)
        requires
            old(self).wf(),
        ensures
            final(self).wf(),
            ({
                let t = command_completion_trb(code, slot_id, gpa);
                let er = add_event_result(old(self).interrupter().ring(), old(mem).regions(), t);
                &&& add_event_post(old(self).interrupter().ring(), old(mem).regions(), t, er, final(self).interrupter().ring(), final(mem).regions())
                &&& r == (er is Ok && fires(InterrupterState { pending: true, ..old(self).interrupter()@ }))
            }),
            final(self).command_ring() == old(self).command_ring(),
    {
        match self.interrupter.send_command_completion_trb(&mut self.regs, mem, code, slot_id, GuestAddress(gpa)) {
            Ok(b) => b,
            Err(_) => false,
        }
    }

    /// Index of slot `slot_id` in the slot table.
    fn slot_index_of(slot_id: u8) -> (r: usize)
        requires
            1 <= slot_id <= MAX_SLOTS,
        ensures
            r == slot_id - 1,
    {
        (slot_id - 1) as usize
    }

    /// Enable slot command (xHCI 4.6.3): the first disabled slot is enabled.
    fn enable_slot(&mut self) -> (r: CommandOutcome)
        requires
            old(self).wf(),
        ensures
            final(self).wf(),
            match r {
                CommandOutcome::Done(TrbCompletionCode::Success, s) => {
                    &&& 1 <= s <= MAX_SLOTS
                    &&& !old(self).slot(s).enabled()
                    &&& forall|t: u8| 1 <= t < s ==> #[trigger] old(self).slot(t).enabled()
                    &&& final(self).slot(s).enabled()
                },
                CommandOutcome::Done(TrbCompletionCode::NoSlotsAvailableError, 0) => forall|t: u8|
                    1 <= t <= MAX_SLOTS ==> #[trigger] old(self).slot(t).enabled(),
                _ => false,
            },
    {
        let mut i: usize = 0;
        while i < MAX_SLOTS as usize
            invariant
                self.wf(),
                self.slots@ == old(self).slots@,
                forall|k: int| 0 <= k < i ==> (#[trigger] self.slots@[k]).enabled(),
            decreases MAX_SLOTS - i,
        {
            let mut slot = self.slots.remove(i);
            let ok = slot.enable();
            self.slots.insert(i, slot);
            if ok {
                proof {
                    assert forall|k: int| 0 <= k < MAX_SLOTS implies (#[trigger] self.slots@[k]).wf() && self.slots@[k].slot_id() == k + 1 by {
                        if k != i {
                            assert(self.slots@[k] == old(self).slots@[k]);
                        }
                    }
                    assert forall|t: u8| 1 <= t < (i + 1) as u8 implies #[trigger] old(self).slot(t).enabled() by {
                        assert(old(self).slots@[t - 1].enabled());
                    }
                }
                return CommandOutcome::Done(TrbCompletionCode::Success, (i + 1) as u8);
            }
            proof {
                assert(self.slots@ =~= old(self).slots@);
            }
            i = i + 1;
        }
        proof {
            assert forall|t: u8| 1 <= t <= MAX_SLOTS implies #[trigger] old(self).slot(t).enabled() by {
                assert(old(self).slots@[t - 1].enabled());
            }
        }
        CommandOutcome::Done(TrbCompletionCode::NoSlotsAvailableError, 0)
    }

    /// Carries out the command in `atrb` (xHCI 4.6). Commands on slots take
    /// the slot id from the TRB; an invalid slot id fails with a TRB error.
    /// Fails when guest memory the command needs cannot be accessed.
    pub fn handle_command(&mut self, mem: &mut GuestMemory, atrb: &AddressedTrb) -> (r: Result<CommandOutcome, MemError>)
        requires
            old(self).wf(),
        ensures
            final(self).wf(),
            ({
                let slot_id = crate::xhci_abi::field32(atrb.trb.d3, 24, 0xff) as u8;
                let valid = 1 <= slot_id <= MAX_SLOTS;
                match type_of(atrb.trb) {
                    Some(TrbType::EnableSlotCommand) => r matches Ok(o) && match o {
                        CommandOutcome::Done(TrbCompletionCode::Success, s) => {
                            &&& 1 <= s <= MAX_SLOTS
                            &&& !old(self).slot(s).enabled()
                            &&& forall|t: u8| 1 <= t < s ==> #[trigger] old(self).slot(t).enabled()
                            &&& final(self).slot(s).enabled()
                        },
                        CommandOutcome::Done(TrbCompletionCode::NoSlotsAvailableError, 0) => forall|t: u8|
                            1 <= t <= MAX_SLOTS ==> #[trigger] old(self).slot(t).enabled(),
                        _ => false,
                    },
                    Some(TrbType::DisableSlotCommand) => if !valid {
                        r == Ok::<CommandOutcome, MemError>(CommandOutcome::Done(TrbCompletionCode::TrbError, slot_id))
                    } else if !old(self).slot(slot_id).enabled() {
                        r == Ok::<CommandOutcome, MemError>(CommandOutcome::Done(TrbCompletionCode::SlotNotEnabledError, slot_id))
                    } else {
                        r == Ok::<CommandOutcome, MemError>(CommandOutcome::DisablePending(slot_id))
                    },
                    Some(TrbType::AddressDeviceCommand) => if !valid {
                        r == Ok::<CommandOutcome, MemError>(CommandOutcome::Done(TrbCompletionCode::TrbError, slot_id))
                    } else {
                        match address_outcome(
                            old(self).slot(slot_id).enabled(),
                            slot_id,
                            old(mem).regions(),
                            old(self).regs().dcbaap.value(),
                            atrb.trb,
                            old(self).hub(),
                        ) {
                            Some(c) => r == Ok::<CommandOutcome, MemError>(CommandOutcome::Done(c, slot_id)),
                            None => r is Err,
                        }
                    },
                    Some(TrbType::EvaluateContextCommand) => if !valid {
                        r == Ok::<CommandOutcome, MemError>(CommandOutcome::Done(TrbCompletionCode::TrbError, slot_id))
                    } else {
                        match evaluate_outcome(
                            old(self).slot(slot_id).enabled(),
                            slot_id,
                            old(mem).regions(),
                            old(self).regs().dcbaap.value(),
                            atrb.trb,
                        ) {
                            Some(c) => r == Ok::<CommandOutcome, MemError>(CommandOutcome::Done(c, slot_id)),
                            None => r is Err,
                        }
                    },
                    Some(TrbType::ConfigureEndpointCommand) => if !valid {
                        r == Ok::<CommandOutcome, MemError>(CommandOutcome::Done(TrbCompletionCode::TrbError, slot_id))
                    } else {
                        &&& r is Ok ==> r == Ok::<CommandOutcome, MemError>(CommandOutcome::Done(TrbCompletionCode::Success, slot_id))
                        &&& configure_laid_out(old(mem).regions(), old(self).regs().dcbaap.value(), slot_id, atrb.trb) ==> r is Ok
                    },
                    Some(TrbType::ResetDeviceCommand) => if !valid {
                        r == Ok::<CommandOutcome, MemError>(CommandOutcome::Done(TrbCompletionCode::TrbError, slot_id))
                    } else {
                        match slot_state_at(old(mem).regions(), old(self).regs().dcbaap.value(), slot_id) {
                            None => r is Err,
                            Some(st) => r == Ok::<CommandOutcome, MemError>(if st == 2 || st == 3 {
                                CommandOutcome::ResetPending(slot_id)
                            } else {
                                CommandOutcome::Done(TrbCompletionCode::ContextStateError, slot_id)
                            }),
                        }
                    },
                    Some(TrbType::NoopCommand) => r == Ok::<CommandOutcome, MemError>(CommandOutcome::Done(TrbCompletionCode::Success, 0)),
                    Some(TrbType::StopEndpointCommand) => if !valid {
                        r == Ok::<CommandOutcome, MemError>(CommandOutcome::Done(TrbCompletionCode::TrbError, slot_id))
                    } else {
                        let ep = crate::xhci_abi::field32(atrb.trb.d3, 16, 0x1f) as u8;
                        if !spec_valid_endpoint_id(ep) {
                            r == Ok::<CommandOutcome, MemError>(CommandOutcome::Done(TrbCompletionCode::TrbError, slot_id))
                        } else {
                            match old(self).slot(slot_id).trc(ep - 1) {
                                None => r == Ok::<CommandOutcome, MemError>(CommandOutcome::Done(TrbCompletionCode::ContextStateError, slot_id)),
                                Some(c) => r == Ok::<CommandOutcome, MemError>(if c.state() == RingBufferState::Stopped {
                                    CommandOutcome::Done(TrbCompletionCode::Success, slot_id)
                                } else {
                                    CommandOutcome::StopEndpointPending(slot_id)
                                }),
                            }
                        }
                    },
                    Some(TrbType::SetTRDequeuePointerCommand) => r == Ok::<CommandOutcome, MemError>(CommandOutcome::Done(TrbCompletionCode::TrbError, slot_id)),
                    _ => r == Ok::<CommandOutcome, MemError>(CommandOutcome::Done(TrbCompletionCode::TrbError, 0)),
                }
            }),
    {
        let trb = atrb.trb;
        let slot_id = trb.get_slot_id();
        let valid = valid_slot_id(slot_id);
        let dcbaap = self.regs.dcbaap.get_value();
        match trb.trb_type() {
            Ok(TrbType::EnableSlotCommand) => Ok(self.enable_slot()),
            Ok(TrbType::DisableSlotCommand) => {
                if !valid {
                    return Ok(CommandOutcome::Done(TrbCompletionCode::TrbError, slot_id));
                }
                let i = Self::slot_index_of(slot_id);
                let mut slot = self.slots.remove(i);
                let res = slot.disable();
                self.slots.insert(i, slot);
                proof {
                    self.reestablish_slots(i);
                }
                match res {
                    Some(code) => Ok(CommandOutcome::Done(code, slot_id)),
                    None => Ok(CommandOutcome::DisablePending(slot_id)),
                }
            },
            Ok(TrbType::AddressDeviceCommand) => {
                if !valid {
                    return Ok(CommandOutcome::Done(TrbCompletionCode::TrbError, slot_id));
                }
                let i = Self::slot_index_of(slot_id);
                let mut slot = self.slots.remove(i);
                let res = slot.set_address(&trb, mem, dcbaap, &mut self.hub);
                self.slots.insert(i, slot);
                proof {
                    self.reestablish_slots(i);
                }
                let code = res?;
                Ok(CommandOutcome::Done(code, slot_id))
            },
            Ok(TrbType::ConfigureEndpointCommand) => {
                if !valid {
                    return Ok(CommandOutcome::Done(TrbCompletionCode::TrbError, slot_id));
                }
                let i = Self::slot_index_of(slot_id);
                let mut slot = self.slots.remove(i);
                let res = slot.configure_endpoint(&trb, mem, dcbaap);
                self.slots.insert(i, slot);
                proof {
                    self.reestablish_slots(i);
                }
                let code = res?;
                Ok(CommandOutcome::Done(code, slot_id))
            },
            Ok(TrbType::EvaluateContextCommand) => {
                if !valid {
                    return Ok(CommandOutcome::Done(TrbCompletionCode::TrbError, slot_id));
                }
                let i = Self::slot_index_of(slot_id);
                let code = self.slots[i].evaluate_context(&trb, mem, dcbaap)?;
                Ok(CommandOutcome::Done(code, slot_id))
            },
            Ok(TrbType::ResetDeviceCommand) => {
                if !valid {
                    return Ok(CommandOutcome::Done(TrbCompletionCode::TrbError, slot_id));
                }
                let i = Self::slot_index_of(slot_id);
                let mut slot = self.slots.remove(i);
                let res = slot.reset_slot(mem, dcbaap);
                self.slots.insert(i, slot);
                proof {
                    self.reestablish_slots(i);
                }
                match res? {
                    Some(code) => Ok(CommandOutcome::Done(code, slot_id)),
                    None => Ok(CommandOutcome::ResetPending(slot_id)),
                }
            },
            Ok(TrbType::NoopCommand) => Ok(CommandOutcome::Done(TrbCompletionCode::Success, 0)),
            Ok(TrbType::StopEndpointCommand) => {
                if !valid {
                    return Ok(CommandOutcome::Done(TrbCompletionCode::TrbError, slot_id));
                }
                let i = Self::slot_index_of(slot_id);
                let mut slot = self.slots.remove(i);
                let res = slot.stop_endpoint(trb.get_endpoint_id());
                self.slots.insert(i, slot);
                proof {
                    self.reestablish_slots(i);
                }
                match res {
                    Some(code) => Ok(CommandOutcome::Done(code, slot_id)),
                    None => Ok(CommandOutcome::StopEndpointPending(slot_id)),
                }
            },
            Ok(TrbType::SetTRDequeuePointerCommand) => {
                // The endpoint is taken from the type field and the command
                // always completes with a TRB error.
                if valid {
                    let i = Self::slot_index_of(slot_id);
                    let mut slot = self.slots.remove(i);
                    let _ = slot.set_tr_dequeue_ptr(trb.get_trb_type(), trb.get_dequeue_ptr() << 4u64);
                    self.slots.insert(i, slot);
                    proof {
                        self.reestablish_slots(i);
                    }
                }
                Ok(CommandOutcome::Done(TrbCompletionCode::TrbError, slot_id))
            },
            _ => Ok(CommandOutcome::Done(TrbCompletionCode::TrbError, 0)),
        }
    }

    /// After the slot at index `i` was taken out and put back, the slot
    /// table is well formed again if that slot kept its id and shape.
    proof fn reestablish_slots(&self, i: usize)
        requires
            i < MAX_SLOTS,
            self.regs.portsc@.len() == MAX_PORTS,
            self.regs.doorbells@.len() == MAX_SLOTS + 1,
            self.hub.wf(),
            self.transfers.wf(),
            self.slots@.len() == MAX_SLOTS,
            self.slots@[i as int].wf(),
            self.slots@[i as int].slot_id() == i + 1,
            forall|k: int| 0 <= k < MAX_SLOTS && k != i ==> (#[trigger] self.slots@[k]).wf() && self.slots@[k].slot_id() == k + 1,
        ensures
            self.wf(),
    {
    }

    /// The slots' transfer rings stopped after a disable slot command:
    /// completes it.
    pub fn finish_disable_slot(&mut self, mem: &mut GuestMemory, slot_id: u8) -> (r: Result<TrbCompletionCode, MemError>)
        requires
            old(self).wf(),
            1 <= slot_id <= MAX_SLOTS,
        ensures
            final(self).wf(),
            r is Ok == (slot_state_at(old(mem).regions(), old(self).regs().dcbaap.value(), slot_id) is Some),
            r is Ok ==> r == Ok::<TrbCompletionCode, MemError>(TrbCompletionCode::Success) && !final(self).slot(slot_id).enabled(),
            r is Ok ==> (device_context_addr(old(mem).regions(), old(self).regs().dcbaap.value(), slot_id) matches Some(a)
                && ctx_state(final(mem).regions(), a) == Some(0u32)),
            forall|s: u8| 1 <= s <= MAX_SLOTS && s != slot_id ==> #[trigger] final(self).slot(s) == old(self).slot(s),
    {
        let dcbaap = self.regs.dcbaap.get_value();
        let i = Self::slot_index_of(slot_id);
        let mut slot = self.slots.remove(i);
        let res = slot.finish_disable(mem, dcbaap);
        self.slots.insert(i, slot);
        proof {
            self.reestablish_slots(i);
        }
        res
    }

    /// The slot's transfer rings stopped after a reset device command:
    /// completes it.
    pub fn finish_reset_device(&mut self, mem: &mut GuestMemory, slot_id: u8) -> (r: Result<TrbCompletionCode, MemError>)
        requires
            old(self).wf(),
            1 <= slot_id <= MAX_SLOTS,
        ensures
            final(self).wf(),
            device_context_laid_out(old(mem).regions(), old(self).regs().dcbaap.value(), slot_id) ==> r is Ok,
            r is Ok ==> r == Ok::<TrbCompletionCode, MemError>(TrbCompletionCode::Success),
            r is Ok ==> final(self).slot(slot_id).trc(0) == old(self).slot(slot_id).trc(0),
            r is Ok ==> forall|i: int| 1 <= i < 31 ==> #[trigger] final(self).slot(slot_id).trc(i) is None,
            forall|s: u8| 1 <= s <= MAX_SLOTS && s != slot_id ==> #[trigger] final(self).slot(s) == old(self).slot(s),
    {
        let dcbaap = self.regs.dcbaap.get_value();
        let i = Self::slot_index_of(slot_id);
        let mut slot = self.slots.remove(i);
        let res = slot.finish_reset_slot(mem, dcbaap);
        self.slots.insert(i, slot);
        proof {
            self.reestablish_slots(i);
        }
        res
    }

    /// Sends transfer events in order; returns whether to interrupt the
    /// guest (an event that cannot be queued is dropped).
    fn send_transfer_events(
        &mut self,
        mem: &mut GuestMemory,
        events: &Vec<TransferEvent>,
        slot_id: u8,
        endpoint_id: u8,
    ) -> (r: bool)
        requires
            old(self).wf(),
        ensures
            final(self).wf(),
            final(self).slots == old(self).slots,
            final(self).hub == old(self).hub,
            final(self).transfers == old(self).transfers,
            final(self).command_ring == old(self).command_ring,
            final(self).regs.portsc == old(self).regs.portsc,
            events@.len() == 0 ==> !r && final(self).interrupter()@ == old(self).interrupter()@,
            exists|is: Seq<Interrupter>, ms: Seq<Seq<(u64, Seq<u8>)>>, gs: Seq<XHCIRegs>, fs: Seq<bool>|
                #![trigger transfer_events_sent(is, ms, gs, fs, events@, slot_id, endpoint_id)]
                {
                    &&& transfer_events_sent(is, ms, gs, fs, events@, slot_id, endpoint_id)
                    &&& is[0] == old(self).interrupter && ms[0] == old(mem).regions() && gs[0] == old(self).regs
                    &&& is.last() == final(self).interrupter && ms.last() == final(mem).regions() && gs.last() == final(self).regs
                    &&& r == fs.contains(true)
                },
    {
        let mut fire = false;
        let mut i: usize = 0;
        let ghost mut gi: Seq<Interrupter> = seq![self.interrupter];
        let ghost mut gm: Seq<Seq<(u64, Seq<u8>)>> = seq![mem.regions()];
        let ghost mut gg: Seq<XHCIRegs> = seq![self.regs];
        let ghost mut gf: Seq<bool> = Seq::empty();
        while i < events.len()
            invariant
                self.wf(),
                self.slots == old(self).slots,
                self.hub == old(self).hub,
                self.transfers == old(self).transfers,
                self.command_ring == old(self).command_ring,
                self.regs.portsc == old(self).regs.portsc,
                events@.len() == 0 ==> !fire && self.interrupter@ == old(self).interrupter()@,
                i <= events@.len(),
                transfer_events_sent(gi, gm, gg, gf, events@.take(i as int), slot_id, endpoint_id),
                gi[0] == old(self).interrupter && gm[0] == old(mem).regions() && gg[0] == old(self).regs,
                gi.last() == self.interrupter && gm.last() == mem.regions() && gg.last() == self.regs,
                fire == gf.contains(true),
            decreases events@.len() - i,
        {
            let e = events[i];
            let ghost i0 = self.interrupter;
            let ghost m0 = mem.regions();
            let ghost g0 = self.regs;
            let b = match self.interrupter.send_transfer_event_trb(
                &mut self.regs,
                mem,
                e.completion_code,
                e.trb_pointer,
                e.transfer_length,
                e.event_data,
                slot_id,
                endpoint_id,
            ) {
                Ok(b) => b,
                Err(_) => false,
            };
            proof {
                assert(event_queued(i0, m0, g0, self.interrupter, mem.regions(), self.regs, event_trb(e, slot_id, endpoint_id), b));
                lemma_push_contains(gf, b);
                let ev = events@.take(i + 1);
                assert(ev =~= events@.take(i as int).push(e));
                let (ni, nm, ng, nf) = (gi.push(self.interrupter), gm.push(mem.regions()), gg.push(self.regs), gf.push(b));
                assert forall|k: int| 0 <= k < ev.len() implies event_queued(
                    #[trigger] ni[k],
                    nm[k],
                    ng[k],
                    ni[k + 1],
                    nm[k + 1],
                    ng[k + 1],
                    event_trb(ev[k], slot_id, endpoint_id),
                    nf[k],
                ) by {
                    if k < i {
                        assert(ni[k] == gi[k] && ni[k + 1] == gi[k + 1]);
                        assert(event_queued(gi[k], gm[k], gg[k], gi[k + 1], gm[k + 1], gg[k + 1], event_trb(events@.take(i as int)[k], slot_id, endpoint_id), gf[k]));
                    }
                }
                gi = ni;
                gm = nm;
                gg = ng;
                gf = nf;
            }
            fire = fire || b;
            i = i + 1;
        }
        proof {
            assert(events@.take(events@.len() as int) =~= events@);
        }
        fire
    }

    /// The transfer ring of endpoint `endpoint_id` (device context index)
    /// of slot `slot_id` woke up: its next descriptor, if the slot has such
    /// a ring.
    pub fn transfer_ring_on_event(&mut self, mem: &GuestMemory, slot_id: u8, endpoint_id: u8) -> (r: Option<RingBufferAction>)
        requires
            old(self).wf(),
        ensures
            final(self).wf(),
            r is None == !(1 <= slot_id <= MAX_SLOTS && 1 <= endpoint_id < 32 && old(self).slot(slot_id).trc(endpoint_id - 1) is Some),
            r is None ==> forall|s: u8| 1 <= s <= MAX_SLOTS ==> #[trigger] final(self).slot(s) == old(self).slot(s),
            final(self).hub() == old(self).hub(),
            final(self).transfers() == old(self).transfers(),
            final(self).command_ring() == old(self).command_ring(),
            r matches Some(a) ==> {
                &&& old(self).slot(slot_id).trc(endpoint_id - 1) matches Some(c0)
                &&& final(self).slot(slot_id).trc(endpoint_id - 1) matches Some(c1)
                &&& on_event_post(c0, mem.regions(), c1, a)
            },
            forall|s: u8| 1 <= s <= MAX_SLOTS && s != slot_id ==> #[trigger] final(self).slot(s) == old(self).slot(s),
            final(self).regs() == old(self).regs(),
            final(self).interrupter() == old(self).interrupter(),
    {
        if !valid_slot_id(slot_id) || endpoint_id == 0 || endpoint_id >= 32 {
            return None;
        }
        let i = Self::slot_index_of(slot_id);
        let mut slot = self.slots.remove(i);
        let r = slot.transfer_ring_on_event(mem, endpoint_id);
        self.slots.insert(i, slot);
        proof {
            self.reestablish_slots(i);
            if r is None {
                assert(self.slots@ =~= old(self).slots@);
            }
        }
        r
    }

    /// A transfer descriptor came off the transfer ring of endpoint
    /// `endpoint_id` of slot `slot_id`: it is checked, and, when valid,
    /// handed to the device at the slot's port. Returns whether the
    /// descriptor is done (invalid, or no device to take it: the ring can
    /// go on) and whether to interrupt the guest; invalid TRBs are reported
    /// with TRB error events.
    pub fn handle_transfer_descriptor(
        &mut self,
        mem: &mut GuestMemory,
        slot_id: u8,
        endpoint_id: u8,
        td: TransferDescriptor,
    ) -> (r: (bool, bool))
        requires
            old(self).wf(),
            1 <= slot_id <= MAX_SLOTS,
            td@.len() > 0,
            forall|k: int| 0 <= k < td@.len() ==> type_of(#[trigger] td@[k].trb) is Some,
        ensures
            final(self).wf(),
            final(self).regs().portsc == old(self).regs().portsc,
            forall|s: u8| 1 <= s <= MAX_SLOTS ==> #[trigger] final(self).slot(s) == old(self).slot(s),
            forall|q: u8| 1 <= q <= MAX_PORTS ==> #[trigger] final(self).hub().connected(q) == old(self).hub().connected(q),
            ({
                let t0 = old(self).transfers();
                let port = old(self).slot(slot_id).port_id();
                let errors = invalid_trb_events(td@);
                let delivered = 1 <= port <= MAX_PORTS && old(self).hub().connected(port);
                if t0.next_id() == u64::MAX {
                    r == (true, false) && *final(self) == *old(self)
                } else if errors.len() > 0 {
                    r.0 && final(self).transfers().transfers() == t0.transfers()
                        && final(self).transfers().next_id() == t0.next_id() + 1
                } else {
                    &&& r == (!delivered, false)
                    &&& final(self).interrupter() == old(self).interrupter()
                    &&& final(self).transfers().next_id() == t0.next_id() + 1
                    &&& final(self).transfers().transfers() == if delivered {
                        t0.transfers().push((t0.next_id(), XhciTransferState::Submitted))
                    } else {
                        t0.transfers()
                    }
                }
            }),
    {
        let port_id = self.slots[Self::slot_index_of(slot_id)].get_port_id();
        let transfer = match self.transfers.create_transfer(port_id, slot_id, endpoint_id, td) {
            Some(t) => t,
            None => return (true, false),
        };
        let ghost t0 = old(self).transfers().transfers();
        proof {
            old(self).transfers.lemma_ids_below();
            let s1 = self.transfers.transfers();
            assert(s1.drop_last() =~= t0);
            assert forall|j: int| 0 <= j < s1.len() - 1 implies (#[trigger] s1[j]).0 != transfer.id() by {
                assert(s1[j] == t0[j]);
            }
        }
        let errors = transfer.validate_transfer();
        if errors.len() > 0 {
            let fire = self.send_transfer_events(mem, &errors, slot_id, endpoint_id);
            let _ = self.transfers.remove_transfer(transfer.get_id());
            return (true, fire);
        }
        let id = transfer.get_id();
        match self.hub.submit_transfer(port_id, transfer) {
            None => {
                let _ = self.transfers.set_state(id, XhciTransferState::Submitted);
                proof {
                    assert(self.transfers.transfers() =~= t0.push((id, XhciTransferState::Submitted)));
                }
                (false, false)
            },
            Some(_) => {
                let _ = self.transfers.remove_transfer(id);
                (true, false)
            },
        }
    }

    /// A device finished `transfer` with `status`, having moved `bytes`
    /// bytes: a gone device is detached from its port; otherwise the
    /// transfer's events are sent. Returns whether the descriptor is done
    /// and whether to interrupt the guest.
    pub fn transfer_complete(
        &mut self,
        mem: &mut GuestMemory,
        transfer: &XhciTransfer,
        status: TransferStatus,
        bytes: u32,
    ) -> (r: (bool, bool))
        requires
            old(self).wf(),
            status != TransferStatus::NoDevice && status != TransferStatus::Cancelled ==> transfer.completion_ok(bytes),
        ensures
            final(self).wf(),
            r.0 == (status != TransferStatus::NoDevice),
            status == TransferStatus::NoDevice ==> forall|q: u8| 1 <= q <= MAX_PORTS ==> #[trigger] final(self).hub().connected(q)
                == (old(self).hub().connected(q) && q != transfer.port_id()),
            status != TransferStatus::NoDevice ==> forall|q: u8| 1 <= q <= MAX_PORTS ==> #[trigger] final(self).hub().connected(q)
                == old(self).hub().connected(q),
            status == TransferStatus::Cancelled ==> !r.1 && final(self).interrupter()@ == old(self).interrupter()@,
            forall|s: u8| 1 <= s <= MAX_SLOTS ==> #[trigger] final(self).slot(s) == old(self).slot(s),
            final(self).transfers().next_id() == old(self).transfers().next_id(),
    {
        let action = transfer.on_transfer_complete(status, bytes);
        let _ = self.transfers.remove_transfer(transfer.get_id());
        if action.detach_port {
            let (_, fire) = self.hub.disconnect_port(transfer.get_port_id(), &mut self.regs, &mut self.interrupter, mem);
            return (false, fire);
        }
        let fire = self.send_transfer_events(mem, &action.events, transfer.get_slot_id(), transfer.get_endpoint_id());
        (action.signal_completion, fire)
    }

    /// Connects a device to the first free root hub port; returns the port
    /// id (`None` when every port is taken) and whether to interrupt the
    /// guest.
    pub fn connect_backend(&mut self, mem: &mut GuestMemory, backend: D) -> (r: (Option<u8>, bool))
        requires
            old(self).wf(),
        ensures
            final(self).wf(),
            r.0 is Some ==> 1 <= r.0.unwrap() <= MAX_PORTS && final(self).hub().connected(r.0.unwrap())
                && !old(self).hub().connected(r.0.unwrap()) && final(self).hub().device(r.0.unwrap()) == backend
                && (forall|q: u8| 1 <= q < r.0.unwrap() ==> #[trigger] old(self).hub().connected(q))
                && (forall|q: u8|
                    1 <= q <= MAX_PORTS && q != r.0.unwrap() ==> #[trigger] final(self).hub().connected(q)
                        == old(self).hub().connected(q) && final(self).hub().device(q) == old(self).hub().device(q)),
            r.0 is None ==> forall|q: u8| 1 <= q <= MAX_PORTS ==> #[trigger] old(self).hub().connected(q),
    {
        self.hub.connect_backend(backend, &mut self.regs, &mut self.interrupter, mem)
    }

    /// Disconnects the device of port `port_id`; returns whether there was
    /// one and whether to interrupt the guest.
    pub fn disconnect_port(&mut self, mem: &mut GuestMemory, port_id: u8) -> (r: (bool, bool))
        requires
            old(self).wf(),
        ensures
            final(self).wf(),
            r.0 == (1 <= port_id <= MAX_PORTS && old(self).hub().connected(port_id)),
            1 <= port_id <= MAX_PORTS ==> !final(self).hub().connected(port_id),
            forall|q: u8|
                1 <= q <= MAX_PORTS && q != port_id ==> #[trigger] final(self).hub().connected(q) == old(self).hub().connected(q)
                    && final(self).hub().device(q) == old(self).hub().device(q),
    {
        self.hub.disconnect_port(port_id, &mut self.regs, &mut self.interrupter, mem)
    }

    /// Asks every transfer in flight to cancel; returns the ids of those
    /// whose device must be asked to.
    pub fn cancel_all_transfers(&mut self) -> (r: Vec<u64>)
        requires
            old(self).wf(),
        ensures
            final(self).wf(),
            final(self).transfers().next_id() == old(self).transfers().next_id(),
            final(self).transfers().transfers().len() == old(self).transfers().transfers().len(),
            forall|i: int| 0 <= i < old(self).transfers().transfers().len() ==> (#[trigger] final(self).transfers().transfers()[i]) == (
                old(self).transfers().transfers()[i].0,
                after_cancel(old(self).transfers().transfers()[i].1),
            ),
            r@ == old(self).transfers().transfers().filter(|t: (u64, XhciTransferState)| t.1 == XhciTransferState::Submitted).map_values(
                |t: (u64, XhciTransferState)| t.0,
            ),
            final(self).regs() == old(self).regs(),
            final(self).interrupter() == old(self).interrupter(),
            final(self).command_ring() == old(self).command_ring(),
    {
        self.transfers.cancell_all()
    }

    /// A guest read of `data.len()` bytes at offset `addr` of the register
    /// file: each byte a register covers holds that register's byte; other
    /// bytes are left as they were.
    pub fn read_bar(&self, mmio: &XhciMmioSpace, addr: u64, data: &mut [u8])
        requires
            valid_access(addr, old(data)@.len()),
        ensures
            final(data)@ == fold_reads(old(data)@, all_windows(*mmio, self.regs()), addr),
    {
        let ghost d0 = data@;
        proof {
            assert(fold_reads(d0, Seq::empty(), addr) == d0);
        }
        read_static(&mmio.caplength, addr, data, Ghost(d0), Ghost(Seq::empty()));
        let ghost acc = Seq::<(u64, BarRange)>::empty().push(static_window(mmio.caplength));
        read_static(&mmio.hciversion, addr, data, Ghost(d0), Ghost(acc));
        let ghost acc = acc.push(static_window(mmio.hciversion));
        read_statics(&mmio.statics, addr, data, Ghost(d0), Ghost(acc));
        let ghost acc = acc + mmio.statics@.map_values(|r: StaticRegister<u32>| static_window(r));
        read_one(&self.regs.usbcmd, addr, data, Ghost(d0), Ghost(acc));
        let ghost acc = acc.push(window(self.regs.usbcmd));
        read_one(&self.regs.usbsts, addr, data, Ghost(d0), Ghost(acc));
        let ghost acc = acc.push(window(self.regs.usbsts));
        read_one(&self.regs.dnctrl, addr, data, Ghost(d0), Ghost(acc));
        let ghost acc = acc.push(window(self.regs.dnctrl));
        read_one(&self.regs.crcr, addr, data, Ghost(d0), Ghost(acc));
        let ghost acc = acc.push(window(self.regs.crcr));
        read_one(&self.regs.dcbaap, addr, data, Ghost(d0), Ghost(acc));
        let ghost acc = acc.push(window(self.regs.dcbaap));
        read_one(&self.regs.config, addr, data, Ghost(d0), Ghost(acc));
        let ghost acc = acc.push(window(self.regs.config));
        read_registers(&self.regs.portsc, addr, data, Ghost(d0), Ghost(acc));
        let ghost acc = acc + self.regs.portsc@.map_values(|r: Register<u32>| window(r));
        read_registers(&mmio.portpmsc, addr, data, Ghost(d0), Ghost(acc));
        let ghost acc = acc + mmio.portpmsc@.map_values(|r: Register<u32>| window(r));
        read_registers(&mmio.portli, addr, data, Ghost(d0), Ghost(acc));
        let ghost acc = acc + mmio.portli@.map_values(|r: Register<u32>| window(r));
        read_registers(&mmio.porthlpmc, addr, data, Ghost(d0), Ghost(acc));
        let ghost acc = acc + mmio.porthlpmc@.map_values(|r: Register<u32>| window(r));
        read_registers(&self.regs.doorbells, addr, data, Ghost(d0), Ghost(acc));
        let ghost acc = acc + self.regs.doorbells@.map_values(|r: Register<u32>| window(r));
        read_one(&self.regs.iman, addr, data, Ghost(d0), Ghost(acc));
        let ghost acc = acc.push(window(self.regs.iman));
        read_one(&self.regs.imod, addr, data, Ghost(d0), Ghost(acc));
        let ghost acc = acc.push(window(self.regs.imod));
        read_one(&self.regs.erstsz, addr, data, Ghost(d0), Ghost(acc));
        let ghost acc = acc.push(window(self.regs.erstsz));
        read_one(&self.regs.erstba, addr, data, Ghost(d0), Ghost(acc));
        let ghost acc = acc.push(window(self.regs.erstba));
        read_one(&self.regs.erdp, addr, data, Ghost(d0), Ghost(acc));
        let ghost acc = acc.push(window(self.regs.erdp));
        proof {
            assert(acc =~= all_windows(*mmio, self.regs()));
        }
    }

    /// The value a guest write would leave in `r`, which keeps its value;
    /// `None` when the write does not touch it.
    fn written_value<T: RegisterValue>(r: &mut Register<T>, addr: u64, data: &[u8]) -> (v: Option<T>)
        requires
            valid_access(addr, data@.len()),
        ensures
            final(r).same_layout(*old(r)),
            final(r).has_write_cb() == old(r).has_write_cb(),
            final(r).value() == old(r).value(),
            v is None ==> *final(r) == *old(r),
            v is Some == ranges_overlap(range_of(old(r).offset(), T::spec_size()), range_of(addr, data@.len())),
            !old(r).has_write_cb() ==> (v matches Some(x) ==> is_guest_write(
                x.spec_value(),
                old(r).value().spec_value(),
                old(r).writeable_mask().spec_value(),
                old(r).w1c_mask().spec_value(),
                old(r).offset(),
                addr,
                data@,
                T::spec_size(),
            )),
    {
        let range = r.bar_range();
        let write_range = BarRange { from: addr, to: addr + data.len() as u64 - 1 };
        if !range.overlap_with(&write_range) {
            return None;
        }
        let old_value = r.get_value();
        r.write_bar(addr, data);
        let v = r.get_value();
        r.set_value(old_value);
        Some(v)
    }

    /// A guest write of `data` at offset `addr` of the register file: each
    /// register it touches takes the written bits its masks let through,
    /// and registers with side effects (usbcmd, crcr, port status,
    /// doorbells and the interrupter's registers) run them, in register
    /// order, seeing the other registers as they are at that point.
    pub fn write_bar(&mut self, mmio: &mut XhciMmioSpace, mem: &mut GuestMemory, addr: u64, data: &[u8]) -> (r: Result<WriteOutcome, MemError>)
        requires
            old(self).wf(),
            valid_access(addr, data@.len()),
        ensures
            final(self).wf(),
            old(self).write_bar_post(old(mem).regions(), addr, data@, r, *final(self)),
    {
        let ghost hit: Option<int> = if exists|i: int| only_doorbell(old(self).regs(), addr, data@.len(), i) {
            Some(choose|i: int| only_doorbell(old(self).regs(), addr, data@.len(), i))
        } else {
            None
        };
        let ghost m0 = mem.regions();
        proof {
            assert forall|k: int| #[trigger] only_doorbell(old(self).regs(), addr, data@.len(), k) implies hit == Some(k) by {
                let h = hit.unwrap();
                assert(only_doorbell(old(self).regs(), addr, data@.len(), h));
            }
        }
        let mut out = WriteOutcome { usbcmd: None, wake: Vec::new(), interrupt: false };
        if let Some(v) = Self::written_value(&mut self.regs.usbcmd, addr, data) {
            proof {
                if !old(self).regs().usbcmd.has_write_cb() {
                    assert(written_as(old(self).regs().usbcmd, v, addr, data@));
                }
            }
            let (kept, action, fire) = self.usbcmd_callback(v);
            self.regs.usbcmd.set_value(kept);
            out.usbcmd = Some(action);
            out.interrupt = out.interrupt || fire;
        }
        self.regs.usbsts.write_bar(addr, data);
        self.regs.dnctrl.write_bar(addr, data);
        if let Some(v) = Self::written_value(&mut self.regs.crcr, addr, data) {
            proof {
                if !old(self).regs().crcr.has_write_cb() && !touched(old(self).regs().usbcmd, addr, data@.len()) {
                    assert(written_as(old(self).regs().crcr, v, addr, data@));
                }
            }
            let kept = self.crcr_callback(v);
            self.regs.crcr.set_value(kept);
        }
        self.regs.dcbaap.write_bar(addr, data);
        self.regs.config.write_bar(addr, data);
        assert(usbcmd_written(old(self).regs(), self.regs.usbcmd, out.usbcmd, addr, data@));
        assert(crcr_written(old(self).regs(), self.command_ring, addr, data@));
        assert(portsc_written_upto(old(self).regs(), self.regs.portsc@, addr, data@, 0));
        let ghost plain = self.regs;
        let mut i: usize = 0;
        while i < self.regs.portsc.len()
            invariant
                self.wf(),
                valid_access(addr, data@.len()),
                plain_regs_kept(self.regs, plain),
                (out.usbcmd is Some) == ranges_overlap(range_of(old(self).regs().usbcmd.offset(), 4), range_of(addr, data@.len())),
                out.wake@.len() == 0,
                self.regs.doorbells@ == old(self).regs().doorbells@,
                usbcmd_written(old(self).regs(), self.regs.usbcmd, out.usbcmd, addr, data@),
                crcr_written(old(self).regs(), self.command_ring, addr, data@),
                i <= self.regs.portsc@.len(),
                no_event_before_iman(old(self).regs(), addr, data@.len()) ==> self.regs.iman == old(self).regs().iman
                    && self.regs.erdp == old(self).regs().erdp,
                portsc_written_upto(old(self).regs(), self.regs.portsc@, addr, data@, i as int),
                forall|k: int| #[trigger] only_doorbell(old(self).regs(), addr, data@.len(), k) ==> hit == Some(k),
                m0 == old(mem).regions(),
                hit matches Some(h) ==> only_doorbell(old(self).regs(), addr, data@.len(), h) && self.slots == old(self).slots
                    && self.command_ring == old(self).command_ring && self.regs.usbcmd == old(self).regs().usbcmd
                    && self.regs.dcbaap == old(self).regs().dcbaap && mem.regions() == m0
                    && self.regs.portsc@ == old(self).regs().portsc@,
            decreases self.regs.portsc@.len() - i,
        {
            let ghost ps0 = self.regs.portsc@;
            let mut reg = self.regs.portsc.remove(i);
            let written = Self::written_value(&mut reg, addr, data);
            self.regs.portsc.insert(i, reg);
            if let Some(v) = written {
                proof {
                if !old(self).regs().portsc@[i as int].has_write_cb() {
                    assert(written_as(old(self).regs().portsc@[i as int], v, addr, data@));
                }
            }
                let (kept, fire) = self.portsc_callback(mem, i as u32, v);
                let mut reg = self.regs.portsc.remove(i);
                reg.set_value(kept);
                self.regs.portsc.insert(i, reg);
                out.interrupt = out.interrupt || fire;
                proof {
                    if !old(self).regs().portsc@[i as int].has_write_cb() {
                        assert(written_as(old(self).regs().portsc@[i as int], v, addr, data@));
                        assert(self.regs.portsc@[i as int].value() == portsc_kept(v));
                        assert(exists|w: u32|
                            #![trigger written_as(old(self).regs().portsc@[i as int], w, addr, data@)]
                            written_as(old(self).regs().portsc@[i as int], w, addr, data@) && self.regs.portsc@[i as int].value()
                                == portsc_kept(w));
                    }
                }
            }
            proof {
                let ps = self.regs.portsc@;
                let o = old(self).regs().portsc@;
                assert forall|k: int| #![trigger ps[k]] 0 <= k < ps.len() && k != i implies ps[k] == ps0[k] by {}
                if written is None {
                    assert(ps[i as int] == ps0[i as int]);
                }
                assert forall|k: int|
                    #![trigger o[k]]
                    0 <= k < i + 1 && k < ps.len() && !o[k].has_write_cb() implies if touched(o[k], addr, data@.len()) {
                        exists|w: u32|
                            #![trigger written_as(o[k], w, addr, data@)]
                            written_as(o[k], w, addr, data@) && ps[k].value() == portsc_kept(w)
                    } else {
                        ps[k] == o[k]
                    } by {
                    if k < i {
                        assert(ps[k] == ps0[k]);
                        assert(portsc_written_upto(old(self).regs(), ps0, addr, data@, i as int));
                        if touched(o[k], addr, data@.len()) {
                            let w = choose|w: u32|
                                #![trigger written_as(o[k], w, addr, data@)]
                                written_as(o[k], w, addr, data@) && ps0[k].value() == portsc_kept(w);
                            assert(written_as(o[k], w, addr, data@) && ps[k].value() == portsc_kept(w));
                        }
                    } else {
                        assert(k == i);
                        if touched(o[k], addr, data@.len()) {
                            assert(written is Some);
                            assert(exists|w: u32|
                                #![trigger written_as(o[k], w, addr, data@)]
                                written_as(o[k], w, addr, data@) && ps[k].value() == portsc_kept(w));
                        }
                    }
                }
                assert forall|k: int| #![trigger ps[k]] i + 1 <= k < ps.len() implies ps[k] == o[k] by {
                    assert(ps[k] == ps0[k]);
                    assert(ps0[k] == o[k]);
                }
                assert(ps.len() == o.len());
                assert(portsc_written_upto(old(self).regs(), ps, addr, data@, i + 1));
            }
            i = i + 1;
        }
        write_registers(&mut mmio.portpmsc, addr, data);
        write_registers(&mut mmio.portli, addr, data);
        write_registers(&mut mmio.porthlpmc, addr, data);
        let mut i: usize = 0;
        while i < self.regs.doorbells.len()
            invariant
                self.wf(),
                valid_access(addr, data@.len()),
                plain_regs_kept(self.regs, plain),
                guest_wrote(plain.dnctrl, old(self).regs().dnctrl, addr, data@),
                guest_wrote(plain.dcbaap, old(self).regs().dcbaap, addr, data@),
                guest_wrote(plain.config, old(self).regs().config, addr, data@),
                (out.usbcmd is Some) == ranges_overlap(range_of(old(self).regs().usbcmd.offset(), 4), range_of(addr, data@.len())),
                out.wake@.len() <= i <= MAX_SLOTS + 1,
                usbcmd_written(old(self).regs(), self.regs.usbcmd, out.usbcmd, addr, data@),
                crcr_written(old(self).regs(), self.command_ring, addr, data@),
                portsc_written(old(self).regs(), self.regs.portsc@, addr, data@),
                no_event_before_iman(old(self).regs(), addr, data@.len()) ==> self.regs.iman == old(self).regs().iman
                    && self.regs.erdp == old(self).regs().erdp,
                self.regs.doorbells@.len() == old(self).regs().doorbells@.len(),
                forall|k: int| #![trigger self.regs.doorbells@[k]] 0 <= k < self.regs.doorbells@.len() ==> self.regs.doorbells@[k].offset()
                    == old(self).regs().doorbells@[k].offset(),
                forall|k: int| #![trigger self.regs.doorbells@[k]] i <= k < self.regs.doorbells@.len() ==> self.regs.doorbells@[k]
                    == old(self).regs().doorbells@[k],
                forall|k: int| #[trigger] only_doorbell(old(self).regs(), addr, data@.len(), k) ==> hit == Some(k),
                m0 == old(mem).regions(),
                hit matches Some(h) ==> only_doorbell(old(self).regs(), addr, data@.len(), h) && if i <= h {
                    &&& out.wake@.len() == 0
                    &&& out.usbcmd is None
                    &&& self.slots == old(self).slots
                    &&& self.command_ring == old(self).command_ring
                    &&& self.regs.usbcmd == old(self).regs().usbcmd
                    &&& self.regs.dcbaap == old(self).regs().dcbaap
                    &&& mem.regions() == m0
                } else {
                    exists|v: u32|
                        #![trigger old(self).doorbell_wake(m0, h as u32, v)]
                        {
                        &&& is_guest_write(
                            v as u64,
                            old(self).regs().doorbells@[h].value() as u64,
                            old(self).regs().doorbells@[h].writeable_mask() as u64,
                            old(self).regs().doorbells@[h].w1c_mask() as u64,
                            old(self).regs().doorbells@[h].offset(),
                            addr,
                            data@,
                            4,
                        )
                        &&& old(self).doorbell_wake(m0, h as u32, v) == Some(out.wake@[0])
                        &&& out.wake@.len() == 1
                        &&& out.usbcmd is None
                    }
                },
            decreases self.regs.doorbells@.len() - i,
        {
            let ghost cur = self.regs.doorbells@[i as int];
            let mut reg = self.regs.doorbells.remove(i);
            let written = Self::written_value(&mut reg, addr, data);
            self.regs.doorbells.insert(i, reg);
            if let Some(v) = written {
                let ghost before = *self;
                let ghost mb = mem.regions();
                let res = self.doorbell_callback(mem, i as u32, v);
                proof {
                    match hit {
                        Some(h) => {
                            if i as int == h {
                                assert(before.doorbell_wake(m0, h as u32, v) == old(self).doorbell_wake(m0, h as u32, v));
                            }
                        },
                        None => {},
                    }
                }
                let wake = match res {
                    Ok(w) => w,
                    Err(e) => {
                        proof {
                            if hit is Some && i as int == hit.unwrap() {
                                let h = hit.unwrap();
                                assert(old(self).regs().doorbells@[h] == cur);
                                assert(mb == m0);
                                assert(before.doorbell_wake(mb, i as u32, v) is None);
                                assert(i as u32 == h as u32);
                                assert(before.doorbell_wake(m0, h as u32, v) == old(self).doorbell_wake(m0, h as u32, v));
                                assert(is_guest_write(
                                    v as u64,
                                    old(self).regs().doorbells@[h].value() as u64,
                                    old(self).regs().doorbells@[h].writeable_mask() as u64,
                                    old(self).regs().doorbells@[h].w1c_mask() as u64,
                                    old(self).regs().doorbells@[h].offset(),
                                    addr,
                                    data@,
                                    4,
                                ));
                                assert(old(self).doorbell_wake(old(mem).regions(), h as u32, v) is None);
                            }
                        }
                        return Err(e);
                    },
                };
                let mut reg = self.regs.doorbells.remove(i);
                reg.set_value(v);
                self.regs.doorbells.insert(i, reg);
                out.wake.push(wake);
            }
            i = i + 1;
        }
        if let Some(v) = Self::written_value(&mut self.regs.iman, addr, data) {
            proof {
                if !old(self).regs().iman.has_write_cb() && no_event_before_iman(old(self).regs(), addr, data@.len()) {
                    assert(written_as(old(self).regs().iman, v, addr, data@));
                }
            }
            let fire = self.iman_callback(v);
            self.regs.iman.set_value(v);
            out.interrupt = out.interrupt || fire;
        }
        if let Some(v) = Self::written_value(&mut self.regs.imod, addr, data) {
            proof {
                if !old(self).regs().imod.has_write_cb() {
                    assert(written_as(old(self).regs().imod, v, addr, data@));
                }
            }
            let fire = self.imod_callback(v);
            self.regs.imod.set_value(v);
            out.interrupt = out.interrupt || fire;
        }
        if let Some(v) = Self::written_value(&mut self.regs.erstsz, addr, data) {
            proof {
                if !old(self).regs().erstsz.has_write_cb() {
                    assert(written_as(old(self).regs().erstsz, v, addr, data@));
                }
            }
            self.erstsz_callback(v);
            self.regs.erstsz.set_value(v);
        }
        if let Some(v) = Self::written_value(&mut self.regs.erstba, addr, data) {
            proof {
                if !old(self).regs().erstba.has_write_cb() {
                    assert(written_as(old(self).regs().erstba, v, addr, data@));
                }
            }
            let _ = self.erstba_callback(mem, v);
            self.regs.erstba.set_value(v);
        }
        if let Some(v) = Self::written_value(&mut self.regs.erdp, addr, data) {
            proof {
                if !old(self).regs().erdp.has_write_cb() && no_event_before_iman(old(self).regs(), addr, data@.len())
                    && !touched(old(self).regs().iman, addr, data@.len()) && !touched(old(self).regs().imod, addr, data@.len()) {
                    assert(written_as(old(self).regs().erdp, v, addr, data@));
                }
            }
            let fire = self.erdp_callback(v);
            self.regs.erdp.set_value(v);
            out.interrupt = out.interrupt || fire;
        }
        proof {
            if hit is Some {
                let h = hit.unwrap();
                let v = choose|v: u32| #![trigger old(self).doorbell_wake(m0, h as u32, v)] {
                    &&& is_guest_write(
                        v as u64,
                        old(self).regs().doorbells@[h].value() as u64,
                        old(self).regs().doorbells@[h].writeable_mask() as u64,
                        old(self).regs().doorbells@[h].w1c_mask() as u64,
                        old(self).regs().doorbells@[h].offset(),
                        addr,
                        data@,
                        4,
                    )
                    &&& old(self).doorbell_wake(m0, h as u32, v) == Some(out.wake@[0])
                    &&& out.wake@.len() == 1
                    &&& out.usbcmd is None
                };
                assert(out.wake@ =~= seq![out.wake@[0]]);
                assert(old(self).doorbell_wake(m0, h as u32, v) == Some(out.wake@[0]));
            }
        }
        Ok(out)
    }

    /// Whether the interrupt must be raised again when the guest's
    /// interrupt line is resampled: events are still waiting on the event
    /// ring.
    pub fn resample_needs_interrupt(&self) -> (r: bool)
        ensures
            r == (crate::event_ring::inited(self.interrupter().ring()) && self.interrupter().ring().enqueue_pointer
                != self.interrupter().ring().dequeue_pointer),
    {
        match self.interrupter.event_ring_is_empty() {
            Ok(empty) => !empty,
            Err(_) => false,
        }
    }

    /// Puts usbcmd and usbsts in the state of a failed controller: stopped,
    /// with a host system error.
    pub fn set_failed_regs(&mut self)
        requires
            old(self).wf(),
        ensures
            final(self).wf(),
            final(self).regs().usbcmd.value() == 0u32,
            final(self).regs().usbsts.value() == 4u32,
    {
        self.regs.usbcmd.set_value(0);
        self.regs.usbsts.set_value(4);
    }

    /// Vendor and product id of the device of port `port_id` (see
    /// `UsbHub::device_ids`).
    pub fn hub_device_ids(&self, port_id: u8) -> (r: Result<(u16, u16), bool>)
        requires
            self.wf(),
        ensures
            !(1 <= port_id <= MAX_PORTS) ==> r == Err::<(u16, u16), bool>(true),
            1 <= port_id <= MAX_PORTS ==> (r is Ok <==> self.hub().connected(port_id)) && r != Err::<(u16, u16), bool>(true),
            r matches Ok((vid, pid)) ==> vid == self.hub().device(port_id).vid() && pid == self.hub().device(port_id).pid(),
    {
        self.hub.device_ids(port_id)
    }
}

} // verus!
