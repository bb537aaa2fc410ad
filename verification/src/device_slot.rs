//! Device slots (xHCI 4.5, 4.6): a slot's device context in guest memory,
//! the commands that change it, and the transfer rings of its endpoints.
use crate::guest_memory::{
    bytes_at, lemma_access_bound, lemma_bytes_at_write_other, lemma_sub_access, lemma_write_keeps_access, regions_ok, write_at,
    Error as MemError, GuestAddress, GuestMemory,
};
use crate::ring_buffer_controller::{on_event_post, RingBufferAction, RingBufferController, RingBufferState};
use crate::usb_hub::{UsbHub, XhciBackendDevice};
use crate::xhci_abi::{
    field32, obj_at, obj_bytes, parameter_of, read_obj, read_u64, tr_dequeue_pointer_of, u64_at,
    with_field32, write_obj, DeviceSlotState, EndpointContext, EndpointState, InputControlContext,
    PrimitiveEnum, SlotContext, Trb, TrbCast, TrbCompletionCode,
};
use crate::xhci_regs::{spec_valid_slot_id, MAX_PORTS, MAX_SLOTS};
use vstd::prelude::*;

verus! {

/// Size of one context in a device or input context.
pub const DEVICE_CONTEXT_ENTRY_SIZE: u64 = 32;

/// Endpoint transfer rings of a slot: device context indexes 1 to 31
/// (index 0: control endpoint, index 1: endpoint 1 out, index 2: endpoint 1
/// in, ..., index 30: endpoint 15 in).
pub const TRANSFER_RING_CONTROLLERS_INDEX_END: usize = 31;
pub const DCI_INDEX_END: usize = 32;
pub const FIRST_TRANSFER_ENDPOINT_DCI: usize = 2;

/// Endpoint ids (device context indexes) run from 1 to 31.
pub open spec fn spec_valid_endpoint_id(endpoint_id: u8) -> bool {
    0 < endpoint_id < DCI_INDEX_END
}

fn valid_endpoint_id(endpoint_id: u8) -> (r: bool)
    ensures
        r == spec_valid_endpoint_id(endpoint_id),
{
    endpoint_id < DCI_INDEX_END as u8 && endpoint_id > 0
}

/// Address of slot `slot_id`'s device context: its entry in the device
/// context base address array at `dcbaap`.
pub open spec fn device_context_addr(r: Seq<(u64, Seq<u8>)>, dcbaap: u64, slot_id: u8) -> Option<u64> {
    if dcbaap + 8 * slot_id > u64::MAX {
        None
    } else {
        u64_at(r, dcbaap + 8 * slot_id)
    }
}

/// Memory after copying context `idx` of the input context at `input` to
/// context `idx` of the device context at `out` (the input context has the
/// input control context first); `None` when an address does not fit or a
/// context cannot be read or written.
pub open spec fn copy_ctx(r: Seq<(u64, Seq<u8>)>, out: u64, input: u64, idx: u8) -> Option<
    Seq<(u64, Seq<u8>)>,
> {
    let from = input + (idx + 1) * DEVICE_CONTEXT_ENTRY_SIZE;
    let to = out + idx * DEVICE_CONTEXT_ENTRY_SIZE;
    if from > u64::MAX || to > u64::MAX {
        None
    } else {
        match obj_at::<EndpointContext>(r, from) {
            None => None,
            Some(c) => if bytes_at(r, to, 32) is None {
                None
            } else {
                Some(write_at(r, to, obj_bytes(c)))
            },
        }
    }
}

/// The slot context with its state replaced.
pub open spec fn with_slot_state(c: SlotContext, s: DeviceSlotState) -> SlotContext {
    SlotContext { d3: with_field32(c.d3, 27, 0x1f, s.spec_to() as u32), ..c }
}

/// The endpoint context with its state replaced.
pub open spec fn with_ep_state(c: EndpointContext, s: EndpointState) -> EndpointContext {
    EndpointContext { d0: with_field32(c.d0, 0, 0x7, s.spec_to() as u32), ..c }
}

/// Raw slot state field of a slot context.
pub open spec fn slot_state_bits(c: SlotContext) -> u32 {
    field32(c.d3, 27, 0x1f)
}

/// The raw state field of the slot context at `a`, if it can be read.
pub open spec fn ctx_state(r: Seq<(u64, Seq<u8>)>, a: u64) -> Option<u32> {
    match obj_at::<SlotContext>(r, a as int) {
        Some(sc) => Some(slot_state_bits(sc)),
        None => None,
    }
}

/// The raw state field of slot `slot_id`'s slot context, if it can be
/// read.
pub open spec fn slot_state_at(r: Seq<(u64, Seq<u8>)>, dcbaap: u64, slot_id: u8) -> Option<u32> {
    match device_context_addr(r, dcbaap, slot_id) {
        Some(a) => match obj_at::<SlotContext>(r, a as int) {
            Some(sc) => Some(slot_state_bits(sc)),
            None => None,
        },
        None => None,
    }
}

/// The slot state field reads back what was written into it.
proof fn lemma_slot_state_field(d3: u32, v: u32)
    by (bit_vector)
    requires
        v <= 0x1f,
    ensures
        ((((d3 & !(0x1fu32 << 27u32)) | ((v & 0x1fu32) << 27u32)) >> 27u32) & 0x1fu32) == v,
{
}

/// Whether the `n` bytes at `x` and the `m` bytes at `y` share none.
pub open spec fn apart(x: int, n: int, y: int, m: int) -> bool {
    x + n <= y || y + m <= x
}

/// The endpoint context at device context index `dci` of the device
/// context at `a` after a configure endpoint command with input control
/// context `icc` and input context at `input`, on memory `r` as it was
/// before: an added endpoint takes its input context and runs, a dropped
/// one is disabled, the others are left alone.
pub open spec fn configured_ep(
    r: Seq<(u64, Seq<u8>)>,
    a: u64,
    input: u64,
    icc: InputControlContext,
    dci: int,
) -> Option<EndpointContext> {
    if field32(icc.d1, dci as u32, 1) == 1 {
        match obj_at::<EndpointContext>(r, input + 32 * (dci + 1)) {
            Some(c) => Some(with_ep_state(c, EndpointState::Running)),
            None => None,
        }
    } else if field32(icc.d0, dci as u32, 1) == 1 {
        match obj_at::<EndpointContext>(r, a + 32 * dci) {
            Some(c) => Some(with_ep_state(c, EndpointState::Disabled)),
            None => None,
        }
    } else {
        obj_at::<EndpointContext>(r, a + 32 * dci)
    }
}

/// `new` is `old` after every transfer ring of the slot was asked to
/// stop: the same rings exist, none of them runs, and the slot's id, port
/// and enabled flag are kept.
pub open spec fn stop_requested(old: DeviceSlot, new: DeviceSlot) -> bool {
    &&& new.slot_id() == old.slot_id()
    &&& new.port_id() == old.port_id()
    &&& new.enabled() == old.enabled()
    &&& forall|i: int| 0 <= i < TRANSFER_RING_CONTROLLERS_INDEX_END ==> (#[trigger] new.trc(i)) is Some == old.trc(i) is Some
        && (old.trc(i) is Some ==> new.trc(i).unwrap().state() != RingBufferState::Running)
}

/// The endpoint context at device context index `dci` of the device
/// context at `a`.
pub open spec fn ep_ctx_at(r: Seq<(u64, Seq<u8>)>, a: u64, dci: int) -> Option<EndpointContext> {
    obj_at::<EndpointContext>(r, a + 32 * dci)
}

/// The 32 bytes of context `k` of a context array at `base`.
pub open spec fn block_at(r: Seq<(u64, Seq<u8>)>, base: int, k: int) -> Option<Seq<u8>> {
    bytes_at(r, base + 32 * k, 32)
}

/// Writing context `dci` of the device context at `a` leaves its other
/// contexts alone, and what lies apart from the device context: the
/// context's entry in the device context base address array and the input
/// context.
proof fn lemma_context_write(
    r: Seq<(u64, Seq<u8>)>,
    a: u64,
    dci: int,
    data: Seq<u8>,
    entry: int,
    input: int,
    with_input: bool,
)
    requires
        regions_ok(r),
        0 <= dci < 32,
        data.len() == 32,
        apart(entry, 8, a as int, 1024),
        with_input ==> apart(input, 1056, a as int, 1024),
    ensures
        forall|k: int| 0 <= k < 32 && k != dci ==> #[trigger] block_at(write_at(r, a + 32 * dci, data), a as int, k) == block_at(r, a as int, k),
        bytes_at(write_at(r, a + 32 * dci, data), entry, 8) == bytes_at(r, entry, 8),
        with_input ==> forall|k: int| 0 <= k < 33 ==> #[trigger] block_at(write_at(r, a + 32 * dci, data), input, k) == block_at(r, input, k),
{
    let w = a + 32 * dci;
    assert forall|k: int| 0 <= k < 32 && k != dci implies #[trigger] block_at(write_at(r, w, data), a as int, k) == block_at(r, a as int, k) by {
        lemma_bytes_at_write_other(r, w, data, a + 32 * k, 32);
    }
    lemma_bytes_at_write_other(r, w, data, entry, 8);
    if with_input {
        assert forall|k: int| 0 <= k < 33 implies #[trigger] block_at(write_at(r, w, data), input, k) == block_at(r, input, k) by {
            lemma_bytes_at_write_other(r, w, data, input + 32 * k, 32);
        }
    }
}

/// Each of the first `count` 32-byte contexts of an array of contexts at
/// `base` lies in one region when the whole array does.
proof fn lemma_context_blocks(r: Seq<(u64, Seq<u8>)>, base: int, count: int)
    requires
        count >= 0,
        bytes_at(r, base, (32 * count) as nat) is Some,
    ensures
        forall|k: int| 0 <= k < count ==> #[trigger] block_at(r, base, k) is Some,
{
    assert forall|k: int| 0 <= k < count implies #[trigger] block_at(r, base, k) is Some by {
        lemma_sub_access(r, base, (32 * count) as nat, base + 32 * k, 32);
    }
}

/// The guest laid out a slot's device context at `a` in one region, apart
/// from its entry in the device context base address array.
pub open spec fn device_context_laid_out(r: Seq<(u64, Seq<u8>)>, dcbaap: u64, slot_id: u8) -> bool {
    device_context_addr(r, dcbaap, slot_id) matches Some(a) && apart(dcbaap + 8 * slot_id, 8, a as int, 1024)
        && bytes_at(r, a as int, 1024) is Some
}

/// The guest laid out what a configure endpoint command `trb` reads: the
/// slot's device context, and unless the command deconfigures, the input
/// context in one region apart from the device context.
pub open spec fn configure_laid_out(r: Seq<(u64, Seq<u8>)>, dcbaap: u64, slot_id: u8, trb: Trb) -> bool {
    &&& device_context_laid_out(r, dcbaap, slot_id)
    &&& field32(trb.d3, 9, 1) == 0 ==> apart(parameter_of(trb) as int, 1056, device_context_addr(r, dcbaap, slot_id).unwrap() as int, 1024)
        && bytes_at(r, parameter_of(trb) as int, 1056) is Some
}

/// After the slot and control endpoint contexts were copied into the
/// device context at `a`, both can be read and written again.
proof fn lemma_copied_contexts(m0: Seq<(u64, Seq<u8>)>, m1: Seq<(u64, Seq<u8>)>, m2: Seq<(u64, Seq<u8>)>, a: u64, input: u64)
    requires
        regions_ok(m0),
        copy_ctx(m0, a, input, 0) == Some(m1),
        copy_ctx(m1, a, input, 1) == Some(m2),
    ensures
        regions_ok(m2),
        a + 32 <= u64::MAX,
        bytes_at(m2, a as int, 32) is Some,
        bytes_at(m2, a + 32, 32) is Some,
{
    let c0 = obj_at::<EndpointContext>(m0, input + 32).unwrap();
    let c1 = obj_at::<EndpointContext>(m1, input + 64).unwrap();
    assert(a + 0 * 32 == a);
    lemma_write_keeps_access(m0, a as int, obj_bytes(c0), a as int, 32);
    lemma_write_keeps_access(m1, a + 32, obj_bytes(c1), a as int, 32);
    lemma_write_keeps_access(m1, a + 32, obj_bytes(c1), a + 32, 32);
}

/// The completion code of an address device command `trb` for slot
/// `slot_id` over memory `r` and root hub `hub`, or `None` when a context
/// cannot be read or written: a disabled slot fails; only a disabled, or
/// without block-set-address an enabled, slot context takes the input
/// context; the command succeeds when it only blocks the address, or when
/// the device of the input slot context's root hub port is connected.
pub open spec fn address_outcome<D: XhciBackendDevice>(
    enabled: bool,
    slot_id: u8,
    r: Seq<(u64, Seq<u8>)>,
    dcbaap: u64,
    trb: Trb,
    hub: UsbHub<D>,
) -> Option<TrbCompletionCode> {
    if !enabled {
        Some(TrbCompletionCode::SlotNotEnabledError)
    } else {
        match device_context_addr(r, dcbaap, slot_id) {
            None => None,
            Some(a) => match obj_at::<SlotContext>(r, a as int) {
                None => None,
                Some(sc) => if slot_state_bits(sc) != 0 && (slot_state_bits(sc) != 1 || field32(trb.d3, 9, 1) > 0) {
                    Some(TrbCompletionCode::ContextStateError)
                } else {
                    match copy_ctx(r, a, parameter_of(trb), 0) {
                        None => None,
                        Some(m1) => match copy_ctx(m1, a, parameter_of(trb), 1) {
                            None => None,
                            Some(m2) => {
                                let port = field32(obj_at::<SlotContext>(m2, a as int).unwrap().d1, 16, 0xff) as u8;
                                Some(
                                    if field32(trb.d3, 9, 1) > 0 || (1 <= port <= MAX_PORTS && hub.connected(port)) {
                                        TrbCompletionCode::Success
                                    } else {
                                        TrbCompletionCode::TransactionError
                                    },
                                )
                            },
                        },
                    }
                },
            },
        }
    }
}

/// The completion code of an evaluate context command `trb` for slot
/// `slot_id` over memory `r`, or `None` when a context cannot be read or
/// written: a disabled slot fails, a default, addressed or configured slot
/// context is in the wrong state, and otherwise the command succeeds once
/// the input control context, the control endpoint context and the input
/// contexts its add flags name can be read.
pub open spec fn evaluate_outcome(enabled: bool, slot_id: u8, r: Seq<(u64, Seq<u8>)>, dcbaap: u64, trb: Trb) -> Option<
    TrbCompletionCode,
> {
    if !enabled {
        Some(TrbCompletionCode::SlotNotEnabledError)
    } else {
        match device_context_addr(r, dcbaap, slot_id) {
            None => None,
            Some(a) => match obj_at::<SlotContext>(r, a as int) {
                None => None,
                Some(sc) => if 1 <= slot_state_bits(sc) <= 3 {
                    Some(TrbCompletionCode::ContextStateError)
                } else {
                    match obj_at::<InputControlContext>(r, parameter_of(trb) as int) {
                        None => None,
                        Some(icc) => if obj_at::<EndpointContext>(r, a + 32) is Some && (field32(icc.d1, 0, 1) == 1
                            ==> obj_at::<SlotContext>(r, parameter_of(trb) + 32) is Some) && (field32(icc.d1, 1, 1) == 1
                            ==> obj_at::<EndpointContext>(r, parameter_of(trb) + 64) is Some) {
                            Some(TrbCompletionCode::Success)
                        } else {
                            None
                        },
                    }
                },
            },
        }
    }
}

/// No bit of zero is set.
proof fn lemma_field_of_zero(lo: u32)
    by (bit_vector)
    requires
        lo < 32,
    ensures
        (0u32 >> lo) & 1u32 == 0,
{
}

/// The slot context after a reset device command: default state, one
/// context entry, no root hub port.
pub open spec fn reset_slot_context(sc: SlotContext) -> SlotContext {
    SlotContext {
        d0: with_field32(sc.d0, 27, 0x1f, 1),
        d1: with_field32(sc.d1, 16, 0xff, 0),
        d3: with_field32(sc.d3, 27, 0x1f, DeviceSlotState::Default.spec_to() as u32),
        ..sc
    }
}

/// The slot context after an evaluate context command: with the slot
/// add flag, the input slot context's interrupter target and maximum exit
/// latency.
pub open spec fn evaluated_slot(sc: SlotContext, icc: InputControlContext, input: Option<SlotContext>) -> SlotContext {
    if field32(icc.d1, 0, 1) == 1 {
        let i = input.unwrap();
        SlotContext {
            d1: with_field32(sc.d1, 0, 0xffff, field32(i.d1, 0, 0xffff)),
            d2: with_field32(sc.d2, 22, 0x3ff, field32(i.d2, 22, 0x3ff)),
            ..sc
        }
    } else {
        sc
    }
}

/// The control endpoint context after an evaluate context command: with
/// its add flag, the input control endpoint's maximum packet size.
pub open spec fn evaluated_ep0(ep0: EndpointContext, icc: InputControlContext, input: Option<EndpointContext>) -> EndpointContext {
    if field32(icc.d1, 1, 1) == 1 {
        EndpointContext { d1: with_field32(ep0.d1, 16, 0xffff, field32(input.unwrap().d1, 16, 0xffff)), ..ep0 }
    } else {
        ep0
    }
}

/// A device slot: its id, the root hub port of its device, and the
/// transfer rings of its endpoints.
pub struct DeviceSlot {
    slot_id: u8,
    port_id: u8,
    enabled: bool,
    transfer_ring_controllers: Vec<Option<RingBufferController>>,
}

impl DeviceSlot {
    pub closed spec fn slot_id(self) -> u8 {
        self.slot_id
    }

    pub closed spec fn port_id(self) -> u8 {
        self.port_id
    }

    pub closed spec fn enabled(self) -> bool {
        self.enabled
    }

    /// Transfer ring controller of endpoint index `i` (device context index
    /// `i + 1`).
    pub closed spec fn trc(self, i: int) -> Option<RingBufferController> {
        self.transfer_ring_controllers@[i]
    }

    pub closed spec fn wf(self) -> bool {
        self.transfer_ring_controllers@.len() == TRANSFER_RING_CONTROLLERS_INDEX_END
    }

    /// A disabled slot with no endpoints.
    pub fn new(slot_id: u8) -> (r: DeviceSlot)
        ensures
            r.wf(),
            r.slot_id() == slot_id,
            r.port_id() == 0,
            !r.enabled(),
            forall|i: int| 0 <= i < TRANSFER_RING_CONTROLLERS_INDEX_END ==> #[trigger] r.trc(i) is None,
    {
        let mut transfer_ring_controllers: Vec<Option<RingBufferController>> = Vec::new();
        let mut i: usize = 0;
        while i < TRANSFER_RING_CONTROLLERS_INDEX_END
            invariant
                i <= TRANSFER_RING_CONTROLLERS_INDEX_END,
                transfer_ring_controllers@.len() == i,
                forall|k: int| 0 <= k < i ==> #[trigger] transfer_ring_controllers@[k] is None,
            decreases TRANSFER_RING_CONTROLLERS_INDEX_END - i,
        {
            transfer_ring_controllers.push(None);
            i = i + 1;
        }
        DeviceSlot { slot_id, port_id: 0, enabled: false, transfer_ring_controllers }
    }

    /// Address of the slot's device context.
    pub fn get_device_context_addr(&self, mem: &GuestMemory, dcbaap: u64) -> (r: Result<GuestAddress, MemError>)
        ensures
            match r {
                Ok(a) => device_context_addr(mem.regions(), dcbaap, self.slot_id()) == Some(a.0),
                Err(_) => device_context_addr(mem.regions(), dcbaap, self.slot_id()) is None,
            },
            r is Ok ==> regions_ok(mem.regions()),
    {
        let entry = match GuestAddress(dcbaap).checked_add(8 * (self.slot_id as u64)) {
            Some(a) => a,
            None => return Err(MemError::InvalidGuestAddress(GuestAddress(dcbaap))),
        };
        let addr = read_u64(mem, entry)?;
        Ok(GuestAddress(addr))
    }

    /// The doorbell of device context index `target` was rung (xHCI 4.7):
    /// the endpoint's transfer ring starts if the endpoint is running.
    /// Returns whether `target` named an endpoint with a transfer ring, and
    /// whether its consumer must be woken.
    pub fn ring_doorbell(&mut self, mem: &GuestMemory, dcbaap: u64, target: usize, _stream_id: u16) -> (r: Result<(bool, bool), MemError>)
        requires
            old(self).wf(),
        ensures
            final(self).wf(),
            final(self).slot_id() == old(self).slot_id(),
            final(self).port_id() == old(self).port_id(),
            final(self).enabled() == old(self).enabled(),
            !(1 <= target < DCI_INDEX_END && old(self).trc(target - 1) is Some) ==> r == Ok::<(bool, bool), MemError>((false, false))
                && *final(self) == *old(self),
            (1 <= target < DCI_INDEX_END && old(self).trc(target - 1) is Some) ==> match r {
                Ok((found, wake)) => found && match device_context_addr(mem.regions(), dcbaap, old(self).slot_id()) {
                    Some(a) => match obj_at::<EndpointContext>(mem.regions(), a + target * DEVICE_CONTEXT_ENTRY_SIZE) {
                        Some(ep) => if field32(ep.d0, 0, 0x7) == EndpointState::Running.spec_to() {
                            &&& final(self).trc(target - 1).unwrap().state() == RingBufferState::Running
                            &&& wake == (old(self).trc(target - 1).unwrap().state() != RingBufferState::Running)
                        } else {
                            !wake && *final(self) == *old(self)
                        },
                        None => false,
                    },
                    None => false,
                },
                Err(_) => *final(self) == *old(self),
            },
            (1 <= target < DCI_INDEX_END && old(self).trc(target - 1) is Some) ==> (r is Ok == (device_context_addr(
                mem.regions(),
                dcbaap,
                old(self).slot_id(),
            ) matches Some(a) && obj_at::<EndpointContext>(mem.regions(), a + target * DEVICE_CONTEXT_ENTRY_SIZE) is Some)),
    {
        if !valid_endpoint_id(target as u8) || target >= DCI_INDEX_END {
            proof {
                if 1 <= target < DCI_INDEX_END {
                    assert(target as u8 == target);
                }
            }
            return Ok((false, false));
        }
        let endpoint_index = target - 1;
        if self.transfer_ring_controllers[endpoint_index].is_none() {
            return Ok((false, false));
        }
        let addr = self.get_device_context_addr(mem, dcbaap)?;
        proof {
            if obj_at::<EndpointContext>(mem.regions(), addr.0 + target * DEVICE_CONTEXT_ENTRY_SIZE) is Some {
                lemma_access_bound(mem.regions(), addr.0 + target * DEVICE_CONTEXT_ENTRY_SIZE, 32);
            }
        }
        let ep_addr = match addr.checked_add((target as u64) * DEVICE_CONTEXT_ENTRY_SIZE) {
            Some(a) => a,
            None => return Err(MemError::InvalidGuestAddress(addr)),
        };
        let context: EndpointContext = read_obj(mem, ep_addr)?;
        if context.get_endpoint_state() as u32 == EndpointState::Running.to() as u32 {
            let mut trc = self.transfer_ring_controllers.remove(endpoint_index).unwrap();
            let wake = trc.start();
            self.transfer_ring_controllers.insert(endpoint_index, Some(trc));
            Ok((true, wake))
        } else {
            Ok((true, false))
        }
    }

    /// Enables the slot; false when it already was.
    pub fn enable(&mut self) -> (r: bool)
        ensures
            r == !old(self).enabled(),
            !r ==> *final(self) == *old(self),
            final(self).enabled(),
            final(self).slot_id() == old(self).slot_id(),
            final(self).port_id() == old(self).port_id(),
            forall|i: int| #[trigger] final(self).trc(i) == old(self).trc(i),
            final(self).wf() == old(self).wf(),
    {
        if self.enabled {
            return false;
        }
        self.enabled = true;
        true
    }

    /// Reads the slot context at the device context address `a`.
    fn read_slot_context(mem: &GuestMemory, a: GuestAddress) -> (r: Result<SlotContext, MemError>)
        ensures
            match r {
                Ok(c) => obj_at::<SlotContext>(mem.regions(), a.0 as int) == Some(c),
                Err(_) => obj_at::<SlotContext>(mem.regions(), a.0 as int) is None,
            },
    {
        read_obj(mem, a)
    }

    /// Copies context `idx` of the input context at `input` to context `idx`
    /// of the slot's device context at `out`.
    fn copy_context(mem: &mut GuestMemory, out: GuestAddress, input: GuestAddress, idx: u8) -> (r: Result<(), MemError>)
        requires
            idx < 32,
        ensures
            match copy_ctx(old(mem).regions(), out.0, input.0, idx) {
                Some(m) => r is Ok && final(mem).regions() == m,
                None => r is Err && final(mem).regions() == old(mem).regions(),
            },
            r is Ok ==> regions_ok(old(mem).regions()),
    {
        let from = match input.checked_add((idx as u64 + 1) * DEVICE_CONTEXT_ENTRY_SIZE) {
            Some(a) => a,
            None => return Err(MemError::InvalidGuestAddress(input)),
        };
        let to = match out.checked_add(idx as u64 * DEVICE_CONTEXT_ENTRY_SIZE) {
            Some(a) => a,
            None => return Err(MemError::InvalidGuestAddress(out)),
        };
        let ctx: EndpointContext = read_obj(mem, from)?;
        write_obj(mem, &ctx, to)
    }

    /// Assigns the device an address and sets up its slot and control
    /// endpoint from the input context the command points to (xHCI 4.6.5).
    /// Fails when a context cannot be read or written.
    #[verifier::rlimit(60)]
    pub fn set_address<D: XhciBackendDevice>(
        &mut self,
        trb: &Trb,
        mem: &mut GuestMemory,
        dcbaap: u64,
        hub: &mut UsbHub<D>,
    ) -> (r: Result<TrbCompletionCode, MemError>)
        requires
            old(self).wf(),
            old(hub).wf(),
        ensures
            final(self).wf(),
            final(hub).wf(),
            final(self).slot_id() == old(self).slot_id(),
            final(self).enabled() == old(self).enabled(),
            match address_outcome(old(self).enabled(), old(self).slot_id(), old(mem).regions(), dcbaap, *trb, *old(hub)) {
                Some(c) => r == Ok::<TrbCompletionCode, MemError>(c),
                None => r is Err,
            },
            !old(self).enabled() ==> r == Ok::<TrbCompletionCode, MemError>(TrbCompletionCode::SlotNotEnabledError)
                && *final(self) == *old(self) && final(mem).regions() == old(mem).regions(),
            old(self).enabled() ==> match device_context_addr(old(mem).regions(), dcbaap, old(self).slot_id()) {
                None => r is Err,
                Some(a) => match obj_at::<SlotContext>(old(mem).regions(), a as int) {
                    None => r is Err,
                    Some(sc) => if slot_state_bits(sc) != 0 && (slot_state_bits(sc) != 1
                        || field32(trb.d3, 9, 1) > 0) {
                        r == Ok::<TrbCompletionCode, MemError>(TrbCompletionCode::ContextStateError)
                            && *final(self) == *old(self) && final(mem).regions() == old(mem).regions()
                    } else {
                        match copy_ctx(old(mem).regions(), a, parameter_of(*trb), 0) {
                            None => r is Err,
                            Some(m1) => match copy_ctx(m1, a, parameter_of(*trb), 1) {
                                None => r is Err,
                                Some(m2) => {
                                    let slot = obj_at::<SlotContext>(m2, a as int).unwrap();
                                    let port = field32(slot.d1, 16, 0xff) as u8;
                                    let ep0 = obj_at::<EndpointContext>(m2, a + 32).unwrap();
                                    &&& final(self).port_id() == port
                                    &&& r == Ok::<TrbCompletionCode, MemError>(
                                        if field32(trb.d3, 9, 1) > 0 || (1 <= port <= MAX_PORTS && old(hub).connected(port)) {
                                            TrbCompletionCode::Success
                                        } else {
                                            TrbCompletionCode::TransactionError
                                        },
                                    )
                                    &&& r == Ok::<TrbCompletionCode, MemError>(TrbCompletionCode::TransactionError) ==> final(mem).regions() == m2
                                    &&& r == Ok::<TrbCompletionCode, MemError>(TrbCompletionCode::Success) ==> {
                                        &&& final(self).trc(0) matches Some(c) && {
                                            &&& c.state() == RingBufferState::Stopped
                                            &&& c.ring().dequeue_pointer() == tr_dequeue_pointer_of(ep0) << 4u64
                                            &&& c.ring().consumer_cycle_state() == (field32(ep0.d2, 0, 1) > 0)
                                        }
                                        &&& obj_at::<EndpointContext>(final(mem).regions(), a + 32) == Some(with_ep_state(ep0, EndpointState::Running))
                                        &&& obj_at::<SlotContext>(final(mem).regions(), a as int) == Some(if field32(trb.d3, 9, 1) > 0 {
                                            with_slot_state(slot, DeviceSlotState::Default)
                                        } else {
                                            with_slot_state(SlotContext { d3: with_field32(slot.d3, 0, 0xff, old(self).slot_id() as u32), ..slot }, DeviceSlotState::Addressed)
                                        })
                                    }
                                },
                            },
                        }
                    },
                },
            },
    {
        if !self.enabled {
            return Ok(TrbCompletionCode::SlotNotEnabledError);
        }
        let a = self.get_device_context_addr(mem, dcbaap)?;
        let sc = Self::read_slot_context(mem, a)?;
        let bsr = trb.get_block_set_address_request();
        let state = sc.get_slot_state();
        if state != 0 && (state != 1 || bsr > 0) {
            return Ok(TrbCompletionCode::ContextStateError);
        }
        let input = GuestAddress(trb.get_input_context_pointer());
        let ghost m0 = mem.regions();
        Self::copy_context(mem, a, input, 0)?;
        let ghost m1 = mem.regions();
        Self::copy_context(mem, a, input, 1)?;
        let ghost m2 = mem.regions();
        proof {
            lemma_copied_contexts(m0, m1, m2, a.0, input.0);
        }
        let mut slot = Self::read_slot_context(mem, a)?;
        let ep0_addr = match a.checked_add(DEVICE_CONTEXT_ENTRY_SIZE) {
            Some(x) => x,
            None => return Err(MemError::InvalidGuestAddress(a)),
        };
        let mut ep0: EndpointContext = read_obj(mem, ep0_addr)?;
        self.port_id = slot.get_root_hub_port_number();
        let mut trc = RingBufferController::create_controller();
        if bsr > 0 {
            slot.set_state(DeviceSlotState::Default);
        } else {
            if !hub.set_backend_address(self.port_id, self.slot_id as u32) {
                self.transfer_ring_controllers.set(0, Some(trc));
                return Ok(TrbCompletionCode::TransactionError);
            }
            slot.set_usb_device_address(self.slot_id);
            slot.set_state(DeviceSlotState::Addressed);
        }
        trc.set_dequeue_pointer(GuestAddress(ep0.get_tr_dequeue_pointer() << 4u64));
        trc.set_consumer_cycle_state(ep0.get_dequeue_cycle_state() > 0);
        self.transfer_ring_controllers.set(0, Some(trc));
        ep0.set_state(EndpointState::Running);
        let ghost m2b = mem.regions();
        write_obj(mem, &slot, a)?;
        let ghost m3 = mem.regions();
        proof {
            lemma_write_keeps_access(m2b, a.0 as int, obj_bytes(slot), a.0 + 32, 32);
        }
        write_obj(mem, &ep0, ep0_addr)?;
        proof {
            crate::xhci_abi::lemma_read_after_write(m2b, a.0 as int, slot);
            crate::xhci_abi::lemma_read_after_write(m3, ep0_addr.0 as int, ep0);
            crate::guest_memory::lemma_bytes_at_write_other(m3, ep0_addr.0 as int, obj_bytes(ep0), a.0 as int, 32);
        }
        Ok(TrbCompletionCode::Success)
    }

    /// Reads the endpoint context at `addr`.
    fn read_endpoint_context(mem: &GuestMemory, addr: GuestAddress) -> (r: Result<EndpointContext, MemError>)
        ensures
            match r {
                Ok(c) => obj_at::<EndpointContext>(mem.regions(), addr.0 as int) == Some(c),
                Err(_) => obj_at::<EndpointContext>(mem.regions(), addr.0 as int) is None,
            },
    {
        read_obj(mem, addr)
    }

    /// Address of context `idx` of the device context at `a`.
    fn context_addr(a: GuestAddress, idx: u8) -> (r: Result<GuestAddress, MemError>)
        requires
            idx < 32,
        ensures
            match r {
                Ok(x) => x.0 == a.0 + idx * DEVICE_CONTEXT_ENTRY_SIZE,
                Err(_) => a.0 + idx * DEVICE_CONTEXT_ENTRY_SIZE > u64::MAX,
            },
    {
        match a.checked_add(idx as u64 * DEVICE_CONTEXT_ENTRY_SIZE) {
            Some(x) => Ok(x),
            None => Err(MemError::InvalidGuestAddress(a)),
        }
    }

    /// Adds or drops endpoints as the input control context says (xHCI
    /// 4.6.6); with the deconfigure flag every endpoint but the control
    /// endpoint is dropped. The slot becomes configured, or addressed when
    /// deconfigured.
    #[verifier::rlimit(40)]
    pub fn configure_endpoint(&mut self, trb: &Trb, mem: &mut GuestMemory, dcbaap: u64) -> (r: Result<TrbCompletionCode, MemError>)
        requires
            old(self).wf(),
        ensures
            final(self).wf(),
            final(self).slot_id() == old(self).slot_id(),
            final(self).port_id() == old(self).port_id(),
            final(self).enabled() == old(self).enabled(),
            configure_laid_out(old(mem).regions(), dcbaap, old(self).slot_id(), *trb) ==> r is Ok,
            r is Ok ==> r == Ok::<TrbCompletionCode, MemError>(TrbCompletionCode::Success),
            r is Ok ==> {
                let icc = if field32(trb.d3, 9, 1) > 0 {
                    InputControlContext { d0: 0xfffffffc, d1: 0, d2: 0, d3: 0, d4: 0, d5: 0, d6: 0, d7: 0 }
                } else {
                    obj_at::<InputControlContext>(old(mem).regions(), parameter_of(*trb) as int).unwrap()
                };
                forall|i: int| 0 <= i < TRANSFER_RING_CONTROLLERS_INDEX_END ==> {
                    if field32(icc.d1, (i + 1) as u32, 1) == 1 {
                        #[trigger] final(self).trc(i) matches Some(c) && c.state() == RingBufferState::Stopped
                    } else if field32(icc.d0, (i + 1) as u32, 1) == 1 {
                        final(self).trc(i) is None
                    } else {
                        final(self).trc(i) == old(self).trc(i)
                    }
                }
            },
            r is Ok ==> ({
                let deconf = field32(trb.d3, 9, 1) > 0;
                let input = parameter_of(*trb);
                let icc = if deconf {
                    InputControlContext { d0: 0xfffffffc, d1: 0, d2: 0, d3: 0, d4: 0, d5: 0, d6: 0, d7: 0 }
                } else {
                    obj_at::<InputControlContext>(old(mem).regions(), input as int).unwrap()
                };
                device_context_addr(old(mem).regions(), dcbaap, old(self).slot_id()) matches Some(a) ==> (
                    (apart(dcbaap + 8 * old(self).slot_id(), 8, a as int, 1024) && (deconf || apart(input as int, 1056, a as int, 1024)))
                    ==> {
                        &&& forall|dci: int| 1 <= dci < 32 ==> #[trigger] ep_ctx_at(final(mem).regions(), a, dci)
                            == configured_ep(old(mem).regions(), a, input, icc, dci)
                        &&& ctx_state(final(mem).regions(), a) == Some(if deconf { 2u32 } else { 3u32 })
                    })
            }),
    {
        let deconfigure = trb.get_deconfigure() > 0;
        let input = GuestAddress(trb.get_input_context_pointer());
        let ghost m0 = mem.regions();
        let ghost owed = configure_laid_out(m0, dcbaap, self.slot_id, *trb);
        proof {
            if owed {
                let a0 = device_context_addr(m0, dcbaap, self.slot_id).unwrap();
                lemma_context_blocks(m0, a0 as int, 32);
                if !deconfigure {
                    lemma_context_blocks(m0, input.0 as int, 33);
                    lemma_sub_access(m0, input.0 as int, 1056, input.0 as int, 32);
                }
            }
        }
        let input_control_context: InputControlContext = if deconfigure {
            // Deconfiguring drops contexts 2 to 31 and adds none (xHCI 4.6.6).
            InputControlContext { d0: 0xfffffffc, d1: 0, d2: 0, d3: 0, d4: 0, d5: 0, d6: 0, d7: 0 }
        } else {
            read_obj(mem, input)?
        };
        let ghost icc = input_control_context;
        let ghost old_trcs = self.transfer_ring_controllers@;
        let ghost dca = device_context_addr(m0, dcbaap, self.slot_id);
        let ghost a: u64 = match dca {
            Some(x) => x,
            None => 0,
        };
        let ghost entry: int = dcbaap + 8 * self.slot_id;
        let ghost clean: bool = dca is Some && apart(entry, 8, a as int, 1024) && (deconfigure || apart(
            input.0 as int,
            1056,
            a as int,
            1024,
        ));
        let mut device_context_index: u8 = 1;
        while device_context_index < 32
            invariant
                1 <= device_context_index <= 32,
                icc == input_control_context,
                self.wf(),
                self.slot_id == old(self).slot_id(),
                self.port_id == old(self).port_id(),
                self.enabled == old(self).enabled(),
                old_trcs == old(self).transfer_ring_controllers@,
                m0 == old(mem).regions(),
                dca == device_context_addr(m0, dcbaap, self.slot_id),
                entry == dcbaap + 8 * self.slot_id,
                a == match dca {
                    Some(x) => x,
                    None => 0,
                },
                clean == (dca is Some && apart(entry, 8, a as int, 1024) && (deconfigure || apart(input.0 as int, 1056, a as int, 1024))),
                deconfigure == (field32(trb.d3, 9, 1) > 0),
                input.0 == parameter_of(*trb),
                !deconfigure ==> obj_at::<InputControlContext>(m0, input.0 as int) == Some(icc),
                deconfigure ==> icc == (InputControlContext { d0: 0xfffffffc, d1: 0, d2: 0, d3: 0, d4: 0, d5: 0, d6: 0, d7: 0 }),
                forall|i: int| 0 <= i < TRANSFER_RING_CONTROLLERS_INDEX_END ==> {
                    if i + 1 < device_context_index {
                        if field32(icc.d1, (i + 1) as u32, 1) == 1 {
                            #[trigger] self.transfer_ring_controllers@[i] matches Some(c) && c.state() == RingBufferState::Stopped
                        } else if field32(icc.d0, (i + 1) as u32, 1) == 1 {
                            self.transfer_ring_controllers@[i] is None
                        } else {
                            self.transfer_ring_controllers@[i] == old(self).trc(i)
                        }
                    } else {
                        self.transfer_ring_controllers@[i] == old(self).trc(i)
                    }
                },
                clean ==> bytes_at(mem.regions(), entry, 8) == bytes_at(m0, entry, 8),
                clean ==> forall|k: int| 1 <= k < device_context_index ==> #[trigger] ep_ctx_at(mem.regions(), a, k)
                    == configured_ep(m0, a, input.0, icc, k),
                clean ==> forall|k: int| (k == 0 || device_context_index <= k < 32) ==> #[trigger] block_at(mem.regions(), a as int, k)
                    == block_at(m0, a as int, k),
                clean && !deconfigure ==> forall|k: int| 0 <= k < 33 ==> #[trigger] block_at(mem.regions(), input.0 as int, k)
                    == block_at(m0, input.0 as int, k),
                owed == configure_laid_out(m0, dcbaap, self.slot_id, *trb),
                owed ==> clean,
                owed ==> forall|k: int| 0 <= k < 32 ==> #[trigger] block_at(m0, a as int, k) is Some,
                owed && !deconfigure ==> forall|k: int| 0 <= k < 33 ==> #[trigger] block_at(m0, input.0 as int, k) is Some,
            decreases 32 - device_context_index,
        {
            let ghost before = self.transfer_ring_controllers@;
            let ghost mem0 = mem.regions();
            let ghost dci = device_context_index as int;
            let drop_flag = input_control_context.drop_context_flag(device_context_index);
            let add_flag = input_control_context.add_context_flag(device_context_index);
            proof {
                if deconfigure {
                    lemma_field_of_zero(dci as u32);
                }
                if clean {
                    assert(block_at(mem0, a as int, dci) == block_at(m0, a as int, dci));
                    if !deconfigure {
                        assert(block_at(mem0, input.0 as int, dci + 1) == block_at(m0, input.0 as int, dci + 1));
                    }
                }
            }
            self.configure_index(mem, dcbaap, input, device_context_index, drop_flag, add_flag, Ghost(a), Ghost(clean), Ghost(!deconfigure))?;
            proof {
                let d = device_context_index as int - 1;
                assert((d + 1) as u32 == device_context_index as u32);
                assert(add_flag == (field32(icc.d1, (d + 1) as u32, 1) == 1));
                assert(drop_flag == (field32(icc.d0, (d + 1) as u32, 1) == 1));
                assert(before[d] == old(self).trc(d));
                if clean {
                    assert(ep_ctx_at(mem.regions(), a, dci) == configured_ep(m0, a, input.0, icc, dci));
                    assert forall|k: int| 1 <= k < dci + 1 implies #[trigger] ep_ctx_at(mem.regions(), a, k)
                        == configured_ep(m0, a, input.0, icc, k) by {
                        if k < dci {
                            assert(block_at(mem.regions(), a as int, k) == block_at(mem0, a as int, k));
                            assert(ep_ctx_at(mem0, a, k) == configured_ep(m0, a, input.0, icc, k));
                        }
                    }
                }
            }
            device_context_index = device_context_index + 1;
        }
        let ghost mem_l = mem.regions();
        proof {
            if owed {
                assert(block_at(mem_l, a as int, 0) == block_at(m0, a as int, 0));
                assert(a + 32 * 0 == a);
                assert(device_context_addr(mem_l, dcbaap, self.slot_id) == Some(a));
                assert(obj_at::<SlotContext>(mem_l, a as int) is Some);
            }
        }
        if deconfigure {
            self.set_state(mem, dcbaap, DeviceSlotState::Addressed)?;
        } else {
            self.set_state(mem, dcbaap, DeviceSlotState::Configured)?;
        }
        proof {
            if clean {
                let sc = obj_at::<SlotContext>(mem_l, a as int).unwrap();
                let st = if deconfigure { DeviceSlotState::Addressed } else { DeviceSlotState::Configured };
                with_slot_state(sc, st).lemma_layout();
                lemma_context_write(mem_l, a, 0, obj_bytes(with_slot_state(sc, st)), entry, input.0 as int, !deconfigure);
                assert forall|dci: int| 1 <= dci < 32 implies #[trigger] ep_ctx_at(mem.regions(), a, dci)
                    == configured_ep(m0, a, input.0, icc, dci) by {
                    assert(block_at(mem.regions(), a as int, dci) == block_at(mem_l, a as int, dci));
                    assert(ep_ctx_at(mem_l, a, dci) == configured_ep(m0, a, input.0, icc, dci));
                }
            }
        }
        Ok(TrbCompletionCode::Success)
    }

    /// One device context index of a configure endpoint command: the
    /// endpoint is dropped and then added as the flags say. When the device
    /// context is at `a` and lies apart from its address array entry and,
    /// with `with_input`, from the input context, only that endpoint's
    /// context changes.
    #[verifier::rlimit(80)]
    fn configure_index(
        &mut self,
        mem: &mut GuestMemory,
        dcbaap: u64,
        input: GuestAddress,
        dci: u8,
        drop_flag: bool,
        add_flag: bool,
        Ghost(a): Ghost<u64>,
        Ghost(clean): Ghost<bool>,
        Ghost(with_input): Ghost<bool>,
    ) -> (r: Result<(), MemError>)
        requires
            old(self).wf(),
            1 <= dci < 32,
            add_flag ==> with_input,
            clean ==> device_context_addr(old(mem).regions(), dcbaap, old(self).slot_id()) == Some(a)
                && apart(dcbaap + 8 * old(self).slot_id(), 8, a as int, 1024)
                && (with_input ==> apart(input.0 as int, 1056, a as int, 1024)),
        ensures
            final(self).wf(),
            final(self).slot_id() == old(self).slot_id(),
            final(self).port_id() == old(self).port_id(),
            final(self).enabled() == old(self).enabled(),
            forall|i: int| 0 <= i < TRANSFER_RING_CONTROLLERS_INDEX_END && i != dci - 1 ==> #[trigger] final(self).transfer_ring_controllers@[i]
                == old(self).transfer_ring_controllers@[i],
            clean && block_at(old(mem).regions(), a as int, dci as int) is Some
                && (add_flag ==> block_at(old(mem).regions(), input.0 as int, dci + 1) is Some) ==> r is Ok,
            r is Ok ==> if add_flag {
                final(self).transfer_ring_controllers@[dci - 1] matches Some(c) && c.state() == RingBufferState::Stopped
            } else if drop_flag {
                final(self).transfer_ring_controllers@[dci - 1] is None
            } else {
                final(self).transfer_ring_controllers@[dci - 1] == old(self).transfer_ring_controllers@[dci - 1]
            },
            r is Ok && clean ==> {
                let entry = dcbaap + 8 * old(self).slot_id();
                &&& forall|k: int| 0 <= k < 32 && k != dci ==> #[trigger] block_at(final(mem).regions(), a as int, k)
                    == block_at(old(mem).regions(), a as int, k)
                &&& bytes_at(final(mem).regions(), entry, 8) == bytes_at(old(mem).regions(), entry, 8)
                &&& with_input ==> forall|k: int| 0 <= k < 33 ==> #[trigger] block_at(final(mem).regions(), input.0 as int, k)
                    == block_at(old(mem).regions(), input.0 as int, k)
                &&& ep_ctx_at(final(mem).regions(), a, dci as int) == if add_flag {
                    match obj_at::<EndpointContext>(old(mem).regions(), input.0 + 32 * (dci + 1)) {
                        Some(c) => Some(with_ep_state(c, EndpointState::Running)),
                        None => None,
                    }
                } else if drop_flag {
                    match ep_ctx_at(old(mem).regions(), a, dci as int) {
                        Some(c) => Some(with_ep_state(c, EndpointState::Disabled)),
                        None => None,
                    }
                } else {
                    ep_ctx_at(old(mem).regions(), a, dci as int)
                }
            },
    {
        let ghost mem0 = mem.regions();
        let ghost entry: int = dcbaap + 8 * self.slot_id;
        if drop_flag {
            self.drop_one_endpoint(mem, dcbaap, dci)?;
        }
        let ghost mid = self.transfer_ring_controllers@;
        let ghost mem1 = mem.regions();
        proof {
            if clean && drop_flag {
                let ep = ep_ctx_at(mem0, a, dci as int).unwrap();
                let e1 = with_ep_state(ep, EndpointState::Disabled);
                e1.lemma_layout();
                lemma_context_write(mem0, a, dci as int, obj_bytes(e1), entry, input.0 as int, with_input);
                crate::xhci_abi::lemma_read_after_write(mem0, a + 32 * dci, e1);
            }
        }
        if add_flag {
            let da = self.get_device_context_addr(mem, dcbaap)?;
            Self::copy_context(mem, da, input, dci)?;
            let ghost mem2 = mem.regions();
            proof {
                if clean {
                    assert(da.0 == a);
                    let c = obj_at::<EndpointContext>(mem1, input.0 + (dci + 1) * 32).unwrap();
                    if drop_flag {
                        assert(block_at(mem1, input.0 as int, dci + 1) == block_at(mem0, input.0 as int, dci + 1));
                    }
                    c.lemma_layout();
                    lemma_context_write(mem1, a, dci as int, obj_bytes(c), entry, input.0 as int, with_input);
                    crate::xhci_abi::lemma_read_after_write(mem1, a + 32 * dci, c);
                }
            }
            self.add_one_endpoint(mem, dcbaap, dci)?;
            proof {
                if clean {
                    let c = obj_at::<EndpointContext>(mem1, input.0 + (dci + 1) * 32).unwrap();
                    let e2 = with_ep_state(c, EndpointState::Running);
                    e2.lemma_layout();
                    lemma_context_write(mem2, a, dci as int, obj_bytes(e2), entry, input.0 as int, with_input);
                    crate::xhci_abi::lemma_read_after_write(mem2, a + 32 * dci, e2);
                    assert forall|k: int| 0 <= k < 32 && k != dci implies #[trigger] block_at(mem.regions(), a as int, k)
                        == block_at(mem0, a as int, k) by {
                        assert(block_at(mem1, a as int, k) == block_at(mem0, a as int, k));
                    }
                    if with_input {
                        assert forall|k: int| 0 <= k < 33 implies #[trigger] block_at(mem.regions(), input.0 as int, k)
                            == block_at(mem0, input.0 as int, k) by {
                            assert(block_at(mem1, input.0 as int, k) == block_at(mem0, input.0 as int, k));
                        }
                    }
                }
            }
        }
        proof {
            let d = dci as int - 1;
            assert forall|i: int| 0 <= i < TRANSFER_RING_CONTROLLERS_INDEX_END && i != d implies #[trigger] self.transfer_ring_controllers@[i]
                == old(self).transfer_ring_controllers@[i] by {
                assert(mid[i] == old(self).transfer_ring_controllers@[i]);
            }
        }
        Ok(())
    }

    /// Takes new values for the slot's interrupter target and exit latency
    /// and the control endpoint's maximum packet size from the input context
    /// (xHCI 4.6.7); only a slot whose context is neither default, addressed
    /// nor configured is evaluated.
    #[verifier::rlimit(40)]
    pub fn evaluate_context(&self, trb: &Trb, mem: &mut GuestMemory, dcbaap: u64) -> (r: Result<TrbCompletionCode, MemError>)
        ensures
            match evaluate_outcome(self.enabled(), self.slot_id(), old(mem).regions(), dcbaap, *trb) {
                Some(c) => r == Ok::<TrbCompletionCode, MemError>(c),
                None => r is Err,
            },
            !self.enabled() ==> r == Ok::<TrbCompletionCode, MemError>(TrbCompletionCode::SlotNotEnabledError)
                && final(mem).regions() == old(mem).regions(),
            self.enabled() ==> match device_context_addr(old(mem).regions(), dcbaap, self.slot_id()) {
                None => r is Err,
                Some(a) => match obj_at::<SlotContext>(old(mem).regions(), a as int) {
                    None => r is Err,
                    Some(sc) => if 1 <= slot_state_bits(sc) <= 3 {
                        r == Ok::<TrbCompletionCode, MemError>(TrbCompletionCode::ContextStateError)
                            && final(mem).regions() == old(mem).regions()
                    } else {
                        &&& match obj_at::<InputControlContext>(old(mem).regions(), parameter_of(*trb) as int) {
                            None => r is Err,
                            Some(icc) => (r is Ok) == (obj_at::<EndpointContext>(old(mem).regions(), a + 32) is Some
                                && (field32(icc.d1, 0, 1) == 1 ==> obj_at::<SlotContext>(
                                old(mem).regions(),
                                parameter_of(*trb) + 32,
                            ) is Some) && (field32(icc.d1, 1, 1) == 1 ==> obj_at::<EndpointContext>(
                                old(mem).regions(),
                                parameter_of(*trb) + 64,
                            ) is Some)),
                        }
                        &&& r is Ok ==> {
                            let input = parameter_of(*trb);
                            let icc = obj_at::<InputControlContext>(old(mem).regions(), input as int).unwrap();
                            let ep0 = obj_at::<EndpointContext>(old(mem).regions(), a + 32).unwrap();
                            &&& r == Ok::<TrbCompletionCode, MemError>(TrbCompletionCode::Success)
                            &&& obj_at::<SlotContext>(final(mem).regions(), a as int) == Some(evaluated_slot(
                                sc,
                                icc,
                                obj_at::<SlotContext>(old(mem).regions(), input + 32),
                            ))
                            &&& obj_at::<EndpointContext>(final(mem).regions(), a + 32) == Some(evaluated_ep0(
                                ep0,
                                icc,
                                obj_at::<EndpointContext>(old(mem).regions(), input + 64),
                            ))
                        }
                    },
                },
            },
    {
        if !self.enabled {
            return Ok(TrbCompletionCode::SlotNotEnabledError);
        }
        let a = self.get_device_context_addr(mem, dcbaap)?;
        let mut slot = Self::read_slot_context(mem, a)?;
        let state = slot.get_slot_state();
        if state == 1 || state == 2 || state == 3 {
            return Ok(TrbCompletionCode::ContextStateError);
        }
        let input = trb.get_input_context_pointer();
        let input_control_context: InputControlContext = read_obj(mem, GuestAddress(input))?;
        let ep0_addr = Self::context_addr(a, 1)?;
        let mut ep0 = Self::read_endpoint_context(mem, ep0_addr)?;
        if input_control_context.add_context_flag(0) {
            let in_slot_addr = Self::context_addr(GuestAddress(input), 1)?;
            let input_slot_context: SlotContext = read_obj(mem, in_slot_addr)?;
            slot.set_interrupter_target(input_slot_context.get_interrupter_target());
            slot.set_max_exit_latency(input_slot_context.get_max_exit_latency());
        }
        if input_control_context.add_context_flag(1) {
            let in_ep0_addr = Self::context_addr(GuestAddress(input), 2)?;
            let ep0_context = Self::read_endpoint_context(mem, in_ep0_addr)?;
            ep0.set_max_packet_size(ep0_context.get_max_packet_size());
        }
        let ghost m1 = mem.regions();
        write_obj(mem, &slot, a)?;
        let ghost m2 = mem.regions();
        proof {
            lemma_write_keeps_access(m1, a.0 as int, obj_bytes(slot), ep0_addr.0 as int, 32);
        }
        write_obj(mem, &ep0, ep0_addr)?;
        proof {
            crate::xhci_abi::lemma_read_after_write(m1, a.0 as int, slot);
            crate::xhci_abi::lemma_read_after_write(m2, ep0_addr.0 as int, ep0);
            crate::guest_memory::lemma_bytes_at_write_other(m2, ep0_addr.0 as int, obj_bytes(ep0), a.0 as int, 32);
        }
        Ok(TrbCompletionCode::Success)
    }

    /// First part of a reset device command (xHCI 4.6.8): only an addressed
    /// or configured slot is reset. Returns the completion code when the
    /// command is done at once; otherwise its transfer rings are being
    /// stopped, and `finish_reset_slot` completes it.
    pub fn reset_slot(&mut self, mem: &GuestMemory, dcbaap: u64) -> (r: Result<Option<TrbCompletionCode>, MemError>)
        requires
            old(self).wf(),
        ensures
            final(self).wf(),
            final(self).slot_id() == old(self).slot_id(),
            final(self).port_id() == old(self).port_id(),
            final(self).enabled() == old(self).enabled(),
            match r {
                Ok(Some(c)) => c == TrbCompletionCode::ContextStateError && *final(self) == *old(self),
                Ok(None) => stop_requested(*old(self), *final(self)),
                Err(_) => *final(self) == *old(self),
            },
            r is Ok == (slot_state_at(mem.regions(), dcbaap, old(self).slot_id()) is Some),
            r is Ok ==> match device_context_addr(mem.regions(), dcbaap, old(self).slot_id()) {
                Some(a) => match obj_at::<SlotContext>(mem.regions(), a as int) {
                    Some(sc) => (r == Ok::<Option<TrbCompletionCode>, MemError>(None)) == (slot_state_bits(sc) == 2 || slot_state_bits(sc) == 3),
                    None => false,
                },
                None => false,
            },
    {
        let state = self.state(mem, dcbaap)?;
        if state != 2 && state != 3 {
            return Ok(Some(TrbCompletionCode::ContextStateError));
        }
        self.stop_all_trc();
        Ok(None)
    }

    /// Second part of a reset device command, once the transfer rings have
    /// stopped: every endpoint but the control endpoint is dropped and the
    /// slot goes back to the default state with one context entry and no
    /// root hub port.
    pub fn finish_reset_slot(&mut self, mem: &mut GuestMemory, dcbaap: u64) -> (r: Result<TrbCompletionCode, MemError>)
        requires
            old(self).wf(),
        ensures
            final(self).wf(),
            final(self).slot_id() == old(self).slot_id(),
            final(self).enabled() == old(self).enabled(),
            device_context_laid_out(old(mem).regions(), dcbaap, old(self).slot_id()) ==> r is Ok,
            r is Ok ==> r == Ok::<TrbCompletionCode, MemError>(TrbCompletionCode::Success),
            r is Ok ==> final(self).trc(0) == old(self).trc(0),
            r is Ok ==> forall|i: int| 1 <= i < TRANSFER_RING_CONTROLLERS_INDEX_END ==> #[trigger] final(self).trc(i) is None,
            r is Ok ==> (device_context_addr(old(mem).regions(), dcbaap, old(self).slot_id()) matches Some(a) ==> (
                apart(dcbaap + 8 * old(self).slot_id(), 8, a as int, 1024) ==> {
                    &&& forall|dci: int| 2 <= dci < 32 ==> #[trigger] ep_ctx_at(final(mem).regions(), a, dci) == match ep_ctx_at(
                        old(mem).regions(),
                        a,
                        dci,
                    ) {
                        Some(c) => Some(with_ep_state(c, EndpointState::Disabled)),
                        None => None::<EndpointContext>,
                    }
                    &&& ep_ctx_at(final(mem).regions(), a, 1) == ep_ctx_at(old(mem).regions(), a, 1)
                    &&& obj_at::<SlotContext>(final(mem).regions(), a as int) == match obj_at::<SlotContext>(
                        old(mem).regions(),
                        a as int,
                    ) {
                        Some(sc) => Some(reset_slot_context(sc)),
                        None => None::<SlotContext>,
                    }
                })),
    {
        let ghost m0 = mem.regions();
        let ghost dca = device_context_addr(m0, dcbaap, self.slot_id);
        let ghost a: u64 = match dca {
            Some(x) => x,
            None => 0,
        };
        let ghost entry: int = dcbaap + 8 * self.slot_id;
        let ghost clean: bool = dca is Some && apart(entry, 8, a as int, 1024);
        let ghost owed = device_context_laid_out(m0, dcbaap, self.slot_id);
        proof {
            if owed {
                lemma_context_blocks(m0, a as int, 32);
            }
        }
        let mut i: u8 = 2;
        while i < 32
            invariant
                2 <= i <= 32,
                self.wf(),
                self.slot_id == old(self).slot_id(),
                self.enabled == old(self).enabled(),
                self.transfer_ring_controllers@[0] == old(self).trc(0),
                forall|k: int| 1 <= k < i - 1 ==> #[trigger] self.transfer_ring_controllers@[k] is None,
                m0 == old(mem).regions(),
                dca == device_context_addr(m0, dcbaap, self.slot_id),
                entry == dcbaap + 8 * self.slot_id,
                a == match dca {
                    Some(x) => x,
                    None => 0,
                },
                clean == (dca is Some && apart(entry, 8, a as int, 1024)),
                clean ==> bytes_at(mem.regions(), entry, 8) == bytes_at(m0, entry, 8),
                clean ==> forall|k: int| 2 <= k < i ==> #[trigger] ep_ctx_at(mem.regions(), a, k) == match ep_ctx_at(m0, a, k) {
                    Some(c) => Some(with_ep_state(c, EndpointState::Disabled)),
                    None => None::<EndpointContext>,
                },
                clean ==> forall|k: int| (k == 0 || k == 1 || i <= k < 32) ==> #[trigger] block_at(mem.regions(), a as int, k)
                    == block_at(m0, a as int, k),
                owed == device_context_laid_out(m0, dcbaap, self.slot_id),
                owed ==> clean,
                owed ==> forall|k: int| 0 <= k < 32 ==> #[trigger] block_at(m0, a as int, k) is Some,
            decreases 32 - i,
        {
            let ghost mem0 = mem.regions();
            let ghost dci = i as int;
            proof {
                if clean {
                    assert(block_at(mem0, a as int, dci) == block_at(m0, a as int, dci));
                }
            }
            self.configure_index(mem, dcbaap, GuestAddress(0), i, true, false, Ghost(a), Ghost(clean), Ghost(false))?;
            proof {
                if clean {
                    assert forall|k: int| 2 <= k < dci + 1 implies #[trigger] ep_ctx_at(mem.regions(), a, k) == match ep_ctx_at(m0, a, k) {
                        Some(c) => Some(with_ep_state(c, EndpointState::Disabled)),
                        None => None::<EndpointContext>,
                    } by {
                        if k < dci {
                            assert(block_at(mem.regions(), a as int, k) == block_at(mem0, a as int, k));
                            assert(ep_ctx_at(mem0, a, k) == match ep_ctx_at(m0, a, k) {
                                Some(c) => Some(with_ep_state(c, EndpointState::Disabled)),
                                None => None::<EndpointContext>,
                            });
                        }
                    }
                }
            }
            i = i + 1;
        }
        proof {
            if owed {
                assert(block_at(mem.regions(), a as int, 0) == block_at(m0, a as int, 0));
                assert(a + 32 * 0 == a);
                assert(device_context_addr(mem.regions(), dcbaap, self.slot_id) == Some(a));
                assert(obj_at::<SlotContext>(mem.regions(), a as int) is Some);
            }
        }
        let da = self.get_device_context_addr(mem, dcbaap)?;
        let mut slot = Self::read_slot_context(mem, da)?;
        let ghost sc0 = slot;
        slot.set_state(DeviceSlotState::Default);
        slot.set_context_entries(1);
        slot.set_root_hub_port_number(0);
        let ghost mem_l = mem.regions();
        write_obj(mem, &slot, da)?;
        proof {
            if clean {
                assert(da.0 == a);
                assert(slot == reset_slot_context(sc0));
                assert(block_at(mem_l, a as int, 0) == block_at(m0, a as int, 0));
                slot.lemma_layout();
                lemma_context_write(mem_l, a, 0, obj_bytes(slot), entry, 0, false);
                crate::xhci_abi::lemma_read_after_write(mem_l, a as int, slot);
                assert forall|dci: int| 2 <= dci < 32 implies #[trigger] ep_ctx_at(mem.regions(), a, dci) == match ep_ctx_at(
                    m0,
                    a,
                    dci,
                ) {
                    Some(c) => Some(with_ep_state(c, EndpointState::Disabled)),
                    None => None::<EndpointContext>,
                } by {
                    assert(block_at(mem.regions(), a as int, dci) == block_at(mem_l, a as int, dci));
                    assert(ep_ctx_at(mem_l, a, dci) == match ep_ctx_at(m0, a, dci) {
                        Some(c) => Some(with_ep_state(c, EndpointState::Disabled)),
                        None => None::<EndpointContext>,
                    });
                }
                assert(block_at(mem.regions(), a as int, 1) == block_at(mem_l, a as int, 1));
            }
        }
        Ok(TrbCompletionCode::Success)
    }

    /// First part of a disable slot command (xHCI 4.6.4): a slot that is not
    /// enabled fails at once; otherwise its transfer rings are being
    /// stopped, and `finish_disable` completes the command.
    pub fn disable(&mut self) -> (r: Option<TrbCompletionCode>)
        requires
            old(self).wf(),
        ensures
            final(self).wf(),
            final(self).slot_id() == old(self).slot_id(),
            final(self).port_id() == old(self).port_id(),
            final(self).enabled() == old(self).enabled(),
            !old(self).enabled() ==> r == Some(TrbCompletionCode::SlotNotEnabledError) && *final(self) == *old(self),
            old(self).enabled() ==> r is None,
    {
        if self.enabled {
            self.stop_all_trc();
            None
        } else {
            Some(TrbCompletionCode::SlotNotEnabledError)
        }
    }

    /// Second part of a disable slot command, once the transfer rings have
    /// stopped: the slot context goes back to the disabled state and the
    /// slot is reset.
    pub fn finish_disable(&mut self, mem: &mut GuestMemory, dcbaap: u64) -> (r: Result<TrbCompletionCode, MemError>)
        requires
            old(self).wf(),
        ensures
            final(self).wf(),
            final(self).slot_id() == old(self).slot_id(),
            r is Ok ==> r == Ok::<TrbCompletionCode, MemError>(TrbCompletionCode::Success) && !final(self).enabled()
                && final(self).port_id() == 0
                && forall|i: int| 0 <= i < TRANSFER_RING_CONTROLLERS_INDEX_END ==> #[trigger] final(self).trc(i) is None,
            r is Ok ==> (device_context_addr(old(mem).regions(), dcbaap, old(self).slot_id()) matches Some(a)
                && ctx_state(final(mem).regions(), a) == Some(0u32)),
            r is Err ==> *final(self) == *old(self),
            r is Ok == (slot_state_at(old(mem).regions(), dcbaap, old(self).slot_id()) is Some),
    {
        self.set_state(mem, dcbaap, DeviceSlotState::DisabledOrEnabled)?;
        self.reset();
        Ok(TrbCompletionCode::Success)
    }

    /// Asks every transfer ring of the slot to stop. Returns how many stop
    /// requests are pending.
    pub fn stop_all_trc(&mut self) -> (r: usize)
        requires
            old(self).wf(),
        ensures
            final(self).wf(),
            final(self).slot_id() == old(self).slot_id(),
            final(self).port_id() == old(self).port_id(),
            final(self).enabled() == old(self).enabled(),
            forall|i: int| 0 <= i < TRANSFER_RING_CONTROLLERS_INDEX_END ==> (#[trigger] final(self).trc(i)) is Some == old(self).trc(i) is Some,
            forall|i: int| 0 <= i < TRANSFER_RING_CONTROLLERS_INDEX_END && old(self).trc(i) is Some ==>
                (#[trigger] final(self).trc(i)).unwrap().state() != RingBufferState::Running,
    {
        let mut pending: usize = 0;
        let mut i: usize = 0;
        while i < TRANSFER_RING_CONTROLLERS_INDEX_END
            invariant
                i <= TRANSFER_RING_CONTROLLERS_INDEX_END,
                pending <= i,
                self.wf(),
                self.slot_id == old(self).slot_id(),
                self.port_id == old(self).port_id(),
                self.enabled == old(self).enabled(),
                forall|k: int| 0 <= k < TRANSFER_RING_CONTROLLERS_INDEX_END ==> (#[trigger] self.transfer_ring_controllers@[k]) is Some == old(self).trc(k) is Some,
                forall|k: int| 0 <= k < i && old(self).trc(k) is Some ==> (#[trigger] self.transfer_ring_controllers@[k]).unwrap().state() != RingBufferState::Running,
                forall|k: int| i <= k < TRANSFER_RING_CONTROLLERS_INDEX_END ==> #[trigger] self.transfer_ring_controllers@[k] == old(self).trc(k),
            decreases TRANSFER_RING_CONTROLLERS_INDEX_END - i,
        {
            if self.transfer_ring_controllers[i].is_some() {
                let mut trc = self.transfer_ring_controllers.remove(i).unwrap();
                if trc.stop() {
                    pending = pending + 1;
                }
                self.transfer_ring_controllers.insert(i, Some(trc));
            }
            i = i + 1;
        }
        pending
    }

    /// Stop endpoint command (xHCI 4.6.9) for device context index
    /// `endpoint_id`. Returns the completion code when the command is done
    /// at once (`None`: the endpoint's ring is stopping and the command
    /// completes with success once it has).
    pub fn stop_endpoint(&mut self, endpoint_id: u8) -> (r: Option<TrbCompletionCode>)
        requires
            old(self).wf(),
        ensures
            final(self).wf(),
            final(self).slot_id() == old(self).slot_id(),
            final(self).port_id() == old(self).port_id(),
            final(self).enabled() == old(self).enabled(),
            !spec_valid_endpoint_id(endpoint_id) ==> r == Some(TrbCompletionCode::TrbError) && *final(self) == *old(self),
            spec_valid_endpoint_id(endpoint_id) ==> match old(self).trc(endpoint_id - 1) {
                None => r == Some(TrbCompletionCode::ContextStateError) && *final(self) == *old(self),
                Some(c) => {
                    &&& r == if c.state() == RingBufferState::Stopped { Some(TrbCompletionCode::Success) } else { None::<TrbCompletionCode> }
                    &&& final(self).trc(endpoint_id - 1) matches Some(c2) && (c2.state() == RingBufferState::Stopped || c2.state() == RingBufferState::Stopping)
                    &&& forall|i: int| 0 <= i < TRANSFER_RING_CONTROLLERS_INDEX_END && i != endpoint_id - 1 ==> #[trigger] final(self).trc(i) == old(self).trc(i)
                },
            },
    {
        if !valid_endpoint_id(endpoint_id) {
            return Some(TrbCompletionCode::TrbError);
        }
        let index = (endpoint_id - 1) as usize;
        if self.transfer_ring_controllers[index].is_none() {
            return Some(TrbCompletionCode::ContextStateError);
        }
        let mut trc = self.transfer_ring_controllers.remove(index).unwrap();
        let pending = trc.stop();
        self.transfer_ring_controllers.insert(index, Some(trc));
        if pending {
            None
        } else {
            Some(TrbCompletionCode::Success)
        }
    }

    /// Set TR dequeue pointer command (xHCI 4.6.10) for device context index
    /// `endpoint_id`.
    pub fn set_tr_dequeue_ptr(&mut self, endpoint_id: u8, ptr: u64) -> (r: TrbCompletionCode)
        requires
            old(self).wf(),
        ensures
            final(self).wf(),
            final(self).slot_id() == old(self).slot_id(),
            final(self).port_id() == old(self).port_id(),
            final(self).enabled() == old(self).enabled(),
            !spec_valid_endpoint_id(endpoint_id) ==> r == TrbCompletionCode::TrbError && *final(self) == *old(self),
            spec_valid_endpoint_id(endpoint_id) ==> match old(self).trc(endpoint_id - 1) {
                None => r == TrbCompletionCode::ContextStateError && *final(self) == *old(self),
                Some(c) => {
                    &&& r == TrbCompletionCode::Success
                    &&& final(self).trc(endpoint_id - 1) matches Some(c2) && c2.ring().dequeue_pointer() == ptr
                        && c2.state() == c.state()
                        && c2.ring().consumer_cycle_state() == c.ring().consumer_cycle_state()
                    &&& forall|i: int| 0 <= i < TRANSFER_RING_CONTROLLERS_INDEX_END && i != endpoint_id - 1 ==> #[trigger] final(self).trc(i) == old(self).trc(i)
                },
            },
    {
        if !valid_endpoint_id(endpoint_id) {
            return TrbCompletionCode::TrbError;
        }
        let index = (endpoint_id - 1) as usize;
        if self.transfer_ring_controllers[index].is_none() {
            return TrbCompletionCode::ContextStateError;
        }
        let mut trc = self.transfer_ring_controllers.remove(index).unwrap();
        trc.set_dequeue_pointer(GuestAddress(ptr));
        self.transfer_ring_controllers.insert(index, Some(trc));
        TrbCompletionCode::Success
    }

    /// Forgets the slot's endpoints and port and disables it.
    pub fn reset(&mut self)
        requires
            old(self).wf(),
        ensures
            final(self).wf(),
            final(self).slot_id() == old(self).slot_id(),
            final(self).port_id() == 0,
            !final(self).enabled(),
            forall|i: int| 0 <= i < TRANSFER_RING_CONTROLLERS_INDEX_END ==> #[trigger] final(self).trc(i) is None,
    {
        let mut i: usize = 0;
        while i < self.transfer_ring_controllers.len()
            invariant
                i <= TRANSFER_RING_CONTROLLERS_INDEX_END,
                self.wf(),
                self.slot_id == old(self).slot_id(),
                forall|k: int| 0 <= k < i ==> #[trigger] self.transfer_ring_controllers@[k] is None,
            decreases TRANSFER_RING_CONTROLLERS_INDEX_END - i,
        {
            self.transfer_ring_controllers.set(i, None);
            i = i + 1;
        }
        self.enabled = false;
        self.port_id = 0;
    }

    /// Makes a transfer ring for device context index `dci`, starting where
    /// its endpoint context says, and marks the endpoint running.
    fn add_one_endpoint(&mut self, mem: &mut GuestMemory, dcbaap: u64, dci: u8) -> (r: Result<(), MemError>)
        requires
            old(self).wf(),
            1 <= dci < 32,
        ensures
            final(self).wf(),
            final(self).slot_id() == old(self).slot_id(),
            final(self).port_id() == old(self).port_id(),
            final(self).enabled() == old(self).enabled(),
            forall|i: int| 0 <= i < TRANSFER_RING_CONTROLLERS_INDEX_END && i != dci - 1 ==> #[trigger] final(self).transfer_ring_controllers@[i] == old(self).transfer_ring_controllers@[i],
            r is Ok ==> (final(self).transfer_ring_controllers@[dci - 1] matches Some(c) && c.state() == RingBufferState::Stopped),
            r is Err ==> final(self).transfer_ring_controllers@[dci - 1] == old(self).transfer_ring_controllers@[dci - 1],
            r is Ok ==> regions_ok(old(mem).regions()) && (device_context_addr(old(mem).regions(), dcbaap, old(self).slot_id()) matches Some(a)
                && obj_at::<EndpointContext>(old(mem).regions(), a + 32 * dci) matches Some(ep)
                && final(mem).regions() == write_at(old(mem).regions(), a + 32 * dci, obj_bytes(with_ep_state(ep, EndpointState::Running)))),
            r is Err ==> final(mem).regions() == old(mem).regions(),
            r is Ok == (device_context_addr(old(mem).regions(), dcbaap, old(self).slot_id()) matches Some(a)
                && ep_ctx_at(old(mem).regions(), a, dci as int) is Some),
    {
        let a = self.get_device_context_addr(mem, dcbaap)?;
        proof {
            if ep_ctx_at(mem.regions(), a.0, dci as int) is Some {
                lemma_access_bound(mem.regions(), a.0 + 32 * dci, 32);
            }
        }
        let ep_addr = Self::context_addr(a, dci)?;
        let mut ep = Self::read_endpoint_context(mem, ep_addr)?;
        let mut trc = RingBufferController::create_controller();
        trc.set_dequeue_pointer(GuestAddress(ep.get_tr_dequeue_pointer() << 4u64));
        trc.set_consumer_cycle_state(ep.get_dequeue_cycle_state() > 0);
        self.transfer_ring_controllers.set((dci - 1) as usize, Some(trc));
        ep.set_state(EndpointState::Running);
        write_obj(mem, &ep, ep_addr)
    }

    /// Drops the transfer ring of device context index `dci` and marks the
    /// endpoint disabled.
    fn drop_one_endpoint(&mut self, mem: &mut GuestMemory, dcbaap: u64, dci: u8) -> (r: Result<(), MemError>)
        requires
            old(self).wf(),
            1 <= dci < 32,
        ensures
            final(self).wf(),
            final(self).slot_id() == old(self).slot_id(),
            final(self).port_id() == old(self).port_id(),
            final(self).enabled() == old(self).enabled(),
            forall|i: int| 0 <= i < TRANSFER_RING_CONTROLLERS_INDEX_END && i != dci - 1 ==> #[trigger] final(self).transfer_ring_controllers@[i] == old(self).transfer_ring_controllers@[i],
            final(self).transfer_ring_controllers@[dci - 1] is None,
            r is Ok ==> regions_ok(old(mem).regions()) && (device_context_addr(old(mem).regions(), dcbaap, old(self).slot_id()) matches Some(a)
                && obj_at::<EndpointContext>(old(mem).regions(), a + 32 * dci) matches Some(ep)
                && final(mem).regions() == write_at(old(mem).regions(), a + 32 * dci, obj_bytes(with_ep_state(ep, EndpointState::Disabled)))),
            r is Err ==> final(mem).regions() == old(mem).regions(),
            r is Ok == (device_context_addr(old(mem).regions(), dcbaap, old(self).slot_id()) matches Some(a)
                && ep_ctx_at(old(mem).regions(), a, dci as int) is Some),
    {
        self.transfer_ring_controllers.set((dci - 1) as usize, None);
        let a = self.get_device_context_addr(mem, dcbaap)?;
        proof {
            if ep_ctx_at(mem.regions(), a.0, dci as int) is Some {
                lemma_access_bound(mem.regions(), a.0 + 32 * dci, 32);
            }
        }
        let ep_addr = Self::context_addr(a, dci)?;
        let mut ep = Self::read_endpoint_context(mem, ep_addr)?;
        ep.set_state(EndpointState::Disabled);
        write_obj(mem, &ep, ep_addr)
    }

    /// The raw state field of the slot context.
    fn state(&self, mem: &GuestMemory, dcbaap: u64) -> (r: Result<u32, MemError>)
        ensures
            match device_context_addr(mem.regions(), dcbaap, self.slot_id()) {
                Some(a) => match obj_at::<SlotContext>(mem.regions(), a as int) {
                    Some(sc) => r == Ok::<u32, MemError>(slot_state_bits(sc)),
                    None => r is Err,
                },
                None => r is Err,
            },
    {
        let a = self.get_device_context_addr(mem, dcbaap)?;
        let sc = Self::read_slot_context(mem, a)?;
        Ok(sc.get_slot_state() as u32)
    }

    /// Sets the state field of the slot context.
    fn set_state(&self, mem: &mut GuestMemory, dcbaap: u64, state: DeviceSlotState) -> (r: Result<(), MemError>)
        ensures
            r is Ok ==> (device_context_addr(old(mem).regions(), dcbaap, self.slot_id()) matches Some(a)
                && ctx_state(final(mem).regions(), a) == Some(state.spec_to() as u32)),
            r is Ok ==> regions_ok(old(mem).regions()) && (device_context_addr(old(mem).regions(), dcbaap, self.slot_id()) matches Some(a)
                && obj_at::<SlotContext>(old(mem).regions(), a as int) matches Some(sc)
                && final(mem).regions() == write_at(old(mem).regions(), a as int, obj_bytes(with_slot_state(sc, state)))),
            r is Err ==> final(mem).regions() == old(mem).regions(),
            r is Ok == (slot_state_at(old(mem).regions(), dcbaap, self.slot_id()) is Some),
    {
        let a = self.get_device_context_addr(mem, dcbaap)?;
        let mut sc = Self::read_slot_context(mem, a)?;
        let ghost old_d3 = sc.d3;
        sc.set_state(state);
        let ghost m = mem.regions();
        write_obj(mem, &sc, a)?;
        proof {
            crate::xhci_abi::lemma_read_after_write(m, a.0 as int, sc);
            lemma_slot_state_field(old_d3, state.spec_to() as u32);
        }
        Ok(())
    }

    /// The root hub port of the slot's device.
    pub fn get_port_id(&self) -> (r: u8)
        ensures
            r == self.port_id(),
    {
        self.port_id
    }

    /// The transfer ring of device context index `endpoint_id` woke up:
    /// its next descriptor, if the slot has that ring.
    pub fn transfer_ring_on_event(&mut self, mem: &GuestMemory, endpoint_id: u8) -> (r: Option<RingBufferAction>)
        requires
            old(self).wf(),
            1 <= endpoint_id < 32,
        ensures
            final(self).wf(),
            final(self).slot_id() == old(self).slot_id(),
            final(self).port_id() == old(self).port_id(),
            final(self).enabled() == old(self).enabled(),
            r is None == old(self).trc(endpoint_id - 1) is None,
            r is None ==> *final(self) == *old(self),
            old(self).trc(endpoint_id - 1) matches Some(c0) ==> final(self).trc(endpoint_id - 1) matches Some(c1)
                && r matches Some(a) && on_event_post(c0, mem.regions(), c1, a),
            forall|i: int| 0 <= i < TRANSFER_RING_CONTROLLERS_INDEX_END && i != endpoint_id - 1 ==> #[trigger] final(self).trc(i) == old(self).trc(i),
    {
        let index = (endpoint_id - 1) as usize;
        if self.transfer_ring_controllers[index].is_none() {
            return None;
        }
        let mut trc = self.transfer_ring_controllers.remove(index).unwrap();
        let action = trc.on_event(mem);
        self.transfer_ring_controllers.insert(index, Some(trc));
        Some(action)
    }
}

} // verus!
