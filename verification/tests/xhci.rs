use lib::xhci_work::CommandStep;
use lib::guest_memory::{GuestAddress, GuestMemory};
use lib::ring_buffer_controller::RingBufferAction;
use lib::usb_hub::{UsbDeviceAddress, XhciBackendDevice};
use lib::xhci::{CommandOutcome, UsbcmdAction, Wake};
use lib::xhci_abi::{
    read_obj, write_obj, EndpointContext, EventRingSegmentTableEntry, InputControlContext, PrimitiveEnum,
    SlotContext, Trb, TrbCompletionCode, TrbType,
};
use std::cell::Cell;
use std::rc::Rc;
use lib::xhci_controller::{OpenedDevice, UsbControlResult, XhciController};
use lib::xhci_transfer::XhciTransfer;

const BAR0: u64 = 0x1000_0000;

struct TestDevice {
    vid: u16,
    pid: u16,
    address: UsbDeviceAddress,
    transfers: usize,
    seen: Option<Rc<Cell<(UsbDeviceAddress, usize)>>>,
}

impl XhciBackendDevice for TestDevice {
    fn submit_transfer(&mut self, _transfer: XhciTransfer) {
        self.transfers += 1;
        if let Some(seen) = &self.seen {
            seen.set((self.address, self.transfers));
        }
    }
    fn set_address(&mut self, address: UsbDeviceAddress) {
        self.address = address;
        if let Some(seen) = &self.seen {
            seen.set((self.address, self.transfers));
        }
    }
    fn vid(&self) -> u16 {
        self.vid
    }
    fn pid(&self) -> u16 {
        self.pid
    }
    fn get_vid(&self) -> u16 {
        self.vid
    }
    fn get_pid(&self) -> u16 {
        self.pid
    }
}

fn read32(c: &XhciController<TestDevice>, off: u64) -> u32 {
    let mut b = [0u8; 4];
    c.read_bar(BAR0 + off, &mut b);
    u32::from_le_bytes(b)
}

fn read64(c: &XhciController<TestDevice>, off: u64) -> u64 {
    let mut b = [0u8; 8];
    c.read_bar(BAR0 + off, &mut b);
    u64::from_le_bytes(b)
}

fn write32(c: &mut XhciController<TestDevice>, mem: &mut GuestMemory, off: u64, v: u32) -> Vec<Wake> {
    c.write_bar(mem, BAR0 + off, &v.to_le_bytes()).unwrap().unwrap().wake
}

fn write64(c: &mut XhciController<TestDevice>, mem: &mut GuestMemory, off: u64, v: u64) {
    c.write_bar(mem, BAR0 + off, &v.to_le_bytes()).unwrap().unwrap();
}

fn command_trb(t: TrbType, cycle: u8) -> Trb {
    let mut trb = Trb::new();
    trb.set_trb_type(t.to());
    trb.set_cycle(cycle);
    trb
}

/// A controller running with its event ring at 0x900 (16 TRBs) and
/// interrupts enabled.
fn running_controller(mem: &mut GuestMemory) -> XhciController<TestDevice> {
    let mut c = XhciController::<TestDevice>::new(BAR0);
    // The command ring reads as running at reset: halting stops it, so
    // that crcr takes writes.
    let out = c.write_bar(mem, BAR0 + 0x20, &0u32.to_le_bytes()).unwrap().unwrap();
    assert_eq!(out.usbcmd, Some(UsbcmdAction::Halt));
    c.xhci_mut().finish_halt();
    let mut entry = EventRingSegmentTableEntry::new();
    entry.set_ring_segment_base_address(0x900);
    entry.set_ring_segment_size(16);
    write_obj(mem, &entry, GuestAddress(0x800)).unwrap();
    write32(&mut c, mem, 0x3028, 1);
    write64(&mut c, mem, 0x3030, 0x800);
    write64(&mut c, mem, 0x3038, 0x900);
    write32(&mut c, mem, 0x3020, 2);
    let out = c.write_bar(mem, BAR0 + 0x20, &5u32.to_le_bytes()).unwrap().unwrap();
    assert_eq!(out.usbcmd, Some(UsbcmdAction::Run));
    c
}

#[test]
fn capability_registers_read_back() {
    let c = XhciController::<TestDevice>::new(BAR0);
    let mut b = [0u8; 1];
    c.read_bar(BAR0, &mut b);
    assert_eq!(b[0], 0x20);
    let mut b = [0u8; 2];
    c.read_bar(BAR0 + 2, &mut b);
    assert_eq!(u16::from_le_bytes(b), 0x0110);
    assert_eq!(read32(&c, 0x04), 0x08000108);
    assert_eq!(read32(&c, 0x14), 0x2000);
    assert_eq!(read32(&c, 0x18), 0x3000);
    // Halted at reset; the command ring register reads its reset value.
    assert_eq!(read32(&c, 0x24), 1);
    assert_eq!(read64(&c, 0x38), 9);
    // Ports are powered, nothing connected.
    assert_eq!(read32(&c, 0x420), 0x2A0);
    assert_eq!(read32(&c, 0x3024), 0xFA0);
    // Reads outside the BAR leave the buffer alone.
    let mut b = [0xAAu8; 4];
    c.read_bar(BAR0 - 4, &mut b);
    assert_eq!(b, [0xAA; 4]);
}

#[test]
fn run_and_halt() {
    let mut mem = GuestMemory::new(&vec![(GuestAddress(0), 0x1000)]).unwrap();
    let mut c = running_controller(&mut mem);
    // Running clears the halted bit.
    assert_eq!(read32(&c, 0x24) & 1, 0);
    let out = c.write_bar(&mut mem, BAR0 + 0x20, &0u32.to_le_bytes()).unwrap().unwrap();
    assert_eq!(out.usbcmd, Some(UsbcmdAction::Halt));
    c.xhci_mut().finish_halt();
    assert_eq!(read32(&c, 0x24) & 1, 1);
    // A reset sets controller-not-ready until it finishes; the reset bit
    // does not stay set.
    let out = c.write_bar(&mut mem, BAR0 + 0x20, &2u32.to_le_bytes()).unwrap().unwrap();
    assert_eq!(out.usbcmd, Some(UsbcmdAction::Reset));
    assert_eq!(read32(&c, 0x20) & 2, 0);
    assert_eq!(read32(&c, 0x24) & 0x800, 0x800);
    c.xhci_mut().finish_reset(&mut mem);
    assert_eq!(read32(&c, 0x24) & 0x800, 0);
}

#[test]
fn command_ring_enable_slot_and_noop() {
    let mut mem = GuestMemory::new(&vec![(GuestAddress(0), 0x1000)]).unwrap();
    let mut c = running_controller(&mut mem);
    // While the command ring runs, crcr keeps its value.
    let c0 = XhciController::<TestDevice>::new(BAR0);
    assert_eq!(read64(&c0, 0x38), 9);
    write_obj(&mut mem, &command_trb(TrbType::EnableSlotCommand, 1), GuestAddress(0x400)).unwrap();
    write_obj(&mut mem, &command_trb(TrbType::NoopCommand, 1), GuestAddress(0x410)).unwrap();
    let mut bad = command_trb(TrbType::DisableSlotCommand, 1);
    bad.set_slot_id(9);
    write_obj(&mut mem, &bad, GuestAddress(0x420)).unwrap();
    write64(&mut c, &mut mem, 0x38, 0x400 | 1);
    // Doorbell 0 starts the command ring.
    let wake = write32(&mut c, &mut mem, 0x2000, 0);
    assert_eq!(wake, vec![Wake::CommandRing]);
    assert_eq!(read64(&c, 0x38) & 8, 8);

    let mut codes = Vec::new();
    loop {
        let action = c.xhci_mut().command_ring_on_event(&mem);
        let td = match action {
            RingBufferAction::Handle(td) => td,
            _ => break,
        };
        let atrb = td[0];
        match c.xhci_mut().handle_command(&mut mem, &atrb).unwrap() {
            CommandOutcome::Done(code, slot_id) => {
                codes.push((code, slot_id));
                c.xhci_mut().complete_command(&mut mem, code, slot_id, atrb.gpa);
            }
            _ => panic!("command left pending"),
        }
    }
    assert_eq!(
        codes,
        vec![
            (TrbCompletionCode::Success, 1),
            (TrbCompletionCode::Success, 0),
            (TrbCompletionCode::TrbError, 9)
        ]
    );
    // The completion events are on the event ring, in order.
    let e: Trb = read_obj(&mem, GuestAddress(0x900)).unwrap();
    assert_eq!(e.get_trb_type(), TrbType::CommandCompletionEvent.to());
    assert_eq!(e.get_completion_code(), TrbCompletionCode::Success.to());
    assert_eq!(e.get_slot_id(), 1);
    assert_eq!(e.get_trb_pointer(), 0x400);
    assert_eq!(e.get_cycle(), 1);
    let e: Trb = read_obj(&mem, GuestAddress(0x910)).unwrap();
    assert_eq!(e.get_trb_pointer(), 0x410);
    assert_eq!(e.get_slot_id(), 0);
    let e: Trb = read_obj(&mem, GuestAddress(0x920)).unwrap();
    assert_eq!(e.get_completion_code(), TrbCompletionCode::TrbError.to());
    assert_eq!(e.get_slot_id(), 9);
    // The event interrupt was raised.
    assert_eq!(read32(&c, 0x24) & 0x8, 0x8);
    assert_eq!(read32(&c, 0x3020) & 1, 1);
    // Events wait on the ring until the guest moves its dequeue pointer.
    assert!(c.xhci_mut().resample_needs_interrupt());
    write64(&mut c, &mut mem, 0x3038, 0x930 | 8);
    assert!(!c.xhci_mut().resample_needs_interrupt());
}

#[test]
fn doorbells_do_nothing_while_halted() {
    let mut mem = GuestMemory::new(&vec![(GuestAddress(0), 0x1000)]).unwrap();
    let mut c = XhciController::<TestDevice>::new(BAR0);
    let wake = write32(&mut c, &mut mem, 0x2000, 0);
    assert_eq!(wake, vec![Wake::Nothing]);
    let wake = write32(&mut c, &mut mem, 0x2004, 1);
    assert_eq!(wake, vec![Wake::Nothing]);
}

#[test]
fn attach_list_detach() {
    let mut mem = GuestMemory::new(&vec![(GuestAddress(0), 0x1000)]).unwrap();
    let mut c = running_controller(&mut mem);
    let dev = TestDevice { vid: 0x1234, pid: 0x5678, address: 0, transfers: 0, seen: None };
    let (res, _) = c.xhci_mut().attach_device(&mut mem, OpenedDevice::Opened(dev));
    assert_eq!(res, UsbControlResult::Done { port: 1 });
    // The port shows a connected, enabled device with change bits.
    assert_eq!(read32(&c, 0x420) & 0x00060003, 0x00060003);
    let e: Trb = read_obj(&mem, GuestAddress(0x900)).unwrap();
    assert_eq!(e.get_trb_type(), TrbType::PortStatusChangeEvent.to());
    assert_eq!(e.get_port_id(), 1);

    assert_eq!(
        c.xhci_mut().list_device(1),
        UsbControlResult::Device { port: 1, vid: 0x1234, pid: 0x5678 }
    );
    assert_eq!(c.xhci_mut().list_device(2), UsbControlResult::NoSuchDevice);
    assert_eq!(c.xhci_mut().list_device(9), UsbControlResult::NoSuchPort);
    assert_eq!(c.xhci_mut().list_device(0), UsbControlResult::NoSuchPort);

    let (res, _) = c.xhci_mut().attach_device(&mut mem, OpenedDevice::<TestDevice>::NoSuchDevice);
    assert_eq!(res, UsbControlResult::NoSuchDevice);
    let (res, _) = c.xhci_mut().attach_device(&mut mem, OpenedDevice::<TestDevice>::FailToOpen);
    assert_eq!(res, UsbControlResult::FailToOpenDevice);

    let (res, _) = c.xhci_mut().detach_device(&mut mem, 1);
    assert_eq!(res, UsbControlResult::Done { port: 1 });
    assert_eq!(read32(&c, 0x420) & 1, 0);
    let (res, _) = c.xhci_mut().detach_device(&mut mem, 1);
    assert_eq!(res, UsbControlResult::NoSuchDevice);
}

#[test]
fn all_ports_taken() {
    let mut mem = GuestMemory::new(&vec![(GuestAddress(0), 0x1000)]).unwrap();
    let mut c = running_controller(&mut mem);
    for p in 1..=8u8 {
        let dev = TestDevice { vid: 1, pid: p as u16, address: 0, transfers: 0, seen: None };
        let (res, _) = c.xhci_mut().attach_device(&mut mem, OpenedDevice::Opened(dev));
        assert_eq!(res, UsbControlResult::Done { port: p });
    }
    let dev = TestDevice { vid: 1, pid: 9, address: 0, transfers: 0, seen: None };
    let (res, _) = c.xhci_mut().attach_device(&mut mem, OpenedDevice::Opened(dev));
    assert_eq!(res, UsbControlResult::NoAvailablePort);
}

#[test]
fn failed_controller_drops_writes() {
    let mut mem = GuestMemory::new(&vec![(GuestAddress(0), 0x1000)]).unwrap();
    let mut c = running_controller(&mut mem);
    c.fail();
    assert!(c.get_failed());
    assert_eq!(read32(&c, 0x20), 0);
    assert_eq!(read32(&c, 0x24), 4);
    let out = c.write_bar(&mut mem, BAR0 + 0x20, &1u32.to_le_bytes()).unwrap();
    assert!(out.is_none());
    assert_eq!(read32(&c, 0x20), 0);
}

/// Runs the command ring until it stops; every command must complete at
/// once. Returns the completion codes and slot ids.
fn run_commands(c: &mut XhciController<TestDevice>, mem: &mut GuestMemory) -> Vec<(TrbCompletionCode, u8)> {
    let mut codes = Vec::new();
    loop {
        let td = match c.xhci_mut().command_ring_on_event(mem) {
            RingBufferAction::Handle(td) => td,
            _ => break,
        };
        let atrb = td[0];
        match c.xhci_mut().handle_command(mem, &atrb).unwrap() {
            CommandOutcome::Done(code, slot_id) => {
                codes.push((code, slot_id));
                c.xhci_mut().complete_command(mem, code, slot_id, atrb.gpa);
            }
            _ => panic!("command left pending"),
        }
    }
    codes
}

#[test]
fn address_device_and_transfer() {
    let mut mem = GuestMemory::new(&vec![(GuestAddress(0), 0x1000)]).unwrap();
    let mut c = running_controller(&mut mem);
    let seen = Rc::new(Cell::new((0, 0)));
    let dev = TestDevice { vid: 7, pid: 8, address: 0, transfers: 0, seen: Some(seen.clone()) };
    let (res, _) = c.xhci_mut().attach_device(&mut mem, OpenedDevice::Opened(dev));
    assert_eq!(res, UsbControlResult::Done { port: 1 });

    // Device context base address array at 0x600; slot 1's context at 0xa00.
    write64(&mut c, &mut mem, 0x50, 0x600);
    mem.write_slice_at_addr(&0xa00u64.to_le_bytes(), GuestAddress(0x608)).unwrap();
    // Input context at 0xb00: slot context for root hub port 1, control
    // endpoint with its transfer ring at 0xc00, cycle state 1.
    let mut slot = SlotContext::new();
    slot.set_root_hub_port_number(1);
    write_obj(&mut mem, &slot, GuestAddress(0xb20)).unwrap();
    let mut ep0 = EndpointContext::new();
    ep0.d2 = 0xc00 | 1;
    write_obj(&mut mem, &ep0, GuestAddress(0xb40)).unwrap();

    write_obj(&mut mem, &command_trb(TrbType::EnableSlotCommand, 1), GuestAddress(0x400)).unwrap();
    let mut address = command_trb(TrbType::AddressDeviceCommand, 1);
    address.set_input_context_pointer(0xb00);
    address.set_slot_id(1);
    write_obj(&mut mem, &address, GuestAddress(0x410)).unwrap();
    // Addressing it again is a context state error.
    write_obj(&mut mem, &address, GuestAddress(0x420)).unwrap();
    write64(&mut c, &mut mem, 0x38, 0x400 | 1);
    assert_eq!(write32(&mut c, &mut mem, 0x2000, 0), vec![Wake::CommandRing]);
    let codes = run_commands(&mut c, &mut mem);
    assert_eq!(
        codes,
        vec![
            (TrbCompletionCode::Success, 1),
            (TrbCompletionCode::Success, 1),
            (TrbCompletionCode::ContextStateError, 1)
        ]
    );
    // The device got address 1; the slot is addressed and its control
    // endpoint running.
    assert_eq!(seen.get().0, 1);
    let out_slot: SlotContext = read_obj(&mem, GuestAddress(0xa00)).unwrap();
    assert_eq!(out_slot.get_slot_state(), 2);
    assert_eq!(out_slot.get_usb_device_address(), 1);
    assert_eq!(out_slot.get_root_hub_port_number(), 1);
    let out_ep0: EndpointContext = read_obj(&mem, GuestAddress(0xa20)).unwrap();
    assert_eq!(out_ep0.get_endpoint_state(), 1);

    // A setup stage on the control endpoint's ring goes to the device.
    let mut setup = Trb::new();
    setup.set_trb_type(TrbType::SetupStage.to());
    setup.set_cycle(1);
    setup.set_request_type(0x80);
    setup.set_request(6);
    write_obj(&mut mem, &setup, GuestAddress(0xc00)).unwrap();
    assert_eq!(
        write32(&mut c, &mut mem, 0x2004, 1),
        vec![Wake::TransferRing { slot_id: 1, endpoint_id: 1 }]
    );
    let td = match c.xhci_mut().transfer_ring_on_event(&mem, 1, 1) {
        Some(RingBufferAction::Handle(td)) => td,
        _ => panic!("no transfer descriptor"),
    };
    assert_eq!(td.len(), 1);
    assert_eq!(td[0].gpa, 0xc00);
    let (done, _) = c.xhci_mut().handle_transfer_descriptor(&mut mem, 1, 1, td);
    assert!(!done);
    assert_eq!(seen.get().1, 1);
    // No other slot has rings.
    assert!(c.xhci_mut().transfer_ring_on_event(&mem, 2, 1).is_none());
    assert!(c.xhci_mut().transfer_ring_on_event(&mem, 9, 1).is_none());
}

/// Runs one command TRB at `gpa` through the command ring, finishing
/// commands that wait for transfer rings to stop.
fn run_one_command(c: &mut XhciController<TestDevice>, mem: &mut GuestMemory, trb: Trb, gpa: u64) -> (TrbCompletionCode, u8) {
    write_obj(mem, &trb, GuestAddress(gpa)).unwrap();
    let td = match c.xhci_mut().command_ring_on_event(mem) {
        RingBufferAction::Handle(td) => td,
        _ => panic!("no command"),
    };
    assert_eq!(td[0].gpa, gpa);
    let wake_rings = |c: &mut XhciController<TestDevice>, mem: &GuestMemory, slot_id: u8| {
        for ep in 1..32u8 {
            let _ = c.xhci_mut().transfer_ring_on_event(mem, slot_id, ep);
        }
    };
    let (code, slot_id) = match c.xhci_mut().handle_command(mem, &td[0]).unwrap() {
        CommandOutcome::Done(code, slot_id) => (code, slot_id),
        CommandOutcome::DisablePending(s) => {
            wake_rings(c, mem, s);
            (c.xhci_mut().finish_disable_slot(mem, s).unwrap(), s)
        }
        CommandOutcome::ResetPending(s) => {
            wake_rings(c, mem, s);
            (c.xhci_mut().finish_reset_device(mem, s).unwrap(), s)
        }
        CommandOutcome::StopEndpointPending(s) => {
            wake_rings(c, mem, s);
            (TrbCompletionCode::Success, s)
        }
    };
    c.xhci_mut().complete_command(mem, code, slot_id, gpa);
    (code, slot_id)
}

#[test]
fn slot_lifecycle_commands() {
    let mut mem = GuestMemory::new(&vec![(GuestAddress(0), 0x2000)]).unwrap();
    let mut c = running_controller(&mut mem);
    let seen = Rc::new(Cell::new((0, 0)));
    let dev = TestDevice { vid: 7, pid: 8, address: 0, transfers: 0, seen: Some(seen.clone()) };
    c.xhci_mut().attach_device(&mut mem, OpenedDevice::Opened(dev));
    write64(&mut c, &mut mem, 0x50, 0x600);
    mem.write_slice_at_addr(&0xa00u64.to_le_bytes(), GuestAddress(0x608)).unwrap();
    let mut slot = SlotContext::new();
    slot.set_root_hub_port_number(1);
    write_obj(&mut mem, &slot, GuestAddress(0xb20)).unwrap();
    let mut ep0 = EndpointContext::new();
    ep0.d2 = 0xc00 | 1;
    write_obj(&mut mem, &ep0, GuestAddress(0xb40)).unwrap();
    // A bulk endpoint at device context index 2, ring at 0xd00.
    let mut ep2 = EndpointContext::new();
    ep2.d2 = 0xd00 | 1;
    write_obj(&mut mem, &ep2, GuestAddress(0xb60)).unwrap();
    write64(&mut c, &mut mem, 0x38, 0x1000 | 1);
    assert_eq!(write32(&mut c, &mut mem, 0x2000, 0), vec![Wake::CommandRing]);

    let mut gpa = 0x1000;
    let mut next = |c: &mut XhciController<TestDevice>, mem: &mut GuestMemory, trb: Trb| {
        let r = run_one_command(c, mem, trb, gpa);
        gpa += 16;
        r
    };
    let with_slot = |t: TrbType, slot_id: u8| {
        let mut trb = command_trb(t, 1);
        trb.set_slot_id(slot_id);
        trb.set_input_context_pointer(0xb00);
        trb
    };
    // Commands on a slot that is not enabled.
    assert_eq!(next(&mut c, &mut mem, with_slot(TrbType::DisableSlotCommand, 1)), (TrbCompletionCode::SlotNotEnabledError, 1));
    assert_eq!(next(&mut c, &mut mem, with_slot(TrbType::AddressDeviceCommand, 1)), (TrbCompletionCode::SlotNotEnabledError, 1));
    assert_eq!(next(&mut c, &mut mem, command_trb(TrbType::EnableSlotCommand, 1)), (TrbCompletionCode::Success, 1));
    assert_eq!(next(&mut c, &mut mem, with_slot(TrbType::AddressDeviceCommand, 1)), (TrbCompletionCode::Success, 1));

    // Configure endpoint: add device context index 2.
    let mut icc = InputControlContext::new();
    icc.set_add_context_flags(1 << 2);
    write_obj(&mut mem, &icc, GuestAddress(0xb00)).unwrap();
    assert_eq!(next(&mut c, &mut mem, with_slot(TrbType::ConfigureEndpointCommand, 1)), (TrbCompletionCode::Success, 1));
    let out_slot: SlotContext = read_obj(&mem, GuestAddress(0xa00)).unwrap();
    assert_eq!(out_slot.get_slot_state(), 3);
    let out_ep2: EndpointContext = read_obj(&mem, GuestAddress(0xa40)).unwrap();
    assert_eq!(out_ep2.get_endpoint_state(), 1);
    assert_eq!(out_ep2.get_tr_dequeue_pointer() << 4, 0xd00);

    // Evaluate context only works on a slot in none of those states.
    assert_eq!(next(&mut c, &mut mem, with_slot(TrbType::EvaluateContextCommand, 1)), (TrbCompletionCode::ContextStateError, 1));

    // Stop endpoint: the new ring never ran, so it is stopped at once;
    // an endpoint without a ring is a context state error.
    let mut stop = with_slot(TrbType::StopEndpointCommand, 1);
    stop.set_endpoint_id(2);
    assert_eq!(next(&mut c, &mut mem, stop), (TrbCompletionCode::Success, 1));
    let mut stop = with_slot(TrbType::StopEndpointCommand, 1);
    stop.set_endpoint_id(5);
    assert_eq!(next(&mut c, &mut mem, stop), (TrbCompletionCode::ContextStateError, 1));

    // Reset device: endpoints but the control endpoint are dropped, the
    // slot goes back to the default state.
    assert_eq!(next(&mut c, &mut mem, with_slot(TrbType::ResetDeviceCommand, 1)), (TrbCompletionCode::Success, 1));
    let out_slot: SlotContext = read_obj(&mem, GuestAddress(0xa00)).unwrap();
    assert_eq!(out_slot.get_slot_state(), 1);
    assert_eq!(out_slot.get_context_entries(), 1);
    assert_eq!(out_slot.get_root_hub_port_number(), 0);
    let out_ep2: EndpointContext = read_obj(&mem, GuestAddress(0xa40)).unwrap();
    assert_eq!(out_ep2.get_endpoint_state(), 0);
    // Resetting a slot in the default state is a context state error.
    assert_eq!(next(&mut c, &mut mem, with_slot(TrbType::ResetDeviceCommand, 1)), (TrbCompletionCode::ContextStateError, 1));

    // Disable slot.
    assert_eq!(next(&mut c, &mut mem, with_slot(TrbType::DisableSlotCommand, 1)), (TrbCompletionCode::Success, 1));
    let out_slot: SlotContext = read_obj(&mem, GuestAddress(0xa00)).unwrap();
    assert_eq!(out_slot.get_slot_state(), 0);
    assert_eq!(next(&mut c, &mut mem, with_slot(TrbType::DisableSlotCommand, 1)), (TrbCompletionCode::SlotNotEnabledError, 1));
}

#[test]
fn plain_registers_take_masked_writes() {
    let mut mem = GuestMemory::new(&vec![(GuestAddress(0), 0x1000)]).unwrap();
    let mut c = XhciController::<TestDevice>::new(BAR0);
    write32(&mut c, &mut mem, 0x34, 0xFFFF_FFFF);
    assert_eq!(read32(&c, 0x34), 0xFFFF);
    write64(&mut c, &mut mem, 0x50, 0x1234_5678_9ABC_DEFF);
    assert_eq!(read64(&c, 0x50), 0x1234_5678_9ABC_DEC0);
    write64(&mut c, &mut mem, 0x58, 0xFF);
    assert_eq!(read64(&c, 0x58), 0x3F);
    // A write to the high half of dcbaap leaves the low half alone.
    write32(&mut c, &mut mem, 0x54, 0xAABB_CCDD);
    assert_eq!(read64(&c, 0x50), 0xAABB_CCDD_9ABC_DEC0);
}

#[test]
fn commands_run_one_by_one() {
    let mut mem = GuestMemory::new(&vec![(GuestAddress(0), 0x1000)]).unwrap();
    let mut c = running_controller(&mut mem);
    write_obj(&mut mem, &command_trb(TrbType::EnableSlotCommand, 1), GuestAddress(0x400)).unwrap();
    write_obj(&mut mem, &command_trb(TrbType::NoopCommand, 1), GuestAddress(0x410)).unwrap();
    write64(&mut c, &mut mem, 0x38, 0x400 | 1);
    let wake = write32(&mut c, &mut mem, 0x2000, 0);
    assert_eq!(wake, vec![Wake::CommandRing]);
    assert_eq!(c.xhci_mut().run_next_command(&mut mem), CommandStep::Done(true));
    assert_eq!(c.xhci_mut().run_next_command(&mut mem), CommandStep::Done(false));
    assert_eq!(c.xhci_mut().run_next_command(&mut mem), CommandStep::Idle);
    let e: Trb = read_obj(&mem, GuestAddress(0x910)).unwrap();
    assert_eq!(e.get_trb_pointer(), 0x410);
    // A doorbell of a slot without transfer rings wakes nothing.
    let wake = write32(&mut c, &mut mem, 0x2004, 1);
    assert_eq!(wake, vec![Wake::Nothing]);
}
