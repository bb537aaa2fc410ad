//! The root hub: ports that backend devices connect to, and the port status
//! change events the guest is told of (xHCI 4.3, 4.19).
use crate::guest_memory::GuestMemory;
use crate::interrupter::{add_port_event, Interrupter, InterrupterState};
use crate::mmio_register::RegisterValue;
use crate::xhci_regs::{
    XHCIRegs, MAX_PORTS, PORTSC_CURRENT_CONNECT_STATUS, USB_STS_PORT_CHANGE_DETECT,
};
use crate::xhci_transfer::XhciTransfer;
use vstd::prelude::*;

verus! {

/// Address of a USB device.
pub type UsbDeviceAddress = u32;

/// A device behind a port: it carries out the guest's transfers.
pub trait XhciBackendDevice {
    /// Submits a transfer; the device completes it later.
    fn submit_transfer(&mut self, transfer: XhciTransfer);

    /// Sets the device's address.
    fn set_address(&mut self, address: UsbDeviceAddress);

    /// The device's vendor id.
    spec fn vid(&self) -> u16;

    /// The device's product id.
    spec fn pid(&self) -> u16;

    /// The device's vendor id.
    fn get_vid(&self) -> (r: u16)
        ensures
            r == self.vid(),
    ;

    /// The device's product id.
    fn get_pid(&self) -> (r: u16)
        ensures
            r == self.pid(),
    ;
}

#[derive(Debug, Copy, Clone, PartialEq, Eq, Structural)]
pub enum Error {
    InvalidPort,
    PortEmpty,
}

/// A USB device backend and the address the guest gave it.
pub struct UsbBackend {
    address: UsbDeviceAddress,
}

/// Port status bits set when a device connects (xHCI 4.3): current connect
/// status, port enabled, connect status change and port enabled/disabled
/// change.
pub const PORTSC_CONNECTED_BITS: u32 = 0x00060003;

/// Port status bits set when a device disconnects: connect status change
/// and port enabled/disabled change.
pub const PORTSC_DISCONNECT_CHANGE_BITS: u32 = 0x00060000;

/// A root hub port; it may have a device connected.
pub struct UsbPort<D> {
    port_id: u8,
    backend_device: Option<D>,
}

/// Index of the portsc register of port `port_id`.
pub open spec fn port_index(port_id: u8) -> int {
    port_id - 1
}

/// The registers after a port event on port `port_id`: its portsc gets
/// `set` and loses `clear`, usbsts gets the port change detect bit, and the
/// event's interrupt decision (`fired`) applies as for any event.
pub open spec fn port_event_regs(
    old: &XHCIRegs,
    new: &XHCIRegs,
    port_id: u8,
    set: u32,
    clear: u32,
    fired: bool,
) -> bool {
    let i = port_index(port_id);
    &&& new.usbcmd == old.usbcmd
    &&& new.dnctrl == old.dnctrl
    &&& new.crcr == old.crcr
    &&& new.dcbaap == old.dcbaap
    &&& new.config == old.config
    &&& new.doorbells == old.doorbells
    &&& new.imod == old.imod
    &&& new.erstsz == old.erstsz
    &&& new.erstba == old.erstba
    &&& new.portsc@.len() == old.portsc@.len()
    &&& forall|j: int| 0 <= j < old.portsc@.len() && j != i ==> #[trigger] new.portsc@[j] == old.portsc@[j]
    &&& new.portsc@[i].same_layout(old.portsc@[i])
    &&& new.portsc@[i].has_write_cb() == old.portsc@[i].has_write_cb()
    &&& new.portsc@[i].value().spec_value() == (old.portsc@[i].value().spec_value() | (set as u64)) & !(clear as u64)
    &&& new.usbsts.same_layout(old.usbsts)
    &&& new.usbsts.has_write_cb() == old.usbsts.has_write_cb()
    &&& new.usbsts.value().spec_value() == if fired {
        (old.usbsts.value().spec_value() | (USB_STS_PORT_CHANGE_DETECT as u64)) | 8u64
    } else {
        old.usbsts.value().spec_value() | (USB_STS_PORT_CHANGE_DETECT as u64)
    }
    &&& new.iman.same_layout(old.iman) && new.iman.has_write_cb() == old.iman.has_write_cb()
    &&& new.erdp.same_layout(old.erdp) && new.erdp.has_write_cb() == old.erdp.has_write_cb()
    &&& new.iman.value().spec_value() == if fired { old.iman.value().spec_value() | 1u64 } else { old.iman.value().spec_value() }
    &&& new.erdp.value().spec_value() == if fired { old.erdp.value().spec_value() | 8u64 } else { old.erdp.value().spec_value() }
}

impl<D: XhciBackendDevice> UsbPort<D> {
    pub closed spec fn port_id(self) -> u8 {
        self.port_id
    }

    pub closed spec fn connected(self) -> bool {
        self.backend_device is Some
    }

    /// The device connected to this port, if any.
    pub fn get_backend_device(&self) -> (r: Option<&D>)
        ensures
            r is Some == self.connected(),
    {
        match &self.backend_device {
            Some(d) => Some(d),
            None => None,
        }
    }

    /// The port's id.
    pub fn get_port_id(&self) -> (r: u8)
        ensures
            r == self.port_id(),
    {
        self.port_id
    }

    /// A port with nothing connected.
    pub fn new(port_id: u8) -> (r: UsbPort<D>)
        ensures
            r.port_id() == port_id,
            !r.connected(),
    {
        UsbPort { port_id, backend_device: None }
    }

    /// Disconnects the device, telling the guest; false when nothing was
    /// connected. Also returns whether to interrupt the guest.
    pub fn detach(
        &mut self,
        regs: &mut XHCIRegs,
        interrupter: &mut Interrupter,
        mem: &mut GuestMemory,
    ) -> (r: (bool, bool))
        requires
            1 <= old(self).port_id() <= MAX_PORTS,
            old(regs).portsc@.len() == MAX_PORTS,
        ensures
            final(self).port_id() == old(self).port_id(),
            !final(self).connected(),
            r.0 == old(self).connected(),
            !r.0 ==> !r.1 && *final(regs) == *old(regs) && final(interrupter)@ == old(interrupter)@
                && final(mem).regions() == old(mem).regions(),
            r.0 ==> add_port_event(
                *old(interrupter),
                old(mem).regions(),
                *final(interrupter),
                final(mem).regions(),
                old(self).port_id(),
                r.1,
            ) && port_event_regs(
                old(regs),
                final(regs),
                old(self).port_id(),
                PORTSC_DISCONNECT_CHANGE_BITS,
                PORTSC_CURRENT_CONNECT_STATUS,
                r.1,
            ),
    {
        if self.backend_device.is_none() {
            return (false, false);
        }
        self.backend_device = None;
        (true, self.send_device_disconnected_event(regs, interrupter, mem))
    }

    /// After a hub reset, a connected device is announced again.
    fn reset(&self, regs: &mut XHCIRegs, interrupter: &mut Interrupter, mem: &mut GuestMemory) -> (r: bool)
        requires
            1 <= self.port_id() <= MAX_PORTS,
            old(regs).portsc@.len() == MAX_PORTS,
        ensures
            !self.connected() ==> !r && *final(regs) == *old(regs) && final(interrupter)@ == old(interrupter)@
                && final(mem).regions() == old(mem).regions(),
            self.connected() ==> add_port_event(
                *old(interrupter),
                old(mem).regions(),
                *final(interrupter),
                final(mem).regions(),
                self.port_id(),
                r,
            ) && port_event_regs(old(regs), final(regs), self.port_id(), PORTSC_CONNECTED_BITS, 0, r),
    {
        if self.backend_device.is_some() {
            self.send_device_connected_event(regs, interrupter, mem)
        } else {
            false
        }
    }

    /// Connects a device, telling the guest. Returns whether to interrupt
    /// the guest.
    fn attach(&mut self, device: D, regs: &mut XHCIRegs, interrupter: &mut Interrupter, mem: &mut GuestMemory) -> (r: bool)
        requires
            1 <= old(self).port_id() <= MAX_PORTS,
            old(regs).portsc@.len() == MAX_PORTS,
            !old(self).connected(),
        ensures
            final(self).port_id() == old(self).port_id(),
            final(self).connected(),
            final(self).backend_device == Some(device),
            add_port_event(
                *old(interrupter),
                old(mem).regions(),
                *final(interrupter),
                final(mem).regions(),
                old(self).port_id(),
                r,
            ),
            port_event_regs(old(regs), final(regs), old(self).port_id(), PORTSC_CONNECTED_BITS, 0, r),
    {
        self.backend_device = Some(device);
        self.send_device_connected_event(regs, interrupter, mem)
    }

    /// Tells the guest a device is connected to this port; the first steps
    /// of device initialization (xHCI 4.3). Returns whether to interrupt the
    /// guest.
    pub fn send_device_connected_event(
        &self,
        regs: &mut XHCIRegs,
        interrupter: &mut Interrupter,
        mem: &mut GuestMemory,
    ) -> (r: bool)
        requires
            1 <= self.port_id() <= MAX_PORTS,
            old(regs).portsc@.len() == MAX_PORTS,
        ensures
            add_port_event(
                *old(interrupter),
                old(mem).regions(),
                *final(interrupter),
                final(mem).regions(),
                self.port_id(),
                r,
            ),
            port_event_regs(old(regs), final(regs), self.port_id(), PORTSC_CONNECTED_BITS, 0, r),
    {
        port_event(regs, interrupter, mem, self.port_id, PORTSC_CONNECTED_BITS, 0)
    }

    /// Tells the guest the device of this port is gone. Returns whether to
    /// interrupt the guest.
    pub fn send_device_disconnected_event(
        &self,
        regs: &mut XHCIRegs,
        interrupter: &mut Interrupter,
        mem: &mut GuestMemory,
    ) -> (r: bool)
        requires
            1 <= self.port_id() <= MAX_PORTS,
            old(regs).portsc@.len() == MAX_PORTS,
        ensures
            add_port_event(
                *old(interrupter),
                old(mem).regions(),
                *final(interrupter),
                final(mem).regions(),
                self.port_id(),
                r,
            ),
            port_event_regs(
                old(regs),
                final(regs),
                self.port_id(),
                PORTSC_DISCONNECT_CHANGE_BITS,
                PORTSC_CURRENT_CONNECT_STATUS,
                r,
            ),
    {
        port_event(regs, interrupter, mem, self.port_id, PORTSC_DISCONNECT_CHANGE_BITS, PORTSC_CURRENT_CONNECT_STATUS)
    }
}

/// Clearing no bits keeps a value.
proof fn lemma_clear_nothing(v: u64)
    ensures
        v & !(0u32 as u64) == v,
{
    assert(v & !(0u32 as u64) == v) by (bit_vector);
}

/// Updates port `port_id`'s status and usbsts, and queues a port status
/// change event.
fn port_event(
    regs: &mut XHCIRegs,
    interrupter: &mut Interrupter,
    mem: &mut GuestMemory,
    port_id: u8,
    set: u32,
    clear: u32,
) -> (r: bool)
    requires
        1 <= port_id <= MAX_PORTS,
        old(regs).portsc@.len() == MAX_PORTS,
    ensures
        add_port_event(*old(interrupter), old(mem).regions(), *final(interrupter), final(mem).regions(), port_id, r),
        port_event_regs(old(regs), final(regs), port_id, set, clear, r),
{
    let i = (port_id - 1) as usize;
    let mut reg = regs.portsc.remove(i);
    reg.set_bits(set);
    reg.clear_bits(clear);
    regs.portsc.insert(i, reg);
    regs.usbsts.set_bits(USB_STS_PORT_CHANGE_DETECT);
    let ghost mid = *regs;
    let fired = match interrupter.send_port_status_change_trb(regs, mem, port_id) {
        Ok(b) => b,
        Err(_) => false,
    };
    proof {
        assert forall|j: int| 0 <= j < old(regs).portsc@.len() && j != port_index(port_id) implies #[trigger] regs.portsc@[j] == old(regs).portsc@[j] by {
            if j < i {
                assert(mid.portsc@[j] == old(regs).portsc@[j]);
            } else {
                assert(mid.portsc@[j] == old(regs).portsc@[j]);
            }
        }
    }
    fired
}

/// The root hub's ports, numbered from 1.
pub struct UsbHub<D> {
    ports: Vec<UsbPort<D>>,
}

impl<D: XhciBackendDevice> UsbHub<D> {
    /// `MAX_PORTS` ports, numbered in order.
    pub closed spec fn wf(self) -> bool {
        &&& self.ports@.len() == MAX_PORTS
        &&& forall|i: int| 0 <= i < MAX_PORTS ==> (#[trigger] self.ports@[i]).port_id() == i + 1
    }

    /// Whether port `port_id` has a device.
    pub closed spec fn connected(self, port_id: u8) -> bool {
        self.ports@[port_id - 1].connected()
    }

    /// The device of port `port_id`, when it has one.
    pub closed spec fn device(self, port_id: u8) -> D {
        self.ports@[port_id - 1].backend_device.unwrap()
    }

    /// A hub of `MAX_PORTS` empty ports.
    pub fn new() -> (r: UsbHub<D>)
        ensures
            r.wf(),
            forall|p: u8| 1 <= p <= MAX_PORTS ==> !#[trigger] r.connected(p),
    {
        let mut ports: Vec<UsbPort<D>> = Vec::new();
        let mut i: u8 = 0;
        while i < MAX_PORTS
            invariant
                i <= MAX_PORTS,
                ports@.len() == i,
                forall|k: int| 0 <= k < i ==> (#[trigger] ports@[k]).port_id() == k + 1 && !ports@[k].connected(),
            decreases MAX_PORTS - i,
        {
            ports.push(UsbPort::new(i + 1));
            i = i + 1;
        }
        UsbHub { ports }
    }

    /// Announces every connected device again: each connected port's
    /// portsc gets the connected bits and a port status change event is
    /// queued for it, in port order. Returns whether to interrupt the guest.
    pub fn reset(&self, regs: &mut XHCIRegs, interrupter: &mut Interrupter, mem: &mut GuestMemory) -> (r: bool)
        requires
            self.wf(),
            old(regs).portsc@.len() == MAX_PORTS,
        ensures
            final(regs).portsc@.len() == MAX_PORTS,
            final(regs).doorbells == old(regs).doorbells,
            final(regs).usbcmd == old(regs).usbcmd,
            final(regs).dnctrl == old(regs).dnctrl,
            final(regs).crcr == old(regs).crcr,
            final(regs).dcbaap == old(regs).dcbaap,
            final(regs).config == old(regs).config,
            final(regs).imod == old(regs).imod,
            final(regs).erstsz == old(regs).erstsz,
            final(regs).erstba == old(regs).erstba,
            forall|q: u8| 1 <= q <= MAX_PORTS ==> if #[trigger] self.connected(q) {
                final(regs).portsc@[q - 1].value().spec_value() == old(regs).portsc@[q - 1].value().spec_value()
                    | (PORTSC_CONNECTED_BITS as u64)
            } else {
                final(regs).portsc@[q - 1] == old(regs).portsc@[q - 1]
            },
            (forall|q: u8| 1 <= q <= MAX_PORTS ==> !#[trigger] self.connected(q)) ==> !r && *final(regs) == *old(regs)
                && final(interrupter)@ == old(interrupter)@ && final(mem).regions() == old(mem).regions(),
    {
        let mut fired = false;
        let mut i: usize = 0;
        while i < self.ports.len()
            invariant
                self.wf(),
                i <= MAX_PORTS,
                regs.portsc@.len() == MAX_PORTS,
                regs.doorbells == old(regs).doorbells,
                regs.usbcmd == old(regs).usbcmd,
                regs.dnctrl == old(regs).dnctrl,
                regs.crcr == old(regs).crcr,
                regs.dcbaap == old(regs).dcbaap,
                regs.config == old(regs).config,
                regs.imod == old(regs).imod,
                regs.erstsz == old(regs).erstsz,
                regs.erstba == old(regs).erstba,
                forall|k: int| #![trigger regs.portsc@[k]] 0 <= k < i && self.ports@[k].connected() ==>
                    regs.portsc@[k].value().spec_value() == old(regs).portsc@[k].value().spec_value()
                        | (PORTSC_CONNECTED_BITS as u64),
                forall|k: int| #![trigger regs.portsc@[k]] 0 <= k < MAX_PORTS && !(k < i && self.ports@[k].connected()) ==>
                    regs.portsc@[k] == old(regs).portsc@[k],
                (forall|k: int| 0 <= k < i ==> !(#[trigger] self.ports@[k]).connected()) ==> !fired && *regs == *old(regs)
                    && interrupter@ == old(interrupter)@ && mem.regions() == old(mem).regions(),
            decreases self.ports@.len() - i,
        {
            let ghost before = *regs;
            proof {
                assert(regs.portsc@[i as int] == old(regs).portsc@[i as int]);
            }
            if self.ports[i].reset(regs, interrupter, mem) {
                fired = true;
            }
            proof {
                if self.ports@[i as int].connected() {
                    lemma_clear_nothing(before.portsc@[i as int].value().spec_value() | (PORTSC_CONNECTED_BITS as u64));
                }
                assert forall|k: int| 0 <= k < i + 1 && self.ports@[k].connected() implies #[trigger] regs.portsc@[k].value().spec_value()
                    == old(regs).portsc@[k].value().spec_value() | (PORTSC_CONNECTED_BITS as u64) by {
                    if k != i {
                        assert(regs.portsc@[k] == before.portsc@[k]);
                    } else {
                        assert(self.ports@[k].port_id() == i + 1);
                    }
                }
                assert forall|k: int| 0 <= k < MAX_PORTS && !(k < i + 1 && self.ports@[k].connected()) implies #[trigger] regs.portsc@[k]
                    == old(regs).portsc@[k] by {
                    if k != i {
                        assert(regs.portsc@[k] == before.portsc@[k]);
                    } else {
                        assert(*regs == before);
                    }
                }
            }
            i = i + 1;
        }
        proof {
            assert forall|q: u8| 1 <= q <= MAX_PORTS implies if #[trigger] self.connected(q) {
                regs.portsc@[q - 1].value().spec_value() == old(regs).portsc@[q - 1].value().spec_value()
                    | (PORTSC_CONNECTED_BITS as u64)
            } else {
                regs.portsc@[q - 1] == old(regs).portsc@[q - 1]
            } by {
                assert(self.ports@[q - 1].connected() == self.connected(q));
            }
            if forall|q: u8| 1 <= q <= MAX_PORTS ==> !#[trigger] self.connected(q) {
                assert forall|k: int| 0 <= k < MAX_PORTS implies !(#[trigger] self.ports@[k]).connected() by {
                    assert(self.connected((k + 1) as u8) == self.ports@[k].connected());
                }
            }
        }
        fired
    }

    /// Connects a device to the first empty port and returns that port's
    /// id, or `None` when every port is taken; also whether to interrupt
    /// the guest.
    pub fn connect_backend(
        &mut self,
        backend: D,
        regs: &mut XHCIRegs,
        interrupter: &mut Interrupter,
        mem: &mut GuestMemory,
    ) -> (r: (Option<u8>, bool))
        requires
            old(self).wf(),
            old(regs).portsc@.len() == MAX_PORTS,
        ensures
            final(self).wf(),
            match r.0 {
                Some(p) => {
                    &&& 1 <= p <= MAX_PORTS
                    &&& !old(self).connected(p)
                    &&& forall|q: u8| 1 <= q < p ==> #[trigger] old(self).connected(q)
                    &&& final(self).connected(p)
                    &&& final(self).device(p) == backend
                    &&& forall|q: u8| 1 <= q <= MAX_PORTS && q != p ==> #[trigger] final(self).connected(q) == old(self).connected(q)
                    &&& forall|q: u8| 1 <= q <= MAX_PORTS && q != p ==> #[trigger] final(self).device(q) == old(self).device(q)
                    &&& add_port_event(*old(interrupter), old(mem).regions(), *final(interrupter), final(mem).regions(), p, r.1)
                    &&& port_event_regs(old(regs), final(regs), p, PORTSC_CONNECTED_BITS, 0, r.1)
                },
                None => {
                    &&& forall|q: u8| 1 <= q <= MAX_PORTS ==> #[trigger] old(self).connected(q)
                    &&& !r.1
                    &&& *final(regs) == *old(regs)
                    &&& final(interrupter)@ == old(interrupter)@
                    &&& final(mem).regions() == old(mem).regions()
                },
            },
    {
        let mut i: usize = 0;
        while i < self.ports.len()
            invariant
                self.wf(),
                self == old(self),
                *regs == *old(regs),
                *interrupter == *old(interrupter),
                mem.regions() == old(mem).regions(),
                regs.portsc@.len() == MAX_PORTS,
                i <= MAX_PORTS,
                forall|k: int| 0 <= k < i ==> (#[trigger] self.ports@[k]).connected(),
            decreases self.ports@.len() - i,
        {
            if self.ports[i].backend_device.is_none() {
                let mut port = self.ports.remove(i);
                let fired = port.attach(backend, regs, interrupter, mem);
                self.ports.insert(i, port);
                proof {
                    assert forall|q: u8| 1 <= q <= MAX_PORTS && q != (i + 1) as u8 implies #[trigger] self.connected(q) == old(self).connected(q) by {
                        assert(self.ports@[q - 1] == old(self).ports@[q - 1]);
                    }
                    assert forall|q: u8| 1 <= q <= MAX_PORTS && q != (i + 1) as u8 implies #[trigger] self.device(q) == old(self).device(q) by {
                        assert(self.ports@[q - 1] == old(self).ports@[q - 1]);
                    }
                    assert forall|q: u8| 1 <= q < (i + 1) as u8 implies #[trigger] old(self).connected(q) by {
                        assert(old(self).ports@[q - 1].connected());
                    }
                }
                return (Some((i + 1) as u8), fired);
            }
            i = i + 1;
        }
        proof {
            assert forall|q: u8| 1 <= q <= MAX_PORTS implies #[trigger] old(self).connected(q) by {
                assert(old(self).ports@[q - 1].connected());
            }
        }
        (None, false)
    }

    /// Disconnects the device of port `port_id`; false when there is no
    /// such port or nothing is connected. Also whether to interrupt the
    /// guest.
    pub fn disconnect_port(
        &mut self,
        port_id: u8,
        regs: &mut XHCIRegs,
        interrupter: &mut Interrupter,
        mem: &mut GuestMemory,
    ) -> (r: (bool, bool))
        requires
            old(self).wf(),
            old(regs).portsc@.len() == MAX_PORTS,
        ensures
            final(self).wf(),
            r.0 == (1 <= port_id <= MAX_PORTS && old(self).connected(port_id)),
            forall|q: u8| 1 <= q <= MAX_PORTS && q != port_id ==> #[trigger] final(self).connected(q) == old(self).connected(q),
            forall|q: u8| 1 <= q <= MAX_PORTS && q != port_id ==> #[trigger] final(self).device(q) == old(self).device(q),
            1 <= port_id <= MAX_PORTS ==> !final(self).connected(port_id),
            !r.0 ==> !r.1 && *final(regs) == *old(regs) && final(interrupter)@ == old(interrupter)@
                && final(mem).regions() == old(mem).regions(),
            r.0 ==> add_port_event(*old(interrupter), old(mem).regions(), *final(interrupter), final(mem).regions(), port_id, r.1)
                && port_event_regs(old(regs), final(regs), port_id, PORTSC_DISCONNECT_CHANGE_BITS, PORTSC_CURRENT_CONNECT_STATUS, r.1),
    {
        if port_id == 0 || port_id > MAX_PORTS {
            return (false, false);
        }
        let i = (port_id - 1) as usize;
        let mut port = self.ports.remove(i);
        let r = port.detach(regs, interrupter, mem);
        self.ports.insert(i, port);
        proof {
            assert forall|q: u8| 1 <= q <= MAX_PORTS && q != port_id implies #[trigger] self.connected(q) == old(self).connected(q) by {
                assert(self.ports@[q - 1] == old(self).ports@[q - 1]);
            }
            assert forall|q: u8| 1 <= q <= MAX_PORTS && q != port_id implies #[trigger] self.device(q) == old(self).device(q) by {
                assert(self.ports@[q - 1] == old(self).ports@[q - 1]);
            }
        }
        r
    }

    /// Sets the address of the device of port `port_id`; false when there
    /// is no such port or nothing is connected.
    pub fn set_backend_address(&mut self, port_id: u8, address: UsbDeviceAddress) -> (r: bool)
        requires
            old(self).wf(),
        ensures
            final(self).wf(),
            r == (1 <= port_id <= MAX_PORTS && old(self).connected(port_id)),
            forall|q: u8| 1 <= q <= MAX_PORTS ==> #[trigger] final(self).connected(q) == old(self).connected(q),
    {
        if port_id == 0 || port_id > MAX_PORTS {
            return false;
        }
        let i = (port_id - 1) as usize;
        let mut port = self.ports.remove(i);
        let r = match &mut port.backend_device {
            Some(d) => {
                d.set_address(address);
                true
            },
            None => false,
        };
        self.ports.insert(i, port);
        proof {
            assert forall|q: u8| 1 <= q <= MAX_PORTS implies #[trigger] self.connected(q) == old(self).connected(q) by {
                assert(self.ports@[q - 1].connected() == old(self).ports@[q - 1].connected());
            }
        }
        r
    }

    /// Hands a transfer to the device of port `port_id`; gives it back when
    /// there is no such port or nothing is connected.
    pub fn submit_transfer(&mut self, port_id: u8, transfer: XhciTransfer) -> (r: Option<XhciTransfer>)
        requires
            old(self).wf(),
        ensures
            final(self).wf(),
            r.is_none() == (1 <= port_id <= MAX_PORTS && old(self).connected(port_id)),
            r.is_some() ==> r == Some(transfer),
            forall|q: u8| 1 <= q <= MAX_PORTS ==> #[trigger] final(self).connected(q) == old(self).connected(q),
    {
        if port_id == 0 || port_id > MAX_PORTS {
            return Some(transfer);
        }
        let i = (port_id - 1) as usize;
        let mut port = self.ports.remove(i);
        let r = match &mut port.backend_device {
            Some(d) => {
                d.submit_transfer(transfer);
                None
            },
            None => Some(transfer),
        };
        self.ports.insert(i, port);
        proof {
            assert forall|q: u8| 1 <= q <= MAX_PORTS implies #[trigger] self.connected(q) == old(self).connected(q) by {
                assert(self.ports@[q - 1].connected() == old(self).ports@[q - 1].connected());
            }
        }
        r
    }

    /// Port `port_id`, if there is such a port.
    pub fn get_port(&self, port_id: u8) -> (r: Option<&UsbPort<D>>)
        requires
            self.wf(),
        ensures
            r is Some == (1 <= port_id <= MAX_PORTS),
            r matches Some(p) ==> p.port_id() == port_id && p.connected() == self.connected(port_id),
    {
        if port_id == 0 || port_id > MAX_PORTS {
            return None;
        }
        Some(&self.ports[(port_id - 1) as usize])
    }

    /// Vendor and product id of the device of port `port_id`: `Err(true)`
    /// when there is no such port, `Err(false)` when nothing is connected.
    pub fn device_ids(&self, port_id: u8) -> (r: Result<(u16, u16), bool>)
        requires
            self.wf(),
        ensures
            !(1 <= port_id <= MAX_PORTS) ==> r == Err::<(u16, u16), bool>(true),
            1 <= port_id <= MAX_PORTS ==> (r is Ok <==> self.connected(port_id)) && r != Err::<(u16, u16), bool>(true),
            r matches Ok((vid, pid)) ==> vid == self.device(port_id).vid() && pid == self.device(port_id).pid(),
    {
        if port_id == 0 || port_id > MAX_PORTS {
            return Err(true);
        }
        match &self.ports[(port_id - 1) as usize].backend_device {
            Some(d) => Ok((d.get_vid(), d.get_pid())),
            None => Err(false),
        }
    }
}

} // verus!
