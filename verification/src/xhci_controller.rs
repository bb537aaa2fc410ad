//! The xHCI controller as a PCI device: its memory BAR in front of the
//! register file, and the failed state in which guest writes are dropped;
//! and the commands that attach host devices to its root hub.
use crate::guest_memory::{Error as MemError, GuestMemory};
use crate::mmio_register::{valid_access, RegisterValue};
use crate::usb_hub::XhciBackendDevice;
use crate::xhci::{all_windows, fold_reads, WriteOutcome, Xhci};
use crate::xhci_regs::{init_xhci_mmio_space_and_regs, XhciMmioSpace, MAX_PORTS};
use vstd::prelude::*;

verus! {

/// Size of the memory BAR of the register file.
pub const XHCI_BAR0_SIZE: u64 = 0x10000;

/// The usbcmd value of a failed controller: stopped.
pub const USBCMD_STOPPED: u32 = 0;

/// The usbsts value of a failed controller: host system error.
pub const USBSTS_HSE: u32 = 0x4;

/// Programming interface of a USB 3 host controller.
pub const USB3_HOST_CONTROLLER: u8 = 0x30;

/// An initialized xHCI controller at BAR address `bar0`.
pub struct XhciController<D> {
    bar0: u64,
    mmio: XhciMmioSpace,
    xhci: Xhci<D>,
    failed: bool,
}

/// Whether a BAR access at `addr` is the controller's: from `bar0` to
/// `bar0 + XHCI_BAR0_SIZE`, both included.
pub open spec fn in_bar(bar0: u64, addr: u64) -> bool {
    bar0 <= addr <= bar0 + XHCI_BAR0_SIZE
}

impl<D: XhciBackendDevice> XhciController<D> {
    pub closed spec fn bar0(self) -> u64 {
        self.bar0
    }

    pub closed spec fn failed(self) -> bool {
        self.failed
    }

    pub closed spec fn xhci(self) -> Xhci<D> {
        self.xhci
    }

    pub closed spec fn mmio(self) -> XhciMmioSpace {
        self.mmio
    }

    pub closed spec fn wf(self) -> bool {
        self.xhci.wf()
    }

    /// A controller with its registers at reset, at BAR address `bar0`.
    pub fn new(bar0: u64) -> (r: XhciController<D>)
        ensures
            r.wf(),
            r.bar0() == bar0,
            !r.failed(),
    {
        let (mmio, regs) = init_xhci_mmio_space_and_regs();
        XhciController { bar0, mmio, xhci: Xhci::new(regs), failed: false }
    }

    /// The controller's logic.
    pub fn xhci_mut(&mut self) -> (r: &mut Xhci<D>)
        requires
            old(self).wf(),
        ensures
            *r == old(self).xhci(),
    {
        &mut self.xhci
    }

    /// Stops the controller for good: usbcmd reads stopped, usbsts a host
    /// system error, and guest writes are dropped from now on.
    pub fn fail(&mut self)
        requires
            old(self).wf(),
        ensures
            final(self).wf(),
            final(self).failed(),
            final(self).xhci().regs().usbcmd.value() == USBCMD_STOPPED,
            final(self).xhci().regs().usbsts.value() == USBSTS_HSE,
    {
        self.xhci.set_failed_regs();
        self.failed = true;
    }

    /// Whether the controller failed.
    pub fn get_failed(&self) -> (r: bool)
        ensures
            r == self.failed(),
    {
        self.failed
    }

    /// A guest read at BAR address `addr`; reads outside the BAR leave
    /// `data` alone. Reads work after a failure too.
    pub fn read_bar(&self, addr: u64, data: &mut [u8])
        requires
            old(data)@.len() > 0,
            addr - self.bar0() + old(data)@.len() <= u64::MAX,
        ensures
            !in_bar(self.bar0(), addr) ==> final(data)@ == old(data)@,
            in_bar(self.bar0(), addr) ==> final(data)@ == fold_reads(
                old(data)@,
                all_windows(self.mmio(), self.xhci().regs()),
                (addr - self.bar0()) as u64,
            ),
    {
        if addr < self.bar0 || addr as u128 > self.bar0 as u128 + XHCI_BAR0_SIZE as u128 {
            return;
        }
        self.xhci.read_bar(&self.mmio, addr - self.bar0, data);
    }

    /// A guest write at BAR address `addr`; writes outside the BAR, and all
    /// writes after a failure, are dropped (`None`).
    pub fn write_bar(&mut self, mem: &mut GuestMemory, addr: u64, data: &[u8]) -> (r: Result<Option<WriteOutcome>, MemError>)
        requires
            old(self).wf(),
            data@.len() > 0,
            addr - old(self).bar0() + data@.len() <= u64::MAX,
        ensures
            final(self).wf(),
            final(self).bar0() == old(self).bar0(),
            final(self).failed() == old(self).failed(),
            (!in_bar(old(self).bar0(), addr) || old(self).failed()) ==> r == Ok::<Option<WriteOutcome>, MemError>(None)
                && final(self).xhci() == old(self).xhci(),
            (in_bar(old(self).bar0(), addr) && !old(self).failed()) ==> match r {
                Ok(Some(o)) => old(self).xhci().write_bar_post(
                    old(mem).regions(),
                    (addr - old(self).bar0()) as u64,
                    data@,
                    Ok::<WriteOutcome, MemError>(o),
                    final(self).xhci(),
                ),
                Ok(None) => false,
                Err(e) => old(self).xhci().write_bar_post(
                    old(mem).regions(),
                    (addr - old(self).bar0()) as u64,
                    data@,
                    Err::<WriteOutcome, MemError>(e),
                    final(self).xhci(),
                ),
            },
    {
        if addr < self.bar0 || addr as u128 > self.bar0 as u128 + XHCI_BAR0_SIZE as u128 {
            return Ok(None);
        }
        if self.failed {
            return Ok(None);
        }
        match self.xhci.write_bar(&mut self.mmio, mem, addr - self.bar0, data) {
            Ok(out) => Ok(Some(out)),
            Err(e) => Err(e),
        }
    }
}

/// A request to the USB device provider.
#[derive(Debug, Copy, Clone, PartialEq, Eq, Structural)]
pub enum UsbControlCommand {
    AttachDevice { bus: u8, addr: u8, vid: u16, pid: u16, fd: i32 },
    DetachDevice { port: u8 },
    ListDevice { port: u8 },
}

/// The provider's answer.
#[derive(Debug, Copy, Clone, PartialEq, Eq, Structural)]
pub enum UsbControlResult {
    Done { port: u8 },
    NoAvailablePort,
    NoSuchDevice,
    NoSuchPort,
    FailToOpenDevice,
    Device { port: u8, vid: u16, pid: u16 },
}

/// How opening a host device for an attach request went.
pub enum OpenedDevice<D> {
    /// The host has no device with the requested bus, address and ids.
    NoSuchDevice,
    /// The device could not be opened.
    FailToOpen,
    Opened(D),
}

impl<D: XhciBackendDevice> Xhci<D> {
    /// Answers an attach request once the host device was looked up and
    /// opened: it goes to the first free port. Also returns whether to
    /// interrupt the guest.
    pub fn attach_device(&mut self, mem: &mut GuestMemory, device: OpenedDevice<D>) -> (r: (UsbControlResult, bool))
        requires
            old(self).wf(),
        ensures
            final(self).wf(),
            device is NoSuchDevice ==> r.0 == UsbControlResult::NoSuchDevice && !r.1,
            device is FailToOpen ==> r.0 == UsbControlResult::FailToOpenDevice && !r.1,
            device is Opened ==> match r.0 {
                UsbControlResult::Done { port } => {
                    &&& 1 <= port <= MAX_PORTS
                    &&& !old(self).hub().connected(port)
                    &&& forall|q: u8| 1 <= q < port ==> #[trigger] old(self).hub().connected(q)
                    &&& final(self).hub().connected(port)
                    &&& final(self).hub().device(port) == device->Opened_0
                    &&& forall|q: u8|
                        1 <= q <= MAX_PORTS && q != port ==> #[trigger] final(self).hub().connected(q)
                            == old(self).hub().connected(q) && final(self).hub().device(q) == old(self).hub().device(q)
                },
                UsbControlResult::NoAvailablePort => forall|q: u8| 1 <= q <= MAX_PORTS ==> #[trigger] old(self).hub().connected(q),
                _ => false,
            },
    {
        match device {
            OpenedDevice::NoSuchDevice => (UsbControlResult::NoSuchDevice, false),
            OpenedDevice::FailToOpen => (UsbControlResult::FailToOpenDevice, false),
            OpenedDevice::Opened(d) => {
                let (port, fire) = self.connect_backend(mem, d);
                match port {
                    Some(port) => (UsbControlResult::Done { port }, fire),
                    None => (UsbControlResult::NoAvailablePort, fire),
                }
            },
        }
    }

    /// Answers a detach request. Also returns whether to interrupt the guest.
    pub fn detach_device(&mut self, mem: &mut GuestMemory, port: u8) -> (r: (UsbControlResult, bool))
        requires
            old(self).wf(),
        ensures
            final(self).wf(),
            r.0 == if 1 <= port <= MAX_PORTS && old(self).hub().connected(port) {
                UsbControlResult::Done { port }
            } else {
                UsbControlResult::NoSuchDevice
            },
            1 <= port <= MAX_PORTS ==> !final(self).hub().connected(port),
            forall|q: u8|
                1 <= q <= MAX_PORTS && q != port ==> #[trigger] final(self).hub().connected(q) == old(self).hub().connected(q)
                    && final(self).hub().device(q) == old(self).hub().device(q),
    {
        let (done, fire) = self.disconnect_port(mem, port);
        if done {
            (UsbControlResult::Done { port }, fire)
        } else {
            (UsbControlResult::NoSuchDevice, fire)
        }
    }

    /// Answers a list request for port `port`.
    pub fn list_device(&self, port: u8) -> (r: UsbControlResult)
        requires
            self.wf(),
        ensures
            !(1 <= port <= MAX_PORTS) ==> r == UsbControlResult::NoSuchPort,
            1 <= port <= MAX_PORTS && !self.hub().connected(port) ==> r == UsbControlResult::NoSuchDevice,
            1 <= port <= MAX_PORTS && self.hub().connected(port) ==> r == (UsbControlResult::Device {
                port,
                vid: self.hub().device(port).vid(),
                pid: self.hub().device(port).pid(),
            }),
    {
        match self.hub_device_ids(port) {
            Ok((vid, pid)) => UsbControlResult::Device { port, vid, pid },
            Err(true) => UsbControlResult::NoSuchPort,
            Err(false) => UsbControlResult::NoSuchDevice,
        }
    }
}

} // verus!
