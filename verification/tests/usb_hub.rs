use lib::guest_memory::{GuestAddress, GuestMemory};
use lib::interrupter::Interrupter;
use lib::usb_hub::{UsbDeviceAddress, UsbHub, XhciBackendDevice};
use lib::xhci_regs::init_xhci_mmio_space_and_regs;
use lib::xhci_transfer::XhciTransfer;

struct Dev(u16);

impl XhciBackendDevice for Dev {
    fn submit_transfer(&mut self, _transfer: XhciTransfer) {}
    fn set_address(&mut self, _address: UsbDeviceAddress) {}
    fn vid(&self) -> u16 {
        self.0
    }
    fn pid(&self) -> u16 {
        self.0 + 1
    }
    fn get_vid(&self) -> u16 {
        self.0
    }
    fn get_pid(&self) -> u16 {
        self.0 + 1
    }
}

#[test]
fn hub_ports_connect_and_disconnect() {
    let (_, mut regs) = init_xhci_mmio_space_and_regs();
    let mut interrupter = Interrupter::new();
    let mut mem = GuestMemory::new(&vec![(GuestAddress(0), 0x1000)]).unwrap();
    let mut hub = UsbHub::<Dev>::new();
    assert!(hub.get_port(0).is_none());
    assert!(hub.get_port(9).is_none());
    let port = hub.get_port(3).unwrap();
    assert_eq!(port.get_port_id(), 3);
    assert!(port.get_backend_device().is_none());

    let (p, _) = hub.connect_backend(Dev(10), &mut regs, &mut interrupter, &mut mem);
    assert_eq!(p, Some(1));
    let (p, _) = hub.connect_backend(Dev(20), &mut regs, &mut interrupter, &mut mem);
    assert_eq!(p, Some(2));
    assert_eq!(hub.get_port(2).unwrap().get_backend_device().unwrap().get_vid(), 20);
    assert_eq!(hub.device_ids(1), Ok((10, 11)));
    assert_eq!(hub.device_ids(3), Err(false));
    assert_eq!(hub.device_ids(0), Err(true));
    // The connected port's status shows the device with its change bits;
    // the event ring is not set up, so no event is queued.
    assert_eq!(regs.portsc[0].get_value() & 0x00060003, 0x00060003);

    let (done, fire) = hub.disconnect_port(1, &mut regs, &mut interrupter, &mut mem);
    assert!(done);
    assert!(!fire);
    assert_eq!(regs.portsc[0].get_value() & 1, 0);
    let (done, _) = hub.disconnect_port(1, &mut regs, &mut interrupter, &mut mem);
    assert!(!done);
    // The freed port is taken first.
    let (p, _) = hub.connect_backend(Dev(30), &mut regs, &mut interrupter, &mut mem);
    assert_eq!(p, Some(1));
}
