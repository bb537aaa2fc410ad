use lib::ac97::{read_dword, read_word, write_dword, write_word, Ac97, Ac97BusMaster, Ac97Dev};
use lib::pci_device::PciDevice;
use lib::pci_root::{parse_config_address, PciRoot};

#[test]
fn parse_address_fields() {
    let (en, bus, dev, func, reg) = parse_config_address(0x8001_0a0c);
    assert!(en);
    assert_eq!(bus, 1);
    assert_eq!(dev, 1);
    assert_eq!(func, 2);
    assert_eq!(reg, 3);
    assert!(!parse_config_address(0x0000_0000).0);
}

#[test]
fn root_config_access() {
    let mut root: PciRoot<Ac97Dev> = PciRoot::new();
    root.add_device(Ac97Dev::new());
    // Select bus 0, device 0, register 2 of the root bridge.
    root.write(0, &[0x08, 0x00, 0x00, 0x80]);
    let mut data = [0u8; 4];
    root.read(0, &mut data);
    assert_eq!(data, [0x08, 0x00, 0x00, 0x80]);
    root.read(4, &mut data);
    assert_eq!(u32::from_le_bytes(data), 0x0600_0000);
    // Device 1, register 0: vendor and device id of the AC97 device.
    root.write(0, &[0x00, 0x08, 0x00, 0x80]);
    root.read(4, &mut data);
    assert_eq!(u32::from_le_bytes(data), 0x8086_2415);
    // Partial address writes.
    root.write(1, &[0x10]);
    root.read(0, &mut data);
    assert_eq!(data, [0x00, 0x10, 0x00, 0x80]);
    // Reads that cross the register boundary return all ones.
    let mut wide = [0u8; 4];
    root.read(2, &mut wide);
    assert_eq!(wide, [0xff; 4]);
    // Disabled addresses read as all ones.
    root.write(0, &[0, 0, 0, 0]);
    root.read(4, &mut data);
    assert_eq!(data, [0xff; 4]);
}

#[test]
fn config_space_writes_reach_device() {
    let mut root: PciRoot<Ac97Dev> = PciRoot::new();
    root.add_device(Ac97Dev::new());
    // Device 1, register 4 (BAR0).
    root.write(0, &[0x10, 0x08, 0x00, 0x80]);
    root.write(4, &[0xff, 0xff, 0xff, 0xff]);
    let mut data = [0u8; 4];
    root.read(4, &mut data);
    assert_eq!(u32::from_le_bytes(data), 0xffff_ff00);
    root.write(5, &[0x12]);
    root.read(4, &mut data);
    assert_eq!(u32::from_le_bytes(data), 0xffff_12_00);
    assert_eq!(root.child_dev(0x1404).map(|(o, i, b)| (o, i, b)), Some((0x404, 0, 1)));
    assert!(root.child_dev(0x2000).is_none());
}

#[test]
fn ac97_registers() {
    assert_eq!(read_word(1, 0x1234), 0x12);
    assert_eq!(read_word(2, 0x1234), 0);
    assert_eq!(read_dword(2, 0x1234_5678), 0x1234);
    let mut w: u16 = 0x1234;
    write_word(1, &mut w, &[0xab]);
    assert_eq!(w, 0xab34);
    write_word(0, &mut w, &[0x01, 0x02]);
    assert_eq!(w, 0x0201);
    write_word(1, &mut w, &[0x01, 0x02]);
    assert_eq!(w, 0x0201);
    let mut d: u32 = 0;
    write_dword(0, &mut d, &[0xff]);
    assert_eq!(d, 0xff);
    let mut d: u32 = 0;
    write_dword(1, &mut d, &[0xab]);
    assert_eq!(d, 0x0000_ab00);
    assert_eq!(read_dword(1, d), 0xab);
    write_dword(2, &mut d, &[0x01, 0x02]);
    assert_eq!(d, 0x0201_ab00);

    let mut bm = Ac97BusMaster::new(Ac97::new());
    assert_eq!(bm.read_value(0x06), 1);
    bm.write(0x05, &[7]);
    assert_eq!(bm.read_value(0x05), 7);
    bm.write(0x04, &[9]);
    assert_eq!(bm.read_value(0x04), 0);
    bm.write(0x16, &[0x34, 0x12]);
    assert_eq!(bm.read_value(0x16), 0x1234);
    assert_eq!(bm.read_value(0x17), 0x12);
    let mut buf = [5u8; 2];
    bm.read(0x16, &mut buf);
    assert_eq!(buf, [5, 5]);

    let dev = Ac97Dev::new();
    assert_eq!(dev.bar_region(0x1010), Some((0x10, 0)));
    assert_eq!(dev.bar_region(0x1500), Some((0x500, 1)));
    assert_eq!(dev.bar_region(0x1200), None);
    assert_eq!(dev.config_register_read(4), 0x1000);
    assert_eq!(dev.config_register_read(5), 0x1400);
}
