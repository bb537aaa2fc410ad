use lib::pci_configuration::{
    PciBridgeSubclass, PciClassCode, PciConfiguration, PciHeaderType, PciMultimediaSubclass,
    PciSubclass,
};
use lib::pci_types::PciInterruptPin;

#[test]
fn new_configuration_header() {
    let cfg = PciConfiguration::new(
        0x8086,
        0x2415,
        PciClassCode::MultimediaController,
        &PciMultimediaSubclass::AudioDevice,
        PciHeaderType::Device,
    );
    assert_eq!(cfg.read_reg(0), 0x8086_2415);
    assert_eq!(cfg.read_reg(2), 0x0403_0000);
    assert_eq!(cfg.read_reg(3), 0);
    assert_eq!(cfg.read_reg(16), 0xffff_ffff);

    let bridge = PciConfiguration::new(
        0,
        0,
        PciClassCode::BridgeDevice,
        &PciBridgeSubclass::HostBridge,
        PciHeaderType::Bridge,
    );
    assert_eq!(bridge.read_reg(2), 0x0600_0000);
    assert_eq!(bridge.read_reg(3), 0x0001_0000);
}

#[test]
fn register_writes() {
    let mut cfg = PciConfiguration::new(
        1,
        2,
        PciClassCode::Other,
        &PciMultimediaSubclass::Other,
        PciHeaderType::Device,
    );
    cfg.write_reg(5, 0x1234_5678);
    assert_eq!(cfg.read_reg(5), 0x1234_5678);
    cfg.write_word(22, 0xabcd);
    assert_eq!(cfg.read_reg(5), 0xabcd_5678);
    cfg.write_word(21, 0xffff);
    assert_eq!(cfg.read_reg(5), 0xabcd_5678);
    cfg.write_byte(21, 0xee);
    assert_eq!(cfg.read_reg(5), 0xabcd_ee78);
    cfg.write_byte(100, 0xee);
    cfg.write_reg(100, 1);
    assert_eq!(cfg.read_reg(100), 0xffff_ffff);
}

#[test]
fn add_memory_regions() {
    let mut cfg = PciConfiguration::new(
        1,
        2,
        PciClassCode::Other,
        &PciMultimediaSubclass::Other,
        PciHeaderType::Device,
    );
    assert_eq!(cfg.add_memory_region(0x1000, 0x100), Some(4));
    assert_eq!(cfg.read_reg(4), 0x1000);
    // Only the bits above the size are writable.
    cfg.write_reg(4, 0xffff_ffff);
    assert_eq!(cfg.read_reg(4), 0xffff_ff00);
    assert_eq!(cfg.add_memory_region(0x2000, 0x300), None);
    assert_eq!(cfg.add_memory_region(0xffff_ff00, 0x200), None);
    assert_eq!(cfg.add_memory_region(0x1234_5678, 0x10), Some(5));
    assert_eq!(cfg.read_reg(5), 0x1234_5670);
    for i in 0..4 {
        assert_eq!(cfg.add_memory_region(0, 0x10), Some(6 + i));
    }
    assert_eq!(cfg.add_memory_region(0, 0x10), None);
}

#[test]
fn class_and_subclass_values() {
    assert_eq!(PciClassCode::TooOld.get_register_value(), 0x00);
    assert_eq!(PciClassCode::SerialBusController.get_register_value(), 0x0c);
    assert_eq!(PciClassCode::Other.get_register_value(), 0xff);
    assert_eq!(PciMultimediaSubclass::Other.get_register_value(), 0x80);
    assert_eq!(PciBridgeSubclass::InfiniBrandToPciHostBridge.get_register_value(), 0x0a);
    assert_eq!(PciInterruptPin::IntA.to_mask(), 0);
    assert_eq!(PciInterruptPin::IntD.to_mask(), 3);
}
