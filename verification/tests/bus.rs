use std::sync::{Arc, Mutex};

use lib::bus::{Bus, BusDevice, BusRange};

struct DummyDevice;

#[derive(Clone)]
struct SharedDummy(Arc<Mutex<DummyDevice>>);

impl BusDevice for SharedDummy {}

struct ConstantDevice;

impl ConstantDevice {
    fn read(&mut self, offset: u64, data: &mut [u8]) {
        for (i, v) in data.iter_mut().enumerate() {
            *v = (offset as u8) + (i as u8);
        }
    }

    fn write(&mut self, offset: u64, data: &[u8]) {
        for (i, v) in data.iter().enumerate() {
            assert_eq!(*v, (offset as u8) + (i as u8))
        }
    }
}

#[derive(Clone)]
struct SharedConstant(Arc<Mutex<ConstantDevice>>);

impl BusDevice for SharedConstant {
    fn read(&self, offset: u64, data: &mut [u8]) {
        self.0.lock().unwrap().read(offset, data);
    }

    fn write(&self, offset: u64, data: &[u8]) {
        self.0.lock().unwrap().write(offset, data);
    }
}

#[test]
fn bus_insert() {
    let mut bus = Bus::new();
    let dummy = SharedDummy(Arc::new(Mutex::new(DummyDevice)));
    assert!(bus.insert(dummy.clone(), 0x10, 0).is_err());
    assert!(bus.insert(dummy.clone(), 0x10, 0x10).is_ok());
    assert!(bus.insert(dummy.clone(), 0x0f, 0x10).is_err());
    assert!(bus.insert(dummy.clone(), 0x10, 0x10).is_err());
    assert!(bus.insert(dummy.clone(), 0x10, 0x15).is_err());
    assert!(bus.insert(dummy.clone(), 0x12, 0x15).is_err());
    assert!(bus.insert(dummy.clone(), 0x12, 0x01).is_err());
    assert!(bus.insert(dummy.clone(), 0x0, 0x20).is_err());
    assert!(bus.insert(dummy.clone(), 0x20, 0x05).is_ok());
    assert!(bus.insert(dummy.clone(), 0x25, 0x05).is_ok());
    assert!(bus.insert(dummy.clone(), 0x0, 0x10).is_ok());
}

#[test]
fn bus_read_write() {
    let mut bus = Bus::new();
    let dummy = SharedDummy(Arc::new(Mutex::new(DummyDevice)));
    assert!(bus.insert(dummy.clone(), 0x10, 0x10).is_ok());
    assert!(bus.read(0x10, &mut [0, 0, 0, 0]));
    assert!(bus.write(0x10, &[0, 0, 0, 0]));
    assert!(bus.read(0x11, &mut [0, 0, 0, 0]));
    assert!(bus.write(0x11, &[0, 0, 0, 0]));
    assert!(bus.read(0x16, &mut [0, 0, 0, 0]));
    assert!(bus.write(0x16, &[0, 0, 0, 0]));
    assert!(!bus.read(0x20, &mut [0, 0, 0, 0]));
    assert!(!bus.write(0x20, &mut [0, 0, 0, 0]));
    assert!(!bus.read(0x06, &mut [0, 0, 0, 0]));
    assert!(!bus.write(0x06, &mut [0, 0, 0, 0]));
}

#[test]
fn bus_read_write_values() {
    let mut bus = Bus::new();
    let dummy = SharedConstant(Arc::new(Mutex::new(ConstantDevice)));
    assert!(bus.insert(dummy.clone(), 0x10, 0x10).is_ok());

    let mut values = [0, 1, 2, 3];
    assert!(bus.read(0x10, &mut values));
    assert_eq!(values, [0, 1, 2, 3]);
    assert!(bus.write(0x10, &values));
    assert!(bus.read(0x15, &mut values));
    assert_eq!(values, [5, 6, 7, 8]);
    assert!(bus.write(0x15, &values));
}

#[test]
fn bus_range_contains_and_overlaps() {
    let r = BusRange(0x10, 0x10);
    assert!(r.contains(0x10));
    assert!(r.contains(0x1f));
    assert!(!r.contains(0x20));
    assert!(!r.contains(0x0f));
    assert!(r.overlaps(0x1f, 1));
    assert!(!r.overlaps(0x20, 5));
    assert!(!r.overlaps(0x0, 0x10));
    assert!(r == BusRange(0x10, 0x99));
}

#[test]
fn bus_get_device_offset() {
    let mut bus = Bus::new();
    let dummy = SharedDummy(Arc::new(Mutex::new(DummyDevice)));
    assert!(bus.insert(dummy.clone(), 0x100, 0x20).is_ok());
    assert_eq!(bus.get_device(0x105).map(|(o, _)| o), Some(5));
    assert!(bus.get_device(0x120).is_none());
}
