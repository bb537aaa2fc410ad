use lib::mmio_register::{
    BarRange, Register, RegisterInterface, RegisterSpec, RegisterValue, RegisterWriteCallback,
    StaticRegister, StaticRegisterSpec,
};

fn reg_u8(offset: u64, reset_value: u8, writeable: u8, w1c: u8) -> Register<u8> {
    Register::<u8>::new(
        RegisterSpec::<u8> {
            name: String::from(""),
            offset,
            reset_value,
            guest_writeable_mask: writeable,
            guest_write_1_to_clear_mask: w1c,
        },
        reset_value,
    )
}

#[test]
fn static_register_basic_test_u8() {
    let r = StaticRegister::<u8>::new(StaticRegisterSpec::<u8> { offset: 3, value: 32 });
    let mut data: [u8; 4] = [0, 0, 0, 0];
    assert_eq!(r.bar_range().from, 3);
    assert_eq!(r.bar_range().to, 3);
    r.read_bar(0, &mut data);
    assert_eq!(data, [0, 0, 0, 32]);
    r.read_bar(2, &mut data);
    assert_eq!(data, [0, 32, 0, 32]);
}

#[test]
fn static_register_basic_test_u16() {
    let r = StaticRegister::<u16>::new(StaticRegisterSpec::<u16> { offset: 3, value: 32 });
    let mut data: [u8; 4] = [0, 0, 0, 0];
    assert_eq!(r.bar_range().from, 3);
    assert_eq!(r.bar_range().to, 4);
    r.read_bar(0, &mut data);
    assert_eq!(data, [0, 0, 0, 32]);
    r.read_bar(2, &mut data);
    assert_eq!(data, [0, 32, 0, 32]);
}

#[test]
fn static_register_interface_test() {
    let r: Box<dyn RegisterInterface> =
        Box::new(StaticRegister::<u8>::new(StaticRegisterSpec::<u8> { offset: 3, value: 32 }));
    let mut data: [u8; 4] = [0, 0, 0, 0];
    assert_eq!(r.bar_range().from, 3);
    assert_eq!(r.bar_range().to, 3);
    r.read_bar(0, &mut data);
    assert_eq!(data, [0, 0, 0, 32]);
    r.read_bar(2, &mut data);
    assert_eq!(data, [0, 32, 0, 32]);
}

#[test]
fn register_basic_rw_test() {
    let mut r = reg_u8(3, 0xf1, 0xff, 0x0);
    let mut data: [u8; 4] = [0, 0, 0, 0];
    assert_eq!(r.bar_range().from, 3);
    assert_eq!(r.bar_range().to, 3);
    r.read_bar(0, &mut data);
    assert_eq!(data, [0, 0, 0, 0xf1]);
    r.read_bar(2, &mut data);
    assert_eq!(data, [0, 0xf1, 0, 0xf1]);
    data = [0, 0, 0, 0xab];
    r.write_bar(0, &data);
    assert_eq!(r.get_value(), 0xab);
    r.reset();
    assert_eq!(r.get_value(), 0xf1);
    r.set_value(0xcc);
    assert_eq!(r.get_value(), 0xcc);
}

#[test]
fn register_basic_writeable_mask_test() {
    let mut r = reg_u8(3, 0x0, 0xf, 0x0);
    let mut data: [u8; 4] = [0, 0, 0, 0];
    assert_eq!(r.bar_range().from, 3);
    assert_eq!(r.bar_range().to, 3);
    r.read_bar(0, &mut data);
    assert_eq!(data, [0, 0, 0, 0]);
    data = [0, 0, 0, 0xab];
    r.write_bar(0, &data);
    assert_eq!(r.get_value(), 0x0b);
    r.reset();
    assert_eq!(r.get_value(), 0x0);
    r.set_value(0xcc);
    assert_eq!(r.get_value(), 0xcc);
}

#[test]
fn register_basic_write_1_to_clear_mask_test() {
    let mut r = reg_u8(3, 0xf1, 0xff, 0xf0);
    let mut data: [u8; 4] = [0, 0, 0, 0];
    assert_eq!(r.bar_range().from, 3);
    assert_eq!(r.bar_range().to, 3);
    r.read_bar(0, &mut data);
    assert_eq!(data, [0, 0, 0, 0xf1]);
    data = [0, 0, 0, 0xfa];
    r.write_bar(0, &data);
    assert_eq!(r.get_value(), 0x0a);
    r.reset();
    assert_eq!(r.get_value(), 0xf1);
    r.set_value(0xcc);
    assert_eq!(r.get_value(), 0xcc);
}

#[test]
fn register_basic_write_1_to_clear_mask_test_u32() {
    let mut r = Register::<u32>::new(
        RegisterSpec::<u32> {
            name: String::from(""),
            offset: 0,
            reset_value: 0xfff1,
            guest_writeable_mask: 0xff,
            guest_write_1_to_clear_mask: 0xf0,
        },
        0xfff1,
    );
    let mut data: [u8; 4] = [0, 0, 0, 0];
    assert_eq!(r.bar_range().from, 0);
    assert_eq!(r.bar_range().to, 3);
    r.read_bar(0, &mut data);
    assert_eq!(data, [0xf1, 0xff, 0, 0]);
    data = [0xfa, 0, 0, 0];
    r.write_bar(0, &data);
    assert_eq!(r.get_value(), 0xff0a);
    r.reset();
    assert_eq!(r.get_value(), 0xfff1);
    r.set_value(0xcc);
    assert_eq!(r.get_value(), 0xcc);
}

// Records the value of each call and how many calls it had.
#[derive(Clone, Copy)]
struct RecordingCallback {
    last: u8,
    calls: u32,
}

impl RegisterWriteCallback<u8> for RecordingCallback {
    fn spec_call(&self, val: u8) -> u8 {
        val
    }
    fn after_call(self, val: u8) -> Self {
        RecordingCallback { last: val, calls: self.calls + 1 }
    }
    fn call(&mut self, val: u8) -> u8 {
        *self = self.after_call(val);
        self.spec_call(val)
    }
}

#[test]
fn register_callback_test() {
    let r = reg_u8(3, 0xf1, 0xff, 0xf0);
    let mut r = r.set_write_cb(RecordingCallback { last: 0, calls: 0 });
    let data: [u8; 4] = [0, 0, 0, 0xff];
    r.write_bar(0, &data);
    assert_eq!(r.get_write_cb().unwrap().last, 0xf);
    assert_eq!(r.get_write_cb().unwrap().calls, 1);
    assert_eq!(r.get_value(), 0xf);
    r.set_value(0xab);
    assert_eq!(r.get_write_cb().unwrap().last, 0xf);
    let data: [u8; 1] = [0xfc];
    r.write_bar(3, &data);
    assert_eq!(r.get_write_cb().unwrap().last, 0xc);
    assert_eq!(r.get_write_cb().unwrap().calls, 2);
}

#[test]
fn bar_range_overlap() {
    let a = BarRange { from: 4, to: 7 };
    let b = BarRange { from: 5, to: 8 };
    assert!(a.overlap_with(&b));
    let o = a.overlap_range(&b).unwrap();
    assert_eq!((o.from, o.to), (5, 7));
    let c = BarRange { from: 8, to: 9 };
    assert!(!a.overlap_with(&c));
    assert!(a.overlap_range(&c).is_none());
    assert!(a == BarRange { from: 4, to: 100 });
}

#[test]
fn register_value_bytes_and_bits() {
    let mut v: u32 = 0x1234_5678;
    assert_eq!(v.get_byte(0), 0x78);
    assert_eq!(v.get_byte(3), 0x12);
    v.set_bits(0x8000_0000);
    assert_eq!(v, 0x9234_5678);
    v.clear_bits(0x0000_00ff);
    assert_eq!(v, 0x9234_5600);
    assert_eq!(u16::from_u64(0x1_2345), 0x2345);
    assert_eq!(<u8 as RegisterValue>::size(), 1);
}

#[test]
fn register_set_and_clear_bits() {
    let mut r = reg_u8(0, 0x0, 0xff, 0x0);
    r.set_bits(0x81);
    assert_eq!(r.get_value(), 0x81);
    r.clear_bits(0x01);
    assert_eq!(r.get_value(), 0x80);
    assert_eq!(r.apply_write_masks_to_byte(0xf1, 0xfa, 0), 0xfa);
}
