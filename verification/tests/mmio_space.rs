use lib::mmio_space::{register_array, MMIOSpace, Register, RegisterCallback};

fn reg(offset: u64, size: u64, reset_value: u64, writeable: u64, w1c: u64) -> Register {
    Register::new(offset, size, reset_value, writeable, w1c)
}

#[test]
fn mmio_add_reg() {
    let mut mmio = MMIOSpace::new();
    mmio.add_reg(reg(0, 4, 0, 0, 0));
    assert_eq!(mmio.get_size(), 4);
    mmio.add_reg(reg(32, 8, 0, 0, 0));
    assert_eq!(mmio.get_size(), 40);
    mmio.add_reg(reg(4, 4, 0, 0, 0));
    assert_eq!(mmio.get_size(), 40);
}

#[test]
fn mmio_reg_read_write() {
    let mut mmio = MMIOSpace::new();
    let reg1 = mmio.add_reg(reg(0, 4, 0, 0, 0));
    let reg2 = mmio.add_reg(reg(32, 1, 0, 0, 0));
    assert_eq!(reg1.get_value(&mmio), 0);
    assert_eq!(reg2.get_value(&mmio), 0);
    // Only last 4 bytes will be set as reg1 size is 4.
    reg1.set_value_device(&mut mmio, 0xf0f0f0f0f0f0f0f0);
    assert_eq!(mmio.get_byte(0), 0xf0);
    assert_eq!(mmio.get_byte(1), 0xf0);
    assert_eq!(mmio.get_byte(2), 0xf0);
    assert_eq!(mmio.get_byte(3), 0xf0);
    assert_eq!(mmio.get_byte(4), 0x0);
    assert_eq!(reg1.get_value(&mmio), 0xf0f0f0f0);

    reg2.set_value_device(&mut mmio, 0xf0f0);
    assert_eq!(mmio.get_byte(32), 0xf0);
    assert_eq!(reg2.get_value(&mmio), 0xf0);
}

#[test]
fn mmio_reg_reset() {
    let mut mmio = MMIOSpace::new();
    let reg1 = mmio.add_reg(reg(3, 1, 0xf0, 0, 0));

    assert_eq!(reg1.get_value(&mmio), 0);
    reg1.reset(&mut mmio);
    assert_eq!(reg1.get_value(&mmio), 0xf0);
}

#[test]
fn mmio_reg_guest_mask() {
    let mut mmio = MMIOSpace::new();
    let reg1 = mmio.add_reg(reg(3, 1, 0xf0, 0, 0));
    let reg2 = mmio.add_reg(reg(4, 2, 0x0, 0b10, 0));
    assert_eq!(reg1.get_value(&mmio), 0);
    reg1.set_value_guest(&mut mmio, 0xffffff);
    assert_eq!(reg1.get_value(&mmio), 0x0);
    assert_eq!(reg2.get_value(&mmio), 0);
    reg2.set_value_device(&mut mmio, 0xff);
    assert_eq!(reg2.get_value(&mmio), 0xff);
    reg2.set_value_guest(&mut mmio, 0x0);
    assert_eq!(reg2.get_value(&mmio), 0xff & (!0b10));
    reg2.set_value_device(&mut mmio, 0b1);
    reg2.set_value_guest(&mut mmio, 0xffff);
    assert_eq!(reg2.get_value(&mmio), 0b11);
}

#[test]
fn mmio_reg_write_1_to_clear_mask() {
    let mut mmio = MMIOSpace::new();
    let reg1 = mmio.add_reg(reg(3, 1, 0xf0, 0b1, 0b1));
    let reg2 = mmio.add_reg(reg(4, 2, 0x0, 0b11, 0b01));
    reg1.set_value_device(&mut mmio, 0xff);
    reg1.set_value_guest(&mut mmio, 0xffff);
    assert_eq!(reg1.get_value(&mmio), 0xfe);
    reg2.set_value_device(&mut mmio, 0b1);
    reg2.set_value_guest(&mut mmio, 0xffff);
    assert_eq!(reg2.get_value(&mmio), 0b10);
}

#[test]
fn mmio_bar_rw() {
    let mut mmio = MMIOSpace::new();
    let reg1 = mmio.add_reg(reg(3, 1, 0xf0, 0, 0));
    let reg2 = mmio.add_reg(reg(4, 2, 0x0, 0b10, 0));
    let mut buffer: [u8; 4] = [0; 4];
    mmio.read_bar(0, &mut buffer);
    assert_eq!(buffer, [0, 0, 0, 0]);
    mmio.read_bar(4, &mut buffer);
    assert_eq!(buffer, [0, 0, 0, 0]);

    reg1.reset(&mut mmio);
    assert_eq!(reg1.get_value(&mmio), 0xf0);
    mmio.read_bar(0, &mut buffer);
    assert_eq!(buffer, [0, 0, 0, 0xf0]);
    // This write will have no effect cause of guset_writeable_mask.
    mmio.write_bar(0, &[0xff, 0xff, 0xff, 0xff]);
    assert_eq!(reg1.get_value(&mmio), 0xf0);
    mmio.read_bar(0, &mut buffer);
    assert_eq!(buffer, [0, 0, 0, 0xf0]);

    mmio.write_bar(4, &[0xff, 0xff, 0xff, 0xff]);
    mmio.read_bar(4, &mut buffer);
    assert_eq!(buffer, [0b10, 0, 0, 0]);
    reg2.set_value_device(&mut mmio, 0xf);
    mmio.write_bar(4, &[0, 0, 0, 0]);
    mmio.read_bar(4, &mut buffer);
    assert_eq!(buffer, [0b1101, 0, 0, 0]);
}

// The following test demonstrate how to use register call back to cause side
// effect: the callback keeps the device state that guest accesses change.
struct Device {
    mmio_space: MMIOSpace<RegCallback>,
    reg1: Register,
}

#[derive(Clone, Copy)]
struct RegCallback {
    state: u8,
}

impl RegisterCallback for RegCallback {
    fn after_write(self, val: u64) -> Self {
        RegCallback { state: self.state + val as u8 }
    }

    fn after_read(self) -> Self {
        RegCallback { state: self.state - 1 }
    }

    fn write_reg_callback(&mut self, val: u64) {
        *self = self.after_write(val);
    }

    fn read_reg_callback(&mut self) {
        *self = self.after_read();
    }
}

impl Device {
    pub fn new() -> Device {
        let reg1 = reg(4, 2, 0x0, 0xf, 0);
        let mut mmio = MMIOSpace::<RegCallback>::with_callbacks();
        mmio.add_reg(reg1);
        mmio.add_callback(reg1, RegCallback { state: 0 });
        Device { mmio_space: mmio, reg1: reg1 }
    }

    fn state(&self) -> u8 {
        self.mmio_space.get_register(self.reg1.offset).unwrap().cb.unwrap().state
    }
}

#[test]
fn mmio_reg_callback() {
    let mut d = Device::new();
    assert_eq!(d.state(), 0);
    // No side effect when device write the register.
    let reg1 = d.reg1;
    reg1.set_value_device(&mut d.mmio_space, 0xff);
    assert_eq!(d.state(), 0);
    // No side effect when write goes through the mask.
    reg1.set_value_guest(&mut d.mmio_space, 0x0);
    assert_eq!(d.state(), 0x0);
    // Side effect only happens when write_bar.
    d.mmio_space.write_bar(4, &[0, 0]);
    assert_eq!(d.state(), 0xf0);
    let mut read_buffer: [u8; 2] = [0; 2];
    d.mmio_space.read_bar(4, &mut read_buffer);
    assert_eq!(read_buffer, [0xf0, 0x00]);
    assert_eq!(d.state(), 0xf0 - 1);
}

// Each callback of the array adds its index times the written value to
// what it has heard; the device state is the sum over the array.
#[derive(Clone, Copy)]
struct RegArrayCB {
    idx: u32,
    heard: u32,
}

impl RegisterCallback for RegArrayCB {
    fn after_write(self, val: u64) -> Self {
        RegArrayCB { idx: self.idx, heard: self.heard + self.idx * (val as u32) }
    }

    fn after_read(self) -> Self {
        self
    }

    fn write_reg_callback(&mut self, val: u64) {
        *self = self.after_write(val);
    }

    fn read_reg_callback(&mut self) {}
}

fn array_state(mmio: &MMIOSpace<RegArrayCB>, regs: &Vec<Register>) -> u32 {
    let mut total = 0;
    for r in regs {
        total += mmio.get_register(r.offset).unwrap().cb.unwrap().heard;
    }
    total
}

#[test]
fn mmio_reg_array_callback() {
    let mut mmio = MMIOSpace::<RegArrayCB>::with_callbacks();
    let regs = register_array(8, 0, 8, 4, 0, 0b10, 0);
    mmio.add_reg_array(&regs);
    let mut v: Vec<(Register, RegArrayCB)> = Vec::new();
    for i in 0..regs.len() {
        v.push((regs[i], RegArrayCB { idx: i as u32, heard: 0 }));
    }
    mmio.add_callback_array(v);
    assert_eq!(mmio.get_size(), 0 + 8 * 7 + 4);
    assert_eq!(array_state(&mmio, &regs), 0);
    mmio.write_bar(8, &[0xff, 0xff, 0xff, 0xff]);
    assert_eq!(array_state(&mmio, &regs), 2);
    mmio.write_bar(32, &[0xff, 0xff, 0xff, 0xff]);
    assert_eq!(array_state(&mmio, &regs), 10);
}

#[test]
fn mmio_registers_listing_and_reset() {
    let mut mmio = MMIOSpace::new();
    mmio.add_reg(reg(8, 2, 0xabcd, 0, 0));
    mmio.add_reg(reg(0, 1, 0x12, 0, 0));
    let all = mmio.get_all_registers();
    assert_eq!(all.len(), 2);
    assert_eq!(all[0].offset, 8);
    assert_eq!(all[1].offset, 0);
    mmio.reset_all_registers();
    assert_eq!(mmio.get_byte(0), 0x12);
    assert_eq!(mmio.get_byte(8), 0xcd);
    assert_eq!(mmio.get_byte(9), 0xab);
    assert!(mmio.get_register(9).is_some());
    assert!(mmio.get_register(10).is_none());
    assert!(mmio.get_register(1).is_none());
    mmio.set_byte(100, 1);
    assert_eq!(mmio.get_byte(100), 0);
    let r = mmio.get_register(0).unwrap().reg;
    assert_eq!(r.get_bar_range().1, 1);
}

#[test]
fn mmio_write_spans_registers() {
    let mut mmio = MMIOSpace::new();
    let reg1 = mmio.add_reg(reg(3, 1, 0, 0xff, 0));
    let reg2 = mmio.add_reg(reg(4, 2, 0, 0xffff, 0));
    mmio.write_bar(3, &[0x11, 0x22, 0x33]);
    assert_eq!(reg1.get_value(&mmio), 0x11);
    assert_eq!(reg2.get_value(&mmio), 0x3322);
    let r = mmio.get_register(4).unwrap().reg;
    assert_eq!(r.get_bar_range().0, 4);
    assert_eq!(r.get_bar_range().1, 2);
}

#[test]
fn mmio_guest_value_by_bytes() {
    let mut mmio = MMIOSpace::new();
    let reg2 = mmio.add_reg(reg(4, 2, 0, 0xffff, 0));
    reg2.set_value_guest(&mut mmio, 0x1234);
    assert_eq!(reg2.get_value(&mmio), 0x1234);
}

#[test]
fn mmio_zero_size_register_holds_no_byte() {
    let mut mmio = MMIOSpace::<RegCallback>::with_callbacks();
    let r0 = reg(0, 4, 0, 0xffff_ffff, 0);
    let empty = reg(6, 0, 0, 0xff, 0);
    mmio.add_reg(r0);
    mmio.add_reg(empty);
    assert_eq!(mmio.get_size(), 6);
    mmio.add_callback(empty, RegCallback { state: 7 });
    assert!(mmio.get_register(6).is_none());
    mmio.write_bar(0, &[1, 2, 3, 4, 5, 6, 7, 8]);
    let mut buffer: [u8; 8] = [0; 8];
    mmio.read_bar(0, &mut buffer);
    assert_eq!(buffer, [1, 2, 3, 4, 0, 0, 0, 0]);
    assert_eq!(r0.get_value(&mmio), 0x04030201);
}
