//! The PCI root bridge and its configuration-address mechanism.
use crate::pci_configuration::{PciBridgeSubclass, PciClassCode, PciConfiguration, PciHeaderType};
use crate::pci_device::{config_register_write, config_write, le_u32, unpack4, PciDevice};
use vstd::prelude::*;

verus! {

/// The fields of a CONFIG_ADDRESS register value: (enabled, bus, device,
/// function, register).
pub open spec fn config_address_fields(a: u32) -> (bool, usize, usize, usize, usize) {
    (
        (a & 0x8000_0000) != 0,
        ((a >> 16u32) & 0x00ff) as usize,
        ((a >> 11u32) & 0x1f) as usize,
        ((a >> 8u32) & 0x07) as usize,
        ((a >> 2u32) & 0x3f) as usize,
    )
}

// Parse the CONFIG_ADDRESS register to a (enabled, bus, device, function, register) tuple.
pub fn parse_config_address(config_address: u32) -> (r: (bool, usize, usize, usize, usize))
    ensures
        r == config_address_fields(config_address),
        r.1 < 256 && r.2 < 32 && r.3 < 8 && r.4 < 64,
{
    let bus_number_offset: u32 = 16;
    let bus_number_mask: u32 = 0x00ff;
    let device_number_offset: u32 = 11;
    let device_number_mask: u32 = 0x1f;
    let function_number_offset: u32 = 8;
    let function_number_mask: u32 = 0x07;
    let register_number_offset: u32 = 2;
    let register_number_mask: u32 = 0x3f;

    let enabled = (config_address & 0x8000_0000) != 0;
    let bus_number = ((config_address >> bus_number_offset) & bus_number_mask) as usize;
    let device_number = ((config_address >> device_number_offset) & device_number_mask) as usize;
    let function_number = ((config_address >> function_number_offset) & function_number_mask) as usize;
    let register_number = ((config_address >> register_number_offset) & register_number_mask) as usize;
    assert(((config_address >> 16u32) & 0x00ff) < 256 && ((config_address >> 11u32) & 0x1f) < 32
        && ((config_address >> 8u32) & 0x07) < 8 && ((config_address >> 2u32) & 0x3f) < 64)
        by (bit_vector);
    (enabled, bus_number, device_number, function_number, register_number)
}

/// The CONFIG_ADDRESS register after a guest writes `data` at byte `offset`
/// of it: one byte, one word, or the whole register.
pub open spec fn config_address_write(a: u32, offset: u64, data: Seq<u8>) -> u32 {
    if offset + data.len() > 4 {
        a
    } else if data.len() == 1 {
        (a & !(0x0000_00ffu32 << ((offset * 8) as u32))) | ((data[0] as u32) << ((offset
            * 8) as u32))
    } else if data.len() == 2 {
        (a & !(0x0000_ffffu32 << ((offset * 16) as u32))) | ((((data[1] as u32) << 8u32) | data[0] as u32)
            << ((offset * 16) as u32))
    } else if data.len() == 4 {
        le_u32(data)
    } else {
        a
    }
}

/// Emulates the PCI Root bridge.
pub struct PciRoot<D> {
    /// Bus configuration for the root device.
    root_configuration: PciConfiguration,
    /// Current address to read/write from (0xcf8 register, litte endian).
    config_address: u32,
    /// Devices attached to this bridge's bus.
    devices: Vec<D>,
}

impl<D: PciDevice> PciRoot<D> {
    /// Configuration space of the bridge itself.
    pub closed spec fn root_config(self) -> PciConfiguration {
        self.root_configuration
    }

    /// Current CONFIG_ADDRESS value.
    pub closed spec fn address(self) -> u32 {
        self.config_address
    }

    /// Devices on the bus, device number `i + 1` at index `i`.
    pub closed spec fn devices(self) -> Seq<D> {
        self.devices@
    }

    /// The value a configuration read returns for the current address.
    pub open spec fn config_read_value(self) -> u32 {
        let (enabled, bus, device, function, register) = config_address_fields(self.address());
        if !enabled || bus != 0 {
            0xffff_ffff
        } else if device == 0 {
            if register < 16 {
                self.root_config().regs()[register as int]
            } else {
                0xffff_ffff
            }
        } else if device - 1 < self.devices().len() {
            if register < 16 {
                self.devices()[device - 1].spec_config().regs()[register as int]
            } else {
                0xffff_ffff
            }
        } else {
            0xffff_ffff
        }
    }

    /// Create an empty PCI root bus.
    pub fn new() -> (r: Self)
        ensures
            r.address() == 0,
            r.devices().len() == 0,
            r.root_config().regs()[2] == 0x0600_0000,
            r.root_config().regs()[3] == 0x0001_0000,
    {
        let root_configuration = PciConfiguration::new(
            0,
            0,
            PciClassCode::BridgeDevice,
            &PciBridgeSubclass::HostBridge,
            PciHeaderType::Bridge,
        );
        assert(((6u8 as u32) << 24u32) | ((0u8 as u32) << 16u32) == 0x0600_0000) by (bit_vector);
        PciRoot { root_configuration, config_address: 0, devices: Vec::new() }
    }

    /// Add a `PciDevice` to this root PCI bus.
    pub fn add_device(&mut self, device: D)
        ensures
            final(self).devices() == old(self).devices().push(device),
            final(self).address() == old(self).address(),
            final(self).root_config() == old(self).root_config(),
    {
        self.devices.push(device);
    }

    pub fn config_space_read(&self) -> (r: u32)
        ensures
            r == self.config_read_value(),
    {
        let (enabled, bus, device, _function, register) = parse_config_address(self.config_address);

        // Only support one bus.
        if !enabled || bus != 0 {
            return 0xffff_ffff;
        }
        if device == 0 {
            // If bus and device are both zero, then read from the root config.
            self.root_configuration.read_reg(register)
        } else if device - 1 < self.devices.len() {
            self.devices[device - 1].config_registers().read_reg(register)
        } else {
            0xffff_ffff
        }
    }

    pub fn config_space_write(&mut self, offset: u64, data: &[u8])
        requires
            offset + data@.len() <= usize::MAX,
        ensures
            ({
                let (enabled, bus, device, function, register) = config_address_fields(old(self).address());
                let applies = offset + data@.len() <= 4 && enabled && bus == 0;
                &&& final(self).address() == old(self).address()
                &&& final(self).devices().len() == old(self).devices().len()
                &&& final(self).root_config().regs() == if applies && device == 0 {
                    config_write(old(self).root_config(), register as int, offset as int, data@)
                } else {
                    old(self).root_config().regs()
                }
                &&& forall|i: int|
                    0 <= i < old(self).devices().len() ==> #[trigger] final(self).devices()[i].spec_config().regs()
                        == if applies && device == i + 1 {
                        config_write(old(self).devices()[i].spec_config(), register as int, offset as int, data@)
                    } else {
                        old(self).devices()[i].spec_config().regs()
                    }
            }),
    {
        if offset + data.len() as u64 > 4 {
            return ;
        }
        let (enabled, bus, device, _function, register) = parse_config_address(self.config_address);

        // Only support one bus.
        if !enabled || bus != 0 {
            return ;
        }
        if device == 0 {
            // If bus and device are both zero, then write to the root config.
            config_register_write(&mut self.root_configuration, register, offset, data);
        } else if device - 1 < self.devices.len() {
            // dev_num is 1-indexed here.
            let mut d = self.devices.remove(device - 1);
            d.config_register_write(register, offset, data);
            self.devices.insert(device - 1, d);
            proof {
                assert forall|i: int| 0 <= i < old(self).devices().len() implies #[trigger] self.devices()[i].spec_config().regs()
                    == if device == i + 1 {
                    config_write(old(self).devices()[i].spec_config(), register as int, offset as int, data@)
                } else {
                    old(self).devices()[i].spec_config().regs()
                } by {
                    if i < device - 1 {
                        assert(self.devices()[i] == old(self).devices()[i]);
                    } else if i > device - 1 {
                        assert(self.devices()[i] == old(self).devices()[i]);
                    }
                }
            }
        }
    }

    pub fn set_config_address(&mut self, offset: u64, data: &[u8])
        requires
            data@.len() == 2 ==> offset < 2,
            offset + data@.len() <= u64::MAX,
        ensures
            final(self).address() == config_address_write(old(self).address(), offset, data@),
            final(self).devices() == old(self).devices(),
            final(self).root_config() == old(self).root_config(),
    {
        if offset + data.len() as u64 > 4 {
            return ;
        }
        let (mask, value): (u32, u32) = match data.len() {
            1 => (0x0000_00ffu32 << (offset * 8) as u32, (data[0] as u32) << (offset * 8) as u32),
            2 => (
                0x0000_ffffu32 << (offset * 16) as u32,
                ((data[1] as u32) << 8u32 | data[0] as u32) << (offset * 16) as u32,
            ),
            4 => (0xffff_ffff, unpack4(data)),
            _ => return ,
        };
        let a = self.config_address;
        proof {
            if data@.len() == 4 {
                assert((a & !0xffff_ffffu32) | value == value) by (bit_vector);
            }
        }
        self.config_address = (a & !mask) | value;
    }

    /// A guest read of the two configuration-mechanism registers at 0xcf8:
    /// CONFIG_ADDRESS at offsets 0 to 3, CONFIG_DATA at 4 to 7.
    pub fn read(&self, offset: u64, data: &mut [u8])
        ensures
            ({
                let value: u32 = if offset <= 3 {
                    self.address()
                } else if offset <= 7 {
                    self.config_read_value()
                } else {
                    0xffff_ffff
                };
                let start = offset % 4;
                &&& final(data)@.len() == old(data)@.len()
                &&& forall|i: int|
                    0 <= i < old(data)@.len() ==> #[trigger] final(data)@[i] == if start + old(
                        data,
                    )@.len() <= 4 {
                        (value >> (((start + i) * 8) as u32)) as u8
                    } else {
                        0xffu8
                    }
            }),
    {
        // `offset` is relative to 0xcf8
        let value = if offset <= 3 {
            self.config_address
        } else if offset <= 7 {
            self.config_space_read()
        } else {
            0xffff_ffff
        };

        // Only allow reads to the register boundary.
        let start = (offset % 4) as usize;
        let len = data.len();
        if len <= 4 - start {
            let end = start + len;
            let mut i = start;
            while i < end
                invariant
                    start <= i <= end,
                    end == start + len,
                    end <= 4,
                    len == data@.len(),
                    start == offset % 4,
                    forall|j: int|
                        0 <= j < i - start ==> #[trigger] data@[j] == (value >> (((start + j) * 8) as u32)) as u8,
                decreases end - i,
            {
                data[i - start] = (value >> (i * 8) as u32) as u8;
                i = i + 1;
            }
        } else {
            let mut k: usize = 0;
            while k < len
                invariant
                    k <= len,
                    len == data@.len(),
                    forall|j: int| 0 <= j < k ==> #[trigger] data@[j] == 0xffu8,
                decreases len - k,
            {
                data[k] = 0xff;
                k = k + 1;
            }
        }
    }

    /// A guest write of the two configuration-mechanism registers at 0xcf8.
    pub fn write(&mut self, offset: u64, data: &[u8])
        requires
            offset <= 3 && data@.len() == 2 ==> offset < 2,
            offset + data@.len() <= u64::MAX,
            4 <= offset <= 7 ==> offset - 4 + data@.len() <= usize::MAX,
        ensures
            offset <= 3 ==> final(self).address() == config_address_write(old(self).address(), offset, data@),
            offset > 7 ==> final(self).address() == old(self).address() && final(self).devices() == old(
                self,
            ).devices() && final(self).root_config() == old(self).root_config(),
    {
        // `offset` is relative to 0xcf8
        if offset <= 3 {
            self.set_config_address(offset, data);
        } else if offset <= 7 {
            self.config_space_write(offset - 4, data);
        }
    }

    /// The offset in a BAR of the first device whose BARs hold `addr`, that
    /// device's index, and the BAR's index.
    pub fn child_dev(&self, addr: u64) -> (r: Option<(u64, usize, usize)>)
        ensures
            match r {
                Some((offset, i, bar)) => {
                    &&& i < self.devices().len()
                    &&& self.devices()[i as int].spec_bar_region(addr) == Some((offset, bar))
                    &&& forall|j: int| 0 <= j < i ==> (#[trigger] self.devices()[j]).spec_bar_region(addr) is None
                },
                None => forall|j: int| 0 <= j < self.devices().len() ==> (#[trigger] self.devices()[j]).spec_bar_region(addr) is None,
            },
    {
        let mut i: usize = 0;
        while i < self.devices.len()
            invariant
                i <= self.devices@.len(),
                forall|j: int| 0 <= j < i ==> (#[trigger] self.devices@[j]).spec_bar_region(addr) is None,
            decreases self.devices@.len() - i,
        {
            match self.devices[i].bar_region(addr) {
                Some((offset, bar)) => {
                    return Some((offset, i, bar));
                },
                None => {},
            }
            i = i + 1;
        }
        None
    }
}

} // verus!
