//! The configuration space of a PCI node.
use vstd::prelude::*;

verus! {

pub const NUM_CONFIGURATION_REGISTERS: usize = 16;

pub const BAR0_REG: usize = 4;

pub const NUM_BAR_REGS: usize = 6;

pub const BAR_MEM_ADDR_MASK: u32 = 0xffff_fff0;

/// Represents the types of PCI headers allowed in the configuration registers.
pub enum PciHeaderType {
    Device,
    Bridge,
}

/// Classes of PCI nodes.
pub enum PciClassCode {
    TooOld,
    MassStorage,
    NetworkController,
    DisplayController,
    MultimediaController,
    MemoryController,
    BridgeDevice,
    SimpleCommunicationController,
    BaseSystemPeripheral,
    InputDevice,
    DockingStation,
    Processor,
    SerialBusController,
    WirelessController,
    IntelligentIoController,
    EncryptionController,
    DataAcquisitionSignalProcessing,
    Other,
}

/// Register value of a class code in the PCI specification.
pub open spec fn class_code_value(c: PciClassCode) -> u8 {
    match c {
        PciClassCode::TooOld => 0x00,
        PciClassCode::MassStorage => 0x01,
        PciClassCode::NetworkController => 0x02,
        PciClassCode::DisplayController => 0x03,
        PciClassCode::MultimediaController => 0x04,
        PciClassCode::MemoryController => 0x05,
        PciClassCode::BridgeDevice => 0x06,
        PciClassCode::SimpleCommunicationController => 0x07,
        PciClassCode::BaseSystemPeripheral => 0x08,
        PciClassCode::InputDevice => 0x09,
        PciClassCode::DockingStation => 0x0a,
        PciClassCode::Processor => 0x0b,
        PciClassCode::SerialBusController => 0x0c,
        PciClassCode::WirelessController => 0x0d,
        PciClassCode::IntelligentIoController => 0x0e,
        PciClassCode::EncryptionController => 0x0f,
        PciClassCode::DataAcquisitionSignalProcessing => 0x10,
        PciClassCode::Other => 0xff,
    }
}

impl PciClassCode {
    pub fn get_register_value(self) -> (r: u8)
        ensures
            r == class_code_value(self),
    {
        match self {
            PciClassCode::TooOld => 0x00,
            PciClassCode::MassStorage => 0x01,
            PciClassCode::NetworkController => 0x02,
            PciClassCode::DisplayController => 0x03,
            PciClassCode::MultimediaController => 0x04,
            PciClassCode::MemoryController => 0x05,
            PciClassCode::BridgeDevice => 0x06,
            PciClassCode::SimpleCommunicationController => 0x07,
            PciClassCode::BaseSystemPeripheral => 0x08,
            PciClassCode::InputDevice => 0x09,
            PciClassCode::DockingStation => 0x0a,
            PciClassCode::Processor => 0x0b,
            PciClassCode::SerialBusController => 0x0c,
            PciClassCode::WirelessController => 0x0d,
            PciClassCode::IntelligentIoController => 0x0e,
            PciClassCode::EncryptionController => 0x0f,
            PciClassCode::DataAcquisitionSignalProcessing => 0x10,
            PciClassCode::Other => 0xff,
        }
    }
}

/// A PCI sublcass. Each class in `PciClassCode` can specify a unique set of subclasses. This trait
/// is implemented by each subclass.
pub trait PciSubclass {
    /// The value used in the PCI specification.
    spec fn spec_register_value(&self) -> u8;

    /// Convert this subclass to the value used in the PCI specification.
    fn get_register_value(&self) -> (r: u8)
        ensures
            r == self.spec_register_value(),
    ;
}

/// Subclasses of the MultimediaController class.
pub enum PciMultimediaSubclass {
    VideoController,
    AudioController,
    TelephonyDevice,
    AudioDevice,
    Other,
}

impl PciSubclass for PciMultimediaSubclass {
    open spec fn spec_register_value(&self) -> u8 {
        match self {
            PciMultimediaSubclass::VideoController => 0x00,
            PciMultimediaSubclass::AudioController => 0x01,
            PciMultimediaSubclass::TelephonyDevice => 0x02,
            PciMultimediaSubclass::AudioDevice => 0x03,
            PciMultimediaSubclass::Other => 0x80,
        }
    }

    fn get_register_value(&self) -> (r: u8) {
        match self {
            PciMultimediaSubclass::VideoController => 0x00,
            PciMultimediaSubclass::AudioController => 0x01,
            PciMultimediaSubclass::TelephonyDevice => 0x02,
            PciMultimediaSubclass::AudioDevice => 0x03,
            PciMultimediaSubclass::Other => 0x80,
        }
    }
}

/// Subclasses of the BridgeDevice
pub enum PciBridgeSubclass {
    HostBridge,
    IsaBridge,
    EisaBridge,
    McaBridge,
    PciToPciBridge,
    PcmciaBridge,
    NuBusBridge,
    CardBusBridge,
    RACEwayBridge,
    PciToPciSemiTransparentBridge,
    InfiniBrandToPciHostBridge,
    OtherBridgeDevice,
}

impl PciSubclass for PciBridgeSubclass {
    open spec fn spec_register_value(&self) -> u8 {
        match self {
            PciBridgeSubclass::HostBridge => 0x00,
            PciBridgeSubclass::IsaBridge => 0x01,
            PciBridgeSubclass::EisaBridge => 0x02,
            PciBridgeSubclass::McaBridge => 0x03,
            PciBridgeSubclass::PciToPciBridge => 0x04,
            PciBridgeSubclass::PcmciaBridge => 0x05,
            PciBridgeSubclass::NuBusBridge => 0x06,
            PciBridgeSubclass::CardBusBridge => 0x07,
            PciBridgeSubclass::RACEwayBridge => 0x08,
            PciBridgeSubclass::PciToPciSemiTransparentBridge => 0x09,
            PciBridgeSubclass::InfiniBrandToPciHostBridge => 0x0A,
            PciBridgeSubclass::OtherBridgeDevice => 0x80,
        }
    }

    fn get_register_value(&self) -> (r: u8) {
        match self {
            PciBridgeSubclass::HostBridge => 0x00,
            PciBridgeSubclass::IsaBridge => 0x01,
            PciBridgeSubclass::EisaBridge => 0x02,
            PciBridgeSubclass::McaBridge => 0x03,
            PciBridgeSubclass::PciToPciBridge => 0x04,
            PciBridgeSubclass::PcmciaBridge => 0x05,
            PciBridgeSubclass::NuBusBridge => 0x06,
            PciBridgeSubclass::CardBusBridge => 0x07,
            PciBridgeSubclass::RACEwayBridge => 0x08,
            PciBridgeSubclass::PciToPciSemiTransparentBridge => 0x09,
            PciBridgeSubclass::InfiniBrandToPciHostBridge => 0x0A,
            PciBridgeSubclass::OtherBridgeDevice => 0x80,
        }
    }
}

/// `v` has exactly one bit set.
pub open spec fn single_bit(v: u64) -> bool {
    exists|k: u64| k < 64 && v == 1u64 << k
}

/// Returns true when exactly one bit of `v` is set.
pub fn has_single_bit(v: u64) -> (r: bool)
    ensures
        r == single_bit(v),
{
    let mut k: u64 = 0;
    while k < 64
        invariant
            k <= 64,
            forall|j: u64| j < k ==> v != 1u64 << j,
        decreases 64 - k,
    {
        if v == 1u64 << k {
            return true;
        }
        k = k + 1;
    }
    false
}

/// Contains the configuration space of a PCI node.
/// See the [specification](https://en.wikipedia.org/wiki/PCI_configuration_space).
/// The configuration space is accessed by with DWORD reads and writes from the guest.
pub struct PciConfiguration {
    registers: [u32; 16],
    writable_bits: [u32; 16],  // writable bits for each register.
    num_bars: usize,
}

/// Register `r` after a write of `value`, shifted by `shift` bits, under
/// the lane mask `lane`: the lane takes the value, the other bits stay.
pub open spec fn lane_write(r: u32, lane: u32, shifted: u32) -> u32 {
    (r & !lane) | shifted
}

impl PciConfiguration {
    #[verifier::type_invariant]
    spec fn inv(self) -> bool {
        self.num_bars <= NUM_BAR_REGS
    }

    /// The sixteen configuration registers.
    pub closed spec fn regs(self) -> Seq<u32> {
        self.registers@
    }

    /// The bits of each register that a whole-register write may change.
    pub closed spec fn writable(self) -> Seq<u32> {
        self.writable_bits@
    }

    /// How many BARs are in use.
    pub closed spec fn bars(self) -> nat {
        self.num_bars as nat
    }

    /// A configuration space always has sixteen registers, each with its
    /// writable bits.
    pub proof fn lemma_sixteen_registers(self)
        ensures
            self.regs().len() == 16,
            self.writable().len() == 16,
    {
    }

    pub fn new<S: PciSubclass>(
        device_id: u16,
        vendor_id: u16,
        class_code: PciClassCode,
        subclass: &S,
        header_type: PciHeaderType,
    ) -> (r: Self)
        ensures
            r.regs().len() == 16,
            r.writable().len() == 16,
            r.regs()[0] == ((device_id as u32) << 16u32) | vendor_id as u32,
            r.regs()[2] == ((class_code_value(class_code) as u32) << 24u32) | (
            (subclass.spec_register_value() as u32) << 16u32),
            r.regs()[3] == match header_type {
                PciHeaderType::Device => 0u32,
                PciHeaderType::Bridge => 0x0001_0000u32,
            },
            forall|i: int|
                0 <= i < 16 && i != 0 && i != 2 && i != 3 ==> #[trigger] r.regs()[i] == 0,
            forall|i: int| 0 <= i < 16 ==> #[trigger] r.writable()[i] == 0xffff_ffffu32,
            r.bars() == 0,
    {
        let mut registers = [0u32;16];
        registers[0] = (device_id as u32) << 16u32 | vendor_id as u32;
        registers[2] = (class_code.get_register_value() as u32) << 24u32 | (
        subclass.get_register_value() as u32) << 16u32;
        match header_type {
            PciHeaderType::Device => (),
            PciHeaderType::Bridge => registers[3] = 0x0001_0000,
        };
        PciConfiguration { registers, writable_bits: [0xffff_ffffu32;16], num_bars: 0 }
    }

    /// Reads a 32bit register from `reg_idx` in the register map.
    pub fn read_reg(&self, reg_idx: usize) -> (r: u32)
        ensures
            r == if reg_idx < 16 {
                self.regs()[reg_idx as int]
            } else {
                0xffff_ffffu32
            },
    {
        if reg_idx < NUM_CONFIGURATION_REGISTERS {
            self.registers[reg_idx]
        } else {
            0xffff_ffff
        }
    }

    /// Writes a 32bit register to `reg_idx` in the register map.
    pub fn write_reg(&mut self, reg_idx: usize, value: u32)
        ensures
            final(self).writable() == old(self).writable(),
            final(self).bars() == old(self).bars(),
            final(self).regs() == if reg_idx < 16 {
                old(self).regs().update(reg_idx as int, value & old(self).writable()[reg_idx as int])
            } else {
                old(self).regs()
            },
    {
        proof {
            use_type_invariant(&*self);
        }
        if reg_idx < NUM_CONFIGURATION_REGISTERS {
            let mask = self.writable_bits[reg_idx];
            let mut regs = self.registers;
            regs[reg_idx] = value & mask;
            self.registers = regs;
        }
    }

    /// Writes a 16bit word to `offset`. `offset` must be 16bit aligned.
    pub fn write_word(&mut self, offset: usize, value: u16)
        ensures
            final(self).writable() == old(self).writable(),
            final(self).bars() == old(self).bars(),
            final(self).regs() == if offset / 4 < 16 && (offset % 4 == 0 || offset % 4 == 2) {
                let shift: u32 = if offset % 4 == 0 {
                    0
                } else {
                    16
                };
                old(self).regs().update(
                    (offset / 4) as int,
                    lane_write(
                        old(self).regs()[(offset / 4) as int],
                        0xffffu32 << shift,
                        (value as u32) << shift,
                    ),
                )
            } else {
                old(self).regs()
            },
    {
        proof {
            use_type_invariant(&*self);
        }
        let shift: u32 = match offset % 4 {
            0 => 0,
            2 => 16,
            _ => return ,
        };
        let mask = (0xffff as u32) << shift;
        let shifted_value = (value as u32) << shift;
        if offset / 4 < NUM_CONFIGURATION_REGISTERS {
            let mut regs = self.registers;
            regs[offset / 4] = regs[offset / 4] & !mask | shifted_value;
            self.registers = regs;
        }
    }

    /// Writes a byte to `offset`.
    pub fn write_byte(&mut self, offset: usize, value: u8)
        ensures
            final(self).writable() == old(self).writable(),
            final(self).bars() == old(self).bars(),
            final(self).regs() == if offset / 4 < 16 {
                let shift: u32 = ((offset % 4) * 8) as u32;
                old(self).regs().update(
                    (offset / 4) as int,
                    lane_write(
                        old(self).regs()[(offset / 4) as int],
                        0xffu32 << shift,
                        (value as u32) << shift,
                    ),
                )
            } else {
                old(self).regs()
            },
    {
        proof {
            use_type_invariant(&*self);
        }
        let shift = ((offset % 4) * 8) as u32;
        let mask = (0xff as u32) << shift;
        let shifted_value = (value as u32) << shift;
        if offset / 4 < NUM_CONFIGURATION_REGISTERS {
            let mut regs = self.registers;
            regs[offset / 4] = regs[offset / 4] & !mask | shifted_value;
            self.registers = regs;
        }
    }

    /// Adds a memory region of `size` at `addr`. Configures the next available BAR register to
    /// report this region and size to the guest kernel. Returns 'None' if all BARs are full, or
    /// `Some(BarIndex)` on success. `size` must be a power of 2.
    pub fn add_memory_region(&mut self, addr: u64, size: u64) -> (r: Option<usize>)
        ensures
            ({
                let ok = old(self).bars() < 6 && single_bit(size) && addr + size <= u32::MAX;
                let bar = 4 + old(self).bars();
                &&& ok ==> r == Some(bar as usize)
                &&& ok ==> final(self).bars() == old(self).bars() + 1
                &&& ok ==> final(self).regs() == old(self).regs().update(
                    bar as int,
                    (addr as u32) & BAR_MEM_ADDR_MASK,
                )
                &&& ok ==> final(self).writable() == old(self).writable().update(
                    bar as int,
                    (!((size - 1) as u64)) as u32,
                )
                &&& !ok ==> r is None && *final(self) == *old(self)
            }),
    {
        proof {
            use_type_invariant(&*self);
        }
        if self.num_bars >= NUM_BAR_REGS {
            return None;
        }
        if !has_single_bit(size) {
            return None;
        }
        proof {
            let k = choose|k: u64| k < 64 && size == 1u64 << k;
            assert(k < 64 ==> (1u64 << k) != 0) by (bit_vector);
        }
        // Only 32-bit addresses and sizes are handled.

        match addr.checked_add(size) {
            Some(a) => if a > u32::MAX as u64 {
                return None;
            },
            None => return None,
        }
        let bar_idx = BAR0_REG + self.num_bars;
        let mut regs = self.registers;
        regs[bar_idx] = addr as u32 & BAR_MEM_ADDR_MASK;
        self.registers = regs;
        // The first writable bit represents the size of the region.
        let mut wb = self.writable_bits;
        wb[bar_idx] = !(size - 1) as u32;
        self.writable_bits = wb;
        self.num_bars = self.num_bars + 1;
        Some(bar_idx)
    }
}

} // verus!
