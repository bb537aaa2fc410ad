//! PCI devices as seen from their configuration space.
use crate::pci_configuration::{lane_write, PciConfiguration};
use vstd::prelude::*;

verus! {

/// Little-endian value of the first four bytes.
pub open spec fn le_u32(v: Seq<u8>) -> u32 {
    (v[0] as u32) | ((v[1] as u32) << 8u32) | ((v[2] as u32) << 16u32) | ((v[3] as u32) << 24u32)
}

pub fn unpack4(v: &[u8]) -> (r: u32)
    requires
        v@.len() >= 4,
    ensures
        r == le_u32(v@),
{
    (v[0] as u32) | ((v[1] as u32) << 8u32) | ((v[2] as u32) << 16u32) | ((v[3] as u32) << 24u32)
}

/// The configuration registers after a guest writes `data` at byte
/// `offset` of register `reg_idx`: one byte, one word or the whole register;
/// other lengths, and writes that would cross the register, change nothing.
pub open spec fn config_write(
    regs: PciConfiguration,
    reg_idx: int,
    offset: int,
    data: Seq<u8>,
) -> Seq<u32> {
    let byte_offset = reg_idx * 4 + offset;
    if offset + data.len() > 4 {
        regs.regs()
    } else if data.len() == 1 {
        if byte_offset / 4 < 16 {
            let shift: u32 = ((byte_offset % 4) * 8) as u32;
            regs.regs().update(
                byte_offset / 4,
                lane_write(regs.regs()[byte_offset / 4], 0xffu32 << shift, (data[0] as u32) << shift),
            )
        } else {
            regs.regs()
        }
    } else if data.len() == 2 {
        if byte_offset / 4 < 16 && (byte_offset % 4 == 0 || byte_offset % 4 == 2) {
            let shift: u32 = if byte_offset % 4 == 0 {
                0
            } else {
                16
            };
            regs.regs().update(
                byte_offset / 4,
                lane_write(
                    regs.regs()[byte_offset / 4],
                    0xffffu32 << shift,
                    (((data[0] as u16) | ((data[1] as u16) << 8u16)) as u32) << shift,
                ),
            )
        } else {
            regs.regs()
        }
    } else if data.len() == 4 {
        if reg_idx < 16 {
            regs.regs().update(reg_idx, le_u32(data) & regs.writable()[reg_idx])
        } else {
            regs.regs()
        }
    } else {
        regs.regs()
    }
}

/// Sets a register in the configuration space.
/// * `reg_idx` - The index of the config register to modify.
/// * `offset` - Offset in to the register.
pub fn config_register_write(regs: &mut PciConfiguration, reg_idx: usize, offset: u64, data: &[u8])
    requires
        reg_idx * 4 + offset + 4 <= usize::MAX,
        offset + data@.len() <= usize::MAX,
    ensures
        final(regs).regs() == config_write(*old(regs), reg_idx as int, offset as int, data@),
        final(regs).writable() == old(regs).writable(),
        final(regs).bars() == old(regs).bars(),
{
    if offset as usize + data.len() > 4 {
        return ;
    }
    match data.len() {
        1 => regs.write_byte(reg_idx * 4 + offset as usize, data[0]),
        2 => regs.write_word(reg_idx * 4 + offset as usize, (data[0] as u16) | (data[1] as u16) << 8u16),
        4 => regs.write_reg(reg_idx, unpack4(data)),
        _ => (),
    }
}

pub trait PciDevice {
    /// The configuration space of the device.
    spec fn spec_config(&self) -> PciConfiguration;

    /// The offset of `addr` in the BAR region that holds it and that
    /// region's index, if one does.
    spec fn spec_bar_region(&self, addr: u64) -> Option<(u64, usize)>;

    /// Returns the offset of `addr` in to a BAR region and the index of the
    /// BAR region that contains `addr`.
    fn bar_region(&self, addr: u64) -> (r: Option<(u64, usize)>)
        ensures
            r == self.spec_bar_region(addr),
    ;

    /// Gets the configuration registers of the Pci Device.
    fn config_registers(&self) -> (r: &PciConfiguration)
        ensures
            *r == self.spec_config(),
    ;

    /// Gets the configuration registers of the Pci Device for modification.
    fn config_registers_mut(&mut self) -> (r: &mut PciConfiguration)
        ensures
            *r == old(self).spec_config(),
            final(self).spec_config() == *final(r),
    ;

    /// Sets a register in the configuration space.
    /// * `reg_idx` - The index of the config register to modify.
    /// * `offset` - Offset in to the register.
    fn config_register_write(&mut self, reg_idx: usize, offset: u64, data: &[u8])
        requires
            reg_idx * 4 + offset + 4 <= usize::MAX,
            offset + data@.len() <= usize::MAX,
        ensures
            final(self).spec_config().regs() == config_write(
                old(self).spec_config(),
                reg_idx as int,
                offset as int,
                data@,
            ),
    {
        let regs = self.config_registers_mut();
        config_register_write(regs, reg_idx, offset, data);
    }

    /// Gets a register from the configuration space.
    /// * `reg_idx` - The index of the config register to read.
    fn config_register_read(&self, reg_idx: usize) -> (r: u32)
        ensures
            r == if reg_idx < 16 {
                self.spec_config().regs()[reg_idx as int]
            } else {
                0xffff_ffffu32
            },
    {
        self.config_registers().read_reg(reg_idx)
    }
}

} // verus!
