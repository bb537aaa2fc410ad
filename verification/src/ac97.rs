//! AC97 audio device: configuration space and bus-master registers.
use crate::pci_configuration::{
    PciClassCode, PciConfiguration, PciHeaderType, PciMultimediaSubclass, class_code_value,
};
use crate::pci_device::PciDevice;
use vstd::prelude::*;

verus! {

// Use 82801AA because it's what qemu does.
pub const PCI_DEVICE_ID_INTEL_82801AA_5: u16 = 0x2415;

/// Index of the mixer in the BARs of the device.
pub const AC97_MIXER_BAR: usize = 0;

/// Index of the bus master in the BARs of the device.
pub const AC97_BUS_MASTER_BAR: usize = 1;

// Audio driver controlled by the above registers.
#[derive(Clone, Copy)]
pub struct Ac97 {
    // Bus Master registers
    pub pi_bdbar: u32,
    pub pi_civ: u8,
    pub pi_lvi: u8,
    pub pi_sr: u16,
    pub pi_picb: u16,
    pub pi_piv: u8,
    pub pi_cr: u8,
    pub po_bdbar: u32,
    pub po_civ: u8,
    pub po_lvi: u8,
    pub po_sr: u16,
    pub po_picb: u16,
    pub po_piv: u8,
    pub po_cr: u8,
    pub mc_bdbar: u32,
    pub pm_civ: u8,
    pub mc_lvi: u8,
    pub mc_sr: u16,
    pub mc_picb: u16,
    pub mc_piv: u8,
    pub mc_cr: u8,
    pub glob_cnt: u32,
    pub glob_sta: u32,
    pub acc_sema: u8,
}

/// The register values after power-on: the status registers read 1.
pub open spec fn initial_ac97() -> Ac97 {
    Ac97 {
                pi_bdbar: 0,
                pi_civ: 0,
                pi_lvi: 0,
                pi_sr: 0x0001,
                pi_picb: 0,
                pi_piv: 0,
                pi_cr: 0,
                po_bdbar: 0,
                po_civ: 0,
                po_lvi: 0,
                po_sr: 0x0001,
                po_picb: 0,
                po_piv: 0,
                po_cr: 0,
                mc_bdbar: 0,
                pm_civ: 0,
                mc_lvi: 0,
                mc_sr: 0x0001,
                mc_picb: 0,
                mc_piv: 0,
                mc_cr: 0,
                glob_cnt: 0,
                glob_sta: 0,
                acc_sema: 0,
            }
}

impl Ac97 {
    pub fn new() -> (r: Self)
        ensures
            r == initial_ac97(),
    {
        Ac97 {
            pi_bdbar: 0,
            pi_civ: 0,
            pi_lvi: 0,
            pi_sr: 0x0001,
            pi_picb: 0,
            pi_piv: 0,
            pi_cr: 0,
            po_bdbar: 0,
            po_civ: 0,
            po_lvi: 0,
            po_sr: 0x0001,
            po_picb: 0,
            po_piv: 0,
            po_cr: 0,
            mc_bdbar: 0,
            pm_civ: 0,
            mc_lvi: 0,
            mc_sr: 0x0001,
            mc_picb: 0,
            mc_piv: 0,
            mc_cr: 0,
            glob_cnt: 0,
            glob_sta: 0,
            acc_sema: 0,
        }
    }
}

/// Byte `offset` of a 16-bit register, as a 32-bit value.
pub open spec fn word_read(offset: u64, val: u16) -> u32 {
    if offset <= 1 {
        (val >> ((8 * offset) as u32)) as u32
    } else {
        0
    }
}

/// The 32-bit register shifted right by `offset` bytes.
pub open spec fn dword_read(offset: u64, val: u32) -> u32 {
    if offset <= 3 {
        val >> ((8 * offset) as u32)
    } else {
        0
    }
}

pub fn read_word(offset: u64, val: u16) -> (r: u32)
    ensures
        r == word_read(offset, val),
{
    match offset {
        0 | 1 => (val >> (8 * offset) as u32) as u32,
        _ => 0,
    }
}

pub fn read_dword(offset: u64, val: u32) -> (r: u32)
    ensures
        r == dword_read(offset, val),
{
    match offset {
        0 | 1 | 2 | 3 => val >> ((8 * offset) as u32),
        _ => 0,
    }
}

/// A 16-bit register after a guest writes `data` at byte `offset`: a full
/// word at offset 0, or the high byte at offset 1.
pub open spec fn word_write(offset: u64, val: u16, data: Seq<u8>) -> u16 {
    if offset + data.len() > 2 {
        val
    } else if offset == 0 && data.len() == 2 {
        (data[0] as u16) | ((data[1] as u16) << 8u16)
    } else if offset == 1 && data.len() == 1 {
        (val & 0x00ff) | ((data[0] as u16) << 8u16)
    } else {
        val
    }
}

/// Byte `k` of a 32-bit register after a guest writes `data` at byte
/// `offset`: `data[k - offset]` where the data covers byte `k`, else the
/// register's own byte.
pub open spec fn written_byte(offset: u64, val: u32, data: Seq<u8>, k: u32) -> u32 {
    if offset <= k < offset + data.len() {
        data[k - offset] as u32
    } else {
        (val >> ((8 * k) as u32)) & 0xff
    }
}

/// A 32-bit register after a guest writes `data` at byte `offset`: byte
/// `offset + i` takes `data[i]`, the other bytes stay; a write that does
/// not fit in the register changes nothing.
pub open spec fn dword_write(offset: u64, val: u32, data: Seq<u8>) -> u32 {
    if offset + data.len() > 4 {
        val
    } else {
        written_byte(offset, val, data, 0) | (written_byte(offset, val, data, 1) << 8u32) | (written_byte(
            offset,
            val,
            data,
            2,
        ) << 16u32) | (written_byte(offset, val, data, 3) << 24u32)
    }
}

/// Replacing the byte at bit `sh` of `v` by `d` changes that byte only.
proof fn lemma_dword_set_byte(v: u32, d: u8, sh: u32, kh: u32)
    by (bit_vector)
    requires
        sh == 0 || sh == 8 || sh == 16 || sh == 24,
        kh == 0 || kh == 8 || kh == 16 || kh == 24,
    ensures
        ((((v & !(0xffu32 << sh)) | ((d as u32) << sh)) >> kh) & 0xff) == if kh == sh {
            d as u32
        } else {
            (v >> kh) & 0xff
        },
{
}

/// A 32-bit value is the sum of its four bytes.
proof fn lemma_dword_bytes(v: u32, b0: u32, b1: u32, b2: u32, b3: u32)
    by (bit_vector)
    requires
        b0 == (v >> 0u32) & 0xff,
        b1 == (v >> 8u32) & 0xff,
        b2 == (v >> 16u32) & 0xff,
        b3 == (v >> 24u32) & 0xff,
    ensures
        v == b0 | (b1 << 8u32) | (b2 << 16u32) | (b3 << 24u32),
{
}

pub fn write_word(offset: u64, val: &mut u16, data: &[u8])
    ensures
        *final(val) == word_write(offset, *old(val), data@),
{
    match offset.checked_add(data.len() as u64) {
        Some(n) => if n > 2 {
            return ;
        },
        None => return ,
    };
    match offset {
        0 => {
            if data.len() == 2 {
                *val = data[0] as u16 | ((data[1] as u16) << 8u16);
            }
        },
        1 => {
            if data.len() == 1 {
                *val = (*val & 0x00ff) | ((data[0] as u16) << 8u16);
            }
        },
        _ => (),
    }
}

pub fn write_dword(offset: u64, val: &mut u32, data: &[u8])
    ensures
        *final(val) == dword_write(offset, *old(val), data@),
{
    match offset.checked_add(data.len() as u64) {
        Some(n) => if n > 4 {
            return ;
        },
        None => return ,
    };
    let mut i: usize = 0;
    while i < data.len()
        invariant
            offset + data@.len() <= 4,
            i <= data@.len(),
            forall|k: u32| k < 4 ==> #[trigger] ((*val >> ((8 * k) as u32)) & 0xff) == if offset <= k < offset + i {
                data@[k - offset] as u32
            } else {
                (*old(val) >> ((8 * k) as u32)) & 0xff
            },
        decreases data@.len() - i,
    {
        let shift: u32 = 8 * (offset as u32 + i as u32);
        let d = data[i];
        let ghost v = *val;
        *val = (*val & !(0x0000_00ffu32 << shift)) | ((d as u32) << shift);
        proof {
            assert forall|k: u32| k < 4 implies #[trigger] ((*val >> ((8 * k) as u32)) & 0xff) == if offset <= k < offset
                + i + 1 {
                data@[k - offset] as u32
            } else {
                (*old(val) >> ((8 * k) as u32)) & 0xff
            } by {
                lemma_dword_set_byte(v, d, shift, (8 * k) as u32);
            }
        }
        i = i + 1;
    }
    proof {
        let w = *val;
        assert((w >> ((8 * 0u32) as u32)) & 0xff == written_byte(offset, *old(val), data@, 0));
        assert((w >> ((8 * 1u32) as u32)) & 0xff == written_byte(offset, *old(val), data@, 1));
        assert((w >> ((8 * 2u32) as u32)) & 0xff == written_byte(offset, *old(val), data@, 2));
        assert((w >> ((8 * 3u32) as u32)) & 0xff == written_byte(offset, *old(val), data@, 3));
        lemma_dword_bytes(
            w,
            written_byte(offset, *old(val), data@, 0),
            written_byte(offset, *old(val), data@, 1),
            written_byte(offset, *old(val), data@, 2),
            written_byte(offset, *old(val), data@, 3),
        );
    }
}

/// The value a bus-master register read at `offset` yields.
pub open spec fn bm_read(af: Ac97, offset: u64) -> u32 {
    if offset <= 0x03 {
        dword_read(offset, af.pi_bdbar)
    } else if offset == 0x04 {
        af.pi_civ as u32
    } else if offset == 0x05 {
        af.pi_lvi as u32
    } else if 0x06 <= offset <= 0x07 {
        word_read((offset - 0x06) as u64, af.pi_sr)
    } else if 0x08 <= offset <= 0x09 {
        word_read((offset - 0x08) as u64, af.pi_picb)
    } else if offset == 0x0a {
        af.pi_piv as u32
    } else if offset == 0x0b {
        af.pi_cr as u32
    } else if 0x10 <= offset <= 0x13 {
        dword_read((offset - 0x10) as u64, af.po_bdbar)
    } else if offset == 0x14 {
        af.po_civ as u32
    } else if offset == 0x15 {
        af.po_lvi as u32
    } else if 0x16 <= offset <= 0x17 {
        word_read((offset - 0x16) as u64, af.po_sr)
    } else if 0x18 <= offset <= 0x19 {
        word_read((offset - 0x18) as u64, af.po_picb)
    } else if offset == 0x1a {
        af.po_piv as u32
    } else if offset == 0x1b {
        af.po_cr as u32
    } else if 0x20 <= offset <= 0x23 {
        dword_read((offset - 0x20) as u64, af.mc_bdbar)
    } else if offset == 0x24 {
        af.pm_civ as u32
    } else if offset == 0x25 {
        af.mc_lvi as u32
    } else if 0x26 <= offset <= 0x27 {
        word_read((offset - 0x26) as u64, af.mc_sr)
    } else if 0x28 <= offset <= 0x29 {
        word_read((offset - 0x28) as u64, af.mc_picb)
    } else if offset == 0x2a {
        af.mc_piv as u32
    } else if offset == 0x2b {
        af.mc_cr as u32
    } else if 0x2c <= offset <= 0x2f {
        dword_read((offset - 0x2c) as u64, af.glob_cnt)
    } else if 0x30 <= offset <= 0x33 {
        dword_read((offset - 0x30) as u64, af.glob_sta)
    } else if offset == 0x34 {
        af.acc_sema as u32
    } else {
        0
    }
}

/// Offsets of the one-byte registers that a guest may write.
pub open spec fn bm_byte_register(offset: u64) -> bool {
    offset == 0x05 || offset == 0x0b || offset == 0x15 || offset == 0x1a || offset == 0x1b
        || offset == 0x25 || offset == 0x2b || offset == 0x34
}

/// The registers after a guest writes `data` at bus-master offset `offset`;
/// read-only registers ignore the write.
pub open spec fn bm_write(af: Ac97, offset: u64, data: Seq<u8>) -> Ac97 {
    if offset <= 0x03 {
        Ac97 { pi_bdbar: dword_write(offset, af.pi_bdbar, data), ..af }
    } else if offset == 0x05 {
        Ac97 { pi_lvi: data[0], ..af }
    } else if 0x06 <= offset <= 0x07 {
        Ac97 { pi_sr: word_write((offset - 0x06) as u64, af.pi_sr, data), ..af }
    } else if offset == 0x0b {
        Ac97 { pi_cr: data[0], ..af }
    } else if 0x10 <= offset <= 0x13 {
        Ac97 { po_bdbar: dword_write((offset - 0x10) as u64, af.po_bdbar, data), ..af }
    } else if offset == 0x15 {
        Ac97 { po_lvi: data[0], ..af }
    } else if 0x16 <= offset <= 0x17 {
        Ac97 { po_sr: word_write((offset - 0x16) as u64, af.po_sr, data), ..af }
    } else if offset == 0x1a {
        Ac97 { po_piv: data[0], ..af }
    } else if offset == 0x1b {
        Ac97 { po_cr: data[0], ..af }
    } else if 0x20 <= offset <= 0x23 {
        Ac97 { mc_bdbar: dword_write((offset - 0x20) as u64, af.mc_bdbar, data), ..af }
    } else if offset == 0x25 {
        Ac97 { mc_lvi: data[0], ..af }
    } else if 0x26 <= offset <= 0x27 {
        Ac97 { mc_sr: word_write((offset - 0x26) as u64, af.mc_sr, data), ..af }
    } else if offset == 0x2b {
        Ac97 { mc_cr: data[0], ..af }
    } else if 0x2c <= offset <= 0x2f {
        Ac97 { glob_cnt: dword_write((offset - 0x2c) as u64, af.glob_cnt, data), ..af }
    } else if offset == 0x34 {
        Ac97 { acc_sema: data[0], ..af }
    } else {
        af
    }
}

/// The bus-master offsets a guest write changes: the byte registers, the
/// buffer descriptor base addresses, the status registers and the global
/// control register.
pub open spec fn bm_writable(offset: u64) -> bool {
    ||| bm_byte_register(offset)
    ||| offset <= 0x03
    ||| 0x10 <= offset <= 0x13
    ||| 0x20 <= offset <= 0x23
    ||| 0x2c <= offset <= 0x2f
    ||| 0x06 <= offset <= 0x07
    ||| 0x16 <= offset <= 0x17
    ||| 0x26 <= offset <= 0x27
}

/// Four bytes as a little-endian 32-bit value.
pub open spec fn le_u32(d: Seq<u8>) -> u32 {
    (d[0] as u32) | ((d[1] as u32) << 8u32) | ((d[2] as u32) << 16u32) | ((d[3] as u32) << 24u32)
}

/// Two bytes as a little-endian 16-bit value, widened.
pub open spec fn le_u16(d: Seq<u8>) -> u32 {
    (d[0] as u32) | ((d[1] as u32) << 8u32)
}

/// A guest write of a byte register is read back: the register then reads
/// the byte written, and every other offset reads as before.
pub proof fn lemma_byte_register_write_then_read(af: Ac97, offset: u64, data: Seq<u8>)
    requires
        bm_byte_register(offset),
        data.len() > 0,
    ensures
        bm_read(bm_write(af, offset, data), offset) == data[0] as u32,
        forall|o: u64| o != offset ==> #[trigger] bm_read(bm_write(af, offset, data), o) == bm_read(af, o),
{
}

/// A write of four bytes at the start of a 32-bit register that a guest
/// may write (the buffer descriptor base addresses and the global control)
/// is read back as their little-endian value.
pub proof fn lemma_dword_register_write_then_read(af: Ac97, offset: u64, data: Seq<u8>)
    requires
        offset == 0x00 || offset == 0x10 || offset == 0x20 || offset == 0x2c,
        data.len() == 4,
    ensures
        bm_read(bm_write(af, offset, data), offset) == le_u32(data),
{
    let v = le_u32(data);
    assert(v >> 0u32 == v) by (bit_vector);
    assert(written_byte(0, 0, data, 0) == data[0] as u32);
}

/// Byte `j` of four bytes put together little-endian is byte `j`.
proof fn lemma_dword_byte_of(b0: u32, b1: u32, b2: u32, b3: u32)
    by (bit_vector)
    requires
        b0 <= 0xff,
        b1 <= 0xff,
        b2 <= 0xff,
        b3 <= 0xff,
    ensures
        (((b0 | (b1 << 8u32) | (b2 << 16u32) | (b3 << 24u32)) >> 0u32) & 0xff) == b0,
        (((b0 | (b1 << 8u32) | (b2 << 16u32) | (b3 << 24u32)) >> 8u32) & 0xff) == b1,
        (((b0 | (b1 << 8u32) | (b2 << 16u32) | (b3 << 24u32)) >> 16u32) & 0xff) == b2,
        (((b0 | (b1 << 8u32) | (b2 << 16u32) | (b3 << 24u32)) >> 24u32) & 0xff) == b3,
{
}

/// A 32-bit value shifted by nothing is itself.
proof fn lemma_shift_zero(v: u32)
    by (bit_vector)
    ensures
        v >> 0u32 == v,
{
}

/// A guest write of `data` at byte `i` of a 32-bit register that a guest
/// may write (the buffer descriptor base addresses and the global control)
/// leaves every other register as it was, and is read back: when the data fits in the register, byte `j` of the
/// register's value is `data[j - i]` where the data covers it and keeps
/// its old value elsewhere; data that does not fit changes nothing.
pub proof fn lemma_dword_register_partial_write(af: Ac97, base: u64, i: u64, data: Seq<u8>)
    requires
        base == 0x00 || base == 0x10 || base == 0x20 || base == 0x2c,
        i < 4,
    ensures
        i + data.len() <= 4 ==> forall|j: u32|
            j < 4 ==> #[trigger] ((bm_read(bm_write(af, (base + i) as u64, data), base) >> ((8 * j) as u32)) & 0xff)
                == if i <= j < i + data.len() {
                data[j - i] as u32
            } else {
                (bm_read(af, base) >> ((8 * j) as u32)) & 0xff
            },
        i + data.len() > 4 ==> bm_write(af, (base + i) as u64, data) == af,
        forall|o: u64|
            !(base <= o < base + 4) ==> #[trigger] bm_read(bm_write(af, (base + i) as u64, data), o) == bm_read(af, o),
{
    let v = if base == 0x00 {
        af.pi_bdbar
    } else if base == 0x10 {
        af.po_bdbar
    } else if base == 0x20 {
        af.mc_bdbar
    } else {
        af.glob_cnt
    };
    let nv = dword_write(i, v, data);
    let new = bm_write(af, (base + i) as u64, data);
    assert(bm_read(af, base) == v >> 0u32);
    lemma_shift_zero(v);
    if i + data.len() <= 4 {
        assert(bm_read(new, base) == nv >> 0u32);
        lemma_shift_zero(nv);
        let b0 = written_byte(i, v, data, 0);
        let b1 = written_byte(i, v, data, 1);
        let b2 = written_byte(i, v, data, 2);
        let b3 = written_byte(i, v, data, 3);
        assert(b0 <= 0xff && b1 <= 0xff && b2 <= 0xff && b3 <= 0xff) by {
            let x0 = v >> 0u32;
            let x1 = v >> 8u32;
            let x2 = v >> 16u32;
            let x3 = v >> 24u32;
            assert(x0 & 0xff <= 0xff && x1 & 0xff <= 0xff && x2 & 0xff <= 0xff && x3 & 0xff <= 0xff) by (bit_vector);
        }
        lemma_dword_byte_of(b0, b1, b2, b3);
        assert forall|j: u32| j < 4 implies #[trigger] ((bm_read(new, base) >> ((8 * j) as u32)) & 0xff) == if i <= j
            < i + data.len() {
            data[j - i] as u32
        } else {
            (bm_read(af, base) >> ((8 * j) as u32)) & 0xff
        } by {
            assert(j == 0 || j == 1 || j == 2 || j == 3);
        }
    }
}

/// A guest write at byte `i` of a status register leaves every other
/// register as it was, and is read back: two bytes
/// at its start give their little-endian value, one byte at its second
/// byte replaces the high byte, and any other write changes nothing.
pub proof fn lemma_word_register_write_then_read(af: Ac97, base: u64, i: u64, data: Seq<u8>)
    requires
        base == 0x06 || base == 0x16 || base == 0x26,
        i < 2,
    ensures
        bm_read(bm_write(af, (base + i) as u64, data), base) == if i == 0 && data.len() == 2 {
            le_u16(data)
        } else if i == 1 && data.len() == 1 {
            (bm_read(af, base) & 0xff) | ((data[0] as u32) << 8u32)
        } else {
            bm_read(af, base)
        },
        forall|o: u64|
            !(base <= o < base + 2) ==> #[trigger] bm_read(bm_write(af, (base + i) as u64, data), o) == bm_read(af, o),
{
    let v = if base == 0x06 {
        af.pi_sr
    } else if base == 0x16 {
        af.po_sr
    } else {
        af.mc_sr
    };
    assert(bm_read(af, base) == (v >> 0u16) as u32);
    if i == 0 && data.len() == 2 {
        let d0 = data[0];
        let d1 = data[1];
        let w: u16 = (d0 as u16) | ((d1 as u16) << 8u16);
        assert(((w >> 0u16) as u32) == (d0 as u32) | ((d1 as u32) << 8u32)) by (bit_vector)
            requires
                w == (d0 as u16) | ((d1 as u16) << 8u16),
        ;
    } else if i == 1 && data.len() == 1 {
        let d0 = data[0];
        let w: u16 = (v & 0x00ff) | ((d0 as u16) << 8u16);
        assert(((w >> 0u16) as u32) == (((v >> 0u16) as u32) & 0xff) | ((d0 as u32) << 8u32)) by (bit_vector)
            requires
                w == (v & 0x00ff) | ((d0 as u16) << 8u16),
        ;
    }
}

/// A guest write at an offset that holds no register a guest may write
/// changes nothing.
pub proof fn lemma_read_only_write(af: Ac97, offset: u64, data: Seq<u8>)
    requires
        !bm_writable(offset),
    ensures
        bm_write(af, offset, data) == af,
{
}

pub struct Ac97Mixer {}

impl Ac97Mixer {
    pub fn new() -> (r: Self) {
        Ac97Mixer {  }
    }

    /// Mixer registers read as nothing: the buffer is left as it is.
    pub fn read(&self, offset: u64, data: &mut [u8])
        ensures
            final(data)@ == old(data)@,
    {
    }

    /// Mixer registers ignore writes.
    pub fn write(&mut self, offset: u64, data: &[u8]) {
    }
}

pub struct Ac97BusMaster {
    pub audio_function: Ac97,
}

impl Ac97BusMaster {
    pub fn new(audio_function: Ac97) -> (r: Self)
        ensures
            r.audio_function == audio_function,
    {
        Ac97BusMaster { audio_function }
    }

    /// The value of the register at `offset`.
    pub fn read_value(&self, offset: u64) -> (r: u32)
        ensures
            r == bm_read(self.audio_function, offset),
    {
        let af = &self.audio_function;
        match offset {
            0x00..=0x03 => read_dword(offset, af.pi_bdbar),
            0x04 => af.pi_civ as u32,
            0x05 => af.pi_lvi as u32,
            0x06..=0x07 => read_word(offset - 0x06, af.pi_sr),
            0x08..=0x09 => read_word(offset - 0x08, af.pi_picb),
            0x0A => af.pi_piv as u32,
            0x0B => af.pi_cr as u32,
            0x10..=0x13 => read_dword(offset - 0x10, af.po_bdbar),
            0x14 => af.po_civ as u32,
            0x15 => af.po_lvi as u32,
            0x16..=0x17 => read_word(offset - 0x16, af.po_sr),
            0x18..=0x19 => read_word(offset - 0x18, af.po_picb),
            0x1a => af.po_piv as u32,
            0x1b => af.po_cr as u32,
            0x20..=0x23 => read_dword(offset - 0x20, af.mc_bdbar),
            0x24 => af.pm_civ as u32,
            0x25 => af.mc_lvi as u32,
            0x26..=0x27 => read_word(offset - 0x26, af.mc_sr),
            0x28..=0x29 => read_word(offset - 0x28, af.mc_picb),
            0x2a => af.mc_piv as u32,
            0x2b => af.mc_cr as u32,
            0x2c..=0x2f => read_dword(offset - 0x2c, af.glob_cnt),
            0x30..=0x33 => read_dword(offset - 0x30, af.glob_sta),
            0x34 => af.acc_sema as u32,
            _ => 0,
        }
    }

    /// A guest read of the registers: the value is computed, and the buffer
    /// is left as it is.
    pub fn read(&self, offset: u64, data: &mut [u8])
        ensures
            final(data)@ == old(data)@,
    {
        let _val = self.read_value(offset);
    }

    pub fn write(&mut self, offset: u64, data: &[u8])
        requires
            bm_byte_register(offset) ==> data@.len() > 0,
        ensures
            final(self).audio_function == bm_write(old(self).audio_function, offset, data@),
            bm_byte_register(offset) ==> bm_read(final(self).audio_function, offset) == data@[0] as u32,
            bm_byte_register(offset) ==> forall|o: u64|
                o != offset ==> #[trigger] bm_read(final(self).audio_function, o) == bm_read(
                    old(self).audio_function,
                    o,
                ),
            !bm_writable(offset) ==> final(self).audio_function == old(self).audio_function,
    {
        let ghost af0 = self.audio_function;
        let mut af = self.audio_function;
        match offset {
            0x00..=0x03 => write_dword(offset, &mut af.pi_bdbar, data),
            0x04 => (),  // RO
            0x05 => af.pi_lvi = data[0],
            0x06..=0x07 => write_word(offset - 0x06, &mut af.pi_sr, data),
            0x08..=0x09 => (),  // RO
            0x0a => (),  // RO
            0x0b => af.pi_cr = data[0],
            0x10..=0x13 => write_dword(offset - 0x10, &mut af.po_bdbar, data),
            0x14 => (),  // RO
            0x15 => af.po_lvi = data[0],
            0x16..=0x17 => write_word(offset - 0x16, &mut af.po_sr, data),
            0x18..=0x19 => (),  // RO
            0x1a => af.po_piv = data[0],
            0x1b => af.po_cr = data[0],
            0x20..=0x23 => write_dword(offset - 0x20, &mut af.mc_bdbar, data),
            0x24 => (),  // RO
            0x25 => af.mc_lvi = data[0],
            0x26..=0x27 => write_word(offset - 0x26, &mut af.mc_sr, data),
            0x28..=0x29 => (),  // RO
            0x2a => (),  // RO
            0x2b => af.mc_cr = data[0],
            0x2c..=0x2f => write_dword(offset - 0x2c, &mut af.glob_cnt, data),
            0x30..=0x33 => (),  // RO
            0x34 => af.acc_sema = data[0],
            _ => (),
        }
        self.audio_function = af;
        proof {
            if bm_byte_register(offset) {
                lemma_byte_register_write_then_read(af0, offset, data@);
            }
            if !bm_writable(offset) {
                lemma_read_only_write(af0, offset, data@);
            }
        }
    }
}

/// AC97 audio device emulation.
pub struct Ac97Dev {
    pub config_regs: PciConfiguration,
    pub mixer: Ac97Mixer,
    pub bus_master: Ac97BusMaster,
}

impl Ac97Dev {
    pub fn new() -> (r: Self)
        ensures
            r.bus_master.audio_function == initial_ac97(),
            r.spec_config().regs()[0] == ((0x8086u32) << 16u32) | PCI_DEVICE_ID_INTEL_82801AA_5 as u32,
            r.spec_config().regs()[2] == ((class_code_value(PciClassCode::MultimediaController) as u32) << 24u32) | (
            (0x03u32) << 16u32),
            r.spec_config().regs()[4] == 0x1000,
            r.spec_config().regs()[5] == 0x1400,
            r.spec_config().bars() == 2,
    {
        let mut config_regs = PciConfiguration::new(
            0x8086,
            PCI_DEVICE_ID_INTEL_82801AA_5,
            PciClassCode::MultimediaController,
            &PciMultimediaSubclass::AudioDevice,
            PciHeaderType::Device,
        );
        proof {
            assert(0x0100u64 == 1u64 << 8u64) by (bit_vector);
            assert(0x0400u64 == 1u64 << 10u64) by (bit_vector);
            assert((0x1000u64 as u32) & 0xffff_fff0u32 == 0x1000) by (bit_vector);
            assert((0x1400u64 as u32) & 0xffff_fff0u32 == 0x1400) by (bit_vector);
        }
        let r1 = config_regs.add_memory_region(0x1000, 0x0100);
        let r2 = config_regs.add_memory_region(0x1400, 0x0400);
        let audio_function = Ac97::new();
        Ac97Dev {
            config_regs,
            mixer: Ac97Mixer::new(),
            bus_master: Ac97BusMaster::new(audio_function),
        }
    }
}

impl PciDevice for Ac97Dev {
    open spec fn spec_config(&self) -> PciConfiguration {
        self.config_regs
    }

    /// The mixer BAR spans 0x1000 to 0x10ff and the bus master BAR 0x1400
    /// to 0x17ff; offsets count from 0x1000.
    open spec fn spec_bar_region(&self, addr: u64) -> Option<(u64, usize)> {
        if 0x1000 <= addr < 0x1100 {
            Some(((addr - 0x1000) as u64, AC97_MIXER_BAR))
        } else if 0x1400 <= addr < 0x1800 {
            Some(((addr - 0x1000) as u64, AC97_BUS_MASTER_BAR))
        } else {
            None
        }
    }

    fn bar_region(&self, addr: u64) -> (r: Option<(u64, usize)>) {
        if addr >= 0x1000 && addr < 0x1100 {
            Some((addr - 0x1000, AC97_MIXER_BAR))
        } else if addr >= 0x1400 && addr < 0x1800 {
            Some((addr - 0x1000, AC97_BUS_MASTER_BAR))
        } else {
            None
        }
    }

    fn config_registers(&self) -> (r: &PciConfiguration) {
        &self.config_regs
    }

    fn config_registers_mut(&mut self) -> (r: &mut PciConfiguration) {
        &mut self.config_regs
    }
}

} // verus!
