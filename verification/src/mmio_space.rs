//! A byte-addressed MMIO space holding a set of non-overlapping registers.
use crate::bits::{byte_of, get_byte_u64, lemma_bytes_of_zero, lemma_or_byte, masked_byte};
use vstd::prelude::*;

verus! {

type BarOffset = u64;

// This represents a range of memory in the MMIO space starting from Bar.
// BarRange.0 is start offset, BarRange.1 is len.
#[derive(Debug, Copy, Clone)]
pub struct BarRange(pub BarOffset, pub BarOffset);

impl PartialEq for BarRange {
    fn eq(&self, other: &BarRange) -> (r: bool) {
        self.0 == other.0
    }
}

impl vstd::std_specs::cmp::PartialEqSpecImpl for BarRange {
    open spec fn obeys_eq_spec() -> bool {
        true
    }

    open spec fn eq_spec(&self, other: &BarRange) -> bool {
        self.0 == other.0
    }
}

impl Eq for BarRange {

}

/// How a device hears of guest accesses to one of its registers: of each
/// guest write, with the register's value afterwards, and of each guest
/// read. What it makes of them is its own state.
pub trait RegisterCallback: Sized {
    /// The callback after it heard of a guest write that left `val` in its
    /// register.
    spec fn after_write(self, val: u64) -> Self;

    /// The callback after it heard of a guest read of its register.
    spec fn after_read(self) -> Self;

    fn write_reg_callback(&mut self, val: u64)
        ensures
            *final(self) == old(self).after_write(val),
    ;

    fn read_reg_callback(&mut self)
        ensures
            *final(self) == old(self).after_read(),
    ;
}

/// The callback type of a space whose registers have no callbacks.
pub struct NoRegisterCallback;

impl RegisterCallback for NoRegisterCallback {
    open spec fn after_write(self, val: u64) -> Self {
        self
    }

    open spec fn after_read(self) -> Self {
        self
    }

    fn write_reg_callback(&mut self, val: u64) {
    }

    fn read_reg_callback(&mut self) {
    }
}

// Register is the spec of a register in mmio space.
#[derive(Clone, Copy)]
pub struct Register {
    pub offset: BarOffset,
    pub size: BarOffset,
    pub reset_value: u64,
    // Only masked bits could be written by guest.
    pub guest_writeable_mask: u64,
    // When write 1 to bits masked, those bits will be cleared. See Xhci spec 5.1
    // for more details.
    pub guest_write_1_to_clear_mask: u64,
}

/// The size of a space of `len` bytes after each of `regs` is added in
/// turn: it grows to hold each register.
pub open spec fn grown_size(len: nat, regs: Seq<Register>) -> nat
    decreases regs.len(),
{
    if regs.len() == 0 {
        len
    } else {
        let m = grown_size(len, regs.drop_last());
        let e = regs.last().offset + regs.last().size;
        if e > m {
            e as nat
        } else {
            m
        }
    }
}

/// A guest access of `len` bytes at `addr` touches register `r`: it reads
/// or writes one of the register's bytes.
pub open spec fn reg_touched(r: Register, addr: int, len: int) -> bool {
    0 < len && 0 < r.size && r.offset < addr + len && addr < r.offset + r.size
}

/// `v` is the value of register `reg` in the space's bytes `bytes`: byte
/// `k` of the value is the byte at `reg.offset + k`.
pub open spec fn holds_value(bytes: Seq<u8>, reg: Register, v: u64) -> bool {
    forall|k: nat| k < 8 ==> #[trigger] byte_of(v, k) == if k < reg.size {
        space_byte(bytes, reg.offset + k)
    } else {
        0
    }
}

/// The callback of an entry after a guest write of `len` bytes at `addr`
/// that leaves the space's bytes `bytes`: the callback of a register the
/// write touches heard of it once, with the register's new value.
pub open spec fn write_heard<C: RegisterCallback>(
    before: RegAndCallback<C>,
    after: RegAndCallback<C>,
    bytes: Seq<u8>,
    addr: int,
    len: int,
) -> bool {
    &&& after.reg == before.reg
    &&& if reg_touched(before.reg, addr, len) {
        match before.cb {
            Some(c) => exists|v: u64|
                #![trigger c.after_write(v)]
                holds_value(bytes, before.reg, v) && after.cb == Some(c.after_write(v)),
            None => after.cb is None,
        }
    } else {
        after.cb == before.cb
    }
}

/// The callback of an entry after a guest read of `len` bytes at `addr`:
/// the callback of a register the read touches heard of it once.
pub open spec fn read_heard<C: RegisterCallback>(before: RegAndCallback<C>, after: RegAndCallback<C>, addr: int, len: int) -> bool {
    &&& after.reg == before.reg
    &&& after.cb == if reg_touched(before.reg, addr, len) {
        match before.cb {
            Some(c) => Some(c.after_read()),
            None => None,
        }
    } else {
        before.cb
    }
}

/// `addr` falls in the register.
pub open spec fn reg_contains(r: Register, addr: int) -> bool {
    r.offset <= addr < r.offset + r.size
}

/// The registers start at different offsets and occupy no common byte.
pub open spec fn regs_disjoint(a: Register, b: Register) -> bool {
    &&& a.offset != b.offset
    &&& a.offset + a.size <= b.offset || b.offset + b.size <= a.offset
}

/// Byte `addr` of the space: bytes past its end read as zero.
pub open spec fn space_byte(bytes: Seq<u8>, addr: int) -> u8 {
    if 0 <= addr < bytes.len() {
        bytes[addr]
    } else {
        0
    }
}

/// One guest write of `chunk` at `addr` through the masks of `reg`.
pub open spec fn guest_chunk(bytes: Seq<u8>, reg: Register, addr: int, chunk: Seq<u8>) -> Seq<u8> {
    Seq::new(
        bytes.len(),
        |p: int|
            if addr <= p < addr + chunk.len() {
                masked_byte(
                    bytes[p],
                    chunk[p - addr],
                    byte_of(reg.guest_writeable_mask, (p - reg.offset) as nat),
                    byte_of(reg.guest_write_1_to_clear_mask, (p - reg.offset) as nat),
                )
            } else {
                bytes[p]
            },
    )
}

impl Register {
    /// A register at `offset` of `size` bytes.
    pub fn new(
        offset: BarOffset,
        size: BarOffset,
        reset_value: u64,
        guest_writeable_mask: u64,
        guest_write_1_to_clear_mask: u64,
    ) -> (r: Register)
        ensures
            r == (Register {
                offset,
                size,
                reset_value,
                guest_writeable_mask,
                guest_write_1_to_clear_mask,
            }),
    {
        Register { offset, size, reset_value, guest_writeable_mask, guest_write_1_to_clear_mask }
    }

    /// Registers are at most eight bytes wide and their end fits in memory.
    pub open spec fn wf(self) -> bool {
        &&& self.size <= 8
        &&& self.offset + self.size <= usize::MAX
    }

    /// The register's start offset and length.
    pub fn get_bar_range(&self) -> (r: BarRange)
        ensures
            r.0 == self.offset,
            r.1 == self.size,
    {
        BarRange(self.offset, self.size)
    }

    pub fn set_byte_as_guest<C: RegisterCallback>(
        &self,
        mmio_space: &mut MMIOSpace<C>,
        offset: BarOffset,
        val: u8,
    )
        requires
            self.wf(),
            reg_contains(*self, offset as int),
        ensures
            final(mmio_space).entries() == old(mmio_space).entries(),
            final(mmio_space).bytes() == guest_chunk(
                old(mmio_space).bytes(),
                *self,
                offset as int,
                seq![val],
            ),
    {
        let byte_offset = (offset - self.offset) as usize;
        let current_val = mmio_space.get_byte(offset);
        // Mask with w1c mask.
        let w1c_mask = get_byte_u64(self.guest_write_1_to_clear_mask, byte_offset);
        let masked = (!w1c_mask & val) | (w1c_mask & current_val & !val);
        // Mask with writable mask.
        let w_mask = get_byte_u64(self.guest_writeable_mask, byte_offset);
        let new_val = (current_val & (!w_mask)) | (masked & w_mask);
        mmio_space.set_byte(offset, new_val);
        assert(final(mmio_space).bytes() =~= guest_chunk(
            old(mmio_space).bytes(),
            *self,
            offset as int,
            seq![val],
        ));
    }

    pub fn reset<C: RegisterCallback>(&self, mmio_space: &mut MMIOSpace<C>)
        requires
            self.wf(),
        ensures
            final(mmio_space).entries() == old(mmio_space).entries(),
            final(mmio_space).bytes() == device_write(
                old(mmio_space).bytes(),
                *self,
                self.reset_value,
            ),
    {
        self.set_value_device(mmio_space, self.reset_value);
    }

    pub fn get_value<C: RegisterCallback>(&self, mmio_space: &MMIOSpace<C>) -> (r: u64)
        requires
            self.wf(),
        ensures
            forall|k: nat|
                k < 8 ==> #[trigger] byte_of(r, k) == if k < self.size {
                    space_byte(mmio_space.bytes(), self.offset + k)
                } else {
                    0
                },
    {
        let mut val: u64 = 0;
        let mut byte_idx: u64 = 0;
        proof {
            lemma_bytes_of_zero();
        }
        while byte_idx < self.size
            invariant
                self.wf(),
                byte_idx <= self.size,
                forall|k: nat|
                    k < 8 ==> #[trigger] byte_of(val, k) == if k < byte_idx {
                        space_byte(mmio_space.bytes(), self.offset + k)
                    } else {
                        0
                    },
            decreases self.size - byte_idx,
        {
            let b = mmio_space.get_byte(self.offset + byte_idx);
            proof {
                lemma_or_byte(val, byte_idx, b);
                assert(byte_idx * 8 == (8 * byte_idx) as u64);
            }
            val = val | ((b as u64) << (byte_idx * 8));
            assert forall|k: nat| k < 8 implies #[trigger] byte_of(val, k) == if k < byte_idx + 1 {
                space_byte(mmio_space.bytes(), self.offset + k)
            } else {
                0
            } by {
                if k == byte_idx {
                } else {
                }
            }
            byte_idx = byte_idx + 1;
        }
        val
    }

    pub fn set_value_device<C: RegisterCallback>(&self, mmio_space: &mut MMIOSpace<C>, val: u64)
        requires
            self.wf(),
        ensures
            final(mmio_space).entries() == old(mmio_space).entries(),
            final(mmio_space).bytes() == device_write(old(mmio_space).bytes(), *self, val),
    {
        let mut byte_idx: u64 = 0;
        while byte_idx < self.size
            invariant
                self.wf(),
                byte_idx <= self.size,
                mmio_space.entries() == old(mmio_space).entries(),
                mmio_space.bytes().len() == old(mmio_space).bytes().len(),
                forall|p: int|
                    0 <= p < mmio_space.bytes().len() ==> #[trigger] mmio_space.bytes()[p] == if self.offset
                        <= p < self.offset + byte_idx {
                        byte_of(val, (p - self.offset) as nat)
                    } else {
                        old(mmio_space).bytes()[p]
                    },
            decreases self.size - byte_idx,
        {
            let b = get_byte_u64(val, byte_idx as usize);
            mmio_space.set_byte(self.offset + byte_idx, b);
            byte_idx = byte_idx + 1;
        }
        assert(mmio_space.bytes() =~= device_write(old(mmio_space).bytes(), *self, val));
    }

    // When a value is set from guest, it should be masked by guest_writeable_mask.
    pub fn set_value_guest<C: RegisterCallback>(&self, mmio_space: &mut MMIOSpace<C>, val: u64)
        requires
            self.wf(),
        ensures
            final(mmio_space).entries() == old(mmio_space).entries(),
            final(mmio_space).bytes() == guest_value_write(old(mmio_space).bytes(), *self, val),
    {
        let mut byte_idx: u64 = 0;
        while byte_idx < self.size
            invariant
                self.wf(),
                byte_idx <= self.size,
                mmio_space.entries() == old(mmio_space).entries(),
                mmio_space.bytes().len() == old(mmio_space).bytes().len(),
                forall|p: int|
                    0 <= p < mmio_space.bytes().len() ==> #[trigger] mmio_space.bytes()[p] == if self.offset
                        <= p < self.offset + byte_idx {
                        guest_value_byte(old(mmio_space).bytes(), *self, val, p)
                    } else {
                        old(mmio_space).bytes()[p]
                    },
            decreases self.size - byte_idx,
        {
            let b = get_byte_u64(val, byte_idx as usize);
            self.set_byte_as_guest(mmio_space, self.offset + byte_idx, b);
            byte_idx = byte_idx + 1;
        }
        assert(mmio_space.bytes() =~= guest_value_write(old(mmio_space).bytes(), *self, val));
    }

    pub fn set_bit<C: RegisterCallback>(&self, _mmio_space: &mut MMIOSpace<C>, _mask: u64)
        ensures
            final(_mmio_space).entries() == old(_mmio_space).entries(),
            final(_mmio_space).bytes() == old(_mmio_space).bytes(),
    {
    }

    pub fn get_bit<C: RegisterCallback>(&self, _mmio_space: &mut MMIOSpace<C>, _mask: u64)
        ensures
            final(_mmio_space).entries() == old(_mmio_space).entries(),
            final(_mmio_space).bytes() == old(_mmio_space).bytes(),
    {
    }

    pub fn set_to_clear<C: RegisterCallback>(&self, _mmio_space: &mut MMIOSpace<C>, _mask: u64)
        ensures
            final(_mmio_space).entries() == old(_mmio_space).entries(),
            final(_mmio_space).bytes() == old(_mmio_space).bytes(),
    {
    }
}

/// The bytes after the device stores `val` in `reg`: byte `k` of the value
/// goes to offset `reg.offset + k`; bytes past the end of the space are lost.
pub open spec fn device_write(bytes: Seq<u8>, reg: Register, val: u64) -> Seq<u8> {
    Seq::new(
        bytes.len(),
        |p: int|
            if reg.offset <= p < reg.offset + reg.size {
                byte_of(val, (p - reg.offset) as nat)
            } else {
                bytes[p]
            },
    )
}

/// Byte `p` of `reg` after a guest stores `val` in it: byte `k` of the
/// value is written through the register's masks to offset `reg.offset + k`.
pub open spec fn guest_value_byte(bytes: Seq<u8>, reg: Register, val: u64, p: int) -> u8 {
    masked_byte(
        bytes[p],
        byte_of(val, (p - reg.offset) as nat),
        byte_of(reg.guest_writeable_mask, (p - reg.offset) as nat),
        byte_of(reg.guest_write_1_to_clear_mask, (p - reg.offset) as nat),
    )
}

/// The bytes after a guest stores `val` in `reg`.
pub open spec fn guest_value_write(bytes: Seq<u8>, reg: Register, val: u64) -> Seq<u8> {
    Seq::new(
        bytes.len(),
        |p: int|
            if reg.offset <= p < reg.offset + reg.size {
                guest_value_byte(bytes, reg, val, p)
            } else {
                bytes[p]
            },
    )
}

#[derive(Clone)]
pub struct RegAndCallback<C> {
    pub reg: Register,
    pub cb: Option<C>,
}

impl<C> RegAndCallback<C> {
    pub fn new(reg: Register) -> (r: RegAndCallback<C>)
        ensures
            r.reg == reg,
            r.cb is None,
    {
        RegAndCallback { reg: reg, cb: None }
    }
}

pub struct MMIOSpace<C = NoRegisterCallback> {
    data: Vec<u8>,
    registers: Vec<RegAndCallback<C>>,
}

/// Registers sorted by offset, each starting after the end of the one
/// before, well formed and inside the byte array.
pub open spec fn table_ok<C>(entries: Seq<RegAndCallback<C>>, len: nat) -> bool {
    &&& forall|i: int| 0 <= i < entries.len() ==> #[trigger] entries[i].reg.wf()
    &&& forall|i: int|
        0 <= i < entries.len() ==> #[trigger] entries[i].reg.offset + entries[i].reg.size <= len
    &&& forall|i: int, j: int|
        0 <= i < j < entries.len() ==> #[trigger] entries[i].reg.offset + entries[i].reg.size
            <= #[trigger] entries[j].reg.offset && entries[i].reg.offset < entries[j].reg.offset
}

impl<C> MMIOSpace<C> {
    #[verifier::type_invariant]
    spec fn inv(self) -> bool {
        table_ok(self.registers@, self.data@.len())
    }

    /// The registers with their callbacks, ordered by offset.
    pub closed spec fn entries(self) -> Seq<RegAndCallback<C>> {
        self.registers@
    }

    /// The bytes of the space.
    pub closed spec fn bytes(self) -> Seq<u8> {
        self.data@
    }

    /// The registers are sorted by offset, pairwise disjoint, at most eight
    /// bytes wide and inside the space.
    pub open spec fn well_formed(self) -> bool {
        table_ok(self.entries(), self.bytes().len())
    }

    /// The registers, ordered by offset.
    pub open spec fn regs(self) -> Seq<Register> {
        self.entries().map_values(|e: RegAndCallback<C>| e.reg)
    }
}

impl MMIOSpace<NoRegisterCallback> {
    pub fn new() -> (r: MMIOSpace<NoRegisterCallback>)
        ensures
            r.well_formed(),
            r.entries().len() == 0,
            r.bytes().len() == 0,
    {
        MMIOSpace { data: Vec::<u8>::new(), registers: Vec::new() }
    }
}


impl<C: RegisterCallback> MMIOSpace<C> {
    /// An empty space whose registers may carry callbacks of type `C`.
    pub fn with_callbacks() -> (r: MMIOSpace<C>)
        ensures
            r.well_formed(),
            r.entries().len() == 0,
            r.bytes().len() == 0,
    {
        MMIOSpace { data: Vec::<u8>::new(), registers: Vec::new() }
    }

    pub fn get_size(&self) -> (r: usize)
        ensures
            self.well_formed(),
            r == self.bytes().len(),
    {
        proof {
            use_type_invariant(self);
        }
        self.data.len()
    }

    pub fn set_byte(&mut self, addr: BarOffset, val: u8)
        ensures
            final(self).well_formed(),
            final(self).entries() == old(self).entries(),
            final(self).bytes() == if addr < old(self).bytes().len() {
                old(self).bytes().update(addr as int, val)
            } else {
                old(self).bytes()
            },
        no_unwind
    {
        proof {
            use_type_invariant(&*self);
        }
        // Someone is writting out of the defined mmio space.
        if addr >= self.data.len() as u64 {
            return ;
        }
        self.data[addr as usize] = val;
    }

    pub fn get_byte(&self, addr: BarOffset) -> (r: u8)
        ensures
            r == space_byte(self.bytes(), addr as int),
    {
        // Someone is reading out of the defined mmio space.
        if addr >= self.data.len() as u64 {
            return 0;
        }
        self.data[addr as usize]
    }

    // Index of the last register that starts at or before addr.
    fn first_before_index(&self, addr: BarOffset) -> (r: Option<usize>)
        ensures
            match r {
                Some(i) => {
                    &&& i < self.entries().len()
                    &&& self.entries()[i as int].reg.offset <= addr
                    &&& forall|j: int|
                        i < j < self.entries().len() ==> #[trigger] self.entries()[j].reg.offset
                            > addr
                },
                None => forall|j: int|
                    0 <= j < self.entries().len() ==> #[trigger] self.entries()[j].reg.offset > addr,
            },
    {
        let mut i = self.registers.len();
        while i > 0
            invariant
                i <= self.registers@.len(),
                forall|j: int|
                    i <= j < self.registers@.len() ==> #[trigger] self.registers@[j].reg.offset
                        > addr,
            decreases i,
        {
            if self.registers[i - 1].reg.offset <= addr {
                return Some(i - 1);
            }
            i = i - 1;
        }
        None
    }

    fn first_before(&self, addr: BarOffset) -> (r: Option<&RegAndCallback<C>>)
        ensures
            match r {
                Some(e) => exists|i: int|
                    0 <= i < self.entries().len() && *e == self.entries()[i]
                        && self.entries()[i].reg.offset <= addr && forall|j: int|
                        i < j < self.entries().len() ==> #[trigger] self.entries()[j].reg.offset
                            > addr,
                None => forall|j: int|
                    0 <= j < self.entries().len() ==> #[trigger] self.entries()[j].reg.offset > addr,
            },
    {
        match self.first_before_index(addr) {
            Some(i) => Some(&self.registers[i]),
            None => None,
        }
    }

    // Index of the register holding addr.
    fn register_index(&self, addr: BarOffset) -> (r: Option<usize>)
        ensures
            match r {
                Some(i) => i < self.entries().len() && reg_contains(
                    self.entries()[i as int].reg,
                    addr as int,
                ),
                None => forall|j: int|
                    0 <= j < self.entries().len() ==> !reg_contains(
                        #[trigger] self.entries()[j].reg,
                        addr as int,
                    ),
            },
    {
        proof {
            use_type_invariant(self);
        }
        match self.first_before_index(addr) {
            Some(i) => {
                let offset = addr - self.registers[i].reg.offset;
                if offset < self.registers[i].reg.size {
                    return Some(i);
                }
                assert forall|j: int| 0 <= j < self.entries().len() implies !reg_contains(
                    #[trigger] self.entries()[j].reg,
                    addr as int,
                ) by {
                    if j < i {
                        assert(self.entries()[j].reg.offset + self.entries()[j].reg.size
                            <= self.entries()[i as int].reg.offset);
                    }
                }
                None
            },
            None => None,
        }
    }

    pub fn get_register(&self, addr: BarOffset) -> (r: Option<&RegAndCallback<C>>)
        ensures
            match r {
                Some(e) => exists|i: int|
                    0 <= i < self.entries().len() && *e == self.entries()[i] && reg_contains(
                        self.entries()[i].reg,
                        addr as int,
                    ),
                None => forall|j: int|
                    0 <= j < self.entries().len() ==> !reg_contains(
                        #[trigger] self.entries()[j].reg,
                        addr as int,
                    ),
            },
    {
        match self.register_index(addr) {
            Some(i) => Some(&self.registers[i]),
            None => None,
        }
    }

    pub fn get_all_registers(&self) -> (r: Vec<Register>)
        ensures
            self.well_formed(),
            r@ == self.regs().reverse(),
    {
        proof {
            use_type_invariant(self);
        }
        let mut v: Vec<Register> = Vec::new();
        let n = self.registers.len();
        let mut i = n;
        while i > 0
            invariant
                i <= n,
                n == self.registers@.len(),
                v@.len() == n - i,
                forall|j: int|
                    0 <= j < n - i ==> #[trigger] v@[j] == self.registers@[n - 1 - j].reg,
            decreases i,
        {
            v.push(self.registers[i - 1].reg);
            i = i - 1;
        }
        assert(v@ =~= self.regs().reverse());
        v
    }
}


/// `cnt` registers of the same layout, the `i`-th at `base_offset + stride * i`.
pub fn register_array(
    cnt: usize,
    base_offset: BarOffset,
    stride: usize,
    size: BarOffset,
    reset_value: u64,
    guest_writeable_mask: u64,
    guest_write_1_to_clear_mask: u64,
) -> (r: Vec<Register>)
    requires
        base_offset + stride * cnt <= u64::MAX,
        stride * cnt <= usize::MAX,
    ensures
        r@.len() == cnt,
        forall|i: int|
            0 <= i < cnt ==> #[trigger] r@[i] == (Register {
                offset: (base_offset + stride * i) as u64,
                size,
                reset_value,
                guest_writeable_mask,
                guest_write_1_to_clear_mask,
            }),
{
    let mut v: Vec<Register> = Vec::new();
    let mut i: usize = 0;
    while i < cnt
        invariant
            i <= cnt,
            base_offset + stride * cnt <= u64::MAX,
            stride * cnt <= usize::MAX,
            v@.len() == i,
            forall|j: int|
                0 <= j < i ==> #[trigger] v@[j] == (Register {
                    offset: (base_offset + stride * j) as u64,
                    size,
                    reset_value,
                    guest_writeable_mask,
                    guest_write_1_to_clear_mask,
                }),
        decreases cnt - i,
    {
        proof {
            vstd::arithmetic::mul::lemma_mul_inequality(i as int, cnt as int, stride as int);
            vstd::arithmetic::mul::lemma_mul_is_commutative(i as int, stride as int);
            vstd::arithmetic::mul::lemma_mul_is_commutative(cnt as int, stride as int);
        }
        let offset = base_offset + (stride * i) as BarOffset;
        v.push(
            Register {
                offset: offset,
                size: size,
                reset_value: reset_value,
                guest_writeable_mask: guest_writeable_mask,
                guest_write_1_to_clear_mask: guest_write_1_to_clear_mask,
            },
        );
        i = i + 1;
    }
    v
}

/// The callback that the registers at offset `off` end up with after the
/// callbacks of `cbs` were added in order: the last one for that offset.
pub open spec fn cb_after<C>(old: Option<C>, off: u64, cbs: Seq<(Register, C)>) -> Option<C>
    decreases cbs.len(),
{
    if cbs.len() == 0 {
        old
    } else if cbs.last().0.offset == off {
        Some(cbs.last().1)
    } else {
        cb_after(old, off, cbs.drop_last())
    }
}

/// Some register of the table starts at `off`.
pub open spec fn has_register_at<C>(entries: Seq<RegAndCallback<C>>, off: u64) -> bool {
    exists|i: int| 0 <= i < entries.len() && #[trigger] entries[i].reg.offset == off
}

/// Every callback of `cbs` names a register of the table by its offset.
pub open spec fn callbacks_match<C>(entries: Seq<RegAndCallback<C>>, cbs: Seq<(Register, C)>) -> bool {
    forall|j: int| 0 <= j < cbs.len() ==> has_register_at(entries, #[trigger] cbs[j].0.offset)
}

/// Two registers of a well-formed table that hold the same address are the same.
pub proof fn lemma_unique_holder<C>(entries: Seq<RegAndCallback<C>>, len: nat, addr: int, i: int, j: int)
    requires
        table_ok(entries, len),
        0 <= i < entries.len(),
        0 <= j < entries.len(),
        reg_contains(entries[i].reg, addr),
        reg_contains(entries[j].reg, addr),
    ensures
        i == j,
{
    if i < j {
        assert(entries[i].reg.offset + entries[i].reg.size <= entries[j].reg.offset);
    } else if j < i {
        assert(entries[j].reg.offset + entries[j].reg.size <= entries[i].reg.offset);
    }
}

impl<C: RegisterCallback> MMIOSpace<C> {
    fn take_parts(&mut self) -> (r: (Vec<u8>, Vec<RegAndCallback<C>>))
        ensures
            r.0@ == old(self).bytes(),
            r.1@ == old(self).entries(),
            table_ok(r.1@, r.0@.len()),
    {
        proof {
            use_type_invariant(&*self);
        }
        let mut d: Vec<u8> = Vec::new();
        let mut rg: Vec<RegAndCallback<C>> = Vec::new();
        std::mem::swap(&mut rg, &mut self.registers);
        std::mem::swap(&mut d, &mut self.data);
        (d, rg)
    }

    fn put_parts(&mut self, d: Vec<u8>, rg: Vec<RegAndCallback<C>>)
        requires
            table_ok(rg@, d@.len()),
        ensures
            final(self).bytes() == d@,
            final(self).entries() == rg@,
    {
        *self = MMIOSpace { data: d, registers: rg };
    }

    /// Tells the callback of entry `i`, if it has one, of a guest write
    /// that left `val` in its register.
    fn notify_write(&mut self, i: usize, val: u64)
        requires
            i < old(self).entries().len(),
        ensures
            final(self).bytes() == old(self).bytes(),
            final(self).entries().len() == old(self).entries().len(),
            forall|j: int| 0 <= j < old(self).entries().len() && j != i ==> #[trigger] final(self).entries()[j] == old(self).entries()[j],
            final(self).entries()[i as int].reg == old(self).entries()[i as int].reg,
            final(self).entries()[i as int].cb == match old(self).entries()[i as int].cb {
                Some(c) => Some(c.after_write(val)),
                None => None,
            },
    {
        let (d, mut rg) = self.take_parts();
        let ghost rg0 = rg@;
        let e = rg.remove(i);
        let RegAndCallback { reg, cb } = e;
        let cb = match cb {
            Some(mut c) => {
                c.write_reg_callback(val);
                Some(c)
            },
            None => None,
        };
        rg.insert(i, RegAndCallback { reg, cb });
        proof {
            assert forall|j: int| 0 <= j < rg@.len() implies #[trigger] rg@[j].reg == rg0[j].reg by {
                if j != i {
                    assert(rg@[j] == rg0[j]);
                }
            }
        }
        self.put_parts(d, rg);
    }

    /// Tells the callback of entry `i`, if it has one, of a guest read.
    fn notify_read(&mut self, i: usize)
        requires
            i < old(self).entries().len(),
        ensures
            final(self).bytes() == old(self).bytes(),
            final(self).entries().len() == old(self).entries().len(),
            forall|j: int| 0 <= j < old(self).entries().len() && j != i ==> #[trigger] final(self).entries()[j] == old(self).entries()[j],
            final(self).entries()[i as int].reg == old(self).entries()[i as int].reg,
            final(self).entries()[i as int].cb == match old(self).entries()[i as int].cb {
                Some(c) => Some(c.after_read()),
                None => None,
            },
    {
        let (d, mut rg) = self.take_parts();
        let ghost rg0 = rg@;
        let e = rg.remove(i);
        let RegAndCallback { reg, cb } = e;
        let cb = match cb {
            Some(mut c) => {
                c.read_reg_callback();
                Some(c)
            },
            None => None,
        };
        rg.insert(i, RegAndCallback { reg, cb });
        proof {
            assert forall|j: int| 0 <= j < rg@.len() implies #[trigger] rg@[j].reg == rg0[j].reg by {
                if j != i {
                    assert(rg@[j] == rg0[j]);
                }
            }
        }
        self.put_parts(d, rg);
    }

    // This function should only be called when setup MMIOSpace.
    pub fn add_reg(&mut self, reg: Register) -> (r: Register)
        requires
            reg.wf(),
            forall|i: int|
                0 <= i < old(self).entries().len() ==> regs_disjoint(
                    #[trigger] old(self).entries()[i].reg,
                    reg,
                ),
        ensures
            final(self).well_formed(),
            r == reg,
            exists|pos: int|
                0 <= pos <= old(self).entries().len() && final(self).entries() == old(self).entries().insert(pos, RegAndCallback { reg: reg, cb: None }),
            final(self).bytes().len() == if reg.offset + reg.size > old(self).bytes().len() {
                (reg.offset + reg.size) as nat
            } else {
                old(self).bytes().len()
            },
            forall|p: int|
                0 <= p < final(self).bytes().len() ==> #[trigger] final(self).bytes()[p]
                    == space_byte(old(self).bytes(), p),
    {
        let (mut data, mut regs) = self.take_parts();
        let ghost old_data = data@;
        let ghost old_regs = regs@;
        assert(table_ok(old_regs, old_data.len()));
        let reg_max_offset: usize = (reg.offset + reg.size) as usize;
        if reg_max_offset > data.len() {
            data.resize(reg_max_offset, 0);
        }
        assert forall|p: int| 0 <= p < data@.len() implies #[trigger] data@[p] == space_byte(
            old_data,
            p,
        ) by {
            if p >= old_data.len() {
                assert(cloned::<u8>(0, data@[p]));
            } else {
                assert(data@.subrange(0, old_data.len() as int)[p] == data@[p]);
            }
        }
        let mut pos: usize = 0;
        while pos < regs.len() && regs[pos].reg.offset < reg.offset
            invariant
                pos <= regs@.len(),
                regs@ == old_regs,
                forall|j: int| 0 <= j < pos ==> #[trigger] regs@[j].reg.offset < reg.offset,
            decreases regs@.len() - pos,
        {
            pos = pos + 1;
        }
        regs.insert(pos, RegAndCallback::new(reg));
        proof {
            let e = regs@;
            assert forall|i: int, j: int| 0 <= i < j < e.len() implies #[trigger] e[i].reg.offset
                + e[i].reg.size <= #[trigger] e[j].reg.offset by {
                assert(e == old_regs.insert(pos as int, RegAndCallback { reg: reg, cb: None }));
                if i < pos {
                    assert(e[i] == old_regs[i]);
                } else if i == pos {
                    assert(e[i].reg == reg);
                } else {
                    assert(e[i] == old_regs[i - 1]);
                }
                if j < pos {
                    assert(e[j] == old_regs[j]);
                } else if j == pos {
                    assert(e[j].reg == reg);
                } else {
                    assert(e[j] == old_regs[j - 1]);
                }
                if i < pos && j == pos {
                    assert(regs_disjoint(old_regs[i].reg, reg));
                    assert(e[i].reg.offset + e[i].reg.size <= e[j].reg.offset);
                } else if i == pos && j > pos {
                    assert(regs_disjoint(old_regs[j - 1].reg, reg));
                    assert(old_regs[pos as int].reg.offset >= reg.offset);
                    if j - 1 > pos {
                        assert(old_regs[pos as int].reg.offset + old_regs[pos as int].reg.size
                            <= old_regs[j - 1].reg.offset);
                    }
                    assert(old_regs[j - 1].reg.offset >= reg.offset);
                    assert(old_regs[j - 1].reg.wf());
                    assert(e[i].reg.offset + e[i].reg.size <= e[j].reg.offset);
                } else if i < pos && j > pos {
                    assert(old_regs[i].reg.offset + old_regs[i].reg.size <= old_regs[j - 1].reg.offset);
                    assert(e[i].reg.offset + e[i].reg.size <= e[j].reg.offset);
                } else if i < pos && j < pos {
                    assert(old_regs[i].reg.offset + old_regs[i].reg.size <= old_regs[j].reg.offset);
                    assert(e[i].reg.offset + e[i].reg.size <= e[j].reg.offset);
                } else if i > pos {
                    assert(old_regs[i - 1].reg.offset + old_regs[i - 1].reg.size <= old_regs[j
                        - 1].reg.offset);
                    assert(e[i].reg.offset + e[i].reg.size <= e[j].reg.offset);
                } else {
                    assert(false);
                }
            }
            assert(table_ok(regs@, data@.len()));
        }
        self.put_parts(data, regs);
        reg
    }

    pub fn add_reg_array(&mut self, regs: &Vec<Register>)
        requires
            forall|i: int| 0 <= i < regs@.len() ==> (#[trigger] regs@[i]).wf(),
            forall|i: int, j: int|
                0 <= i < j < regs@.len() ==> regs_disjoint(#[trigger] regs@[i], #[trigger] regs@[j]),
            forall|i: int, j: int|
                0 <= i < old(self).entries().len() && 0 <= j < regs@.len() ==> regs_disjoint(
                    #[trigger] old(self).entries()[i].reg,
                    #[trigger] regs@[j],
                ),
        ensures
            final(self).well_formed(),
            final(self).entries().len() == old(self).entries().len() + regs@.len(),
            forall|r: Register|
                #[trigger] final(self).regs().contains(r) <==> old(self).regs().contains(r)
                    || regs@.contains(r),
            forall|p: int|
                0 <= p < final(self).bytes().len() ==> #[trigger] final(self).bytes()[p]
                    == space_byte(old(self).bytes(), p),
            final(self).bytes().len() == grown_size(old(self).bytes().len(), regs@),
            forall|i: int|
                0 <= i < regs@.len() ==> #[trigger] regs@[i].offset + regs@[i].size <= final(self).bytes().len(),
    {
        proof {
            use_type_invariant(&*self);
        }
        let mut k: usize = 0;
        while k < regs.len()
            invariant
                self.well_formed(),
                k <= regs@.len(),
                forall|i: int| 0 <= i < regs@.len() ==> (#[trigger] regs@[i]).wf(),
                forall|i: int, j: int|
                    0 <= i < j < regs@.len() ==> regs_disjoint(#[trigger] regs@[i], #[trigger] regs@[j]),
                forall|i: int, j: int|
                    0 <= i < old(self).entries().len() && 0 <= j < regs@.len() ==> regs_disjoint(
                        #[trigger] old(self).entries()[i].reg,
                        #[trigger] regs@[j],
                    ),
                self.entries().len() == old(self).entries().len() + k,
                forall|r: Register|
                    #[trigger] self.regs().contains(r) <==> old(self).regs().contains(r) || exists|
                        j: int,
                    |
                        0 <= j < k && regs@[j] == r,
                forall|p: int|
                    0 <= p < self.bytes().len() ==> #[trigger] self.bytes()[p] == space_byte(
                        old(self).bytes(),
                        p,
                    ),
                self.bytes().len() >= old(self).bytes().len(),
                self.bytes().len() == grown_size(old(self).bytes().len(), regs@.take(k as int)),
                forall|i: int|
                    0 <= i < k ==> #[trigger] regs@[i].offset + regs@[i].size <= self.bytes().len(),
            decreases regs@.len() - k,
        {
            let ghost before = *self;
            proof {
                assert forall|i: int| 0 <= i < self.entries().len() implies regs_disjoint(
                    #[trigger] self.entries()[i].reg,
                    regs@[k as int],
                ) by {
                    let r = self.entries()[i].reg;
                    assert(self.regs()[i] == r);
                    assert(self.regs().contains(r));
                    if old(self).regs().contains(r) {
                        let oi = choose|oi: int|
                            0 <= oi < old(self).regs().len() && old(self).regs()[oi] == r;
                        assert(old(self).entries()[oi].reg == r);
                    } else {
                        let j = choose|j: int| 0 <= j < k && regs@[j] == r;
                        assert(regs_disjoint(regs@[j], regs@[k as int]));
                    }
                }
            }
            self.add_reg(regs[k]);
            assert(regs@.take(k + 1).drop_last() =~= regs@.take(k as int));
            proof {
                let pos = choose|pos: int|
                    0 <= pos <= before.entries().len() && self.entries() == before.entries().insert(
                        pos,
                        RegAndCallback { reg: regs@[k as int], cb: None },
                    );
                assert forall|r: Register| #[trigger] self.regs().contains(r) <==> old(self).regs().contains(r) || exists|j: int| 0 <= j < k + 1 && regs@[j] == r by {
                    if self.regs().contains(r) {
                        let x = choose|x: int| 0 <= x < self.regs().len() && self.regs()[x] == r;
                        if x < pos {
                            assert(before.regs()[x] == r);
                            assert(before.regs().contains(r));
                        } else if x > pos {
                            assert(before.regs()[x - 1] == r);
                            assert(before.regs().contains(r));
                        }
                    }
                    if old(self).regs().contains(r) || exists|j: int| 0 <= j < k && regs@[j] == r {
                        assert(before.regs().contains(r));
                        let x = choose|x: int| 0 <= x < before.regs().len() && before.regs()[x] == r;
                        if x < pos {
                            assert(self.regs()[x] == r);
                        } else {
                            assert(self.regs()[x + 1] == r);
                        }
                    }
                    if exists|j: int| 0 <= j < k + 1 && regs@[j] == r {
                        let j = choose|j: int| 0 <= j < k + 1 && regs@[j] == r;
                        if j == k {
                            assert(self.regs()[pos] == r);
                        }
                    }
                }
            }
            k = k + 1;
        }
        proof {
            assert(regs@.take(regs@.len() as int) =~= regs@);
            assert forall|r: Register| #[trigger] final(self).regs().contains(r) <==> old(self).regs().contains(r) || regs@.contains(r) by {
                if regs@.contains(r) {
                    let j = choose|j: int| 0 <= j < regs@.len() && regs@[j] == r;
                }
            }
        }
    }
}


impl<C: RegisterCallback> MMIOSpace<C> {
    pub fn add_callback(&mut self, reg: Register, cb: C)
        requires
            exists|i: int|
                0 <= i < old(self).entries().len() && #[trigger] old(self).entries()[i].reg.offset
                    == reg.offset,
        ensures
            final(self).well_formed(),
            final(self).bytes() == old(self).bytes(),
            final(self).entries().len() == old(self).entries().len(),
            forall|i: int|
                0 <= i < old(self).entries().len() ==> #[trigger] final(self).entries()[i] == if old(
                    self,
                ).entries()[i].reg.offset == reg.offset {
                    RegAndCallback { reg: old(self).entries()[i].reg, cb: Some(cb) }
                } else {
                    old(self).entries()[i]
                },
    {
        let (data, mut regs) = self.take_parts();
        let ghost old_regs = regs@;
        let mut i: usize = 0;
        while i < regs.len()
            invariant
                i <= regs@.len(),
                regs@ == old_regs,
                table_ok(old_regs, data@.len()),
                data@ == old(self).bytes(),
                old_regs == old(self).entries(),
                forall|j: int| 0 <= j < i ==> #[trigger] old_regs[j].reg.offset != reg.offset,
                exists|k: int|
                    0 <= k < old_regs.len() && #[trigger] old_regs[k].reg.offset == reg.offset,
            decreases regs@.len() - i,
        {
            if regs[i].reg.offset == reg.offset {
                let r = regs[i].reg;
                regs.set(i, RegAndCallback { reg: r, cb: Some(cb) });
                proof {
                    assert forall|a: int, b: int| 0 <= a < b < regs@.len() implies #[trigger] regs@[a].reg.offset
                        + regs@[a].reg.size <= #[trigger] regs@[b].reg.offset by {
                        assert(old_regs[a].reg.offset + old_regs[a].reg.size <= old_regs[b].reg.offset);
                    }
                    assert forall|j: int| 0 <= j < old_regs.len() implies #[trigger] regs@[j] == if old_regs[j].reg.offset == reg.offset {
                        RegAndCallback { reg: old_regs[j].reg, cb: Some(cb) }
                    } else {
                        old_regs[j]
                    } by {
                        assert(old_regs[j].reg.wf());
                        assert(old_regs[i as int].reg.wf());
                        if j != i && old_regs[j].reg.offset == reg.offset {
                            if j < i {
                                assert(old_regs[j].reg.offset + old_regs[j].reg.size <= old_regs[i as int].reg.offset);
                            } else {
                                assert(old_regs[i as int].reg.offset + old_regs[i as int].reg.size <= old_regs[j].reg.offset);
                            }
                        }
                    }
                }
                self.put_parts(data, regs);
                return ;
            }
            i = i + 1;
        }
        proof {
            let k = choose|k: int| 0 <= k < old_regs.len() && #[trigger] old_regs[k].reg.offset == reg.offset;
            assert(old_regs[k].reg.offset != reg.offset);
        }
        self.put_parts(data, regs);
    }

    pub fn add_callback_array(&mut self, cbs: Vec<(Register, C)>)
        requires
            callbacks_match(old(self).entries(), cbs@),
        ensures
            final(self).well_formed(),
            final(self).bytes() == old(self).bytes(),
            final(self).entries().len() == old(self).entries().len(),
            forall|i: int|
                0 <= i < old(self).entries().len() ==> #[trigger] final(self).entries()[i] == (RegAndCallback {
                    reg: old(self).entries()[i].reg,
                    cb: cb_after(old(self).entries()[i].cb, old(self).entries()[i].reg.offset, cbs@),
                }),
    {
        proof {
            use_type_invariant(&*self);
        }
        let ghost all = cbs@;
        assert(all.subrange(0, 0) =~= Seq::<(Register, C)>::empty());
        assert forall|i: int| 0 <= i < old(self).entries().len() implies #[trigger] self.entries()[i]
            == (RegAndCallback {
            reg: old(self).entries()[i].reg,
            cb: cb_after(old(self).entries()[i].cb, old(self).entries()[i].reg.offset, all.subrange(0, 0)),
        }) by {
            assert(all.subrange(0, 0).len() == 0);
            assert(cb_after(old(self).entries()[i].cb, old(self).entries()[i].reg.offset, all.subrange(0, 0))
                == old(self).entries()[i].cb);
        }
        let mut rest = cbs;
        assert(self.entries() == old(self).entries());
        assert(rest@ == all.subrange(0, all.len() as int));
        let mut k: usize = 0;
        let n = rest.len();
        while k < n
            invariant
                self.well_formed(),
                n == all.len(),
                k <= n,
                rest@ == all.subrange(k as int, n as int),
                self.bytes() == old(self).bytes(),
                self.entries().len() == old(self).entries().len(),
                forall|i: int|
                    0 <= i < old(self).entries().len() ==> #[trigger] self.entries()[i] == (RegAndCallback {
                        reg: old(self).entries()[i].reg,
                        cb: cb_after(
                            old(self).entries()[i].cb,
                            old(self).entries()[i].reg.offset,
                            all.subrange(0, k as int),
                        ),
                    }),
                callbacks_match(old(self).entries(), all),
            decreases n - k,
        {
            let (r, cb) = rest.remove(0);
            let ghost before = *self;
            proof {
                assert(all[k as int] == (r, cb));
                assert(has_register_at(old(self).entries(), all[k as int].0.offset));
                let i0 = choose|i: int|
                    0 <= i < old(self).entries().len() && #[trigger] old(self).entries()[i].reg.offset
                        == all[k as int].0.offset;
                assert(before.entries()[i0].reg.offset == r.offset);
            }
            self.add_callback(r, cb);
            proof {
                assert(all.subrange(0, k + 1).drop_last() =~= all.subrange(0, k as int));
                assert(all.subrange(0, k + 1).last() == (r, cb));
                assert(rest@ =~= all.subrange(k + 1, n as int));
            }
            k = k + 1;
        }
        assert(all.subrange(0, n as int) =~= all);
    }

    pub fn reset_all_registers(&mut self)
        ensures
            final(self).well_formed(),
            final(self).entries() == old(self).entries(),
            final(self).bytes().len() == old(self).bytes().len(),
            forall|i: int, p: int|
                0 <= i < old(self).entries().len() && reg_contains(old(self).entries()[i].reg, p)
                    ==> #[trigger] final(self).bytes()[p] == byte_of(
                    #[trigger] old(self).entries()[i].reg.reset_value,
                    (p - old(self).entries()[i].reg.offset) as nat,
                ),
            forall|p: int|
                0 <= p < old(self).bytes().len() && (forall|i: int|
                    0 <= i < old(self).entries().len() ==> !reg_contains(
                        #[trigger] old(self).entries()[i].reg,
                        p,
                    )) ==> #[trigger] final(self).bytes()[p] == old(self).bytes()[p],
    {
        proof {
            use_type_invariant(&*self);
        }
        let all_regs = self.get_all_registers();
        let n = all_regs.len();
        let ghost e = self.entries();
        let mut k: usize = 0;
        while k < n
            invariant
                n == e.len(),
                all_regs@ == e.map_values(|x: RegAndCallback<C>| x.reg).reverse(),
                table_ok(e, old(self).bytes().len()),
                e == old(self).entries(),
                k <= n,
                self.entries() == e,
                self.bytes().len() == old(self).bytes().len(),
                forall|p: int|
                    0 <= p < self.bytes().len() ==> #[trigger] self.bytes()[p] == if exists|i: int|
                        n - k <= i < n && reg_contains(e[i].reg, p) {
                        byte_of(
                            e[choose|i: int| n - k <= i < n && reg_contains(e[i].reg, p)].reg.reset_value,
                            (p - e[choose|i: int| n - k <= i < n && reg_contains(e[i].reg, p)].reg.offset) as nat,
                        )
                    } else {
                        old(self).bytes()[p]
                    },
            decreases n - k,
        {
            let r = all_regs[k];
            let ghost before = self.bytes();
            let ghost idx: int = n - 1 - k;
            assert(r == e[idx].reg);
            assert(e[idx].reg.wf());
            r.reset(self);
            proof {
                assert forall|p: int| 0 <= p < self.bytes().len() implies #[trigger] self.bytes()[p] == if exists|i: int|
                    n - (k + 1) <= i < n && reg_contains(e[i].reg, p) {
                    byte_of(
                        e[choose|i: int| n - (k + 1) <= i < n && reg_contains(e[i].reg, p)].reg.reset_value,
                        (p - e[choose|i: int| n - (k + 1) <= i < n && reg_contains(e[i].reg, p)].reg.offset) as nat,
                    )
                } else {
                    old(self).bytes()[p]
                } by {
                    if reg_contains(e[idx].reg, p) {
                        let c = choose|i: int| n - (k + 1) <= i < n && reg_contains(e[i].reg, p);
                        lemma_unique_holder(e, old(self).bytes().len(), p, c, idx);
                    } else {
                        if exists|i: int| n - (k + 1) <= i < n && reg_contains(e[i].reg, p) {
                            let c = choose|i: int| n - (k + 1) <= i < n && reg_contains(e[i].reg, p);
                            assert(c != idx);
                            assert(n - k <= c < n);
                        }
                    }
                }
            }
            k = k + 1;
        }
        proof {
            assert forall|i: int, p: int|
                0 <= i < e.len() && reg_contains(e[i].reg, p) implies #[trigger] self.bytes()[p] == byte_of(
                #[trigger] e[i].reg.reset_value,
                (p - e[i].reg.offset) as nat,
            ) by {
                assert(e[i].reg.offset + e[i].reg.size <= old(self).bytes().len());
                let c = choose|c: int| n - n <= c < n && reg_contains(e[c].reg, p);
                lemma_unique_holder(e, old(self).bytes().len(), p, c, i);
            }
        }
    }
}


/// The bytes of the space a guest read of `len` bytes at `addr` returns.
pub open spec fn read_bytes(bytes: Seq<u8>, addr: int, len: nat) -> Seq<u8> {
    Seq::new(len, |i: int| space_byte(bytes, addr + i))
}

/// The register holding byte `p`, if one does.
pub open spec fn holder<C>(entries: Seq<RegAndCallback<C>>, p: int) -> Option<Register> {
    if exists|i: int| 0 <= i < entries.len() && reg_contains(#[trigger] entries[i].reg, p) {
        Some(entries[choose|i: int| 0 <= i < entries.len() && reg_contains(#[trigger] entries[i].reg, p)].reg)
    } else {
        None
    }
}

/// Byte `p` after a guest writes `b` to it through the masks of `reg`.
pub open spec fn guest_byte(old: u8, reg: Register, p: int, b: u8) -> u8 {
    masked_byte(
        old,
        b,
        byte_of(reg.guest_writeable_mask, (p - reg.offset) as nat),
        byte_of(reg.guest_write_1_to_clear_mask, (p - reg.offset) as nat),
    )
}

/// The bytes after a guest writes `data` at `addr`: byte `addr + k` takes
/// `data[k]` through the masks of the register holding it; bytes that no
/// register holds are left alone.
pub open spec fn guest_bytes_write<C>(bytes: Seq<u8>, entries: Seq<RegAndCallback<C>>, addr: int, data: Seq<u8>) -> Seq<u8> {
    Seq::new(
        bytes.len(),
        |p: int|
            if addr <= p < addr + data.len() {
                match holder(entries, p) {
                    Some(r) => guest_byte(bytes[p], r, p, data[p - addr]),
                    None => bytes[p],
                }
            } else {
                bytes[p]
            },
    )
}

/// The register holding `p` is entry `i` when entry `i` holds it.
proof fn lemma_holder_is<C>(entries: Seq<RegAndCallback<C>>, len: nat, p: int, i: int)
    requires
        table_ok(entries, len),
        0 <= i < entries.len(),
        reg_contains(entries[i].reg, p),
    ensures
        holder(entries, p) == Some(entries[i].reg),
{
    let j = choose|j: int| 0 <= j < entries.len() && reg_contains(#[trigger] entries[j].reg, p);
    lemma_unique_holder(entries, len, p, i, j);
}

impl<C: RegisterCallback> MMIOSpace<C> {
    /// A guest read of `data.len()` bytes at `addr`: the callback of each
    /// register the read touches hears of it once, and `data` receives the
    /// bytes of the space.
    pub fn read_bar(&mut self, addr: BarOffset, data: &mut [u8])
        requires
            addr + old(data)@.len() + 8 <= u64::MAX,
        ensures
            final(self).well_formed(),
            final(self).bytes() == old(self).bytes(),
            final(self).entries().len() == old(self).entries().len(),
            forall|i: int|
                0 <= i < old(self).entries().len() ==> read_heard(
                    old(self).entries()[i],
                    #[trigger] final(self).entries()[i],
                    addr as int,
                    old(data)@.len() as int,
                ),
            final(data)@ == read_bytes(old(self).bytes(), addr as int, old(data)@.len()),
    {
        proof {
            use_type_invariant(&*self);
        }
        let len = data.len() as u64;
        let mut offset: BarOffset = 0;
        let ghost e = self.entries();
        let ghost b0 = self.bytes();
        while offset < len
            invariant
                len == data@.len(),
                addr + len + 8 <= u64::MAX,
                offset <= len + 8,
                len == 0 ==> offset == 0,
                table_ok(e, b0.len()),
                self.bytes() == b0,
                self.entries().len() == e.len(),
                forall|j: int|
                    0 <= j < e.len() ==> read_heard(e[j], #[trigger] self.entries()[j], addr as int, offset as int),
                0 < offset < len ==> forall|j: int|
                    0 <= j < e.len() ==> !(#[trigger] e[j].reg.offset < addr + offset < e[j].reg.offset
                        + e[j].reg.size),
                forall|j: int|
                    0 <= j < e.len() ==> !(addr + len <= #[trigger] e[j].reg.offset < addr + offset),
            decreases len + 8 - offset,
        {
            proof {
                use_type_invariant(&*self);
            }
            match self.register_index(addr + offset) {
                Some(i) => {
                    let reg = self.registers[i].reg;
                    assert(reg == e[i as int].reg);
                    assert(reg.wf());
                    let room = reg.offset + reg.size - (addr + offset);
                    let ghost cur = self.entries();
                    self.notify_read(i);
                    proof {
                        let o2 = offset + room;
                        assert forall|j: int| 0 <= j < e.len() implies read_heard(
                            e[j],
                            #[trigger] self.entries()[j],
                            addr as int,
                            o2,
                        ) by {
                            assert(read_heard(e[j], cur[j], addr as int, offset as int));
                            assert(e[j].reg.wf());
                            if j < i {
                                assert(e[j].reg.offset + e[j].reg.size <= e[i as int].reg.offset);
                            } else if j > i {
                                assert(e[i as int].reg.offset + e[i as int].reg.size <= e[j].reg.offset);
                            } else {
                                assert(reg_contains(e[j].reg, addr + offset));
                                if offset > 0 && e[j].reg.offset < addr + offset {
                                    assert(!(e[j].reg.offset < addr + offset < e[j].reg.offset + e[j].reg.size));
                                }
                                assert(!reg_touched(e[j].reg, addr as int, offset as int));
                                assert(cur[j].cb == e[j].cb);
                                assert(reg_touched(e[j].reg, addr as int, o2));
                            }
                        }
                        assert forall|j: int| 0 <= j < e.len() implies !(#[trigger] e[j].reg.offset < addr + o2
                            < e[j].reg.offset + e[j].reg.size) by {
                            assert(e[j].reg.wf());
                            if j < i {
                                assert(e[j].reg.offset + e[j].reg.size <= e[i as int].reg.offset);
                            } else if j > i {
                                assert(e[i as int].reg.offset + e[i as int].reg.size <= e[j].reg.offset);
                            }
                        }
                        assert forall|j: int| 0 <= j < e.len() implies !(addr + len <= #[trigger] e[j].reg.offset
                            < addr + o2) by {
                            assert(e[j].reg.wf());
                            if j < i {
                                assert(e[j].reg.offset + e[j].reg.size <= e[i as int].reg.offset);
                            } else if j > i {
                                assert(e[i as int].reg.offset + e[i as int].reg.size <= e[j].reg.offset);
                            }
                        }
                    }
                    offset = offset + room;
                },
                None => {
                    proof {
                        assert forall|j: int| 0 <= j < e.len() implies read_heard(
                            e[j],
                            #[trigger] self.entries()[j],
                            addr as int,
                            offset + 1,
                        ) by {
                            assert(read_heard(e[j], self.entries()[j], addr as int, offset as int));
                            assert(!reg_contains(self.entries()[j].reg, addr + offset));
                            assert(e[j].reg.wf());
                        }
                        assert forall|j: int| 0 <= j < e.len() implies !(#[trigger] e[j].reg.offset < addr + offset + 1
                            < e[j].reg.offset + e[j].reg.size) by {
                            assert(!reg_contains(self.entries()[j].reg, addr + offset));
                            assert(e[j].reg.wf());
                        }
                    }
                    offset = offset + 1;
                },
            }
        }
        proof {
            assert forall|j: int| 0 <= j < e.len() implies read_heard(
                e[j],
                #[trigger] self.entries()[j],
                addr as int,
                len as int,
            ) by {
                assert(read_heard(e[j], self.entries()[j], addr as int, offset as int));
                assert(!(addr + len <= e[j].reg.offset < addr + offset));
                assert(reg_touched(e[j].reg, addr as int, offset as int) == reg_touched(e[j].reg, addr as int, len as int));
            }
        }
        let mut idx: usize = 0;
        let n = data.len();
        while idx < n
            invariant
                n == data@.len(),
                n == old(data)@.len(),
                addr + n + 8 <= u64::MAX,
                self.bytes() == b0,
                b0 == old(self).bytes(),
                forall|j: int| 0 <= j < idx ==> #[trigger] data@[j] == space_byte(old(self).bytes(), addr + j),
            decreases n - idx,
        {
            let b = self.get_byte(addr + idx as u64);
            data[idx] = b;
            idx = idx + 1;
        }
        proof {
            use_type_invariant(&*self);
        }
        assert(data@ =~= read_bytes(old(self).bytes(), addr as int, old(data)@.len()));
    }

    /// A guest write of `data` at `addr`: byte `addr + k` takes `data[k]`
    /// through the masks of the register holding it, and the callback of
    /// each register the write touches hears of it once, with the
    /// register's new value.
    pub fn write_bar(&mut self, addr: BarOffset, data: &[u8])
        requires
            addr + data@.len() + 8 <= u64::MAX,
        ensures
            final(self).well_formed(),
            final(self).bytes() == guest_bytes_write(old(self).bytes(), old(self).entries(), addr as int, data@),
            final(self).entries().len() == old(self).entries().len(),
            forall|i: int|
                0 <= i < old(self).entries().len() ==> write_heard(
                    old(self).entries()[i],
                    #[trigger] final(self).entries()[i],
                    final(self).bytes(),
                    addr as int,
                    data@.len() as int,
                ),
    {
        proof {
            use_type_invariant(&*self);
        }
        let len = data.len() as u64;
        let mut offset: BarOffset = 0;
        let ghost e = self.entries();
        let ghost b0 = self.bytes();
        let ghost target = guest_bytes_write(b0, e, addr as int, data@);
        while offset < len
            invariant
                len == data@.len(),
                addr + len + 8 <= u64::MAX,
                offset <= len,
                table_ok(e, b0.len()),
                self.entries().len() == e.len(),
                self.bytes().len() == b0.len(),
                target == guest_bytes_write(b0, e, addr as int, data@),
                forall|p: int| 0 <= p < b0.len() ==> #[trigger] self.bytes()[p] == if addr <= p < addr + offset {
                    target[p]
                } else {
                    b0[p]
                },
                forall|j: int|
                    0 <= j < e.len() ==> write_heard(e[j], #[trigger] self.entries()[j], target, addr as int, offset as int),
                0 < offset < len ==> forall|j: int|
                    0 <= j < e.len() ==> !(#[trigger] e[j].reg.offset < addr + offset < e[j].reg.offset
                        + e[j].reg.size),
            decreases len - offset,
        {
            proof {
                use_type_invariant(&*self);
            }
            match self.register_index(addr + offset) {
                Some(i) => {
                    let reg = self.registers[i].reg;
                    assert(reg == e[i as int].reg);
                    assert(reg.wf());
                    let room = reg.offset + reg.size - (addr + offset);
                    let ghost start = self.bytes();
                    let ghost cur = self.entries();
                    let mut idx: BarOffset = 0;
                    while idx < room && offset + idx < len
                        invariant
                            reg == e[i as int].reg,
                            reg.wf(),
                            0 <= i < e.len(),
                            table_ok(e, b0.len()),
                            reg_contains(reg, addr + offset),
                            room == reg.offset + reg.size - (addr + offset),
                            offset < len,
                            len == data@.len(),
                            addr + len + 8 <= u64::MAX,
                            idx <= room,
                            offset + idx <= len,
                            self.entries() == cur,
                            self.bytes().len() == b0.len(),
                            start.len() == b0.len(),
                            forall|p: int| 0 <= p < b0.len() ==> #[trigger] self.bytes()[p] == if addr + offset <= p < addr
                                + offset + idx {
                                guest_byte(start[p], reg, p, data@[p - addr])
                            } else {
                                start[p]
                            },
                        decreases room - idx,
                    {
                        reg.set_byte_as_guest(self, addr + offset + idx, data[(offset + idx) as usize]);
                        idx = idx + 1;
                    }
                    let ghost o2 = offset + idx;
                    proof {
                        assert forall|p: int| 0 <= p < b0.len() implies #[trigger] self.bytes()[p] == if addr <= p
                            < addr + o2 {
                            target[p]
                        } else {
                            b0[p]
                        } by {
                            if addr + offset <= p < addr + offset + idx {
                                lemma_holder_is(e, b0.len(), p, i as int);
                                assert(start[p] == b0[p]);
                            }
                        }
                    }
                    let val = reg.get_value(self);
                    proof {
                        assert forall|k: nat| k < 8 implies #[trigger] byte_of(val, k) == if k < reg.size {
                            space_byte(target, reg.offset + k)
                        } else {
                            0
                        } by {
                            if k < reg.size {
                                let p = reg.offset + k;
                                if 0 <= p < b0.len() {
                                    assert(self.bytes()[p] == target[p]);
                                }
                            }
                        }
                        assert(holds_value(target, reg, val));
                    }
                    self.notify_write(i, val);
                    proof {
                        assert forall|j: int| 0 <= j < e.len() implies write_heard(
                            e[j],
                            #[trigger] self.entries()[j],
                            target,
                            addr as int,
                            o2,
                        ) by {
                            assert(write_heard(e[j], cur[j], target, addr as int, offset as int));
                            assert(e[j].reg.wf());
                            if j < i {
                                assert(e[j].reg.offset + e[j].reg.size <= e[i as int].reg.offset);
                            } else if j > i {
                                assert(e[i as int].reg.offset + e[i as int].reg.size <= e[j].reg.offset);
                            } else {
                                assert(reg_contains(e[j].reg, addr + offset));
                                if offset > 0 && e[j].reg.offset < addr + offset {
                                    assert(!(e[j].reg.offset < addr + offset < e[j].reg.offset + e[j].reg.size));
                                }
                                assert(!reg_touched(e[j].reg, addr as int, offset as int));
                                assert(cur[j].cb == e[j].cb);
                                assert(reg_touched(e[j].reg, addr as int, o2));
                                match e[j].cb {
                                    Some(c) => {
                                        assert(holds_value(target, e[j].reg, val) && self.entries()[j].cb == Some(
                                            c.after_write(val),
                                        ));
                                    },
                                    None => {},
                                }
                            }
                        }
                        if o2 < len {
                            assert forall|j: int| 0 <= j < e.len() implies !(#[trigger] e[j].reg.offset < addr + o2
                                < e[j].reg.offset + e[j].reg.size) by {
                                if j < i {
                                    assert(e[j].reg.offset + e[j].reg.size <= e[i as int].reg.offset);
                                } else if j > i {
                                    assert(e[i as int].reg.offset + e[i as int].reg.size <= e[j].reg.offset);
                                }
                            }
                        }
                    }
                    offset = offset + idx;
                },
                None => {
                    proof {
                        let p = addr + offset;
                        assert forall|j: int| 0 <= j < e.len() implies !reg_contains(#[trigger] e[j].reg, p) by {
                            assert(write_heard(e[j], self.entries()[j], target, addr as int, offset as int));
                            assert(!reg_contains(self.entries()[j].reg, p));
                        }
                        if 0 <= p < b0.len() {
                            assert(holder(e, p) is None);
                        }
                        assert forall|j: int| 0 <= j < e.len() implies write_heard(
                            e[j],
                            #[trigger] self.entries()[j],
                            target,
                            addr as int,
                            offset + 1,
                        ) by {
                            assert(write_heard(e[j], self.entries()[j], target, addr as int, offset as int));
                            assert(!reg_contains(self.entries()[j].reg, addr + offset));
                            assert(e[j].reg.wf());
                        }
                        assert forall|j: int| 0 <= j < e.len() implies !(#[trigger] e[j].reg.offset < addr + offset + 1
                            < e[j].reg.offset + e[j].reg.size) by {
                            assert(!reg_contains(self.entries()[j].reg, addr + offset));
                            assert(e[j].reg.wf());
                        }
                    }
                    offset = offset + 1;
                },
            }
        }
        proof {
            use_type_invariant(&*self);
        }
        assert(self.bytes() =~= target);
    }
}

} // verus!
