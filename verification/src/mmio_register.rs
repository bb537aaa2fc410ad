//! Registers of a memory-mapped I/O BAR, as seen by a guest driver.
use crate::bits::{
    byte_of, get_byte_u64, lemma_byte_in_mask, masked_byte, set_byte_u64, size_mask, valid_size,
};
use vstd::prelude::*;

verus! {

/// Type of offset in the bar.
pub type BarOffset = u64;

/// This represents a range of memory in the MMIO space starting from Bar.
/// Both from and to are inclusive.
#[derive(Debug, Copy, Clone)]
pub struct BarRange {
    pub from: BarOffset,
    pub to: BarOffset,
}

impl PartialEq for BarRange {
    fn eq(&self, other: &BarRange) -> (r: bool) {
        self.from == other.from
    }
}

impl vstd::std_specs::cmp::PartialEqSpecImpl for BarRange {
    open spec fn obeys_eq_spec() -> bool {
        true
    }

    open spec fn eq_spec(&self, other: &BarRange) -> bool {
        self.from == other.from
    }
}

impl Eq for BarRange {

}

/// Two inclusive ranges share at least one offset.
pub open spec fn ranges_overlap(a: BarRange, b: BarRange) -> bool {
    !(a.from > b.to || a.to < b.from)
}

impl BarRange {
    /// Return true if those range overlaps.
    pub fn overlap_with(&self, other: &BarRange) -> (r: bool)
        ensures
            r == ranges_overlap(*self, *other),
    {
        if self.from > other.to || self.to < other.from {
            return false;
        }
        return true;
    }

    /// Get the overlap part of two BarRange.
    /// For example, (4,7).overlap_range(5, 8) will be (5, 7).
    pub fn overlap_range(&self, other: &BarRange) -> (r: Option<BarRange>)
        ensures
            r == (if ranges_overlap(*self, *other) {
                Some(
                    BarRange {
                        from: if self.from >= other.from {
                            self.from
                        } else {
                            other.from
                        },
                        to: if self.to <= other.to {
                            self.to
                        } else {
                            other.to
                        },
                    },
                )
            } else {
                None
            }),
    {
        if !self.overlap_with(other) {
            return None;
        }
        let from = if self.from >= other.from {
            self.from
        } else {
            other.from
        };
        let to = if self.to <= other.to {
            self.to
        } else {
            other.to
        };
        Some(BarRange { from, to })
    }
}

/// RegisterValue trait should be satisfied by register value types.
pub trait RegisterValue: Copy + Sized {
    /// The value as an unsigned 64-bit integer.
    spec fn spec_value(&self) -> u64;

    /// Width of the type in bytes.
    spec fn spec_size() -> nat;

    proof fn lemma_value_bound(x: Self)
        ensures
            valid_size(Self::spec_size()),
            x.spec_value() & size_mask(Self::spec_size()) == x.spec_value(),
    ;

    /// Width of the type in bytes.
    fn size() -> (r: usize)
        ensures
            r as nat == Self::spec_size(),
    ;

    /// Widens the value to 64 bits.
    fn to_u64(&self) -> (r: u64)
        ensures
            r == self.spec_value(),
    ;

    /// The value of this type whose 64-bit widening is `v` truncated to the
    /// type's width.
    spec fn spec_from_u64(v: u64) -> Self;

    proof fn lemma_from_u64(v: u64)
        ensures
            Self::spec_from_u64(v).spec_value() == v & size_mask(Self::spec_size()),
    ;

    /// Truncates a 64-bit value to this type.
    fn from_u64(v: u64) -> (r: Self)
        ensures
            r == Self::spec_from_u64(v),
            r.spec_value() == v & size_mask(Self::spec_size()),
    ;

    // Get byte of the offset.
    fn get_byte(&self, offset: usize) -> (r: u8)
        requires
            offset < 8,
        ensures
            r == byte_of(self.spec_value(), offset as nat),
    {
        let val: u64 = self.to_u64();
        get_byte_u64(val, offset)
    }

    // Set masked bits.
    fn set_bits(&mut self, mask: Self)
        ensures
            final(self).spec_value() == old(self).spec_value() | mask.spec_value(),
    {
        proof {
            Self::lemma_value_bound(*self);
            Self::lemma_value_bound(mask);
        }
        let a = self.to_u64();
        let b = mask.to_u64();
        let ghost m = size_mask(Self::spec_size());
        assert((a | b) & m == a | b) by (bit_vector)
            requires
                a & m == a,
                b & m == b,
        ;
        *self = Self::from_u64(a | b);
    }

    // Clear masked bits.
    fn clear_bits(&mut self, mask: Self)
        ensures
            final(self).spec_value() == old(self).spec_value() & !mask.spec_value(),
    {
        proof {
            Self::lemma_value_bound(*self);
        }
        let a = self.to_u64();
        let b = mask.to_u64();
        let ghost m = size_mask(Self::spec_size());
        assert((a & !b) & m == a & !b) by (bit_vector)
            requires
                a & m == a,
        ;
        *self = Self::from_u64(a & !b);
    }
}

impl RegisterValue for u8 {
    open spec fn spec_value(&self) -> u64 {
        *self as u64
    }

    open spec fn spec_size() -> nat {
        1
    }

    proof fn lemma_value_bound(x: Self) {
        assert(<u8 as RegisterValue>::spec_size() == 1);
        assert((x as u64) & 0xff == x as u64) by (bit_vector);
    }

    fn size() -> (r: usize) {
        1
    }

    fn to_u64(&self) -> (r: u64) {
        *self as u64
    }

    open spec fn spec_from_u64(v: u64) -> Self {
        (v & 0xff) as u8
    }

    proof fn lemma_from_u64(v: u64) {
        assert(<u8 as RegisterValue>::spec_size() == 1);
        assert((v & 0xff) as u8 as u64 == v & 0xff) by (bit_vector);
        assert(<u8 as RegisterValue>::spec_from_u64(v) == (v & 0xff) as u8);
        assert(<u8 as RegisterValue>::spec_from_u64(v).spec_value() == (v & 0xff) as u8 as u64);
    }

    fn from_u64(v: u64) -> (r: Self) {
        proof {
            Self::lemma_from_u64(v);
        }
        (v & 0xff) as u8
    }
}

impl RegisterValue for u16 {
    open spec fn spec_value(&self) -> u64 {
        *self as u64
    }

    open spec fn spec_size() -> nat {
        2
    }

    proof fn lemma_value_bound(x: Self) {
        assert(<u16 as RegisterValue>::spec_size() == 2);
        assert((x as u64) & 0xffff == x as u64) by (bit_vector);
    }

    fn size() -> (r: usize) {
        2
    }

    fn to_u64(&self) -> (r: u64) {
        *self as u64
    }

    open spec fn spec_from_u64(v: u64) -> Self {
        (v & 0xffff) as u16
    }

    proof fn lemma_from_u64(v: u64) {
        assert(<u16 as RegisterValue>::spec_size() == 2);
        assert((v & 0xffff) as u16 as u64 == v & 0xffff) by (bit_vector);
        assert(<u16 as RegisterValue>::spec_from_u64(v) == (v & 0xffff) as u16);
        assert(<u16 as RegisterValue>::spec_from_u64(v).spec_value() == (v & 0xffff) as u16 as u64);
    }

    fn from_u64(v: u64) -> (r: Self) {
        proof {
            Self::lemma_from_u64(v);
        }
        (v & 0xffff) as u16
    }
}

impl RegisterValue for u32 {
    open spec fn spec_value(&self) -> u64 {
        *self as u64
    }

    open spec fn spec_size() -> nat {
        4
    }

    proof fn lemma_value_bound(x: Self) {
        assert(<u32 as RegisterValue>::spec_size() == 4);
        assert((x as u64) & 0xffff_ffff == x as u64) by (bit_vector);
    }

    fn size() -> (r: usize) {
        4
    }

    fn to_u64(&self) -> (r: u64) {
        *self as u64
    }

    open spec fn spec_from_u64(v: u64) -> Self {
        (v & 0xffff_ffff) as u32
    }

    proof fn lemma_from_u64(v: u64) {
        assert(<u32 as RegisterValue>::spec_size() == 4);
        assert((v & 0xffff_ffff) as u32 as u64 == v & 0xffff_ffff) by (bit_vector);
        assert(<u32 as RegisterValue>::spec_from_u64(v) == (v & 0xffff_ffff) as u32);
        assert(<u32 as RegisterValue>::spec_from_u64(v).spec_value() == (v & 0xffff_ffff) as u32 as u64);
    }

    fn from_u64(v: u64) -> (r: Self) {
        proof {
            Self::lemma_from_u64(v);
        }
        (v & 0xffff_ffff) as u32
    }
}

impl RegisterValue for u64 {
    open spec fn spec_value(&self) -> u64 {
        *self
    }

    open spec fn spec_size() -> nat {
        8
    }

    proof fn lemma_value_bound(x: Self) {
        assert(<u64 as RegisterValue>::spec_size() == 8);
        assert(x & 0xffff_ffff_ffff_ffff == x) by (bit_vector);
    }

    fn size() -> (r: usize) {
        8
    }

    fn to_u64(&self) -> (r: u64) {
        *self
    }

    open spec fn spec_from_u64(v: u64) -> Self {
        v
    }

    proof fn lemma_from_u64(v: u64) {
        assert(<u64 as RegisterValue>::spec_size() == 8);
        assert(v & 0xffff_ffff_ffff_ffff == v) by (bit_vector);
        assert(<u64 as RegisterValue>::spec_from_u64(v).spec_value() == v);
    }

    fn from_u64(v: u64) -> (r: Self) {
        proof {
            Self::lemma_from_u64(v);
        }
        v
    }
}


/// What a guest read of `old.len()` bytes at `addr` leaves in its buffer
/// when a value `val` occupies `val_range`: every byte of the buffer whose
/// offset falls in the range holds the matching byte of the value, the
/// others keep what they held.
pub open spec fn read_view(old: Seq<u8>, val: u64, val_range: BarRange, addr: u64) -> Seq<u8> {
    Seq::new(
        old.len(),
        |i: int|
            if val_range.from <= addr + i <= val_range.to {
                byte_of(val, (addr + i - val_range.from) as nat)
            } else {
                old[i]
            },
    )
}

/// The inclusive range `[offset, offset + size - 1]`.
pub open spec fn range_of(offset: u64, size: nat) -> BarRange {
    BarRange { from: offset, to: (offset + size - 1) as u64 }
}

/// A guest access of `len` bytes at `addr` that stays in the 64-bit offset space.
pub open spec fn valid_access(addr: u64, len: nat) -> bool {
    0 < len && addr + len <= u64::MAX
}

// Helper function to read a register. If the read range overlaps with value's range, it will load
// corresponding bytes into data.
fn read_reg_helper<T: RegisterValue>(val: T, val_range: BarRange, addr: BarOffset, data: &mut [u8])
    requires
        valid_access(addr, old(data)@.len()),
        val_range.from <= val_range.to,
        val_range.to - val_range.from < 8,
    ensures
        final(data)@ == read_view(old(data)@, val.spec_value(), val_range, addr),
{
    let len = data.len();
    let read_range = BarRange { from: addr, to: addr + len as u64 - 1 };
    if !val_range.overlap_with(&read_range) {
        assert(final(data)@ =~= read_view(old(data)@, val.spec_value(), val_range, addr));
        return ;
    }
    let overlap = val_range.overlap_range(&read_range).unwrap();
    let val_start_idx = (overlap.from - val_range.from) as usize;
    let read_start_idx = (overlap.from - read_range.from) as usize;
    let total_size = (overlap.to - overlap.from) as usize + 1;
    let mut i: usize = 0;
    while i < total_size
        invariant
            len == data@.len(),
            len == old(data)@.len(),
            i <= total_size,
            total_size == overlap.to - overlap.from + 1,
            val_start_idx == overlap.from - val_range.from,
            read_start_idx == overlap.from - addr,
            read_range.from == addr,
            read_range.to == addr + len - 1,
            overlap.from == if val_range.from >= addr {
                val_range.from
            } else {
                addr
            },
            overlap.to == if val_range.to <= read_range.to {
                val_range.to
            } else {
                read_range.to
            },
            overlap.from <= overlap.to,
            val_range.from <= val_range.to,
            val_range.to - val_range.from < 8,
            forall|j: int|
                0 <= j < len ==> #[trigger] data@[j] == if read_start_idx <= j < read_start_idx + i {
                    byte_of(val.spec_value(), (addr + j - val_range.from) as nat)
                } else {
                    old(data)@[j]
                },
        decreases total_size - i,
    {
        let b = val.get_byte(val_start_idx + i);
        data[read_start_idx + i] = b;
        i = i + 1;
    }
    assert(final(data)@ =~= read_view(old(data)@, val.spec_value(), val_range, addr));
}

/// Interface for register, as seen by guest driver.
pub trait RegisterInterface {
    /// Bar range of this register.
    fn bar_range(&self) -> BarRange;

    /// Handle read bar.
    fn read_bar(&self, addr: BarOffset, data: &mut [u8])
        requires
            valid_access(addr, old(data)@.len()),
    ;

    /// Handle write bar.
    fn write_bar(&mut self, addr: BarOffset, data: &[u8])
        requires
            valid_access(addr, data@.len()),
    {
    }

    /// Reset this register to default value.
    fn reset(&mut self) {
    }
}

// Spec for hardware init Read Only Registers.
// The value of this register won't change.
pub struct StaticRegisterSpec<T: RegisterValue> {
    pub offset: BarOffset,
    pub value: T,
}

/// A static register is a register inited by hardware. The value won't change in it's lifetime.
pub struct StaticRegister<T> where T: RegisterValue {
    spec: StaticRegisterSpec<T>,
}

impl<T> StaticRegister<T> where T: RegisterValue {
    #[verifier::type_invariant]
    spec fn inv(self) -> bool {
        self.spec.offset + T::spec_size() - 1 <= u64::MAX
    }

    /// Offset of the register in the bar.
    pub closed spec fn offset(self) -> u64 {
        self.spec.offset
    }

    /// The value that the hardware set.
    pub closed spec fn value(self) -> T {
        self.spec.value
    }

    /// Create an new static register from spec.
    pub fn new(spec: StaticRegisterSpec<T>) -> (r: StaticRegister<T>)
        requires
            spec.offset + T::spec_size() - 1 <= u64::MAX,
        ensures
            r.offset() == spec.offset,
            r.value() == spec.value,
    {
        StaticRegister { spec }
    }
}

impl<T> RegisterInterface for StaticRegister<T> where T: RegisterValue {
    fn bar_range(&self) -> (r: BarRange)
        ensures
            r == range_of(self.offset(), T::spec_size()),
    {
        proof {
            use_type_invariant(self);
            T::lemma_value_bound(self.spec.value);
        }
        BarRange { from: self.spec.offset, to: self.spec.offset + ((T::size() as u64) - 1) }
    }

    fn read_bar(&self, addr: BarOffset, data: &mut [u8])
        ensures
            final(data)@ == read_view(
                old(data)@,
                self.value().spec_value(),
                range_of(self.offset(), T::spec_size()),
                addr,
            ),
    {
        proof {
            use_type_invariant(self);
            T::lemma_value_bound(self.spec.value);
        }
        let val_range = self.bar_range();
        read_reg_helper(self.spec.value, val_range, addr, data);
    }
}


/// Spec for a regular register. It specifies it's location on bar, guest writable mask and guest
/// write to clear mask.
pub struct RegisterSpec<T> {
    pub name: String,
    pub offset: BarOffset,
    pub reset_value: T,
    /// Only masked bits could be written by guest.
    pub guest_writeable_mask: T,
    /// When write 1 to bits masked, those bits will be cleared. See Xhci spec 5.1
    /// for more details.
    pub guest_write_1_to_clear_mask: T,
}

/// Invoked with the value a guest write produced; what it returns becomes
/// the register's value. The callback may keep state of its own, which
/// each call advances.
pub trait RegisterWriteCallback<T>: Sized {
    /// The value the callback makes of `value`.
    spec fn spec_call(&self, value: T) -> T;

    /// The callback after it was called with `value`.
    spec fn after_call(self, value: T) -> Self;

    fn call(&mut self, value: T) -> (r: T)
        ensures
            r == old(self).spec_call(value),
            *final(self) == old(self).after_call(value),
    ;
}

/// The callback type of a register that has none.
pub struct NoWriteCallback;

impl<T> RegisterWriteCallback<T> for NoWriteCallback {
    open spec fn spec_call(&self, value: T) -> T {
        value
    }

    open spec fn after_call(self, value: T) -> Self {
        self
    }

    fn call(&mut self, value: T) -> (r: T) {
        value
    }
}

/// Byte `k` of a register at offset `from` after a guest write of `data` at
/// `addr`: bytes the write covers go through the masks, the others keep
/// their value.
pub open spec fn guest_write_byte(
    old: u64,
    w_mask: u64,
    w1c_mask: u64,
    from: u64,
    addr: u64,
    data: Seq<u8>,
    k: nat,
) -> u8 {
    if addr <= from + k < addr + data.len() {
        masked_byte(
            byte_of(old, k),
            data[from + k - addr],
            byte_of(w_mask, k),
            byte_of(w1c_mask, k),
        )
    } else {
        byte_of(old, k)
    }
}

/// `new` is the `size`-byte value that a guest write of `data` at `addr`
/// makes of `old`, for a register at offset `from`.
pub open spec fn is_guest_write(
    new: u64,
    old: u64,
    w_mask: u64,
    w1c_mask: u64,
    from: u64,
    addr: u64,
    data: Seq<u8>,
    size: nat,
) -> bool {
    &&& new & size_mask(size) == new
    &&& forall|k: nat|
        k < size ==> #[trigger] byte_of(new, k) == guest_write_byte(
            old,
            w_mask,
            w1c_mask,
            from,
            addr,
            data,
            k,
        )
}

/// A guest write that covers a whole register, then a guest read of the
/// whole register: each byte read back is the old byte with the written
/// byte let through the register's masks.
pub proof fn lemma_register_write_then_read(
    new: u64,
    old: u64,
    w_mask: u64,
    w1c_mask: u64,
    from: u64,
    data: Seq<u8>,
    size: nat,
    buf: Seq<u8>,
)
    requires
        valid_size(size),
        from + size <= u64::MAX,
        data.len() == size,
        buf.len() == size,
        is_guest_write(new, old, w_mask, w1c_mask, from, from, data, size),
    ensures
        forall|k: int|
            0 <= k < size ==> #[trigger] read_view(buf, new, range_of(from, size), from)[k] == masked_byte(
                byte_of(old, k as nat),
                data[k],
                byte_of(w_mask, k as nat),
                byte_of(w1c_mask, k as nat),
            ),
{
    assert forall|k: int| 0 <= k < size implies #[trigger] read_view(buf, new, range_of(from, size), from)[k] == masked_byte(
        byte_of(old, k as nat),
        data[k],
        byte_of(w_mask, k as nat),
        byte_of(w1c_mask, k as nat),
    ) by {
        assert(byte_of(new, k as nat) == guest_write_byte(old, w_mask, w1c_mask, from, from, data, k as nat));
    }
}

/// Register is a register whose value a guest can write through its masks.
pub struct Register<T: RegisterValue, C = NoWriteCallback> {
    spec: RegisterSpec<T>,
    value: T,
    write_cb: Option<C>,
}

impl<T: RegisterValue, C> Register<T, C> {
    #[verifier::type_invariant]
    spec fn inv(self) -> bool {
        self.spec.offset + T::spec_size() - 1 <= u64::MAX
    }

    /// Offset of the register in the bar.
    pub closed spec fn offset(self) -> u64 {
        self.spec.offset
    }

    /// Current value.
    pub closed spec fn value(self) -> T {
        self.value
    }

    /// Value that `reset` restores.
    pub closed spec fn reset_value(self) -> T {
        self.spec.reset_value
    }

    /// Bits a guest may write.
    pub closed spec fn writeable_mask(self) -> T {
        self.spec.guest_writeable_mask
    }

    /// Bits a guest clears by writing 1.
    pub closed spec fn w1c_mask(self) -> T {
        self.spec.guest_write_1_to_clear_mask
    }

    /// A write callback is installed.
    pub closed spec fn has_write_cb(self) -> bool {
        self.write_cb is Some
    }

    /// The write callback, if one is installed.
    pub closed spec fn write_cb(self) -> Option<C> {
        self.write_cb
    }

    /// Everything but the value is the same in both registers.
    pub open spec fn same_layout<D>(self, other: Register<T, D>) -> bool {
        &&& self.offset() == other.offset()
        &&& self.reset_value() == other.reset_value()
        &&& self.writeable_mask() == other.writeable_mask()
        &&& self.w1c_mask() == other.w1c_mask()
    }
}

impl<T: RegisterValue> Register<T, NoWriteCallback> {
    pub fn new(spec: RegisterSpec<T>, val: T) -> (r: Self)
        requires
            spec.offset + T::spec_size() - 1 <= u64::MAX,
        ensures
            r.offset() == spec.offset,
            r.value() == val,
            r.reset_value() == spec.reset_value,
            r.writeable_mask() == spec.guest_writeable_mask,
            r.w1c_mask() == spec.guest_write_1_to_clear_mask,
            !r.has_write_cb(),
    {
        Register { spec, value: val, write_cb: None }
    }
}

impl<T: RegisterValue, C: RegisterWriteCallback<T>> Register<T, C> {
    /// Get current value of this register.
    pub fn get_value(&self) -> (r: T)
        ensures
            r == self.value(),
    {
        self.value
    }

    /// This function apply "write 1 to clear mask" and "guest writeable mask".
    /// All write operations should go through this, the result of this function
    /// is the new state of correspoding byte.
    pub fn apply_write_masks_to_byte(&self, old_byte: u8, write_byte: u8, offset: usize) -> (r: u8)
        requires
            offset < 8,
        ensures
            r == masked_byte(
                old_byte,
                write_byte,
                byte_of(self.writeable_mask().spec_value(), offset as nat),
                byte_of(self.w1c_mask().spec_value(), offset as nat),
            ),
    {
        let guest_write_1_to_clear_mask: u64 = self.spec.guest_write_1_to_clear_mask.to_u64();
        let guest_writeable_mask: u64 = self.spec.guest_writeable_mask.to_u64();
        // Mask with w1c mask.
        let w1c_mask = get_byte_u64(guest_write_1_to_clear_mask, offset);
        let val = (!w1c_mask & write_byte) | (w1c_mask & old_byte & !write_byte);
        // Mask with writable mask.
        let w_mask = get_byte_u64(guest_writeable_mask, offset);
        (old_byte & (!w_mask)) | (val & w_mask)
    }

    /// Set a callback. It will be invoked when bar write happens.
    pub fn set_write_cb<D: RegisterWriteCallback<T>>(self, callback: D) -> (r: Register<T, D>)
        ensures
            r.same_layout(self),
            r.value() == self.value(),
            r.has_write_cb(),
            r.write_cb() == Some(callback),
    {
        proof {
            use_type_invariant(&self);
        }
        Register { spec: self.spec, value: self.value, write_cb: Some(callback) }
    }

    /// The write callback, if one is installed.
    pub fn get_write_cb(&self) -> (r: Option<&C>)
        ensures
            match r {
                Some(c) => self.write_cb() == Some(*c),
                None => self.write_cb() is None,
            },
    {
        match &self.write_cb {
            Some(c) => Some(c),
            None => None,
        }
    }

    /// Set value from device side. Callback won't be invoked.
    pub fn set_value(&mut self, val: T)
        ensures
            final(self).same_layout(*old(self)),
            final(self).has_write_cb() == old(self).has_write_cb(),
            final(self).value() == val,
    {
        proof {
            use_type_invariant(&*self);
        }
        self.value = val;
    }

    /// Set masked bits.
    pub fn set_bits(&mut self, mask: T)
        ensures
            final(self).same_layout(*old(self)),
            final(self).has_write_cb() == old(self).has_write_cb(),
            final(self).value().spec_value() == old(self).value().spec_value() | mask.spec_value(),
    {
        proof {
            use_type_invariant(&*self);
        }
        let mut v = self.value;
        v.set_bits(mask);
        self.value = v;
    }

    /// Clear masked bits.
    pub fn clear_bits(&mut self, mask: T)
        ensures
            final(self).same_layout(*old(self)),
            final(self).has_write_cb() == old(self).has_write_cb(),
            final(self).value().spec_value() == old(self).value().spec_value()
                & !mask.spec_value(),
    {
        proof {
            use_type_invariant(&*self);
        }
        let mut v = self.value;
        v.clear_bits(mask);
        self.value = v;
    }
}

impl<T: RegisterValue, C: RegisterWriteCallback<T>> RegisterInterface for Register<T, C> {
    fn bar_range(&self) -> (r: BarRange)
        ensures
            r == range_of(self.offset(), T::spec_size()),
    {
        proof {
            use_type_invariant(self);
            T::lemma_value_bound(self.value);
        }
        BarRange { from: self.spec.offset, to: self.spec.offset + ((T::size() as u64) - 1) }
    }

    fn read_bar(&self, addr: BarOffset, data: &mut [u8])
        ensures
            final(data)@ == read_view(
                old(data)@,
                self.value().spec_value(),
                range_of(self.offset(), T::spec_size()),
                addr,
            ),
    {
        proof {
            use_type_invariant(self);
            T::lemma_value_bound(self.value);
        }
        let val_range = self.bar_range();
        read_reg_helper(self.value, val_range, addr, data);
    }

    fn write_bar(&mut self, addr: BarOffset, data: &[u8])
        ensures
            final(self).same_layout(*old(self)),
            final(self).has_write_cb() == old(self).has_write_cb(),
            !ranges_overlap(range_of(old(self).offset(), T::spec_size()), range_of(addr, data@.len())) ==> *final(self)
                == *old(self),
            ranges_overlap(range_of(old(self).offset(), T::spec_size()), range_of(addr, data@.len())) ==> (
            old(self).write_cb() matches Some(cb) ==> exists|v: T|
                #![trigger cb.spec_call(v)]
                final(self).write_cb() == Some(cb.after_call(v)) && is_guest_write(
                    v.spec_value(),
                    old(self).value().spec_value(),
                    old(self).writeable_mask().spec_value(),
                    old(self).w1c_mask().spec_value(),
                    old(self).offset(),
                    addr,
                    data@,
                    T::spec_size(),
                ) && final(self).value() == cb.spec_call(v)),
            !old(self).has_write_cb() ==> is_guest_write(
                final(self).value().spec_value(),
                old(self).value().spec_value(),
                old(self).writeable_mask().spec_value(),
                old(self).w1c_mask().spec_value(),
                old(self).offset(),
                addr,
                data@,
                T::spec_size(),
            ),
    {
        proof {
            use_type_invariant(&*self);
            T::lemma_value_bound(self.value);
        }
        let my_range = self.bar_range();
        let len = data.len();
        let write_range = BarRange { from: addr, to: addr + len as u64 - 1 };
        let ghost old_v = self.value.spec_value();
        let ghost size = T::spec_size();
        let ghost from = self.spec.offset;
        let ghost wm = self.spec.guest_writeable_mask.spec_value();
        let ghost cm = self.spec.guest_write_1_to_clear_mask.spec_value();
        if !my_range.overlap_with(&write_range) {
            assert forall|k: nat| k < size implies #[trigger] byte_of(old_v, k) == guest_write_byte(
                old_v,
                wm,
                cm,
                from,
                addr,
                data@,
                k,
            ) by {}
            return ;
        }
        let overlap = my_range.overlap_range(&write_range).unwrap();
        let my_start_idx = (overlap.from - my_range.from) as usize;
        let write_start_idx = (overlap.from - write_range.from) as usize;
        let total_size = (overlap.to - overlap.from) as usize + 1;
        let mut v: u64 = self.value.to_u64();
        let mut i: usize = 0;
        while i < total_size
            invariant
                len == data@.len(),
                valid_size(size),
                size == T::spec_size(),
                from == self.spec.offset,
                old_v == self.value.spec_value(),
                wm == self.spec.guest_writeable_mask.spec_value(),
                cm == self.spec.guest_write_1_to_clear_mask.spec_value(),
                my_range == range_of(from, size),
                write_range.from == addr,
                write_range.to == addr + len - 1,
                overlap.from == if from >= addr {
                    from
                } else {
                    addr
                },
                overlap.to == if my_range.to <= write_range.to {
                    my_range.to
                } else {
                    write_range.to
                },
                overlap.from <= overlap.to,
                my_start_idx == overlap.from - from,
                write_start_idx == overlap.from - addr,
                total_size == overlap.to - overlap.from + 1,
                i <= total_size,
                v & size_mask(size) == v,
                forall|k: nat|
                    k < 8 ==> #[trigger] byte_of(v, k) == if my_start_idx <= k < my_start_idx
                        + i {
                        masked_byte(
                            byte_of(old_v, k),
                            data@[write_start_idx + k - my_start_idx],
                            byte_of(wm, k),
                            byte_of(cm, k),
                        )
                    } else {
                        byte_of(old_v, k)
                    },
            decreases total_size - i,
        {
            let k = my_start_idx + i;
            let old_b = get_byte_u64(v, k);
            let nb = self.apply_write_masks_to_byte(old_b, data[write_start_idx + i], k);
            proof {
                lemma_byte_in_mask(nb, k as u64, size as u64);
            }
            v = set_byte_u64(v, k, nb);
            i = i + 1;
        }
        proof {
            assert forall|k: nat| k < size implies #[trigger] byte_of(v, k) == guest_write_byte(
                old_v,
                wm,
                cm,
                from,
                addr,
                data@,
                k,
            ) by {}
        }
        let reg_value = T::from_u64(v);
        let mut slot: Option<C> = None;
        std::mem::swap(&mut slot, &mut self.write_cb);
        match slot {
            None => {
                self.value = reg_value;
            },
            Some(mut cb) => {
                let nv = cb.call(reg_value);
                self.value = nv;
                self.write_cb = Some(cb);
                assert(is_guest_write(
                    reg_value.spec_value(),
                    old_v,
                    wm,
                    cm,
                    from,
                    addr,
                    data@,
                    size,
                ));
            },
        }
    }

    fn reset(&mut self)
        ensures
            final(self).same_layout(*old(self)),
            final(self).has_write_cb() == old(self).has_write_cb(),
            final(self).value() == old(self).reset_value(),
    {
        proof {
            use_type_invariant(&*self);
        }
        self.value = self.spec.reset_value;
    }
}

} // verus!
