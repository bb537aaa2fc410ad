//! Handles routing to devices in an address space.
use vstd::prelude::*;

verus! {

/// Trait for devices that respond to reads or writes in an arbitrary address space.
///
/// The device does not care where it exists in address space as each method is only given an offset
/// into its allocated portion of address space.
pub trait BusDevice {
    /// Reads at `offset` from this device
    fn read(&self, offset: u64, data: &mut [u8]) {
    }

    /// Writes at `offset` into this device
    fn write(&self, offset: u64, data: &[u8]) {
    }

    /// A vector of device-specific file descriptors that must be kept open
    /// after jailing. Must be called before the process is jailed.
    fn keep_fds(&self) -> Vec<i32> {
        Vec::new()
    }
}

#[derive(Debug)]
pub enum Error {
    /// The insertion failed because the new device overlapped with an old device.
    Overlap,
}

/// A range of `.1` addresses starting at `.0`.
#[derive(Debug, Copy, Clone)]
pub struct BusRange(pub u64, pub u64);

/// `addr` falls in the range.
pub open spec fn range_contains(r: BusRange, addr: int) -> bool {
    r.0 <= addr < r.0 + r.1
}

/// The range shares an address with `[base, base + len)`.
pub open spec fn range_overlaps(r: BusRange, base: int, len: int) -> bool {
    r.0 < base + len && base < r.0 + r.1
}

impl BusRange {
    /// Returns true if `addr` is within the range.
    pub fn contains(&self, addr: u64) -> (r: bool)
        requires
            self.0 + self.1 <= u64::MAX,
        ensures
            r == range_contains(*self, addr as int),
    {
        self.0 <= addr && addr < self.0 + self.1
    }

    /// Returns true if there is overlap with the given range.
    pub fn overlaps(&self, base: u64, len: u64) -> (r: bool)
        requires
            self.0 + self.1 <= u64::MAX,
            base + len <= u64::MAX,
        ensures
            r == range_overlaps(*self, base as int, len as int),
    {
        self.0 < (base + len) && base < self.0 + self.1
    }
}

impl PartialEq for BusRange {
    fn eq(&self, other: &BusRange) -> (r: bool) {
        self.0 == other.0
    }
}

impl vstd::std_specs::cmp::PartialEqSpecImpl for BusRange {
    open spec fn obeys_eq_spec() -> bool {
        true
    }

    open spec fn eq_spec(&self, other: &BusRange) -> bool {
        self.0 == other.0
    }
}

impl Eq for BusRange {

}

// Holds a device and the memory ranges that access it.
pub struct BusItem<D> {
    pub device: D,
    pub ranges: Vec<BusRange>,
}

/// The ranges fit in the 64-bit address space.
pub open spec fn ranges_fit(ranges: Seq<BusRange>) -> bool {
    forall|i: int| 0 <= i < ranges.len() ==> #[trigger] ranges[i].0 + ranges[i].1 <= u64::MAX
}

impl<D> BusItem<D> {
    /// Returns `Some(offset)` if `addr` is contained in a range.
    pub fn addr_offset(&self, addr: u64) -> (r: Option<u64>)
        requires
            ranges_fit(self.ranges@),
        ensures
            match r {
                Some(off) => exists|i: int|
                    0 <= i < self.ranges@.len() && range_contains(self.ranges@[i], addr as int)
                        && off == addr - self.ranges@[i].0 && forall|j: int|
                        0 <= j < i ==> !range_contains(#[trigger] self.ranges@[j], addr as int),
                None => forall|i: int|
                    0 <= i < self.ranges@.len() ==> !range_contains(
                        #[trigger] self.ranges@[i],
                        addr as int,
                    ),
            },
    {
        let mut i: usize = 0;
        while i < self.ranges.len()
            invariant
                i <= self.ranges@.len(),
                ranges_fit(self.ranges@),
                forall|j: int| 0 <= j < i ==> !range_contains(#[trigger] self.ranges@[j], addr as int),
            decreases self.ranges@.len() - i,
        {
            if self.ranges[i].contains(addr) {
                return Some(addr - self.ranges[i].0);
            }
            i = i + 1;
        }
        None
    }
}

/// A device container for routing reads and writes over some address space.
///
/// This doesn't have any restrictions on what kind of device or address space this applies to. The
/// only restriction is that no two devices can overlap in this address space.
pub struct Bus<D> {
    devices: Vec<BusItem<D>>,
}

/// No two of the ranges share an address, and none is empty.
pub open spec fn ranges_disjoint(ranges: Seq<BusRange>) -> bool {
    &&& forall|i: int| 0 <= i < ranges.len() ==> #[trigger] ranges[i].1 > 0
    &&& forall|i: int, j: int|
        0 <= i < j < ranges.len() ==> !range_overlaps(
            #[trigger] ranges[i],
            (#[trigger] ranges[j]).0 as int,
            ranges[j].1 as int,
        )
}

/// On a bus whose ranges do not overlap, an address lies in at most one
/// range: the device an access reaches is determined by its address.
pub proof fn lemma_one_range_holds(ranges: Seq<BusRange>, i: int, j: int, addr: int)
    requires
        ranges_disjoint(ranges),
        0 <= i < ranges.len(),
        0 <= j < ranges.len(),
        range_contains(ranges[i], addr),
        range_contains(ranges[j], addr),
    ensures
        i == j,
{
    if i < j {
        assert(!range_overlaps(ranges[i], ranges[j].0 as int, ranges[j].1 as int));
    } else if j < i {
        assert(!range_overlaps(ranges[j], ranges[i].0 as int, ranges[i].1 as int));
    }
}

impl<D> Bus<D> {
    #[verifier::type_invariant]
    spec fn inv(self) -> bool {
        &&& forall|i: int| 0 <= i < self.devices@.len() ==> #[trigger] self.devices@[i].ranges@.len() == 1
        &&& ranges_fit(self.ranges())
        &&& ranges_disjoint(self.ranges())
    }

    /// One range per device, in insertion order.
    pub closed spec fn ranges(self) -> Seq<BusRange> {
        self.devices@.map_values(|item: BusItem<D>| item.ranges@[0])
    }

    /// The devices, in insertion order.
    pub closed spec fn devices(self) -> Seq<D> {
        self.devices@.map_values(|item: BusItem<D>| item.device)
    }
}

impl<D: BusDevice> Bus<D> {
    /// Constructs an a bus with an empty address space.
    pub fn new() -> (r: Bus<D>)
        ensures
            r.ranges().len() == 0,
            r.devices().len() == 0,
    {
        Bus { devices: Vec::new() }
    }

    /// The offset of `addr` in the device whose range holds it, and that device.
    pub fn get_device(&self, addr: u64) -> (r: Option<(u64, &D)>)
        ensures
            match r {
                Some((off, dev)) => exists|i: int|
                    0 <= i < self.ranges().len() && range_contains(self.ranges()[i], addr as int)
                        && off == addr - self.ranges()[i].0 && *dev == self.devices()[i],
                None => forall|i: int|
                    0 <= i < self.ranges().len() ==> !range_contains(
                        #[trigger] self.ranges()[i],
                        addr as int,
                    ),
            },
            forall|i: int|
                0 <= i < self.ranges().len() && range_contains(#[trigger] self.ranges()[i], addr as int) ==> (r matches Some(
                    x,
                ) && x.0 == addr - self.ranges()[i].0 && *x.1 == self.devices()[i]),
    {
        proof {
            use_type_invariant(self);
        }
        let mut i: usize = 0;
        while i < self.devices.len()
            invariant
                i <= self.devices@.len(),
                forall|j: int| 0 <= j < self.devices@.len() ==> #[trigger] self.devices@[j].ranges@.len() == 1,
                ranges_fit(self.ranges()),
                ranges_disjoint(self.ranges()),
                forall|j: int| 0 <= j < i ==> !range_contains(#[trigger] self.ranges()[j], addr as int),
            decreases self.devices@.len() - i,
        {
            let item = &self.devices[i];
            proof {
                assert(self.ranges()[i as int] == item.ranges@[0]);
                assert(ranges_fit(item.ranges@));
            }
            match item.addr_offset(addr) {
                Some(offset) => {
                    proof {
                        assert(range_contains(self.ranges()[i as int], addr as int));
                        assert(self.devices()[i as int] == item.device);
                        assert forall|k: int|
                            0 <= k < self.ranges().len() && range_contains(#[trigger] self.ranges()[k], addr as int) implies k == i by {
                            lemma_one_range_holds(self.ranges(), k, i as int, addr as int);
                        }
                    }
                    return Some((offset, &item.device));
                },
                None => {},
            }
            i = i + 1;
        }
        None
    }

    /// Puts the given device at the given address space.
    pub fn insert(&mut self, device: D, base: u64, len: u64) -> (r: Result<(), Error>)
        requires
            base + len <= u64::MAX,
        ensures
            r is Ok <==> len > 0 && forall|i: int|
                0 <= i < old(self).ranges().len() ==> !range_overlaps(
                    #[trigger] old(self).ranges()[i],
                    base as int,
                    len as int,
                ),
            r is Ok ==> final(self).ranges() == old(self).ranges().push(BusRange(base, len))
                && final(self).devices() == old(self).devices().push(device),
            r is Err ==> final(self).ranges() == old(self).ranges() && final(self).devices() == old(
                self,
            ).devices(),
            ranges_disjoint(final(self).ranges()),
    {
        proof {
            use_type_invariant(&*self);
        }
        if len == 0 {
            return Err(Error::Overlap);
        }
        // Reject all cases where the new device's range overlaps with an existing device.

        let mut i: usize = 0;
        while i < self.devices.len()
            invariant
                i <= self.devices@.len(),
                base + len <= u64::MAX,
                forall|j: int| 0 <= j < self.devices@.len() ==> #[trigger] self.devices@[j].ranges@.len() == 1,
                ranges_fit(self.ranges()),
                ranges_disjoint(self.ranges()),
                forall|j: int|
                    0 <= j < i ==> !range_overlaps(#[trigger] self.ranges()[j], base as int, len as int),
            decreases self.devices@.len() - i,
        {
            let item = &self.devices[i];
            proof {
                assert(self.ranges()[i as int] == item.ranges@[0]);
            }
            let mut k: usize = 0;
            let mut any = false;
            while k < item.ranges.len()
                invariant
                    item.ranges@.len() == 1,
                    k <= 1,
                    item.ranges@[0] == self.ranges()[i as int],
                    ranges_fit(self.ranges()),
                    base + len <= u64::MAX,
                    i < self.devices@.len(),
                    any == (k > 0 && range_overlaps(item.ranges@[0], base as int, len as int)),
                decreases item.ranges@.len() - k,
            {
                if item.ranges[k].overlaps(base, len) {
                    any = true;
                }
                k = k + 1;
            }
            if any {
                return Err(Error::Overlap);
            }
            i = i + 1;
        }
        let mut ranges: Vec<BusRange> = Vec::new();
        ranges.push(BusRange(base, len));
        let ghost old_ranges = self.ranges();
        let mut devices: Vec<BusItem<D>> = Vec::new();
        std::mem::swap(&mut devices, &mut self.devices);
        devices.push(BusItem { device, ranges });
        proof {
            let nr = devices@.map_values(|item: BusItem<D>| item.ranges@[0]);
            assert(nr =~= old_ranges.push(BusRange(base, len)));
            assert forall|a: int, b: int| 0 <= a < b < nr.len() implies !range_overlaps(
                #[trigger] nr[a],
                (#[trigger] nr[b]).0 as int,
                nr[b].1 as int,
            ) by {
                if b == nr.len() - 1 {
                    assert(!range_overlaps(old_ranges[a], base as int, len as int));
                }
            }
        }
        self.devices = devices;
        proof {
            assert(self.ranges() =~= old_ranges.push(BusRange(base, len)));
            assert(self.devices() =~= old(self).devices().push(device));
            use_type_invariant(&*self);
        }
        Ok(())
    }

    /// Reads data from the device that owns the range containing `addr` and puts it into `data`.
    ///
    /// Returns true on success, otherwise `data` is untouched.
    pub fn read(&self, addr: u64, data: &mut [u8]) -> (r: bool)
        ensures
            r == exists|i: int|
                0 <= i < self.ranges().len() && range_contains(self.ranges()[i], addr as int),
            !r ==> final(data)@ == old(data)@,
    {
        if let Some((offset, dev)) = self.get_device(addr) {
            dev.read(offset, data);
            true
        } else {
            false
        }
    }

    /// Writes `data` to the device that owns the range containing `addr`.
    ///
    /// Returns true on success, otherwise `data` is untouched.
    pub fn write(&self, addr: u64, data: &[u8]) -> (r: bool)
        ensures
            r == exists|i: int|
                0 <= i < self.ranges().len() && range_contains(self.ranges()[i], addr as int),
    {
        if let Some((offset, dev)) = self.get_device(addr) {
            dev.write(offset, data);
            true
        } else {
            false
        }
    }
}

} // verus!
