//! A model of a guest's physical memory: non-overlapping regions of bytes.
use vstd::prelude::*;

verus! {

/// An address in guest physical memory.
#[derive(Debug, Copy, Clone, PartialEq, Eq, Structural)]
pub struct GuestAddress(pub u64);

impl GuestAddress {
    /// The address `other` bytes further, if it does not overflow.
    pub fn checked_add(&self, other: u64) -> (r: Option<GuestAddress>)
        ensures
            r == if self.0 + other <= u64::MAX {
                Some(GuestAddress((self.0 + other) as u64))
            } else {
                None
            },
    {
        match self.0.checked_add(other) {
            Some(a) => Some(GuestAddress(a)),
            None => None,
        }
    }

    /// The address as an offset from zero.
    pub fn offset(&self) -> (r: u64)
        ensures
            r == self.0,
    {
        self.0
    }
}

#[derive(Debug, PartialEq, Eq, Structural)]
pub enum Error {
    /// No region was given.
    NoMemoryRegions,
    /// A region starts before the end of the region given before it.
    MemoryRegionOverlap,
    /// The address is not in any region, or the access crosses a region's end.
    InvalidGuestAddress(GuestAddress),
}

struct MemoryRegion {
    guest_base: u64,
    bytes: Vec<u8>,
}

/// Guest memory: regions in increasing address order, none overlapping.
pub struct GuestMemory {
    regions: Vec<MemoryRegion>,
}

/// Regions `(base, bytes)` are in increasing order, do not overlap and end
/// inside the 64-bit address space.
pub open spec fn regions_ok(r: Seq<(u64, Seq<u8>)>) -> bool {
    &&& forall|i: int| 0 <= i < r.len() ==> #[trigger] r[i].0 + r[i].1.len() <= u64::MAX
    &&& forall|i: int, j: int|
        0 <= i < j < r.len() ==> #[trigger] r[i].0 + r[i].1.len() <= #[trigger] r[j].0
}

/// The `n` bytes at `addr`, when they all lie in one region.
pub open spec fn bytes_at(r: Seq<(u64, Seq<u8>)>, addr: int, n: nat) -> Option<Seq<u8>> {
    if exists|i: int| 0 <= i < r.len() && (#[trigger] r[i]).0 <= addr && addr + n <= r[i].0 + r[i].1.len() {
        let i = choose|i: int| 0 <= i < r.len() && (#[trigger] r[i]).0 <= addr && addr + n <= r[i].0 + r[i].1.len();
        Some(r[i].1.subrange(addr - r[i].0, addr - r[i].0 + n))
    } else {
        None
    }
}

/// The regions after the `n = data.len()` bytes at `addr` are replaced by `data`,
/// when they all lie in one region; otherwise unchanged.
pub open spec fn write_at(r: Seq<(u64, Seq<u8>)>, addr: int, data: Seq<u8>) -> Seq<(u64, Seq<u8>)> {
    Seq::new(
        r.len(),
        |i: int|
            if r[i].0 <= addr && addr + data.len() <= r[i].0 + r[i].1.len() {
                (
                    r[i].0,
                    Seq::new(
                        r[i].1.len(),
                        |p: int|
                            if addr - r[i].0 <= p < addr - r[i].0 + data.len() {
                                data[p - (addr - r[i].0)]
                            } else {
                                r[i].1[p]
                            },
                    ),
                )
            } else {
                r[i]
            },
    )
}

/// Each range ends inside the 64-bit address space, has a size that fits
/// in memory, and starts at or after the end of the range before it.
pub open spec fn ranges_in_order(r: Seq<(GuestAddress, u64)>) -> bool {
    &&& forall|i: int| 0 <= i < r.len() ==> #[trigger] r[i].0.0 + r[i].1 <= u64::MAX && r[i].1 <= usize::MAX
    &&& forall|i: int| 0 < i < r.len() ==> #[trigger] r[i - 1].0.0 + r[i - 1].1 <= r[i].0.0
}

/// Ranges out of order in a prefix are out of order in the whole.
pub proof fn lemma_in_order_prefix(r: Seq<(GuestAddress, u64)>, n: int)
    requires
        0 <= n <= r.len(),
        !ranges_in_order(r.subrange(0, n)),
    ensures
        !ranges_in_order(r),
{
    let p = r.subrange(0, n);
    if ranges_in_order(r) {
        assert forall|i: int| 0 <= i < p.len() implies #[trigger] p[i].0.0 + p[i].1 <= u64::MAX && p[i].1
            <= usize::MAX by {
            assert(p[i] == r[i]);
        }
        assert forall|i: int| 0 < i < p.len() implies #[trigger] p[i - 1].0.0 + p[i - 1].1 <= p[i].0.0 by {
            assert(p[i] == r[i]);
            assert(p[i - 1] == r[i - 1]);
        }
    }
}

/// Regions made from ordered ranges satisfy the region invariant.
pub proof fn lemma_in_order_regions(r: Seq<(GuestAddress, u64)>, m: Seq<(u64, Seq<u8>)>)
    requires
        ranges_in_order(r),
        m.len() == r.len(),
        forall|i: int| 0 <= i < r.len() ==> (#[trigger] m[i]).0 == r[i].0.0 && m[i].1.len() == r[i].1,
    ensures
        regions_ok(m),
{
    assert forall|i: int, j: int| 0 <= i < j < m.len() implies #[trigger] m[i].0 + m[i].1.len()
        <= #[trigger] m[j].0 by {
        lemma_in_order_chain(r, i, j);
        assert(m[i].0 == r[i].0.0);
        assert(m[j].0 == r[j].0.0);
    }
    assert forall|i: int| 0 <= i < m.len() implies #[trigger] m[i].0 + m[i].1.len() <= u64::MAX by {
        assert(m[i].0 == r[i].0.0);
    }
}

/// In ordered ranges, each range ends before any later one starts.
pub proof fn lemma_in_order_chain(r: Seq<(GuestAddress, u64)>, i: int, j: int)
    requires
        ranges_in_order(r),
        0 <= i < j < r.len(),
    ensures
        r[i].0.0 + r[i].1 <= r[j].0.0,
    decreases j - i,
{
    assert(r[j - 1].0.0 + r[j - 1].1 <= r[j].0.0);
    if i < j - 1 {
        lemma_in_order_chain(r, i, j - 1);
        assert(r[j - 1].0.0 <= r[j - 1].0.0 + r[j - 1].1);
    }
}

/// Index of the region holding `addr`.
pub open spec fn region_holding(r: Seq<(u64, Seq<u8>)>, addr: int) -> Option<int> {
    if exists|i: int| 0 <= i < r.len() && (#[trigger] r[i]).0 <= addr < r[i].0 + r[i].1.len() {
        Some(choose|i: int| 0 <= i < r.len() && (#[trigger] r[i]).0 <= addr < r[i].0 + r[i].1.len())
    } else {
        None
    }
}

/// The number of bytes a slice access of `len` bytes at `addr` transfers:
/// up to the end of the region holding `addr`.
pub open spec fn slice_len(r: Seq<(u64, Seq<u8>)>, addr: int, len: nat) -> Option<nat> {
    match region_holding(r, addr) {
        Some(i) => Some(
            if len <= r[i].0 + r[i].1.len() - addr {
                len
            } else {
                (r[i].0 + r[i].1.len() - addr) as nat
            },
        ),
        None => None,
    }
}

/// Two regions that hold the same address are the same region.
pub proof fn lemma_region_unique(r: Seq<(u64, Seq<u8>)>, addr: int, i: int, j: int)
    requires
        regions_ok(r),
        0 <= i < r.len(),
        0 <= j < r.len(),
        r[i].0 <= addr < r[i].0 + r[i].1.len(),
        r[j].0 <= addr < r[j].0 + r[j].1.len(),
    ensures
        i == j,
{
    if i < j {
        assert(r[i].0 + r[i].1.len() <= r[j].0);
    } else if j < i {
        assert(r[j].0 + r[j].1.len() <= r[i].0);
    }
}

/// Writing keeps every region's base and size.
pub proof fn lemma_write_keeps_layout(r: Seq<(u64, Seq<u8>)>, addr: int, data: Seq<u8>)
    ensures
        write_at(r, addr, data).len() == r.len(),
        forall|i: int|
            0 <= i < r.len() ==> (#[trigger] write_at(r, addr, data)[i]).0 == r[i].0 && write_at(
                r,
                addr,
                data,
            )[i].1.len() == r[i].1.len(),
        regions_ok(r) ==> regions_ok(write_at(r, addr, data)),
{
    let w = write_at(r, addr, data);
    assert forall|i: int| 0 <= i < r.len() implies (#[trigger] w[i]).0 == r[i].0 && w[i].1.len()
        == r[i].1.len() by {}
    if regions_ok(r) {
        assert forall|a: int, b: int| 0 <= a < b < w.len() implies #[trigger] w[a].0 + w[a].1.len()
            <= #[trigger] w[b].0 by {
            assert(r[a].0 + r[a].1.len() <= r[b].0);
        }
        assert forall|a: int| 0 <= a < w.len() implies #[trigger] w[a].0 + w[a].1.len()
            <= u64::MAX by {
            assert(r[a].0 + r[a].1.len() <= u64::MAX);
        }
    }
}

/// Bytes written where they fit in one region are read back unchanged.
pub proof fn lemma_bytes_at_write(r: Seq<(u64, Seq<u8>)>, addr: int, data: Seq<u8>)
    requires
        regions_ok(r),
        bytes_at(r, addr, data.len()) is Some,
    ensures
        bytes_at(write_at(r, addr, data), addr, data.len()) == Some(data),
{
    let n = data.len();
    let w = write_at(r, addr, data);
    lemma_write_keeps_layout(r, addr, data);
    let i = choose|i: int| 0 <= i < r.len() && (#[trigger] r[i]).0 <= addr && addr + n <= r[i].0 + r[i].1.len();
    assert(w[i].0 <= addr && addr + n <= w[i].0 + w[i].1.len());
    let j = choose|j: int| 0 <= j < w.len() && (#[trigger] w[j]).0 <= addr && addr + n <= w[j].0 + w[j].1.len();
    if n > 0 {
        lemma_region_unique(r, addr, i, j);
        assert(w[j].1.subrange(addr - w[j].0, addr - w[j].0 + n) =~= data);
    } else {
        assert(w[j].1.subrange(addr - w[j].0, addr - w[j].0 + n) =~= data);
    }
}

/// Bytes elsewhere are not changed by a write.
pub proof fn lemma_bytes_at_write_other(r: Seq<(u64, Seq<u8>)>, addr: int, data: Seq<u8>, a: int, n: nat)
    requires
        regions_ok(r),
        a + n <= addr || addr + data.len() <= a,
    ensures
        bytes_at(write_at(r, addr, data), a, n) == bytes_at(r, a, n),
{
    let w = write_at(r, addr, data);
    lemma_write_keeps_layout(r, addr, data);
    if bytes_at(r, a, n) is Some {
        let i = choose|i: int| 0 <= i < r.len() && (#[trigger] r[i]).0 <= a && a + n <= r[i].0 + r[i].1.len();
        assert(w[i].0 <= a && a + n <= w[i].0 + w[i].1.len());
        let j = choose|j: int| 0 <= j < w.len() && (#[trigger] w[j]).0 <= a && a + n <= w[j].0 + w[j].1.len();
        if n > 0 {
            lemma_region_unique(r, a, i, j);
        }
        assert(w[j].1.subrange(a - w[j].0, a - w[j].0 + n) =~= r[j].1.subrange(a - r[j].0, a - r[j].0 + n));
    } else {
        if bytes_at(w, a, n) is Some {
            let j = choose|j: int| 0 <= j < w.len() && (#[trigger] w[j]).0 <= a && a + n <= w[j].0 + w[j].1.len();
            assert(r[j].0 <= a && a + n <= r[j].0 + r[j].1.len());
        }
    }
}

/// Bytes that lie in one region end inside the 64-bit address space.
pub proof fn lemma_access_bound(r: Seq<(u64, Seq<u8>)>, addr: int, n: nat)
    requires
        regions_ok(r),
        bytes_at(r, addr, n) is Some,
    ensures
        addr + n <= u64::MAX,
{
    let i = choose|i: int| 0 <= i < r.len() && (#[trigger] r[i]).0 <= addr && addr + n <= r[i].0 + r[i].1.len();
}

/// Bytes inside a run of bytes that lie in one region lie in it too.
pub proof fn lemma_sub_access(r: Seq<(u64, Seq<u8>)>, addr: int, n: nat, a: int, m: nat)
    requires
        bytes_at(r, addr, n) is Some,
        addr <= a,
        a + m <= addr + n,
    ensures
        bytes_at(r, a, m) is Some,
{
    let i = choose|i: int| 0 <= i < r.len() && (#[trigger] r[i]).0 <= addr && addr + n <= r[i].0 + r[i].1.len();
    assert(r[i].0 <= a && a + m <= r[i].0 + r[i].1.len());
}

/// A write does not change which bytes lie in one region.
pub proof fn lemma_write_keeps_access(r: Seq<(u64, Seq<u8>)>, addr: int, data: Seq<u8>, a: int, n: nat)
    requires
        regions_ok(r),
    ensures
        regions_ok(write_at(r, addr, data)),
        (bytes_at(write_at(r, addr, data), a, n) is Some) == (bytes_at(r, a, n) is Some),
{
    lemma_write_keeps_layout(r, addr, data);
    assert(same_layout(r, write_at(r, addr, data)));
    lemma_same_layout_access(r, write_at(r, addr, data), a, n);
}

/// Two region lists with the same bases and sizes, whatever they hold.
pub open spec fn same_layout(r1: Seq<(u64, Seq<u8>)>, r2: Seq<(u64, Seq<u8>)>) -> bool {
    &&& r1.len() == r2.len()
    &&& forall|i: int| 0 <= i < r1.len() ==> (#[trigger] r2[i]).0 == r1[i].0 && r2[i].1.len() == r1[i].1.len()
}

/// Where accesses land depends on the layout only: slice lengths, and
/// whether bytes lie in one region, are the same in regions of the same
/// layout.
pub proof fn lemma_same_layout_access(r1: Seq<(u64, Seq<u8>)>, r2: Seq<(u64, Seq<u8>)>, a: int, n: nat)
    requires
        regions_ok(r1),
        same_layout(r1, r2),
    ensures
        regions_ok(r2),
        slice_len(r2, a, n) == slice_len(r1, a, n),
        (bytes_at(r2, a, n) is Some) == (bytes_at(r1, a, n) is Some),
{
    assert forall|i: int, j: int| 0 <= i < j < r2.len() implies #[trigger] r2[i].0 + r2[i].1.len() <= #[trigger] r2[j].0 by {
        assert(r1[i].0 + r1[i].1.len() <= r1[j].0);
    }
    assert forall|i: int| 0 <= i < r2.len() implies #[trigger] r2[i].0 + r2[i].1.len() <= u64::MAX by {
        assert(r1[i].0 + r1[i].1.len() <= u64::MAX);
    }
    if exists|i: int| 0 <= i < r1.len() && (#[trigger] r1[i]).0 <= a < r1[i].0 + r1[i].1.len() {
        let i = choose|i: int| 0 <= i < r1.len() && (#[trigger] r1[i]).0 <= a < r1[i].0 + r1[i].1.len();
        assert(r2[i].0 <= a < r2[i].0 + r2[i].1.len());
        let c1 = choose|i: int| 0 <= i < r1.len() && (#[trigger] r1[i]).0 <= a < r1[i].0 + r1[i].1.len();
        let c2 = choose|i: int| 0 <= i < r2.len() && (#[trigger] r2[i]).0 <= a < r2[i].0 + r2[i].1.len();
        assert(r1[c2].0 <= a < r1[c2].0 + r1[c2].1.len());
        lemma_region_unique(r1, a, c1, c2);
    } else {
        if exists|i: int| 0 <= i < r2.len() && (#[trigger] r2[i]).0 <= a < r2[i].0 + r2[i].1.len() {
            let i = choose|i: int| 0 <= i < r2.len() && (#[trigger] r2[i]).0 <= a < r2[i].0 + r2[i].1.len();
            assert(r1[i].0 <= a < r1[i].0 + r1[i].1.len());
        }
    }
    if bytes_at(r1, a, n) is Some {
        let i = choose|i: int| 0 <= i < r1.len() && (#[trigger] r1[i]).0 <= a && a + n <= r1[i].0 + r1[i].1.len();
        assert(r2[i].0 <= a && a + n <= r2[i].0 + r2[i].1.len());
    }
    if bytes_at(r2, a, n) is Some {
        let i = choose|i: int| 0 <= i < r2.len() && (#[trigger] r2[i]).0 <= a && a + n <= r2[i].0 + r2[i].1.len();
        assert(r1[i].0 <= a && a + n <= r1[i].0 + r1[i].1.len());
    }
}

impl GuestMemory {
    #[verifier::type_invariant]
    spec fn inv(self) -> bool {
        regions_ok(self.regions())
    }

    /// The regions as `(base, bytes)` pairs.
    pub closed spec fn regions(self) -> Seq<(u64, Seq<u8>)> {
        self.regions@.map_values(|m: MemoryRegion| (m.guest_base, m.bytes@))
    }

    /// Creates guest memory from `(base, size)` pairs, each region zeroed.
    /// Regions must be given in increasing address order without overlap.
    pub fn new(ranges: &[(GuestAddress, u64)]) -> (r: Result<GuestMemory, Error>)
        ensures
            match r {
                Ok(m) => {
                    &&& ranges@.len() > 0
                    &&& ranges_in_order(ranges@)
                    &&& m.regions().len() == ranges@.len()
                    &&& forall|i: int|
                        0 <= i < ranges@.len() ==> #[trigger] m.regions()[i] == (
                            ranges@[i].0.0,
                            Seq::new(ranges@[i].1 as nat, |p: int| 0u8),
                        )
                },
                Err(Error::NoMemoryRegions) => ranges@.len() == 0,
                Err(Error::MemoryRegionOverlap) => ranges@.len() > 0 && !ranges_in_order(ranges@),
                Err(_) => false,
            },
    {
        if ranges.len() == 0 {
            return Err(Error::NoMemoryRegions);
        }
        let mut regions: Vec<MemoryRegion> = Vec::new();
        let mut i: usize = 0;
        while i < ranges.len()
            invariant
                i <= ranges@.len(),
                regions@.len() == i,
                ranges_in_order(ranges@.subrange(0, i as int)),
                forall|j: int|
                    0 <= j < i ==> #[trigger] regions@[j].guest_base == ranges@[j].0.0
                        && regions@[j].bytes@ == Seq::new(ranges@[j].1 as nat, |p: int| 0u8),
            decreases ranges@.len() - i,
        {
            let (base, size) = ranges[i];
            if regions.len() > 0 {
                let last = &regions[regions.len() - 1];
                match last.guest_base.checked_add(last.bytes.len() as u64) {
                    Some(end) => {
                        if end > base.0 {
                            proof {
                                assert(ranges@.subrange(0, i + 1)[i - 1] == ranges@[i - 1]);
                                assert(!ranges_in_order(ranges@.subrange(0, i + 1)));
                                lemma_in_order_prefix(ranges@, i + 1);
                            }
                            return Err(Error::MemoryRegionOverlap);
                        }
                    },
                    None => {
                        proof {
                            assert(ranges@.subrange(0, i as int)[i - 1] == ranges@[i - 1]);
                        }
                        return Err(Error::MemoryRegionOverlap);
                    },
                }
            }
            if base.0.checked_add(size).is_none() || size > usize::MAX as u64 {
                proof {
                    assert(ranges@.subrange(0, i + 1)[i as int] == ranges@[i as int]);
                    assert(!ranges_in_order(ranges@.subrange(0, i + 1)));
                    lemma_in_order_prefix(ranges@, i + 1);
                }
                return Err(Error::MemoryRegionOverlap);
            }
            let mut bytes: Vec<u8> = Vec::new();
            let mut k: u64 = 0;
            while k < size
                invariant
                    k <= size,
                    size <= usize::MAX,
                    bytes@ == Seq::new(k as nat, |p: int| 0u8),
                decreases size - k,
            {
                bytes.push(0);
                k = k + 1;
                assert(bytes@ =~= Seq::new(k as nat, |p: int| 0u8));
            }
            regions.push(MemoryRegion { guest_base: base.0, bytes });
            proof {
                let p = ranges@.subrange(0, i + 1);
                assert forall|a: int| 0 <= a < p.len() implies #[trigger] p[a].0.0 + p[a].1 <= u64::MAX
                    && p[a].1 <= usize::MAX by {
                    assert(p[a] == ranges@[a]);
                    if a < i {
                        assert(ranges@.subrange(0, i as int)[a] == ranges@[a]);
                    }
                }
                assert forall|a: int| 0 < a < p.len() implies #[trigger] p[a - 1].0.0 + p[a - 1].1 <= p[a].0.0 by {
                    assert(p[a] == ranges@[a]);
                    assert(p[a - 1] == ranges@[a - 1]);
                    if a < i {
                        assert(ranges@.subrange(0, i as int)[a] == ranges@[a]);
                        assert(ranges@.subrange(0, i as int)[a - 1] == ranges@[a - 1]);
                    }
                }
            }
            i = i + 1;
        }
        assert(ranges@.subrange(0, ranges@.len() as int) =~= ranges@);
        proof {
            let mm = regions@.map_values(|m: MemoryRegion| (m.guest_base, m.bytes@));
            assert forall|j: int| 0 <= j < ranges@.len() implies #[trigger] mm[j] == (
                ranges@[j].0.0,
                Seq::new(ranges@[j].1 as nat, |p: int| 0u8),
            ) by {
                assert(regions@[j].guest_base == ranges@[j].0.0);
            }
            lemma_in_order_regions(ranges@, mm);
        }
        let m = GuestMemory { regions };
        Ok(m)
    }

    // Index of the region holding the `n` bytes at `addr`.
    fn region_for(&self, addr: u64, n: u64) -> (r: Option<usize>)
        ensures
            match r {
                Some(i) => i < self.regions().len() && self.regions()[i as int].0 <= addr && addr + n
                    <= self.regions()[i as int].0 + self.regions()[i as int].1.len(),
                None => !exists|i: int|
                    0 <= i < self.regions().len() && self.regions()[i].0 <= addr && addr + n
                        <= self.regions()[i].0 + self.regions()[i].1.len(),
            },
    {
        let mut i: usize = 0;
        while i < self.regions.len()
            invariant
                i <= self.regions@.len(),
                forall|j: int|
                    0 <= j < i ==> !(self.regions()[j].0 <= addr && addr + n <= self.regions()[j].0
                        + self.regions()[j].1.len()),
            decreases self.regions@.len() - i,
        {
            let base = self.regions[i].guest_base;
            let len = self.regions[i].bytes.len() as u64;
            proof {
                assert(self.regions()[i as int] == (base, self.regions@[i as int].bytes@));
            }
            if base <= addr && addr - base <= len && n <= len - (addr - base) {
                return Some(i);
            }
            i = i + 1;
        }
        None
    }

    /// Reads the `n` bytes at `addr`; they must lie in one region.
    pub fn read_bytes(&self, addr: GuestAddress, n: usize) -> (r: Result<Vec<u8>, Error>)
        ensures
            regions_ok(self.regions()),
            match r {
                Ok(v) => bytes_at(self.regions(), addr.0 as int, n as nat) == Some(v@),
                Err(e) => e == Error::InvalidGuestAddress(addr) && bytes_at(
                    self.regions(),
                    addr.0 as int,
                    n as nat,
                ) is None,
            },
    {
        proof {
            use_type_invariant(self);
        }
        match self.region_for(addr.0, n as u64) {
            None => Err(Error::InvalidGuestAddress(addr)),
            Some(i) => {
                let region = &self.regions[i];
                proof {
                    assert(self.regions()[i as int] == (region.guest_base, region.bytes@));
                }
                let start = (addr.0 - region.guest_base) as usize;
                let mut v: Vec<u8> = Vec::new();
                let blen = region.bytes.len();
                let mut k: usize = 0;
                while k < n
                    invariant
                        k <= n,
                        blen == region.bytes@.len(),
                        start + n <= blen,
                        v@ == region.bytes@.subrange(start as int, (start + k) as int),
                    decreases n - k,
                {
                    v.push(region.bytes[start + k]);
                    k = k + 1;
                    assert(v@ =~= region.bytes@.subrange(start as int, (start + k) as int));
                }
                proof {
                    let r = self.regions();
                    let c = choose|c: int|
                        0 <= c < r.len() && (#[trigger] r[c]).0 <= addr.0 && addr.0 + n <= r[c].0 + r[c].1.len();
                    if n > 0 {
                        lemma_region_unique(r, addr.0 as int, c, i as int);
                    } else {
                        assert(r[c].1.subrange(addr.0 - r[c].0, addr.0 - r[c].0) =~= v@);
                    }
                }
                Ok(v)
            },
        }
    }

    /// Writes `data` at `addr`; the bytes must lie in one region.
    pub fn write_bytes(&mut self, addr: GuestAddress, data: &[u8]) -> (r: Result<(), Error>)
        ensures
            regions_ok(old(self).regions()),
            regions_ok(final(self).regions()),
            match r {
                Ok(()) => bytes_at(old(self).regions(), addr.0 as int, data@.len()) is Some
                    && final(self).regions() == write_at(old(self).regions(), addr.0 as int, data@),
                Err(e) => e == Error::InvalidGuestAddress(addr) && bytes_at(
                    old(self).regions(),
                    addr.0 as int,
                    data@.len(),
                ) is None && final(self).regions() == old(self).regions(),
            },
    {
        proof {
            use_type_invariant(&*self);
        }
        match self.region_for(addr.0, data.len() as u64) {
            None => Err(Error::InvalidGuestAddress(addr)),
            Some(i) => {
                let ghost old_r = self.regions();
                let mut regions: Vec<MemoryRegion> = Vec::new();
                std::mem::swap(&mut regions, &mut self.regions);
                let ghost orig_regions = regions@;
                assert(old_r =~= orig_regions.map_values(|m: MemoryRegion| (m.guest_base, m.bytes@)));
                let mut region = regions.remove(i);
                assert(region == orig_regions[i as int]);
                let start = (addr.0 - region.guest_base) as usize;
                let n = data.len();
                let ghost orig = region.bytes@;
                let blen = region.bytes.len();
                let mut k: usize = 0;
                while k < n
                    invariant
                        k <= n,
                        n == data@.len(),
                        region.guest_base == orig_regions[i as int].guest_base,
                        blen == orig.len(),
                        start + n <= blen,
                        region.bytes@.len() == orig.len(),
                        forall|p: int|
                            0 <= p < orig.len() ==> #[trigger] region.bytes@[p] == if start <= p < start + k {
                                data@[p - start]
                            } else {
                                orig[p]
                            },
                    decreases n - k,
                {
                    region.bytes.set(start + k, data[k]);
                    k = k + 1;
                }
                regions.insert(i, region);
                let ghost new_r = regions@.map_values(|m: MemoryRegion| (m.guest_base, m.bytes@));
                proof {
                    let target = write_at(old_r, addr.0 as int, data@);
                    assert(regions@ =~= orig_regions.remove(i as int).insert(i as int, region));
                    assert forall|j: int| 0 <= j < old_r.len() implies #[trigger] new_r[j] == target[j] by {
                        if j != i {
                            assert(regions@[j] == orig_regions[j]);
                            assert(new_r[j] == old_r[j]);
                        } else {
                            assert(regions@[j] == region);
                        }
                        if j == i {
                            assert(new_r[j].1 =~= target[j].1);
                        } else {
                            if old_r[j].0 <= addr.0 && addr.0 + n <= old_r[j].0 + old_r[j].1.len() && n > 0 {
                                lemma_region_unique(old_r, addr.0 as int, i as int, j);
                            }
                            if n == 0 {
                                assert(target[j].1 =~= old_r[j].1);
                            }
                        }
                    }
                    assert(new_r =~= target);
                    assert forall|a: int, b: int| 0 <= a < b < new_r.len() implies #[trigger] new_r[a].0
                        + new_r[a].1.len() <= #[trigger] new_r[b].0 by {
                        assert(old_r[a].0 + old_r[a].1.len() <= old_r[b].0);
                    }
                }
                self.regions = regions;
                Ok(())
            },
        }
    }

    /// Reads up to `buf.len()` bytes at `addr` into `buf`, stopping at the end
    /// of the region holding `addr`; returns how many were read.
    pub fn read_slice_at_addr(&self, buf: &mut [u8], addr: GuestAddress) -> (r: Result<usize, Error>)
        ensures
            match r {
                Ok(n) => slice_len(self.regions(), addr.0 as int, old(buf)@.len()) == Some(n as nat)
                    && bytes_at(self.regions(), addr.0 as int, n as nat) == Some(final(buf)@.subrange(0, n as int))
                    && final(buf)@.subrange(n as int, final(buf)@.len() as int) == old(buf)@.subrange(n as int, old(buf)@.len() as int)
                    && final(buf)@.len() == old(buf)@.len(),
                Err(e) => e == Error::InvalidGuestAddress(addr) && slice_len(
                    self.regions(),
                    addr.0 as int,
                    old(buf)@.len(),
                ) is None && final(buf)@ == old(buf)@,
            },
    {
        proof {
            use_type_invariant(self);
        }
        match self.region_for(addr.0, 1) {
            None => {
                proof {
                    let r = self.regions();
                    assert(!exists|i: int| 0 <= i < r.len() && (#[trigger] r[i]).0 <= addr.0 < r[i].0 + r[i].1.len());
                }
                Err(Error::InvalidGuestAddress(addr))
            },
            Some(i) => {
                let region = &self.regions[i];
                proof {
                    assert(self.regions()[i as int] == (region.guest_base, region.bytes@));
                }
                let start = (addr.0 - region.guest_base) as usize;
                let blen = region.bytes.len();
                let avail = blen - start;
                let n = if buf.len() <= avail {
                    buf.len()
                } else {
                    avail
                };
                let mut k: usize = 0;
                while k < n
                    invariant
                        k <= n,
                        n <= buf@.len(),
                        buf@.len() == old(buf)@.len(),
                        blen == region.bytes@.len(),
                        start + n <= blen,
                        forall|p: int| 0 <= p < k ==> #[trigger] buf@[p] == region.bytes@[start + p],
                        forall|p: int| n <= p < buf@.len() ==> #[trigger] buf@[p] == old(buf)@[p],
                    decreases n - k,
                {
                    buf[k] = region.bytes[start + k];
                    k = k + 1;
                }
                proof {
                    let r = self.regions();
                    assert(r[i as int] == (region.guest_base, region.bytes@));
                    let h = choose|h: int| 0 <= h < r.len() && (#[trigger] r[h]).0 <= addr.0 < r[h].0 + r[h].1.len();
                    lemma_region_unique(r, addr.0 as int, h, i as int);
                    if n > 0 {
                        let c = choose|c: int|
                            0 <= c < r.len() && (#[trigger] r[c]).0 <= addr.0 && addr.0 + n <= r[c].0 + r[c].1.len();
                        lemma_region_unique(r, addr.0 as int, c, i as int);
                        assert(buf@.subrange(0, n as int) =~= r[i as int].1.subrange(start as int, start + n));
                    } else {
                        let c = choose|c: int|
                            0 <= c < r.len() && (#[trigger] r[c]).0 <= addr.0 && addr.0 + n <= r[c].0 + r[c].1.len();
                        assert(buf@.subrange(0, 0) =~= r[c].1.subrange(addr.0 - r[c].0, addr.0 - r[c].0));
                    }
                    assert(buf@.subrange(n as int, buf@.len() as int) =~= old(buf)@.subrange(n as int, old(buf)@.len() as int));
                }
                Ok(n)
            },
        }
    }

    /// Writes as much of `buf` at `addr` as fits before the end of the region
    /// holding `addr`; returns how many bytes were written.
    pub fn write_slice_at_addr(&mut self, buf: &[u8], addr: GuestAddress) -> (r: Result<usize, Error>)
        ensures
            match r {
                Ok(n) => slice_len(old(self).regions(), addr.0 as int, buf@.len()) == Some(n as nat)
                    && final(self).regions() == write_at(old(self).regions(), addr.0 as int, buf@.subrange(0, n as int)),
                Err(e) => e == Error::InvalidGuestAddress(addr) && slice_len(
                    old(self).regions(),
                    addr.0 as int,
                    buf@.len(),
                ) is None && final(self).regions() == old(self).regions(),
            },
    {
        proof {
            use_type_invariant(&*self);
        }
        match self.region_for(addr.0, 1) {
            None => {
                proof {
                    let r = self.regions();
                    assert(!exists|i: int| 0 <= i < r.len() && (#[trigger] r[i]).0 <= addr.0 < r[i].0 + r[i].1.len());
                }
                Err(Error::InvalidGuestAddress(addr))
            },
            Some(i) => {
                proof {
                    assert(self.regions()[i as int] == (self.regions@[i as int].guest_base, self.regions@[i as int].bytes@));
                }
                let start = (addr.0 - self.regions[i].guest_base) as usize;
                let avail = self.regions[i].bytes.len() - start;
                let n = if buf.len() <= avail {
                    buf.len()
                } else {
                    avail
                };
                proof {
                    let r = self.regions();
                    assert(r[i as int].0 == self.regions@[i as int].guest_base);
                    let h = choose|h: int| 0 <= h < r.len() && (#[trigger] r[h]).0 <= addr.0 < r[h].0 + r[h].1.len();
                    lemma_region_unique(r, addr.0 as int, h, i as int);
                }
                let res = self.write_bytes(addr, slice_prefix(buf, n));
                match res {
                    Ok(()) => Ok(n),
                    Err(e) => Err(e),
                }
            },
        }
    }
}

/// The first `n` bytes of `buf`.
fn slice_prefix(buf: &[u8], n: usize) -> (r: &[u8])
    requires
        n <= buf@.len(),
    ensures
        r@ == buf@.subrange(0, n as int),
{
    vstd::slice::slice_subrange(buf, 0, n)
}

} // verus!
