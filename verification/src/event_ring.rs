//! The event ring (xHCI 4.9.4): segmented ring through which the controller
//! hands event TRBs to the guest, its segments listed in a table in guest
//! memory.
use crate::guest_memory::{bytes_at, regions_ok, write_at, GuestAddress, GuestMemory};
use crate::xhci_abi::{
    field32, lemma_read_after_write, obj_at, obj_bytes, read_obj, with_field32, write_obj,
    EventRingSegmentTableEntry, Trb, TrbCast,
};
use vstd::prelude::*;

verus! {

#[derive(Debug, PartialEq, Eq, Structural)]
pub enum Error {
    /// The event ring is uninitialized.
    Uninitialized,
    /// The event ring would access memory that is not there.
    InvalidMemoryAccess,
    /// The event ring is in a bad state.
    InconstantState,
    /// The event ring is full.
    EventRingFull,
}

/// Size of a TRB in guest memory.
pub const TRB_SIZE: u64 = 16;

/// Size of a segment table entry in guest memory.
pub const SEGMENT_TABLE_ENTRY_SIZE: u64 = 16;

/// The event ring's registers and producer state.
pub struct EventRingState {
    pub segment_table_size: u16,
    pub segment_table_base_address: u64,
    pub current_segment_index: u16,
    pub trb_count: u16,
    pub enqueue_pointer: u64,
    pub dequeue_pointer: u64,
    pub producer_cycle_state: bool,
}

/// The ring has a segment table and a segment to write to.
pub open spec fn inited(s: EventRingState) -> bool {
    s.segment_table_size != 0 && s.segment_table_base_address != 0 && s.enqueue_pointer != 0
}

/// The segment table entry at `index`, if it can be read.
pub open spec fn segment_entry(
    s: EventRingState,
    r: Seq<(u64, Seq<u8>)>,
    index: u16,
) -> Option<EventRingSegmentTableEntry> {
    if s.segment_table_base_address + SEGMENT_TABLE_ENTRY_SIZE * index > u64::MAX {
        None
    } else {
        obj_at::<EventRingSegmentTableEntry>(
            r,
            s.segment_table_base_address + SEGMENT_TABLE_ENTRY_SIZE * index,
        )
    }
}

/// Base address of the segment an entry describes.
pub open spec fn entry_base(e: EventRingSegmentTableEntry) -> u64 {
    (e.d0 as u64) | ((e.d1 as u64) << 32u64)
}

/// Number of TRBs of the segment an entry describes.
pub open spec fn entry_size(e: EventRingSegmentTableEntry) -> u16 {
    field32(e.d2, 0, 0xffff) as u16
}

/// The state after loading the current segment: the enqueue pointer moves
/// to its start and its TRBs are all free.
pub open spec fn load_current(s: EventRingState, r: Seq<(u64, Seq<u8>)>) -> Option<EventRingState> {
    match segment_entry(s, r, s.current_segment_index) {
        Some(e) => Some(
            EventRingState { enqueue_pointer: entry_base(e), trb_count: entry_size(e), ..s },
        ),
        None => None,
    }
}

/// Whether the ring is full: only one free TRB is left. When the current
/// segment has one TRB left, the ring is full if the guest's dequeue pointer
/// is at the start of the next segment; otherwise if it is just past the
/// enqueue pointer.
pub open spec fn full(s: EventRingState, r: Seq<(u64, Seq<u8>)>) -> Result<bool, Error> {
    if !inited(s) {
        Err(Error::Uninitialized)
    } else if s.trb_count == 1 {
        match segment_entry(s, r, ((s.current_segment_index + 1) % (s.segment_table_size as int)) as u16) {
            Some(e) => Ok(s.dequeue_pointer == entry_base(e)),
            None => Err(Error::InvalidMemoryAccess),
        }
    } else {
        Ok(s.dequeue_pointer == s.enqueue_pointer + TRB_SIZE)
    }
}

/// The TRB as it is written to the ring: with the producer's cycle bit.
pub open spec fn with_cycle(t: Trb, pcs: bool) -> Trb {
    Trb { d3: with_field32(t.d3, 0, 1, if pcs { 1 } else { 0 }), ..t }
}

/// The state after one TRB was written at the enqueue pointer: the pointer
/// moves on and, when the segment is used up, the next segment is loaded,
/// the producer cycle state toggling when the table wraps around.
pub open spec fn advance(s: EventRingState, r: Seq<(u64, Seq<u8>)>) -> Result<EventRingState, Error> {
    let s1 = EventRingState {
        enqueue_pointer: (s.enqueue_pointer + TRB_SIZE) as u64,
        trb_count: (s.trb_count - 1) as u16,
        ..s
    };
    if s1.trb_count != 0 {
        Ok(s1)
    } else {
        let wraps = s.current_segment_index + 1 >= s.segment_table_size;
        let s2 = EventRingState {
            current_segment_index: if wraps { 0 } else { (s.current_segment_index + 1) as u16 },
            producer_cycle_state: if wraps { !s.producer_cycle_state } else { s.producer_cycle_state },
            ..s1
        };
        match load_current(s2, r) {
            Some(s3) => Ok(s3),
            None => Err(Error::InvalidMemoryAccess),
        }
    }
}

/// The result of adding `trb` to a ring in state `s` over memory `m`.
pub open spec fn add_event_result(s: EventRingState, m: Seq<(u64, Seq<u8>)>, trb: Trb) -> Result<(), Error> {
    match full(s, m) {
        Err(e) => Err(e),
        Ok(true) => Err(Error::EventRingFull),
        Ok(false) => if s.trb_count == 0 || s.enqueue_pointer + TRB_SIZE > u64::MAX {
            Err(Error::InconstantState)
        } else if bytes_at(m, s.enqueue_pointer as int, 16) is None {
            Err(Error::InvalidMemoryAccess)
        } else {
            let m2 = write_at(m, s.enqueue_pointer as int, obj_bytes(with_cycle(trb, s.producer_cycle_state)));
            match advance(s, m2) {
                Ok(_) => Ok(()),
                Err(e) => Err(e),
            }
        },
    }
}

/// How adding `trb` to a ring in state `s` over memory `m` may end: with
/// result `r`, state `s2` and memory `m2`. The ring must be initialized and
/// not full, its segment must have a free TRB, and the enqueue pointer must
/// be writable; then the TRB is written there with the producer's cycle bit
/// and the ring advances.
pub open spec fn add_event_post(
    s: EventRingState,
    m: Seq<(u64, Seq<u8>)>,
    trb: Trb,
    r: Result<(), Error>,
    s2: EventRingState,
    m2: Seq<(u64, Seq<u8>)>,
) -> bool {
    let t = with_cycle(trb, s.producer_cycle_state);
    match full(s, m) {
        Err(e) => r == Err::<(), Error>(e) && s2 == s && m2 == m,
        Ok(true) => r == Err::<(), Error>(Error::EventRingFull) && s2 == s && m2 == m,
        Ok(false) => if s.trb_count == 0 || s.enqueue_pointer + TRB_SIZE > u64::MAX {
            r == Err::<(), Error>(Error::InconstantState) && s2 == s && m2 == m
        } else if bytes_at(m, s.enqueue_pointer as int, 16) is None {
            r == Err::<(), Error>(Error::InvalidMemoryAccess) && s2 == s && m2 == m
        } else {
            &&& m2 == write_at(m, s.enqueue_pointer as int, obj_bytes(t))
            &&& obj_at::<Trb>(m2, s.enqueue_pointer as int) == Some(t)
            &&& match advance(s, m2) {
                Ok(s3) => r == Ok::<(), Error>(()) && s2 == s3,
                Err(e) => r == Err::<(), Error>(e),
            }
        },
    }
}

/// An event ring: the guest gives its segment table and dequeue pointer,
/// the controller writes events at the enqueue pointer.
pub struct EventRing {
    segment_table_size: u16,
    segment_table_base_address: GuestAddress,
    current_segment_index: u16,
    trb_count: u16,
    enqueue_pointer: GuestAddress,
    dequeue_pointer: GuestAddress,
    producer_cycle_state: bool,
}

impl EventRing {
    pub closed spec fn view(self) -> EventRingState {
        EventRingState {
            segment_table_size: self.segment_table_size,
            segment_table_base_address: self.segment_table_base_address.0,
            current_segment_index: self.current_segment_index,
            trb_count: self.trb_count,
            enqueue_pointer: self.enqueue_pointer.0,
            dequeue_pointer: self.dequeue_pointer.0,
            producer_cycle_state: self.producer_cycle_state,
        }
    }

    /// The state of a new ring: nothing set, producer cycle state 1.
    pub open spec fn new_state() -> EventRingState {
        EventRingState {
            segment_table_size: 0,
            segment_table_base_address: 0,
            current_segment_index: 0,
            trb_count: 0,
            enqueue_pointer: 0,
            dequeue_pointer: 0,
            producer_cycle_state: true,
        }
    }

    /// An empty, uninitialized event ring; the producer cycle state starts
    /// at 1 (xHCI 4.9.4).
    pub fn new() -> (r: EventRing)
        ensures
            r@ == Self::new_state(),
    {
        EventRing {
            segment_table_size: 0,
            segment_table_base_address: GuestAddress(0),
            current_segment_index: 0,
            enqueue_pointer: GuestAddress(0),
            dequeue_pointer: GuestAddress(0),
            trb_count: 0,
            producer_cycle_state: true,
        }
    }

    /// Writes an event TRB at the enqueue pointer, with the producer cycle
    /// bit, and moves on (left side of xHCI figure 4-12).
    pub fn add_event(&mut self, mem: &mut GuestMemory, trb: Trb) -> (r: Result<(), Error>)
        ensures
            r == add_event_result(old(self)@, old(mem).regions(), trb),
            add_event_post(old(self)@, old(mem).regions(), trb, r, final(self)@, final(mem).regions()),
    {
        self.check_inited()?;
        if self.is_full(mem)? {
            return Err(Error::EventRingFull);
        }
        if self.trb_count == 0 {
            return Err(Error::InconstantState);
        }
        let next = match self.enqueue_pointer.checked_add(TRB_SIZE) {
            Some(addr) => addr,
            None => return Err(Error::InconstantState),
        };
        let mut t = trb;
        t.set_cycle_bit(self.producer_cycle_state);
        assert(t == with_cycle(trb, old(self)@.producer_cycle_state));
        let ghost m = mem.regions();
        match write_obj(mem, &t, self.enqueue_pointer) {
            Ok(()) => {},
            Err(_) => return Err(Error::InvalidMemoryAccess),
        }
        proof {
            lemma_read_after_write(m, self.enqueue_pointer.0 as int, t);
        }
        self.enqueue_pointer = next;
        self.trb_count = self.trb_count - 1;
        if self.trb_count == 0 {
            if (self.current_segment_index as u32) + 1 >= self.segment_table_size as u32 {
                self.producer_cycle_state = !self.producer_cycle_state;
                self.current_segment_index = 0;
            } else {
                self.current_segment_index = self.current_segment_index + 1;
            }
            self.load_current_seg_table_entry(mem)?;
        }
        Ok(())
    }

    /// Sets the number of segment table entries.
    pub fn set_seg_table_size(&mut self, size: u16)
        ensures
            final(self)@ == (EventRingState { segment_table_size: size, ..old(self)@ }),
    {
        self.segment_table_size = size;
    }

    /// Sets the segment table's address and, when the table size and
    /// address are both set, loads the current segment.
    pub fn set_seg_table_base_addr(&mut self, mem: &GuestMemory, addr: GuestAddress) -> (r: Result<(), Error>)
        ensures
            ({
                let s = EventRingState { segment_table_base_address: addr.0, ..old(self)@ };
                if s.segment_table_size == 0 || addr.0 == 0 {
                    r == Ok::<(), Error>(()) && final(self)@ == s
                } else {
                    match load_current(s, mem.regions()) {
                        Some(s2) => r == Ok::<(), Error>(()) && final(self)@ == s2,
                        None => r == Err::<(), Error>(Error::InvalidMemoryAccess) && final(self)@ == s,
                    }
                }
            }),
    {
        self.segment_table_base_address = addr;
        self.try_init(mem)
    }

    /// Sets the guest's dequeue pointer.
    pub fn set_dequeue_pointer(&mut self, addr: GuestAddress)
        ensures
            final(self)@ == (EventRingState { dequeue_pointer: addr.0, ..old(self)@ }),
    {
        self.dequeue_pointer = addr;
    }

    /// The enqueue pointer.
    pub fn get_enqueue_pointer(&self) -> (r: GuestAddress)
        ensures
            r.0 == self@.enqueue_pointer,
    {
        self.enqueue_pointer
    }

    /// Whether the guest has consumed every event.
    pub fn is_empty(&self) -> (r: Result<bool, Error>)
        ensures
            r == if inited(self@) {
                Ok::<bool, Error>(self@.enqueue_pointer == self@.dequeue_pointer)
            } else {
                Err::<bool, Error>(Error::Uninitialized)
            },
    {
        self.check_inited()?;
        Ok(self.enqueue_pointer == self.dequeue_pointer)
    }

    /// Whether only one free TRB is left (then the controller would have to
    /// report a full ring, xHCI figure 4-12).
    pub fn is_full(&self, mem: &GuestMemory) -> (r: Result<bool, Error>)
        ensures
            r == full(self@, mem.regions()),
    {
        self.check_inited()?;
        if self.trb_count == 1 {
            let next_erst_idx = ((self.current_segment_index as u32 + 1) % (
            self.segment_table_size as u32)) as u16;
            let erst_entry = self.read_seg_table_entry(mem, next_erst_idx)?;
            Ok(self.dequeue_pointer.0 == erst_entry.get_ring_segment_base_address())
        } else {
            Ok(self.enqueue_pointer.0 as u128 + TRB_SIZE as u128 == self.dequeue_pointer.0 as u128)
        }
    }

    fn try_init(&mut self, mem: &GuestMemory) -> (r: Result<(), Error>)
        ensures
            if old(self)@.segment_table_size == 0 || old(self)@.segment_table_base_address == 0 {
                r == Ok::<(), Error>(()) && final(self)@ == old(self)@
            } else {
                match load_current(old(self)@, mem.regions()) {
                    Some(s2) => r == Ok::<(), Error>(()) && final(self)@ == s2,
                    None => r == Err::<(), Error>(Error::InvalidMemoryAccess) && final(self)@
                        == old(self)@,
                }
            },
    {
        if self.segment_table_size == 0 || self.segment_table_base_address.0 == 0 {
            return Ok(());
        }
        self.load_current_seg_table_entry(mem)
    }

    fn check_inited(&self) -> (r: Result<(), Error>)
        ensures
            r == if inited(self@) {
                Ok::<(), Error>(())
            } else {
                Err::<(), Error>(Error::Uninitialized)
            },
    {
        if self.segment_table_size == 0 || self.segment_table_base_address.0 == 0
            || self.enqueue_pointer.0 == 0 {
            return Err(Error::Uninitialized);
        }
        Ok(())
    }

    fn load_current_seg_table_entry(&mut self, mem: &GuestMemory) -> (r: Result<(), Error>)
        ensures
            match load_current(old(self)@, mem.regions()) {
                Some(s2) => r == Ok::<(), Error>(()) && final(self)@ == s2,
                None => r == Err::<(), Error>(Error::InvalidMemoryAccess) && final(self)@
                    == old(self)@,
            },
    {
        let entry = self.read_seg_table_entry(mem, self.current_segment_index)?;
        self.enqueue_pointer = GuestAddress(entry.get_ring_segment_base_address());
        self.trb_count = entry.get_ring_segment_size();
        Ok(())
    }

    fn read_seg_table_entry(&self, mem: &GuestMemory, index: u16) -> (r: Result<
        EventRingSegmentTableEntry,
        Error,
    >)
        ensures
            match segment_entry(self@, mem.regions(), index) {
                Some(e) => r == Ok::<EventRingSegmentTableEntry, Error>(e),
                None => r == Err::<EventRingSegmentTableEntry, Error>(Error::InvalidMemoryAccess),
            },
    {
        let seg_table_addr = self.get_seg_table_addr(index)?;
        match read_obj::<EventRingSegmentTableEntry>(mem, seg_table_addr) {
            Ok(e) => Ok(e),
            Err(_) => Err(Error::InvalidMemoryAccess),
        }
    }

    fn get_seg_table_addr(&self, index: u16) -> (r: Result<GuestAddress, Error>)
        ensures
            match r {
                Ok(a) => a.0 == self@.segment_table_base_address + SEGMENT_TABLE_ENTRY_SIZE * index,
                Err(e) => e == Error::InvalidMemoryAccess && self@.segment_table_base_address
                    + SEGMENT_TABLE_ENTRY_SIZE * index > u64::MAX,
            },
    {
        match self.segment_table_base_address.checked_add(SEGMENT_TABLE_ENTRY_SIZE * (index as u64)) {
            Some(addr) => Ok(addr),
            None => Err(Error::InvalidMemoryAccess),
        }
    }
}

} // verus!
