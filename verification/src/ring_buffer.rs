//! A ring of TRBs in guest memory, shared by transfer rings and the command
//! ring (xHCI 4.9.2): segments joined by link TRBs, with a cycle bit telling
//! the consumer where the producer stopped.
use crate::guest_memory::{GuestAddress, GuestMemory};
use crate::xhci_abi::{
    chain_bit, field32, obj_at, parameter_of, read_obj, type_of, AddressedTrb, TransferDescriptor,
    Trb, TrbType,
};
use vstd::prelude::*;

verus! {

/// Size of a TRB in guest memory.
pub const TRB_SIZE: u64 = 16;

/// Most steps one dequeue takes (TRBs read plus links followed) before it
/// gives up. Only a ring whose links lead round to themselves gets that far:
/// it would otherwise be walked forever.
pub const MAX_DEQUEUE_STEPS: u64 = 0xffff_ffff_ffff_ffff;

/// Where a walk along the ring stopped: the TRBs collected, the dequeue
/// pointer and the consumer cycle state.
pub struct WalkEnd {
    pub td: Seq<AddressedTrb>,
    pub dequeue_pointer: u64,
    pub consumer_cycle_state: bool,
}

/// Walks the ring from `ptr` with cycle state `ccs`, adding TRBs to `td`:
/// a link TRB moves to its segment, toggling the cycle state when its toggle
/// bit is set; any other TRB is collected and the walk goes on while its
/// chain bit is set. The walk stops before a TRB that cannot be read, whose
/// cycle bit differs from the cycle state (the ring is empty there), or
/// whose type is unknown, and when `fuel` runs out.
pub open spec fn walk(
    r: Seq<(u64, Seq<u8>)>,
    ptr: u64,
    ccs: bool,
    td: Seq<AddressedTrb>,
    fuel: nat,
) -> WalkEnd
    decreases fuel,
{
    let stop = WalkEnd { td, dequeue_pointer: ptr, consumer_cycle_state: ccs };
    if fuel == 0 {
        stop
    } else {
        match obj_at::<Trb>(r, ptr as int) {
            None => stop,
            Some(t) => {
                if (field32(t.d3, 0, 1) == 1) != ccs {
                    stop
                } else {
                    match type_of(t) {
                        None => stop,
                        Some(TrbType::Link) => walk(
                            r,
                            parameter_of(t),
                            ccs != (field32(t.d3, 1, 1) == 1),
                            td,
                            (fuel - 1) as nat,
                        ),
                        Some(_) => {
                            if ptr + TRB_SIZE > u64::MAX {
                                stop
                            } else {
                                let td2 = td.push(AddressedTrb { trb: t, gpa: ptr });
                                let next = (ptr + TRB_SIZE) as u64;
                                if !chain_bit(t) {
                                    WalkEnd { td: td2, dequeue_pointer: next, consumer_cycle_state: ccs }
                                } else {
                                    walk(r, next, ccs, td2, (fuel - 1) as nat)
                                }
                            }
                        },
                    }
                }
            },
        }
    }
}

/// A collected run of TRBs is a transfer descriptor when it is not empty
/// and its last TRB does not chain to another.
pub open spec fn complete_td(td: Seq<AddressedTrb>) -> bool {
    td.len() > 0 && !chain_bit(td.last().trb)
}

/// A ring consumer: where the next TRB is and which cycle bit marks TRBs the
/// producer has written.
pub struct RingBuffer {
    dequeue_pointer: GuestAddress,
    consumer_cycle_state: bool,
}

impl RingBuffer {
    pub closed spec fn dequeue_pointer(self) -> u64 {
        self.dequeue_pointer.0
    }

    pub closed spec fn consumer_cycle_state(self) -> bool {
        self.consumer_cycle_state
    }

    /// A ring at address 0 with cycle state 0.
    pub fn new() -> (r: RingBuffer)
        ensures
            r.dequeue_pointer() == 0,
            !r.consumer_cycle_state(),
    {
        RingBuffer { dequeue_pointer: GuestAddress(0), consumer_cycle_state: false }
    }

    /// Takes the next transfer descriptor off the ring. The TRBs walked
    /// over are consumed whether or not they form a complete descriptor.
    pub fn dequeue_transfer_descriptor(&mut self, mem: &GuestMemory) -> (r: Option<
        TransferDescriptor,
    >)
        ensures
            ({
                let end = walk(
                    mem.regions(),
                    old(self).dequeue_pointer(),
                    old(self).consumer_cycle_state(),
                    Seq::empty(),
                    MAX_DEQUEUE_STEPS as nat,
                );
                &&& final(self).dequeue_pointer() == end.dequeue_pointer
                &&& final(self).consumer_cycle_state() == end.consumer_cycle_state
                &&& match r {
                    Some(td) => complete_td(end.td) && td@ == end.td,
                    None => !complete_td(end.td),
                }
            }),
    {
        let ghost r0 = mem.regions();
        let ghost start_ptr = self.dequeue_pointer.0;
        let ghost start_ccs = self.consumer_cycle_state;
        let mut td: TransferDescriptor = Vec::new();
        let mut fuel: u64 = MAX_DEQUEUE_STEPS;
        loop
            invariant_except_break
                walk(r0, start_ptr, start_ccs, Seq::empty(), MAX_DEQUEUE_STEPS as nat) == walk(
                    r0,
                    self.dequeue_pointer.0,
                    self.consumer_cycle_state,
                    td@,
                    fuel as nat,
                ),
            invariant
                r0 == mem.regions(),
            ensures
                walk(r0, start_ptr, start_ccs, Seq::empty(), MAX_DEQUEUE_STEPS as nat) == (WalkEnd {
                    td: td@,
                    dequeue_pointer: self.dequeue_pointer.0,
                    consumer_cycle_state: self.consumer_cycle_state,
                }),
            decreases fuel,
        {
            if fuel == 0 {
                break;
            }
            let ptr = self.dequeue_pointer;
            let trb: Trb = match read_obj(mem, ptr) {
                Ok(t) => t,
                Err(_) => break,
            };
            if (trb.get_cycle() == 1) != self.consumer_cycle_state {
                break;
            }
            let trb_type = match trb.trb_type() {
                Ok(t) => t,
                Err(_) => break,
            };
            if trb_type == TrbType::Link {
                self.dequeue_pointer = GuestAddress(trb.get_ring_segment_pointer());
                self.consumer_cycle_state = self.consumer_cycle_state != (trb.get_toggle_cycle()
                    == 1);
                fuel = fuel - 1;
                continue;
            }
            let next = match ptr.checked_add(TRB_SIZE) {
                Some(a) => a,
                None => break,
            };
            self.dequeue_pointer = next;
            td.push(AddressedTrb { trb, gpa: ptr.0 });
            if !trb.get_chain_bit() {
                break;
            }
            fuel = fuel - 1;
        }
        let n = td.len();
        if n == 0 {
            return None;
        }
        let last = td[n - 1].trb;
        proof {
            assert(td@.last() == td@[n - 1]);
            assert(chain_bit(last) ==> type_of(last) is Some);
        }
        if type_of_known(&last) && last.get_chain_bit() {
            None
        } else {
            Some(td)
        }
    }

    /// Moves the dequeue pointer.
    pub fn set_dequeue_pointer(&mut self, addr: GuestAddress)
        ensures
            final(self).dequeue_pointer() == addr.0,
            final(self).consumer_cycle_state() == old(self).consumer_cycle_state(),
    {
        self.dequeue_pointer = addr;
    }

    /// Sets the consumer cycle state.
    pub fn set_consumer_cycle_state(&mut self, state: bool)
        ensures
            final(self).dequeue_pointer() == old(self).dequeue_pointer(),
            final(self).consumer_cycle_state() == state,
    {
        self.consumer_cycle_state = state;
    }
}

/// Whether the TRB's type field names a type.
fn type_of_known(t: &Trb) -> (r: bool)
    ensures
        r == type_of(*t) is Some,
{
    t.trb_type().is_ok()
}

} // verus!
