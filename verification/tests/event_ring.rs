use lib::event_ring::{Error, EventRing};
use lib::guest_memory::{GuestAddress, GuestMemory};
use lib::xhci_abi::{read_obj, write_obj, EventRingSegmentTableEntry, Trb};

const TRB_SIZE: u64 = 16;
const ENTRY_SIZE: u64 = 16;

fn read_trb(gm: &GuestMemory, addr: u64) -> Trb {
    read_obj::<Trb>(gm, GuestAddress(addr)).unwrap()
}

#[test]
fn test_uninited() {
    let mut gm = GuestMemory::new(&vec![(GuestAddress(0), 0x1000)]).unwrap();
    let mut er = EventRing::new();
    let trb = Trb::new();
    assert_eq!(er.add_event(&mut gm, trb), Err(Error::Uninitialized));
    assert_eq!(er.is_empty(), Err(Error::Uninitialized));
    assert_eq!(er.is_full(&gm), Err(Error::Uninitialized));
}

#[test]
fn test_event_ring() {
    let trb_size = TRB_SIZE;
    let mut gm = GuestMemory::new(&vec![(GuestAddress(0), 0x1000)]).unwrap();
    let mut er = EventRing::new();
    let mut st_entries = [EventRingSegmentTableEntry::new(); 3];
    st_entries[0].set_ring_segment_base_address(0x100);
    st_entries[0].set_ring_segment_size(3);
    st_entries[1].set_ring_segment_base_address(0x200);
    st_entries[1].set_ring_segment_size(3);
    st_entries[2].set_ring_segment_base_address(0x300);
    st_entries[2].set_ring_segment_size(3);
    write_obj(&mut gm, &st_entries[0], GuestAddress(0x8)).unwrap();
    write_obj(&mut gm, &st_entries[1], GuestAddress(0x8 + ENTRY_SIZE)).unwrap();
    write_obj(&mut gm, &st_entries[2], GuestAddress(0x8 + 2 * ENTRY_SIZE)).unwrap();
    // Init event ring. Must init after segment tables writting.
    er.set_seg_table_size(3);
    er.set_seg_table_base_addr(&gm, GuestAddress(0x8)).unwrap();
    er.set_dequeue_pointer(GuestAddress(0x100));

    let mut trb = Trb::new();

    // Fill first table.
    trb.set_control(1);
    assert_eq!(er.is_empty(), Ok(true));
    assert_eq!(er.is_full(&gm), Ok(false));
    assert_eq!(er.add_event(&mut gm, trb.clone()), Ok(()));
    assert_eq!(er.is_full(&gm), Ok(false));
    assert_eq!(er.is_empty(), Ok(false));
    let t = read_trb(&gm, 0x100);
    assert_eq!(t.get_control(), 1);
    assert_eq!(t.get_cycle(), 1);

    trb.set_control(2);
    assert_eq!(er.add_event(&mut gm, trb.clone()), Ok(()));
    assert_eq!(er.is_full(&gm), Ok(false));
    assert_eq!(er.is_empty(), Ok(false));
    let t = read_trb(&gm, 0x100 + trb_size);
    assert_eq!(t.get_control(), 2);
    assert_eq!(t.get_cycle(), 1);

    trb.set_control(3);
    assert_eq!(er.add_event(&mut gm, trb.clone()), Ok(()));
    assert_eq!(er.is_full(&gm), Ok(false));
    assert_eq!(er.is_empty(), Ok(false));
    let t = read_trb(&gm, 0x100 + 2 * trb_size);
    assert_eq!(t.get_control(), 3);
    assert_eq!(t.get_cycle(), 1);

    // Fill second table.
    trb.set_control(4);
    assert_eq!(er.add_event(&mut gm, trb.clone()), Ok(()));
    assert_eq!(er.is_full(&gm), Ok(false));
    assert_eq!(er.is_empty(), Ok(false));
    let t = read_trb(&gm, 0x200);
    assert_eq!(t.get_control(), 4);
    assert_eq!(t.get_cycle(), 1);

    trb.set_control(5);
    assert_eq!(er.add_event(&mut gm, trb.clone()), Ok(()));
    assert_eq!(er.is_full(&gm), Ok(false));
    assert_eq!(er.is_empty(), Ok(false));
    let t = read_trb(&gm, 0x200 + trb_size);
    assert_eq!(t.get_control(), 5);
    assert_eq!(t.get_cycle(), 1);

    trb.set_control(6);
    assert_eq!(er.add_event(&mut gm, trb.clone()), Ok(()));
    assert_eq!(er.is_full(&gm), Ok(false));
    assert_eq!(er.is_empty(), Ok(false));
    let t = read_trb(&gm, 0x200 + 2 * trb_size);
    assert_eq!(t.get_control(), 6);
    assert_eq!(t.get_cycle(), 1);

    // Fill third table.
    trb.set_control(7);
    assert_eq!(er.add_event(&mut gm, trb.clone()), Ok(()));
    assert_eq!(er.is_full(&gm), Ok(false));
    assert_eq!(er.is_empty(), Ok(false));
    let t = read_trb(&gm, 0x300);
    assert_eq!(t.get_control(), 7);
    assert_eq!(t.get_cycle(), 1);

    trb.set_control(8);
    assert_eq!(er.add_event(&mut gm, trb.clone()), Ok(()));
    // There is only one last trb. Considered full.
    assert_eq!(er.is_full(&gm), Ok(true));
    assert_eq!(er.is_empty(), Ok(false));
    let t = read_trb(&gm, 0x300 + trb_size);
    assert_eq!(t.get_control(), 8);
    assert_eq!(t.get_cycle(), 1);

    // Add the last trb will result in error.
    assert_eq!(er.add_event(&mut gm, trb.clone()), Err(Error::EventRingFull));

    // Dequeue one trb.
    er.set_dequeue_pointer(GuestAddress(0x100 + trb_size));
    assert_eq!(er.is_full(&gm), Ok(false));
    assert_eq!(er.is_empty(), Ok(false));

    // Fill the last trb of the third table.
    trb.set_control(9);
    assert_eq!(er.add_event(&mut gm, trb.clone()), Ok(()));
    // There is only one last trb. Considered full.
    assert_eq!(er.is_full(&gm), Ok(true));
    assert_eq!(er.is_empty(), Ok(false));
    let t = read_trb(&gm, 0x300 + trb_size);
    assert_eq!(t.get_control(), 8);
    assert_eq!(t.get_cycle(), 1);

    // Add the last trb will result in error.
    assert_eq!(er.add_event(&mut gm, trb.clone()), Err(Error::EventRingFull));

    // Dequeue until empty.
    er.set_dequeue_pointer(GuestAddress(0x100));
    assert_eq!(er.is_full(&gm), Ok(false));
    assert_eq!(er.is_empty(), Ok(true));

    // Fill first table again.
    trb.set_control(10);
    assert_eq!(er.add_event(&mut gm, trb.clone()), Ok(()));
    assert_eq!(er.is_full(&gm), Ok(false));
    assert_eq!(er.is_empty(), Ok(false));
    let t = read_trb(&gm, 0x100);
    assert_eq!(t.get_control(), 10);
    // cycle bit should be reversed.
    assert_eq!(t.get_cycle(), 0);

    trb.set_control(11);
    assert_eq!(er.add_event(&mut gm, trb.clone()), Ok(()));
    assert_eq!(er.is_full(&gm), Ok(false));
    assert_eq!(er.is_empty(), Ok(false));
    let t = read_trb(&gm, 0x100 + trb_size);
    assert_eq!(t.get_control(), 11);
    assert_eq!(t.get_cycle(), 0);

    trb.set_control(12);
    assert_eq!(er.add_event(&mut gm, trb.clone()), Ok(()));
    assert_eq!(er.is_full(&gm), Ok(false));
    assert_eq!(er.is_empty(), Ok(false));
    let t = read_trb(&gm, 0x100 + 2 * trb_size);
    assert_eq!(t.get_control(), 12);
    assert_eq!(t.get_cycle(), 0);
}

#[test]
fn event_ring_reports_unreadable_segment_table() {
    let gm = GuestMemory::new(&vec![(GuestAddress(0), 0x1000)]).unwrap();
    let mut er = EventRing::new();
    er.set_seg_table_size(1);
    assert_eq!(
        er.set_seg_table_base_addr(&gm, GuestAddress(0x2000)),
        Err(Error::InvalidMemoryAccess)
    );
    assert_eq!(er.is_empty(), Err(Error::Uninitialized));
}
