use lib::guest_memory::{GuestAddress, GuestMemory};
use lib::ring_buffer::RingBuffer;
use lib::xhci_abi::{write_obj, LinkTrb, NormalTrb, PrimitiveEnum, TrbType};

const TRB_SIZE: u64 = 16;

#[test]
fn ring_test_dequeue() {
    let trb_size = TRB_SIZE;
    let mut gm = GuestMemory::new(&vec![(GuestAddress(0), 0x1000)]).unwrap();
    let mut transfer_ring = RingBuffer::new();

    // Structure of ring buffer:
    //  0x100  --> 0x200  --> 0x300
    //  trb 1  |   trb 3  |   trb 5
    //  trb 2  |   trb 4  |   trb 6
    //  l trb  -   l trb  -   l trb to 0x100
    let mut trb = NormalTrb::new();
    trb.set_trb_type(TrbType::Normal.to());
    trb.set_data_buffer(1);
    trb.set_chain(1);
    write_obj(&mut gm, &trb, GuestAddress(0x100)).unwrap();

    trb.set_data_buffer(2);
    write_obj(&mut gm, &trb, GuestAddress(0x100 + trb_size)).unwrap();

    let mut ltrb = LinkTrb::new();
    ltrb.set_trb_type(TrbType::Link.to());
    ltrb.set_ring_segment_pointer(0x200);
    write_obj(&mut gm, &ltrb, GuestAddress(0x100 + 2 * trb_size)).unwrap();

    trb.set_data_buffer(3);
    write_obj(&mut gm, &trb, GuestAddress(0x200)).unwrap();

    // Chain bit is false.
    trb.set_data_buffer(4);
    trb.set_chain(0);
    write_obj(&mut gm, &trb, GuestAddress(0x200 + 1 * trb_size)).unwrap();

    ltrb.set_ring_segment_pointer(0x300);
    write_obj(&mut gm, &ltrb, GuestAddress(0x200 + 2 * trb_size)).unwrap();

    trb.set_data_buffer(5);
    trb.set_chain(1);
    write_obj(&mut gm, &trb, GuestAddress(0x300)).unwrap();

    // Chain bit is false.
    trb.set_data_buffer(6);
    trb.set_chain(0);
    write_obj(&mut gm, &trb, GuestAddress(0x300 + 1 * trb_size)).unwrap();

    ltrb.set_ring_segment_pointer(0x100);
    write_obj(&mut gm, &ltrb, GuestAddress(0x300 + 2 * trb_size)).unwrap();

    transfer_ring.set_dequeue_pointer(GuestAddress(0x100));
    transfer_ring.set_consumer_cycle_state(false);

    // Read first transfer descriptor.
    let descriptor = transfer_ring.dequeue_transfer_descriptor(&gm).unwrap();
    assert_eq!(descriptor.len(), 4);
    assert_eq!(descriptor[0].trb.get_parameter(), 1);
    assert_eq!(descriptor[1].trb.get_parameter(), 2);
    assert_eq!(descriptor[2].trb.get_parameter(), 3);
    assert_eq!(descriptor[3].trb.get_parameter(), 4);

    // Read second transfer descriptor.
    let descriptor = transfer_ring.dequeue_transfer_descriptor(&gm).unwrap();
    assert_eq!(descriptor.len(), 2);
    assert_eq!(descriptor[0].trb.get_parameter(), 5);
    assert_eq!(descriptor[1].trb.get_parameter(), 6);
}

#[test]
fn transfer_ring_test_dequeue_failure() {
    let trb_size = TRB_SIZE;
    let mut gm = GuestMemory::new(&vec![(GuestAddress(0), 0x1000)]).unwrap();
    let mut transfer_ring = RingBuffer::new();

    let mut trb = NormalTrb::new();
    trb.set_trb_type(TrbType::Normal.to());
    trb.set_data_buffer(1);
    trb.set_chain(1);
    write_obj(&mut gm, &trb, GuestAddress(0x100)).unwrap();

    trb.set_data_buffer(2);
    write_obj(&mut gm, &trb, GuestAddress(0x100 + trb_size)).unwrap();

    let mut ltrb = LinkTrb::new();
    ltrb.set_trb_type(TrbType::Link.to());
    ltrb.set_ring_segment_pointer(0x200);
    ltrb.set_toggle_cycle(1);
    write_obj(&mut gm, &ltrb, GuestAddress(0x100 + 2 * trb_size)).unwrap();

    trb.set_data_buffer(3);
    write_obj(&mut gm, &trb, GuestAddress(0x200)).unwrap();

    transfer_ring.set_dequeue_pointer(GuestAddress(0x100));
    transfer_ring.set_consumer_cycle_state(false);

    // Read first transfer descriptor.
    let descriptor = transfer_ring.dequeue_transfer_descriptor(&gm);
    assert_eq!(descriptor.is_none(), true);
}

#[test]
fn ring_records_guest_addresses_and_stops_on_cycle_mismatch() {
    let mut gm = GuestMemory::new(&vec![(GuestAddress(0), 0x1000)]).unwrap();
    let mut ring = RingBuffer::new();
    let mut trb = NormalTrb::new();
    trb.set_trb_type(TrbType::Normal.to());
    trb.set_data_buffer(7);
    write_obj(&mut gm, &trb, GuestAddress(0x40)).unwrap();
    ring.set_dequeue_pointer(GuestAddress(0x40));
    let td = ring.dequeue_transfer_descriptor(&gm).unwrap();
    assert_eq!(td.len(), 1);
    assert_eq!(td[0].gpa, 0x40);
    // The next TRB is all zero: its cycle bit matches and it does not chain,
    // so it comes off the ring as a descriptor of its own.
    let td = ring.dequeue_transfer_descriptor(&gm).unwrap();
    assert_eq!(td.len(), 1);
    assert_eq!(td[0].gpa, 0x50);
    // With the consumer cycle state set, a zero cycle bit marks an empty ring.
    ring.set_dequeue_pointer(GuestAddress(0x40));
    ring.set_consumer_cycle_state(true);
    assert!(ring.dequeue_transfer_descriptor(&gm).is_none());
}
