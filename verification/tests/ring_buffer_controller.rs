use lib::guest_memory::{GuestAddress, GuestMemory};
use lib::ring_buffer_controller::{RingBufferAction, RingBufferController};
use lib::xhci_abi::{write_obj, LinkTrb, NormalTrb, PrimitiveEnum, TrbType};

const TRB_SIZE: u64 = 16;

fn setup_mem() -> GuestMemory {
    let trb_size = TRB_SIZE;
    let mut gm = GuestMemory::new(&vec![(GuestAddress(0), 0x1000)]).unwrap();

    // Structure of ring buffer:
    //  0x100  --> 0x200  --> 0x300
    //  trb 1  |   trb 3  |   trb 5
    //  trb 2  |   trb 4  |   trb 6
    //  l trb  -   l trb  -   l trb to 0x100
    let mut trb = NormalTrb::new();
    trb.set_trb_type(TrbType::Normal.to());
    trb.set_data_buffer(1);
    trb.set_chain(1);
    write_obj(&mut gm, &trb, GuestAddress(0x100)).unwrap();

    trb.set_data_buffer(2);
    write_obj(&mut gm, &trb, GuestAddress(0x100 + trb_size)).unwrap();

    let mut ltrb = LinkTrb::new();
    ltrb.set_trb_type(TrbType::Link.to());
    ltrb.set_ring_segment_pointer(0x200);
    write_obj(&mut gm, &ltrb, GuestAddress(0x100 + 2 * trb_size)).unwrap();

    trb.set_data_buffer(3);
    write_obj(&mut gm, &trb, GuestAddress(0x200)).unwrap();

    // Chain bit is false.
    trb.set_data_buffer(4);
    trb.set_chain(0);
    write_obj(&mut gm, &trb, GuestAddress(0x200 + 1 * trb_size)).unwrap();

    ltrb.set_ring_segment_pointer(0x300);
    write_obj(&mut gm, &ltrb, GuestAddress(0x200 + 2 * trb_size)).unwrap();

    trb.set_data_buffer(5);
    trb.set_chain(1);
    write_obj(&mut gm, &trb, GuestAddress(0x300)).unwrap();

    // Chain bit is false.
    trb.set_data_buffer(6);
    trb.set_chain(0);
    write_obj(&mut gm, &trb, GuestAddress(0x300 + 1 * trb_size)).unwrap();

    ltrb.set_ring_segment_pointer(0x100);
    write_obj(&mut gm, &ltrb, GuestAddress(0x300 + 2 * trb_size)).unwrap();
    gm
}

/// Runs the consumer the way its event loop does: each handled descriptor
/// completes and wakes it again, until `want` parameters were received or
/// it goes idle or stops.
fn run_consumer(controller: &mut RingBufferController, mem: &GuestMemory, sent: &mut Vec<i32>, want: usize) {
    while sent.len() < want {
        match controller.on_event(mem) {
            RingBufferAction::Handle(td) => {
                for atrb in td {
                    assert_eq!(atrb.trb.trb_type().unwrap(), TrbType::Normal);
                    sent.push(atrb.trb.get_parameter() as i32);
                }
            }
            _ => break,
        }
    }
}

#[test]
fn test_ring_buffer_controller() {
    let mem = setup_mem();
    let mut controller = RingBufferController::create_controller();
    controller.set_dequeue_pointer(GuestAddress(0x100));
    controller.set_consumer_cycle_state(false);
    let wake = controller.start();
    assert!(wake);
    let mut rx = Vec::new();
    run_consumer(&mut controller, &mem, &mut rx, 6);
    assert_eq!(rx[0], 1);
    assert_eq!(rx[1], 2);
    assert_eq!(rx[2], 3);
    assert_eq!(rx[3], 4);
    assert_eq!(rx[4], 5);
    assert_eq!(rx[5], 6);
}

#[test]
fn ring_buffer_controller_start_stop() {
    let mem = setup_mem();
    let mut controller = RingBufferController::create_controller();
    // Stopping a stopped ring is done at once.
    assert!(!controller.stop());
    // A stopped ring consumes nothing.
    assert!(matches!(controller.on_event(&mem), RingBufferAction::Idle));
    controller.set_dequeue_pointer(GuestAddress(0x100));
    assert!(controller.start());
    // Starting a running ring needs no wake-up.
    assert!(!controller.start());
    // A stop request is pending until the consumer wakes up.
    assert!(controller.stop());
    assert!(matches!(controller.on_event(&mem), RingBufferAction::Stopped));
    assert!(matches!(controller.on_event(&mem), RingBufferAction::Idle));
}

#[test]
fn ring_buffer_controller_stops_on_empty_ring() {
    // The consumer cycle state does not match the TRBs: nothing to take.
    let mem = setup_mem();
    let mut controller = RingBufferController::create_controller();
    controller.set_dequeue_pointer(GuestAddress(0x100));
    controller.set_consumer_cycle_state(true);
    assert!(controller.start());
    assert!(matches!(controller.on_event(&mem), RingBufferAction::Stopped));
    assert!(matches!(controller.on_event(&mem), RingBufferAction::Idle));
}
