use lib::guest_memory::{GuestAddress, GuestMemory};
use lib::scatter_gather_buffer::ScatterGatherBuffer;
use lib::xhci_abi::{AddressedTrb, NormalTrb, PrimitiveEnum, TransferDescriptor, Trb, TrbType};

fn normal_trb(buffer: u64, len: u32) -> Trb {
    let mut ntrb = NormalTrb::new();
    ntrb.set_trb_type(TrbType::Normal.to());
    ntrb.set_data_buffer(buffer);
    ntrb.set_trb_transfer_length(len);
    ntrb
}

#[test]
fn scatter_gather_buffer_test() {
    let mut gm = GuestMemory::new(&vec![(GuestAddress(0), 0x1000)]).unwrap();
    let mut td = TransferDescriptor::new();
    // In this td, we are going to have scatter buffer at 0x100, length 4, 0x200 length 2 and
    // 0x300 length 1.
    td.push(AddressedTrb { trb: normal_trb(0x100, 4), gpa: 0 });
    td.push(AddressedTrb { trb: normal_trb(0x200, 2), gpa: 0 });
    td.push(AddressedTrb { trb: normal_trb(0x300, 1), gpa: 0 });

    let buffer = ScatterGatherBuffer::new(td);

    assert_eq!(buffer.len(), 7);
    let data_to_write: [u8; 7] = [7, 6, 5, 4, 3, 2, 1];
    buffer.write(&mut gm, &data_to_write).unwrap();

    let mut d = [0; 4];
    gm.read_slice_at_addr(&mut d, GuestAddress(0x100)).unwrap();
    assert_eq!(d, [7, 6, 5, 4]);
    gm.read_slice_at_addr(&mut d, GuestAddress(0x200)).unwrap();
    assert_eq!(d, [3, 2, 0, 0]);
    gm.read_slice_at_addr(&mut d, GuestAddress(0x300)).unwrap();
    assert_eq!(d, [1, 0, 0, 0]);

    let mut data_read = [0; 7];
    buffer.read(&gm, &mut data_read).unwrap();
    assert_eq!(data_to_write, data_read);
}

#[test]
fn scatter_gather_buffer_short_caller_buffer() {
    let mut gm = GuestMemory::new(&vec![(GuestAddress(0), 0x1000)]).unwrap();
    let mut td = TransferDescriptor::new();
    td.push(AddressedTrb { trb: normal_trb(0x100, 4), gpa: 0 });
    td.push(AddressedTrb { trb: normal_trb(0x200, 4), gpa: 0 });
    let buffer = ScatterGatherBuffer::new(td);
    // Only five bytes: four to the first buffer, one to the second.
    assert_eq!(buffer.write(&mut gm, &[1, 2, 3, 4, 5]), Ok(5));
    let mut d = [9; 2];
    gm.read_slice_at_addr(&mut d, GuestAddress(0x200)).unwrap();
    assert_eq!(d, [5, 0]);
    // A buffer outside guest memory is an error.
    let mut td = TransferDescriptor::new();
    td.push(AddressedTrb { trb: normal_trb(0x2000, 4), gpa: 0 });
    let buffer = ScatterGatherBuffer::new(td);
    assert!(buffer.write(&mut gm, &[1]).is_err());
    let mut out = [0u8; 1];
    assert!(buffer.read(&gm, &mut out).is_err());
}
