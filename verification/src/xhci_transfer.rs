//! Transfers the guest puts on transfer rings: their kind, their state, and
//! the transfer events owed when they complete (xHCI 4.11).
use crate::scatter_gather_buffer::{sg_trb, ScatterGatherBuffer};
use crate::xhci_abi::{
    carries_data, field32, in_transfer_ring, parameter_of, type_of, AddressedTrb,
    TransferDescriptor, TrbCompletionCode, TrbType,
};
use crate::xhci_regs::MAX_INTERRUPTER;
use vstd::prelude::*;

verus! {

/// Direction of a transfer, by endpoint.
#[derive(Debug, Copy, Clone, PartialEq, Eq, Structural)]
pub enum TransferDirection {
    In,
    Out,
    Control,
}

/// The direction of endpoint `endpoint_id` of a device slot: 0 is the
/// control endpoint, even ids are out and odd ids in.
pub open spec fn direction_of(endpoint_id: u8) -> TransferDirection {
    if endpoint_id == 0 {
        TransferDirection::Control
    } else if endpoint_id % 2 == 0 {
        TransferDirection::Out
    } else {
        TransferDirection::In
    }
}

/// State of a transfer.
#[derive(Debug, Copy, Clone, PartialEq, Eq, Structural)]
pub enum XhciTransferState {
    Created,
    /// Submitted to a device, which can be asked to cancel it.
    Submitted,
    Cancelling,
    Cancelled,
    Completed,
}

/// The state after a cancellation request: a submitted transfer is being
/// cancelled, one being cancelled stays so, any other is cancelled.
pub open spec fn after_cancel(s: XhciTransferState) -> XhciTransferState {
    match s {
        XhciTransferState::Submitted => XhciTransferState::Cancelling,
        XhciTransferState::Cancelling => XhciTransferState::Cancelling,
        _ => XhciTransferState::Cancelled,
    }
}

/// The device is asked to cancel a transfer at most once: after one
/// cancellation request, another one asks nothing and changes nothing.
pub proof fn lemma_cancel_asks_once(s: XhciTransferState)
    ensures
        after_cancel(s) != XhciTransferState::Submitted,
        after_cancel(after_cancel(s)) == after_cancel(s),
{
}

impl XhciTransferState {
    /// Asks for cancellation. Returns whether the device must be asked to
    /// cancel the transfer (it was submitted).
    pub fn try_cancel(&mut self) -> (r: bool)
        ensures
            *final(self) == after_cancel(*old(self)),
            r == (*old(self) == XhciTransferState::Submitted),
    {
        match *self {
            XhciTransferState::Submitted => {
                *self = XhciTransferState::Cancelling;
                true
            },
            XhciTransferState::Cancelling => false,
            _ => {
                *self = XhciTransferState::Cancelled;
                false
            },
        }
    }
}

/// A USB control request (USB 2.0 9.3).
#[derive(Debug, Copy, Clone, PartialEq, Eq, Structural)]
pub struct UsbRequestSetup {
    pub request_type: u8,
    pub request: u8,
    pub value: u16,
    pub index: u16,
    pub length: u16,
}

impl UsbRequestSetup {
    pub fn new(request_type: u8, request: u8, value: u16, index: u16, length: u16) -> (r: UsbRequestSetup)
        ensures
            r == (UsbRequestSetup { request_type, request, value, index, length }),
    {
        UsbRequestSetup { request_type, request, value, index, length }
    }
}

/// Kinds of transfer a transfer ring carries.
pub enum XhciTransferType {
    /// Bulk or interrupt transfer, by endpoint type (xHCI 4.11.2.1).
    Normal(ScatterGatherBuffer),
    /// Control transfer stages (xHCI 4.11.2.2).
    SetupStage(UsbRequestSetup),
    DataStage(ScatterGatherBuffer),
    StatusStage,
    /// xHCI 4.11.2.3.
    Isoch(ScatterGatherBuffer),
    /// xHCI 6.4.1.4.
    Noop,
}

/// Kinds a transfer descriptor may start with.
pub open spec fn transfer_kind(t: TrbType) -> bool {
    match t {
        TrbType::Normal | TrbType::SetupStage | TrbType::DataStage | TrbType::StatusStage
        | TrbType::Isoch | TrbType::Noop => true,
        _ => false,
    }
}

/// The setup request a setup stage TRB carries.
pub open spec fn setup_of(a: AddressedTrb) -> UsbRequestSetup {
    UsbRequestSetup {
        request_type: field32(a.trb.d0, 0, 0xff) as u8,
        request: field32(a.trb.d0, 8, 0xff) as u8,
        value: field32(a.trb.d0, 16, 0xffff) as u16,
        index: field32(a.trb.d1, 0, 0xffff) as u16,
        length: field32(a.trb.d1, 16, 0xffff) as u16,
    }
}

/// A transfer descriptor whose kind the first TRB gives; those kinds that
/// carry data must consist of data TRBs only.
pub open spec fn valid_transfer_td(td: Seq<AddressedTrb>) -> bool {
    &&& td.len() > 0
    &&& type_of(td[0].trb) matches Some(t) && transfer_kind(t)
    &&& (type_of(td[0].trb) == Some(TrbType::Normal) || type_of(td[0].trb) == Some(TrbType::DataStage)
        || type_of(td[0].trb) == Some(TrbType::Isoch)) ==> forall|i: int|
        0 <= i < td.len() ==> sg_trb(#[trigger] td[i])
}

/// `r` is the kind of the transfer `td` describes, by its first TRB; the
/// kinds that carry data hold the whole descriptor as their buffer.
pub open spec fn is_transfer_type(td: Seq<AddressedTrb>, r: XhciTransferType) -> bool {
    match type_of(td[0].trb).unwrap() {
        TrbType::Normal => r matches XhciTransferType::Normal(b) && b.td() == td,
        TrbType::SetupStage => r == XhciTransferType::SetupStage(setup_of(td[0])),
        TrbType::DataStage => r matches XhciTransferType::DataStage(b) && b.td() == td,
        TrbType::StatusStage => r matches XhciTransferType::StatusStage,
        TrbType::Isoch => r matches XhciTransferType::Isoch(b) && b.td() == td,
        _ => r matches XhciTransferType::Noop,
    }
}

/// A copy of a transfer descriptor.
fn copy_td(td: &TransferDescriptor) -> (r: TransferDescriptor)
    ensures
        r@ == td@,
{
    let mut out: TransferDescriptor = Vec::new();
    let mut i: usize = 0;
    while i < td.len()
        invariant
            i <= td@.len(),
            out@ == td@.subrange(0, i as int),
        decreases td@.len() - i,
    {
        out.push(td[i]);
        i = i + 1;
    }
    out
}

impl XhciTransferType {
    /// The kind of the transfer `td` describes, by its first TRB.
    pub fn new(td: TransferDescriptor) -> (r: XhciTransferType)
        requires
            valid_transfer_td(td@),
        ensures
            is_transfer_type(td@, r),
    {
        let first = td[0].trb;
        match first.trb_type() {
            Ok(TrbType::Normal) => XhciTransferType::Normal(ScatterGatherBuffer::new(td)),
            Ok(TrbType::SetupStage) => XhciTransferType::SetupStage(
                UsbRequestSetup::new(
                    first.get_request_type(),
                    first.get_request(),
                    first.get_value(),
                    first.get_index(),
                    first.get_length(),
                ),
            ),
            Ok(TrbType::DataStage) => XhciTransferType::DataStage(ScatterGatherBuffer::new(td)),
            Ok(TrbType::StatusStage) => XhciTransferType::StatusStage,
            Ok(TrbType::Isoch) => XhciTransferType::Isoch(ScatterGatherBuffer::new(td)),
            _ => XhciTransferType::Noop,
        }
    }
}

/// How a device finished a transfer.
#[derive(Debug, Copy, Clone, PartialEq, Eq, Structural)]
pub enum TransferStatus {
    Completed,
    Error,
    Cancelled,
    Stall,
    NoDevice,
    Overflow,
}

/// A transfer event to send to the guest.
#[derive(Debug, Copy, Clone, PartialEq, Eq, Structural)]
pub struct TransferEvent {
    pub completion_code: TrbCompletionCode,
    pub trb_pointer: u64,
    pub transfer_length: u32,
    pub event_data: bool,
}

/// Bytes a TRB asks to move: its length for kinds that carry data.
pub open spec fn trb_length(a: AddressedTrb) -> nat {
    if type_of(a.trb) is Some && carries_data(type_of(a.trb).unwrap()) {
        (a.trb.d2 & 0x1ffff) as nat
    } else {
        0
    }
}

/// Interrupt-on-completion flag of a TRB.
pub open spec fn ioc(a: AddressedTrb) -> bool {
    (field32(a.trb.d3, 1, 0x1ff) & 0x10) > 0
}

/// The events owed for the TRBs of `td` once `bytes` bytes were moved, with
/// `edtla` bytes asked for by the TRBs before them (xHCI 4.11.3.1,
/// 4.11.5.2, 4.10.1.1): each TRB with interrupt-on-completion gets one; an
/// event data TRB reports its data and the bytes moved so far, any other
/// reports its own address and the bytes not moved, as a short packet when
/// fewer bytes were moved than asked for.
pub open spec fn completion_events(td: Seq<AddressedTrb>, bytes: nat, edtla: nat) -> Seq<TransferEvent>
    decreases td.len(),
{
    if td.len() == 0 {
        Seq::empty()
    } else {
        let a = td[0];
        let e = edtla + trb_length(a);
        let rest = completion_events(td.drop_first(), bytes, e);
        if !ioc(a) {
            rest
        } else if type_of(a.trb) == Some(TrbType::EventData) {
            seq![
                TransferEvent {
                    completion_code: TrbCompletionCode::Success,
                    trb_pointer: parameter_of(a.trb),
                    transfer_length: (if e < bytes { e } else { bytes }) as u32,
                    event_data: true,
                },
            ] + rest
        } else {
            seq![
                TransferEvent {
                    completion_code: if e > bytes {
                        TrbCompletionCode::ShortPacket
                    } else {
                        TrbCompletionCode::Success
                    },
                    trb_pointer: a.gpa,
                    transfer_length: (if e > bytes { e - bytes } else { 0 }) as u32,
                    event_data: true,
                },
            ] + rest
        }
    }
}

/// Bytes asked for by all TRBs of `td`.
pub open spec fn total_trb_length(td: Seq<AddressedTrb>) -> nat
    decreases td.len(),
{
    if td.len() == 0 {
        0
    } else {
        trb_length(td[0]) + total_trb_length(td.drop_first())
    }
}

/// The TRBs' lengths add up within 32 bits, so that the transfer lengths
/// of completion events can be counted.
pub open spec fn completion_fits(td: Seq<AddressedTrb>, bytes: nat, edtla: nat) -> bool
    decreases td.len(),
{
    if td.len() == 0 {
        true
    } else {
        let a = td[0];
        let e = edtla + trb_length(a);
        &&& e <= u32::MAX
        &&& completion_fits(td.drop_first(), bytes, e)
    }
}

/// How many TRBs of `td` ask for an interrupt on completion.
pub open spec fn ioc_count(td: Seq<AddressedTrb>) -> nat
    decreases td.len(),
{
    if td.len() == 0 {
        0
    } else {
        (if ioc(td[0]) {
            1nat
        } else {
            0nat
        }) + ioc_count(td.drop_first())
    }
}

/// One transfer event for each TRB that asks for an interrupt on
/// completion, and no other.
pub proof fn lemma_one_event_per_ioc(td: Seq<AddressedTrb>, bytes: nat, edtla: nat)
    ensures
        completion_events(td, bytes, edtla).len() == ioc_count(td),
    decreases td.len(),
{
    if td.len() > 0 {
        lemma_one_event_per_ioc(td.drop_first(), bytes, edtla + trb_length(td[0]));
    }
}

/// `ev` is the event owed for TRB `k` of `td`, with `e` the bytes asked
/// for by the TRBs up to and including TRB `k` (counted from `edtla`); it
/// carries the event data flag and reports:
/// - for an event data TRB: success, the TRB's data, and the bytes moved so
///   far, which is `e` or `bytes` when fewer were moved;
/// - for any other TRB: its address, a short packet exactly when `e`
///   exceeds the bytes moved and success otherwise, and the residual
///   length `e - bytes` (zero when all was moved) (xHCI 4.10.1.1).
pub open spec fn trb_event(td: Seq<AddressedTrb>, bytes: nat, edtla: nat, k: int, ev: TransferEvent) -> bool {
    let e = edtla + total_trb_length(td.take(k + 1));
    if type_of(td[k].trb) == Some(TrbType::EventData) {
        &&& ev.completion_code == TrbCompletionCode::Success
        &&& ev.trb_pointer == parameter_of(td[k].trb)
        &&& ev.transfer_length == (if e < bytes { e } else { bytes }) as u32
        &&& ev.event_data
    } else {
        &&& ev.completion_code == (if e > bytes {
            TrbCompletionCode::ShortPacket
        } else {
            TrbCompletionCode::Success
        })
        &&& ev.trb_pointer == td[k].gpa
        &&& ev.transfer_length == (if e > bytes { e - bytes } else { 0 }) as u32
        &&& ev.event_data
    }
}

/// The event of TRB `k`, when it asks for an interrupt on completion, comes
/// right after the events of the TRBs before it, and is the one owed for it
/// (see `trb_event`).
pub proof fn lemma_event_of_trb(td: Seq<AddressedTrb>, bytes: nat, edtla: nat, k: int)
    requires
        0 <= k < td.len(),
        ioc(td[k]),
    ensures
        ioc_count(td.take(k)) < completion_events(td, bytes, edtla).len(),
        trb_event(td, bytes, edtla, k, completion_events(td, bytes, edtla)[ioc_count(td.take(k)) as int]),
    decreases k,
{
    let a = td[0];
    let rest = td.drop_first();
    let e0 = edtla + trb_length(a);
    lemma_one_event_per_ioc(rest, bytes, e0);
    if k == 0 {
        assert(td.take(0) =~= Seq::<AddressedTrb>::empty());
        assert(td.take(1).drop_first() =~= Seq::<AddressedTrb>::empty());
        assert(total_trb_length(td.take(1)) == trb_length(a) + total_trb_length(td.take(1).drop_first()));
    } else {
        lemma_event_of_trb(rest, bytes, e0, k - 1);
        assert(td.take(k).drop_first() =~= rest.take(k - 1));
        assert(td.take(k + 1).drop_first() =~= rest.take(k));
        assert(td.take(k)[0] == a);
        assert(td.take(k + 1)[0] == a);
        assert(ioc_count(td.take(k)) == (if ioc(a) { 1nat } else { 0nat }) + ioc_count(rest.take(k - 1)));
        assert(total_trb_length(td.take(k + 1)) == trb_length(a) + total_trb_length(rest.take(k)));
        assert(rest[k - 1] == td[k]);
    }
}

/// A TRB a transfer may carry: a transfer ring kind, aimed at an existing
/// interrupter.
pub open spec fn trb_valid(a: AddressedTrb) -> bool {
    in_transfer_ring(type_of(a.trb).unwrap()) && ((a.trb.d2 >> 22u32) as u8) < MAX_INTERRUPTER
}

/// The error events owed for the invalid TRBs of `td`, in order.
pub open spec fn invalid_trb_events(td: Seq<AddressedTrb>) -> Seq<TransferEvent>
    decreases td.len(),
{
    if td.len() == 0 {
        Seq::empty()
    } else {
        let rest = invalid_trb_events(td.drop_first());
        if trb_valid(td[0]) {
            rest
        } else {
            seq![
                TransferEvent {
                    completion_code: TrbCompletionCode::TrbError,
                    trb_pointer: td[0].gpa,
                    transfer_length: 0,
                    event_data: false,
                },
            ] + rest
        }
    }
}

/// What is left to do when a transfer completes.
pub struct CompletionAction {
    /// The device is gone: detach it from its port.
    pub detach_port: bool,
    /// Tell the transfer ring the descriptor is done.
    pub signal_completion: bool,
    /// Transfer events to send, in order.
    pub events: Vec<TransferEvent>,
}

/// A transfer the guest put on a transfer ring, on its way to a device.
pub struct XhciTransfer {
    id: u64,
    port_id: u8,
    slot_id: u8,
    endpoint_id: u8,
    transfer_dir: TransferDirection,
    transfer_trbs: TransferDescriptor,
}

impl XhciTransfer {
    pub closed spec fn id(self) -> u64 {
        self.id
    }

    pub closed spec fn port_id(self) -> u8 {
        self.port_id
    }

    pub closed spec fn slot_id(self) -> u8 {
        self.slot_id
    }

    pub closed spec fn endpoint_id(self) -> u8 {
        self.endpoint_id
    }

    pub closed spec fn trbs(self) -> Seq<AddressedTrb> {
        self.transfer_trbs@
    }

    pub closed spec fn dir(self) -> TransferDirection {
        self.transfer_dir
    }

    /// The transfer's id in its manager.
    pub fn get_id(&self) -> (r: u64)
        ensures
            r == self.id(),
    {
        self.id
    }

    /// The slot of the transfer.
    pub fn get_slot_id(&self) -> (r: u8)
        ensures
            r == self.slot_id(),
    {
        self.slot_id
    }

    /// The endpoint (device context index) of the transfer.
    pub fn get_endpoint_id(&self) -> (r: u8)
        ensures
            r == self.endpoint_id(),
    {
        self.endpoint_id
    }

    /// The port of the device the transfer goes to.
    pub fn get_port_id(&self) -> (r: u8)
        ensures
            r == self.port_id(),
    {
        self.port_id
    }

    /// Every TRB has a known type, and the TRBs' lengths add up within 32
    /// bits.
    pub open spec fn completion_ok(self, bytes: u32) -> bool {
        &&& forall|k: int| 0 <= k < self.trbs().len() ==> type_of(#[trigger] self.trbs()[k].trb) is Some
        &&& completion_fits(self.trbs(), bytes as nat, 0)
    }

    /// Whether a device may report `bytes` moved for this transfer (see
    /// `completion_ok`).
    pub fn completion_fits_bytes(&self, bytes: u32) -> (r: bool)
        ensures
            r == self.completion_ok(bytes),
    {
        let n = self.transfer_trbs.len();
        let mut i: usize = 0;
        while i < n
            invariant
                i <= n,
                n == self.trbs().len(),
                forall|k: int| 0 <= k < i ==> type_of(#[trigger] self.trbs()[k].trb) is Some,
            decreases n - i,
        {
            if self.transfer_trbs[i].trb.trb_type().is_err() {
                return false;
            }
            i = i + 1;
        }
        let mut edtla: u64 = 0;
        let mut i: usize = 0;
        proof {
            assert(self.trbs().subrange(0, n as int) =~= self.trbs());
        }
        while i < n
            invariant
                i <= n,
                n == self.trbs().len(),
                edtla <= u32::MAX,
                forall|k: int| 0 <= k < n ==> type_of(#[trigger] self.trbs()[k].trb) is Some,
                completion_fits(self.trbs(), bytes as nat, 0) == completion_fits(
                    self.trbs().subrange(i as int, n as int),
                    bytes as nat,
                    edtla as nat,
                ),
            decreases n - i,
        {
            let ghost rest = self.trbs().subrange(i as int, n as int);
            proof {
                assert(rest[0] == self.trbs()[i as int]);
                assert(rest.drop_first() =~= self.trbs().subrange(i + 1, n as int));
            }
            let atrb = self.transfer_trbs[i];
            let e = edtla + atrb.trb.transfer_length() as u64;
            if e > u32::MAX as u64 {
                return false;
            }
            edtla = e;
            i = i + 1;
        }
        proof {
            assert(self.trbs().subrange(n as int, n as int) =~= Seq::<AddressedTrb>::empty());
        }
        true
    }

    /// The kind of transfer.
    pub fn get_transfer_type(&self) -> (r: XhciTransferType)
        requires
            valid_transfer_td(self.trbs()),
        ensures
            is_transfer_type(self.trbs(), r),
    {
        XhciTransferType::new(copy_td(&self.transfer_trbs))
    }

    /// USB endpoint number of the transfer's endpoint.
    pub fn get_endpoint_number(&self) -> (r: u8)
        ensures
            r == self.endpoint_id() / 2,
    {
        self.endpoint_id / 2
    }

    /// The transfer's direction.
    pub fn get_transfer_dir(&self) -> (r: TransferDirection)
        ensures
            r == self.dir(),
    {
        self.transfer_dir
    }

    /// The first TRB of the transfer.
    pub fn get_first_trb(&self) -> (r: AddressedTrb)
        requires
            self.trbs().len() > 0,
        ensures
            r == self.trbs()[0],
    {
        self.transfer_trbs[0]
    }

    /// What to do once the device finished the transfer: a gone device is
    /// detached and nothing else happens; otherwise the transfer ring is told
    /// the descriptor is done, and, unless the transfer was cancelled, the
    /// events its TRBs ask for are owed.
    pub fn on_transfer_complete(&self, status: TransferStatus, bytes_transferred: u32) -> (r: CompletionAction)
        requires
            status != TransferStatus::NoDevice && status != TransferStatus::Cancelled ==> self.completion_ok(bytes_transferred),
        ensures
            r.detach_port == (status == TransferStatus::NoDevice),
            r.signal_completion == (status != TransferStatus::NoDevice),
            r.events@ == if status == TransferStatus::NoDevice || status == TransferStatus::Cancelled {
                Seq::empty()
            } else {
                completion_events(self.trbs(), bytes_transferred as nat, 0)
            },
            status != TransferStatus::NoDevice && status != TransferStatus::Cancelled ==> r.events@.len()
                == ioc_count(self.trbs()),
            status != TransferStatus::NoDevice && status != TransferStatus::Cancelled ==> forall|k: int|
                #![trigger self.trbs()[k]]
                0 <= k < self.trbs().len() && ioc(self.trbs()[k]) ==> trb_event(
                    self.trbs(),
                    bytes_transferred as nat,
                    0,
                    k,
                    r.events@[ioc_count(self.trbs().take(k)) as int],
                ),
    {
        match status {
            TransferStatus::NoDevice => {
                return CompletionAction { detach_port: true, signal_completion: false, events: Vec::new() };
            },
            TransferStatus::Cancelled => {
                return CompletionAction { detach_port: false, signal_completion: true, events: Vec::new() };
            },
            _ => {},
        }
        let mut events: Vec<TransferEvent> = Vec::new();
        let mut edtla: u32 = 0;
        let n = self.transfer_trbs.len();
        let mut i: usize = 0;
        proof {
            assert(self.trbs().subrange(0, n as int) =~= self.trbs());
            assert(events@ + completion_events(self.trbs(), bytes_transferred as nat, 0) =~= completion_events(self.trbs(), bytes_transferred as nat, 0));
        }
        while i < n
            invariant
                i <= n,
                n == self.trbs().len(),
                completion_fits(self.trbs().subrange(i as int, n as int), bytes_transferred as nat, edtla as nat),
                events@ + completion_events(self.trbs().subrange(i as int, n as int), bytes_transferred as nat, edtla as nat)
                    == completion_events(self.trbs(), bytes_transferred as nat, 0),
                forall|k: int| 0 <= k < n ==> type_of(#[trigger] self.trbs()[k].trb) is Some,
            decreases n - i,
        {
            let ghost rest = self.trbs().subrange(i as int, n as int);
            proof {
                assert(rest[0] == self.trbs()[i as int]);
                assert(rest.drop_first() =~= self.trbs().subrange(i + 1, n as int));
            }
            let atrb = self.transfer_trbs[i];
            edtla = edtla + atrb.trb.transfer_length();
            if atrb.trb.interrupt_on_completion() {
                let ghost prev = events@;
                if matches!(atrb.trb.trb_type(), Ok(TrbType::EventData)) {
                    let tlength: u32 = if edtla < bytes_transferred {
                        edtla
                    } else {
                        bytes_transferred
                    };
                    events.push(TransferEvent {
                        completion_code: TrbCompletionCode::Success,
                        trb_pointer: atrb.trb.get_event_data(),
                        transfer_length: tlength,
                        event_data: true,
                    });
                } else {
                    let residual_transfer_length: u32 = if edtla > bytes_transferred {
                        edtla - bytes_transferred
                    } else {
                        0
                    };
                    let code = if edtla > bytes_transferred {
                        TrbCompletionCode::ShortPacket
                    } else {
                        TrbCompletionCode::Success
                    };
                    events.push(TransferEvent {
                        completion_code: code,
                        trb_pointer: atrb.gpa,
                        transfer_length: residual_transfer_length,
                        event_data: true,
                    });
                }
                proof {
                    assert(prev + seq![events@.last()] =~= events@);
                    assert(events@ + completion_events(self.trbs().subrange(i + 1, n as int), bytes_transferred as nat, edtla as nat)
                        =~= prev + completion_events(rest, bytes_transferred as nat, (edtla - trb_length(atrb)) as nat));
                }
            }
            i = i + 1;
        }
        proof {
            assert(self.trbs().subrange(n as int, n as int) =~= Seq::<AddressedTrb>::empty());
            assert(events@ + Seq::<TransferEvent>::empty() =~= events@);
            lemma_one_event_per_ioc(self.trbs(), bytes_transferred as nat, 0);
            assert forall|k: int|
                #![trigger self.trbs()[k]]
                0 <= k < self.trbs().len() && ioc(self.trbs()[k]) implies trb_event(
                    self.trbs(),
                    bytes_transferred as nat,
                    0,
                    k,
                    events@[ioc_count(self.trbs().take(k)) as int],
                ) by {
                lemma_event_of_trb(self.trbs(), bytes_transferred as nat, 0, k);
            }
        }
        CompletionAction { detach_port: false, signal_completion: true, events }
    }

    /// The error events for the transfer's invalid TRBs; the transfer is
    /// valid when there are none.
    pub fn validate_transfer(&self) -> (r: Vec<TransferEvent>)
        requires
            forall|k: int| 0 <= k < self.trbs().len() ==> type_of(#[trigger] self.trbs()[k].trb) is Some,
        ensures
            r@ == invalid_trb_events(self.trbs()),
    {
        let mut events: Vec<TransferEvent> = Vec::new();
        let n = self.transfer_trbs.len();
        let mut i: usize = 0;
        proof {
            assert(self.trbs().subrange(0, n as int) =~= self.trbs());
            assert(events@ + invalid_trb_events(self.trbs()) =~= invalid_trb_events(self.trbs()));
        }
        while i < n
            invariant
                i <= n,
                n == self.trbs().len(),
                events@ + invalid_trb_events(self.trbs().subrange(i as int, n as int)) == invalid_trb_events(self.trbs()),
                forall|k: int| 0 <= k < n ==> type_of(#[trigger] self.trbs()[k].trb) is Some,
            decreases n - i,
        {
            let ghost rest = self.trbs().subrange(i as int, n as int);
            proof {
                assert(rest[0] == self.trbs()[i as int]);
                assert(rest.drop_first() =~= self.trbs().subrange(i + 1, n as int));
            }
            let atrb = self.transfer_trbs[i];
            if !Self::trb_is_valid(&atrb) {
                let ghost prev = events@;
                events.push(TransferEvent {
                    completion_code: TrbCompletionCode::TrbError,
                    trb_pointer: atrb.gpa,
                    transfer_length: 0,
                    event_data: false,
                });
                proof {
                    assert(events@ + invalid_trb_events(self.trbs().subrange(i + 1, n as int))
                        =~= prev + invalid_trb_events(rest));
                }
            }
            i = i + 1;
        }
        proof {
            assert(self.trbs().subrange(n as int, n as int) =~= Seq::<AddressedTrb>::empty());
            assert(events@ + Seq::<TransferEvent>::empty() =~= events@);
        }
        events
    }

    fn trb_is_valid(atrb: &AddressedTrb) -> (r: bool)
        requires
            type_of(atrb.trb) is Some,
        ensures
            r == trb_valid(*atrb),
    {
        atrb.trb.can_in_transfer_ring() && (atrb.trb.interrupter_target() < MAX_INTERRUPTER)
    }
}

/// Keeps the state of every transfer in flight, so that all can be
/// cancelled.
pub struct XhciTransferManager {
    next_id: u64,
    transfers: Vec<(u64, XhciTransferState)>,
}

impl XhciTransferManager {
    pub closed spec fn transfers(self) -> Seq<(u64, XhciTransferState)> {
        self.transfers@
    }

    pub closed spec fn next_id(self) -> u64 {
        self.next_id
    }

    /// Every recorded transfer has an id below the next one handed out, so
    /// a new transfer's id is recorded nowhere else.
    pub closed spec fn wf(self) -> bool {
        forall|i: int| 0 <= i < self.transfers@.len() ==> (#[trigger] self.transfers@[i]).0 < self.next_id
    }

    /// Every id on record is below the next id.
    pub proof fn lemma_ids_below(self)
        requires
            self.wf(),
        ensures
            forall|i: int| 0 <= i < self.transfers().len() ==> (#[trigger] self.transfers()[i]).0 < self.next_id(),
    {
    }

    /// A manager with no transfers.
    pub fn new() -> (r: XhciTransferManager)
        ensures
            r.wf(),
            r.transfers().len() == 0,
            r.next_id() == 0,
    {
        XhciTransferManager { next_id: 0, transfers: Vec::new() }
    }

    /// Makes a transfer of `transfer_trbs` for endpoint `endpoint_id` of
    /// slot `slot_id`, whose device is at port `port_id`, and records it as
    /// created. Returns `None` when transfer ids are used up.
    pub fn create_transfer(
        &mut self,
        port_id: u8,
        slot_id: u8,
        endpoint_id: u8,
        transfer_trbs: TransferDescriptor,
    ) -> (r: Option<XhciTransfer>)
        requires
            old(self).wf(),
            transfer_trbs@.len() > 0,
        ensures
            final(self).wf(),
            old(self).next_id() == u64::MAX ==> r is None && *final(self) == *old(self),
            old(self).next_id() < u64::MAX ==> (r matches Some(t) && {
                &&& t.id() == old(self).next_id()
                &&& t.port_id() == port_id
                &&& t.slot_id() == slot_id
                &&& t.endpoint_id() == endpoint_id
                &&& t.dir() == direction_of(endpoint_id)
                &&& t.trbs() == transfer_trbs@
                &&& final(self).transfers() == old(self).transfers().push((t.id(), XhciTransferState::Created))
                &&& final(self).next_id() == old(self).next_id() + 1
            }),
    {
        if self.next_id == u64::MAX {
            return None;
        }
        let transfer_dir = if endpoint_id == 0 {
            TransferDirection::Control
        } else if (endpoint_id % 2) == 0 {
            TransferDirection::Out
        } else {
            TransferDirection::In
        };
        let id = self.next_id;
        self.next_id = self.next_id + 1;
        self.transfers.push((id, XhciTransferState::Created));
        Some(XhciTransfer { id, port_id, slot_id, endpoint_id, transfer_dir, transfer_trbs })
    }

    /// Forgets the transfer `id`; the last recorded transfer takes its
    /// place. Returns false when no transfer has that id.
    pub fn remove_transfer(&mut self, id: u64) -> (r: bool)
        requires
            old(self).wf(),
        ensures
            final(self).wf(),
            final(self).next_id() == old(self).next_id(),
            r == exists|i: int| 0 <= i < old(self).transfers().len() && (#[trigger] old(self).transfers()[i]).0 == id,
            !r ==> final(self).transfers() == old(self).transfers(),
            old(self).transfers().len() > 0 && old(self).transfers().last().0 == id && (forall|j: int|
                0 <= j < old(self).transfers().len() - 1 ==> (#[trigger] old(self).transfers()[j]).0 != id)
                ==> final(self).transfers() == old(self).transfers().drop_last(),
            r ==> exists|i: int| {
                &&& 0 <= i < old(self).transfers().len()
                &&& (#[trigger] old(self).transfers()[i]).0 == id
                &&& forall|j: int| 0 <= j < i ==> (#[trigger] old(self).transfers()[j]).0 != id
                &&& final(self).transfers() == old(self).transfers().update(i, old(self).transfers().last()).drop_last()
            },
    {
        let mut i: usize = 0;
        while i < self.transfers.len()
            invariant
                self == old(self),
                self.wf(),
                forall|j: int| 0 <= j < i ==> (#[trigger] self.transfers@[j]).0 != id,
            decreases self.transfers@.len() - i,
        {
            if self.transfers[i].0 == id {
                self.transfers.swap_remove(i);
                proof {
                    assert(self.transfers@ =~= old(self).transfers().update(i as int, old(self).transfers().last()).drop_last());
                    if old(self).transfers().last().0 == id && (forall|j: int|
                        0 <= j < old(self).transfers().len() - 1 ==> (#[trigger] old(self).transfers()[j]).0 != id) {
                        assert(i == old(self).transfers().len() - 1);
                        assert(self.transfers@ =~= old(self).transfers().drop_last());
                    }
                    assert forall|k: int| 0 <= k < self.transfers@.len() implies (#[trigger] self.transfers@[k]).0 < self.next_id by {
                        if k == i {
                            assert(self.transfers@[k] == old(self).transfers@[old(self).transfers@.len() - 1]);
                        } else {
                            assert(self.transfers@[k] == old(self).transfers@[k]);
                        }
                    }
                }
                return true;
            }
            i = i + 1;
        }
        false
    }

    /// Sets the state of transfer `id`; false when there is none.
    pub fn set_state(&mut self, id: u64, state: XhciTransferState) -> (r: bool)
        requires
            old(self).wf(),
        ensures
            final(self).wf(),
            final(self).next_id() == old(self).next_id(),
            final(self).transfers().len() == old(self).transfers().len(),
            forall|i: int| 0 <= i < old(self).transfers().len() ==> (#[trigger] final(self).transfers()[i]) == if old(self).transfers()[i].0 == id {
                (id, state)
            } else {
                old(self).transfers()[i]
            },
            r == exists|i: int| 0 <= i < old(self).transfers().len() && (#[trigger] old(self).transfers()[i]).0 == id,
    {
        let mut i: usize = 0;
        let mut found = false;
        let ghost old_t = self.transfers@;
        while i < self.transfers.len()
            invariant
                self.next_id == old(self).next_id(),
                self.transfers@.len() == old_t.len(),
                old_t == old(self).transfers(),
                i <= old_t.len(),
                forall|k: int| 0 <= k < old_t.len() ==> (#[trigger] self.transfers@[k]) == if k < i && old_t[k].0 == id {
                    (id, state)
                } else {
                    old_t[k]
                },
                found == exists|k: int| 0 <= k < i && (#[trigger] old_t[k]).0 == id,
            decreases old_t.len() - i,
        {
            if self.transfers[i].0 == id {
                self.transfers.set(i, (id, state));
                found = true;
            }
            i = i + 1;
        }
        found
    }

    /// Asks every transfer to cancel. Returns the ids of the transfers
    /// whose device must be asked to cancel them (those submitted), in
    /// order.
    pub fn cancell_all(&mut self) -> (r: Vec<u64>)
        requires
            old(self).wf(),
        ensures
            final(self).wf(),
            final(self).next_id() == old(self).next_id(),
            final(self).transfers().len() == old(self).transfers().len(),
            forall|i: int| 0 <= i < old(self).transfers().len() ==> (#[trigger] final(self).transfers()[i]) == (
                old(self).transfers()[i].0,
                after_cancel(old(self).transfers()[i].1),
            ),
            r@ == old(self).transfers().filter(|t: (u64, XhciTransferState)| t.1 == XhciTransferState::Submitted).map_values(
                |t: (u64, XhciTransferState)| t.0,
            ),
    {
        let ghost old_t = self.transfers@;
        let mut out: Vec<u64> = Vec::new();
        let mut i: usize = 0;
        proof {
            assert(old_t.subrange(0, 0).filter(|t: (u64, XhciTransferState)| t.1 == XhciTransferState::Submitted)
                =~= Seq::<(u64, XhciTransferState)>::empty());
        }
        while i < self.transfers.len()
            invariant
                self.next_id == old(self).next_id(),
                old_t == old(self).transfers(),
                self.transfers@.len() == old_t.len(),
                i <= old_t.len(),
                forall|k: int| 0 <= k < old_t.len() ==> (#[trigger] self.transfers@[k]) == if k < i {
                    (old_t[k].0, after_cancel(old_t[k].1))
                } else {
                    old_t[k]
                },
                out@ == old_t.subrange(0, i as int).filter(|t: (u64, XhciTransferState)| t.1 == XhciTransferState::Submitted).map_values(
                    |t: (u64, XhciTransferState)| t.0,
                ),
            decreases old_t.len() - i,
        {
            let (id, mut state) = self.transfers[i];
            let ask = state.try_cancel();
            self.transfers.set(i, (id, state));
            proof {
                let f = |t: (u64, XhciTransferState)| t.1 == XhciTransferState::Submitted;
                assert(old_t.subrange(0, i + 1) =~= old_t.subrange(0, i as int).push(old_t[i as int]));
                old_t.subrange(0, i as int).lemma_filter_push(old_t[i as int], f);
            }
            if ask {
                out.push(id);
            }
            i = i + 1;
            proof {
                let f = |t: (u64, XhciTransferState)| t.1 == XhciTransferState::Submitted;
                let g = |t: (u64, XhciTransferState)| t.0;
                assert(out@ =~= old_t.subrange(0, i as int).filter(f).map_values(g));
            }
        }
        proof {
            assert(old_t.subrange(0, old_t.len() as int) =~= old_t);
        }
        out
    }
}

} // verus!
