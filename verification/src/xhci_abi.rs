//! xHCI data structures shared with the guest: TRBs, contexts and the event
//! ring segment table, their bit fields and their layout in guest memory.
use crate::guest_memory::{
    bytes_at, lemma_bytes_at_write, regions_ok, write_at, Error as MemError, GuestAddress, GuestMemory,
};
use vstd::prelude::*;

verus! {

#[derive(Debug, PartialEq, Eq, Structural)]
pub enum Error {
    InvalidValue(u8),
}

// ---------------------------------------------------------------------------
// Bit fields.

/// Field of `mask` width at bit `lo` of `v`.
pub open spec fn field32(v: u32, lo: u32, mask: u32) -> u32 {
    (v >> lo) & mask
}

/// `v` with the field of `mask` width at bit `lo` replaced by `x` (truncated
/// to the field's width).
pub open spec fn with_field32(v: u32, lo: u32, mask: u32, x: u32) -> u32 {
    (v & !(mask << lo)) | ((x & mask) << lo)
}

/// A field never exceeds its mask, and, where the mask fits at its
/// position, reads back what was set in it (truncated to the mask).
pub proof fn lemma_field32(v: u32, lo: u32, mask: u32, x: u32)
    by (bit_vector)
    requires
        lo < 32,
    ensures
        (v >> lo) & mask <= mask,
        (mask << lo) >> lo == mask ==> ((((v & !(mask << lo)) | ((x & mask) << lo)) >> lo) & mask)
            == x & mask,
{
}

pub fn get_field32(v: u32, lo: u32, mask: u32) -> (r: u32)
    requires
        lo < 32,
    ensures
        r == field32(v, lo, mask),
        r <= mask,
{
    proof {
        lemma_field32(v, lo, mask, 0);
    }
    (v >> lo) & mask
}

pub fn set_field32(v: u32, lo: u32, mask: u32, x: u32) -> (r: u32)
    requires
        lo < 32,
    ensures
        r == with_field32(v, lo, mask, x),
{
    (v & !(mask << lo)) | ((x & mask) << lo)
}

// ---------------------------------------------------------------------------
// Enumerations.

pub trait PrimitiveEnum: Sized {
    /// The number that stands for the value.
    spec fn spec_to(&self) -> u8;

    /// The value a number stands for, if any.
    spec fn spec_from(val: u8) -> Option<Self>;

    fn from(val: u8) -> (r: Result<Self, Error>)
        ensures
            match Self::spec_from(val) {
                Some(v) => r == Ok::<Self, Error>(v),
                None => r == Err::<Self, Error>(Error::InvalidValue(val)),
            },
    ;

    fn to(&self) -> (r: u8)
        ensures
            r == self.spec_to(),
    ;
}

#[derive(Debug, Copy, Clone, PartialEq, Eq, Structural)]
pub enum TrbType {
    Reserved,
    Normal,
    SetupStage,
    DataStage,
    StatusStage,
    Isoch,
    Link,
    EventData,
    Noop,
    EnableSlotCommand,
    DisableSlotCommand,
    AddressDeviceCommand,
    ConfigureEndpointCommand,
    EvaluateContextCommand,
    ResetEndpointCommand,
    StopEndpointCommand,
    SetTRDequeuePointerCommand,
    ResetDeviceCommand,
    NoopCommand,
    TransferEvent,
    CommandCompletionEvent,
    PortStatusChangeEvent,
}

impl PrimitiveEnum for TrbType {
    open spec fn spec_to(&self) -> u8 {
        match self {
            TrbType::Reserved => 0,
            TrbType::Normal => 1,
            TrbType::SetupStage => 2,
            TrbType::DataStage => 3,
            TrbType::StatusStage => 4,
            TrbType::Isoch => 5,
            TrbType::Link => 6,
            TrbType::EventData => 7,
            TrbType::Noop => 8,
            TrbType::EnableSlotCommand => 9,
            TrbType::DisableSlotCommand => 10,
            TrbType::AddressDeviceCommand => 11,
            TrbType::ConfigureEndpointCommand => 12,
            TrbType::EvaluateContextCommand => 13,
            TrbType::ResetEndpointCommand => 14,
            TrbType::StopEndpointCommand => 15,
            TrbType::SetTRDequeuePointerCommand => 16,
            TrbType::ResetDeviceCommand => 17,
            TrbType::NoopCommand => 23,
            TrbType::TransferEvent => 32,
            TrbType::CommandCompletionEvent => 33,
            TrbType::PortStatusChangeEvent => 34,
        }
    }

    open spec fn spec_from(val: u8) -> Option<Self> {
        if val == 0 {
            Some(TrbType::Reserved)
        } else if val == 1 {
            Some(TrbType::Normal)
        } else if val == 2 {
            Some(TrbType::SetupStage)
        } else if val == 3 {
            Some(TrbType::DataStage)
        } else if val == 4 {
            Some(TrbType::StatusStage)
        } else if val == 5 {
            Some(TrbType::Isoch)
        } else if val == 6 {
            Some(TrbType::Link)
        } else if val == 7 {
            Some(TrbType::EventData)
        } else if val == 8 {
            Some(TrbType::Noop)
        } else if val == 9 {
            Some(TrbType::EnableSlotCommand)
        } else if val == 10 {
            Some(TrbType::DisableSlotCommand)
        } else if val == 11 {
            Some(TrbType::AddressDeviceCommand)
        } else if val == 12 {
            Some(TrbType::ConfigureEndpointCommand)
        } else if val == 13 {
            Some(TrbType::EvaluateContextCommand)
        } else if val == 14 {
            Some(TrbType::ResetEndpointCommand)
        } else if val == 15 {
            Some(TrbType::StopEndpointCommand)
        } else if val == 16 {
            Some(TrbType::SetTRDequeuePointerCommand)
        } else if val == 17 {
            Some(TrbType::ResetDeviceCommand)
        } else if val == 23 {
            Some(TrbType::NoopCommand)
        } else if val == 32 {
            Some(TrbType::TransferEvent)
        } else if val == 33 {
            Some(TrbType::CommandCompletionEvent)
        } else if val == 34 {
            Some(TrbType::PortStatusChangeEvent)
        } else {
            None
        }
    }

    fn from(val: u8) -> (r: Result<Self, Error>) {
        match val {
            0 => Ok(TrbType::Reserved),
            1 => Ok(TrbType::Normal),
            2 => Ok(TrbType::SetupStage),
            3 => Ok(TrbType::DataStage),
            4 => Ok(TrbType::StatusStage),
            5 => Ok(TrbType::Isoch),
            6 => Ok(TrbType::Link),
            7 => Ok(TrbType::EventData),
            8 => Ok(TrbType::Noop),
            9 => Ok(TrbType::EnableSlotCommand),
            10 => Ok(TrbType::DisableSlotCommand),
            11 => Ok(TrbType::AddressDeviceCommand),
            12 => Ok(TrbType::ConfigureEndpointCommand),
            13 => Ok(TrbType::EvaluateContextCommand),
            14 => Ok(TrbType::ResetEndpointCommand),
            15 => Ok(TrbType::StopEndpointCommand),
            16 => Ok(TrbType::SetTRDequeuePointerCommand),
            17 => Ok(TrbType::ResetDeviceCommand),
            23 => Ok(TrbType::NoopCommand),
            32 => Ok(TrbType::TransferEvent),
            33 => Ok(TrbType::CommandCompletionEvent),
            34 => Ok(TrbType::PortStatusChangeEvent),
            _ => Err(Error::InvalidValue(val)),
        }
    }

    fn to(&self) -> (r: u8) {
        match self {
            TrbType::Reserved => 0,
            TrbType::Normal => 1,
            TrbType::SetupStage => 2,
            TrbType::DataStage => 3,
            TrbType::StatusStage => 4,
            TrbType::Isoch => 5,
            TrbType::Link => 6,
            TrbType::EventData => 7,
            TrbType::Noop => 8,
            TrbType::EnableSlotCommand => 9,
            TrbType::DisableSlotCommand => 10,
            TrbType::AddressDeviceCommand => 11,
            TrbType::ConfigureEndpointCommand => 12,
            TrbType::EvaluateContextCommand => 13,
            TrbType::ResetEndpointCommand => 14,
            TrbType::StopEndpointCommand => 15,
            TrbType::SetTRDequeuePointerCommand => 16,
            TrbType::ResetDeviceCommand => 17,
            TrbType::NoopCommand => 23,
            TrbType::TransferEvent => 32,
            TrbType::CommandCompletionEvent => 33,
            TrbType::PortStatusChangeEvent => 34,
        }
    }
}

#[derive(Debug, Copy, Clone, PartialEq, Eq, Structural)]
pub enum TrbCompletionCode {
    Success,
    TransactionError,
    TrbError,
    NoSlotsAvailableError,
    SlotNotEnabledError,
    ShortPacket,
    ContextStateError,
}

impl PrimitiveEnum for TrbCompletionCode {
    open spec fn spec_to(&self) -> u8 {
        match self {
            TrbCompletionCode::Success => 1,
            TrbCompletionCode::TransactionError => 4,
            TrbCompletionCode::TrbError => 5,
            TrbCompletionCode::NoSlotsAvailableError => 9,
            TrbCompletionCode::SlotNotEnabledError => 11,
            TrbCompletionCode::ShortPacket => 13,
            TrbCompletionCode::ContextStateError => 19,
        }
    }

    open spec fn spec_from(val: u8) -> Option<Self> {
        if val == 1 {
            Some(TrbCompletionCode::Success)
        } else if val == 4 {
            Some(TrbCompletionCode::TransactionError)
        } else if val == 5 {
            Some(TrbCompletionCode::TrbError)
        } else if val == 9 {
            Some(TrbCompletionCode::NoSlotsAvailableError)
        } else if val == 11 {
            Some(TrbCompletionCode::SlotNotEnabledError)
        } else if val == 13 {
            Some(TrbCompletionCode::ShortPacket)
        } else if val == 19 {
            Some(TrbCompletionCode::ContextStateError)
        } else {
            None
        }
    }

    fn from(val: u8) -> (r: Result<Self, Error>) {
        match val {
            1 => Ok(TrbCompletionCode::Success),
            4 => Ok(TrbCompletionCode::TransactionError),
            5 => Ok(TrbCompletionCode::TrbError),
            9 => Ok(TrbCompletionCode::NoSlotsAvailableError),
            11 => Ok(TrbCompletionCode::SlotNotEnabledError),
            13 => Ok(TrbCompletionCode::ShortPacket),
            19 => Ok(TrbCompletionCode::ContextStateError),
            _ => Err(Error::InvalidValue(val)),
        }
    }

    fn to(&self) -> (r: u8) {
        match self {
            TrbCompletionCode::Success => 1,
            TrbCompletionCode::TransactionError => 4,
            TrbCompletionCode::TrbError => 5,
            TrbCompletionCode::NoSlotsAvailableError => 9,
            TrbCompletionCode::SlotNotEnabledError => 11,
            TrbCompletionCode::ShortPacket => 13,
            TrbCompletionCode::ContextStateError => 19,
        }
    }
}

#[derive(Debug, Copy, Clone, PartialEq, Eq, Structural)]
pub enum DeviceSlotState {
    // The same value (0) is used for both the enabled and disabled states. See
    // xhci spec table 60.
    DisabledOrEnabled,
    Default,
    Addressed,
    Configured,
}

impl PrimitiveEnum for DeviceSlotState {
    open spec fn spec_to(&self) -> u8 {
        match self {
            DeviceSlotState::DisabledOrEnabled => 0,
            DeviceSlotState::Default => 1,
            DeviceSlotState::Addressed => 2,
            DeviceSlotState::Configured => 3,
        }
    }

    open spec fn spec_from(val: u8) -> Option<Self> {
        if val == 0 {
            Some(DeviceSlotState::DisabledOrEnabled)
        } else if val == 1 {
            Some(DeviceSlotState::Default)
        } else if val == 2 {
            Some(DeviceSlotState::Addressed)
        } else if val == 3 {
            Some(DeviceSlotState::Configured)
        } else {
            None
        }
    }

    fn from(val: u8) -> (r: Result<Self, Error>) {
        match val {
            0 => Ok(DeviceSlotState::DisabledOrEnabled),
            1 => Ok(DeviceSlotState::Default),
            2 => Ok(DeviceSlotState::Addressed),
            3 => Ok(DeviceSlotState::Configured),
            _ => Err(Error::InvalidValue(val)),
        }
    }

    fn to(&self) -> (r: u8) {
        match self {
            DeviceSlotState::DisabledOrEnabled => 0,
            DeviceSlotState::Default => 1,
            DeviceSlotState::Addressed => 2,
            DeviceSlotState::Configured => 3,
        }
    }
}

#[derive(Debug, Copy, Clone, PartialEq, Eq, Structural)]
pub enum EndpointState {
    Disabled,
    Running,
}

impl PrimitiveEnum for EndpointState {
    open spec fn spec_to(&self) -> u8 {
        match self {
            EndpointState::Disabled => 0,
            EndpointState::Running => 1,
        }
    }

    open spec fn spec_from(val: u8) -> Option<Self> {
        if val == 0 {
            Some(EndpointState::Disabled)
        } else if val == 1 {
            Some(EndpointState::Running)
        } else {
            None
        }
    }

    fn from(val: u8) -> (r: Result<Self, Error>) {
        match val {
            0 => Ok(EndpointState::Disabled),
            1 => Ok(EndpointState::Running),
            _ => Err(Error::InvalidValue(val)),
        }
    }

    fn to(&self) -> (r: u8) {
        match self {
            EndpointState::Disabled => 0,
            EndpointState::Running => 1,
        }
    }
}

// ---------------------------------------------------------------------------
// Layout in guest memory: every structure here is a run of little-endian
// dwords.

/// The little-endian bytes of the dwords `d`.
pub open spec fn dwords_to_bytes(d: Seq<u32>) -> Seq<u8> {
    Seq::new(4 * d.len(), |i: int| ((d[i / 4] >> ((8 * (i % 4)) as u32)) & 0xff) as u8)
}

/// The little-endian dword at byte `4 * i` of `b`.
pub open spec fn dword_at(b: Seq<u8>, i: int) -> u32 {
    (b[4 * i] as u32) | ((b[4 * i + 1] as u32) << 8u32) | ((b[4 * i + 2] as u32) << 16u32) | ((b[4
        * i + 3] as u32) << 24u32)
}

/// The dwords whose little-endian bytes are `b` (a trailing partial dword is
/// dropped).
pub open spec fn bytes_to_dwords(b: Seq<u8>) -> Seq<u32> {
    Seq::new(b.len() / 4, |i: int| dword_at(b, i))
}

proof fn lemma_u32_bytes(v: u32, b0: u8, b1: u8, b2: u8, b3: u8)
    by (bit_vector)
    ensures
        ((((v >> 0u32) & 0xff) as u8) as u32) | (((((v >> 8u32) & 0xff) as u8) as u32) << 8u32)
            | (((((v >> 16u32) & 0xff) as u8) as u32) << 16u32) | (((((v >> 24u32) & 0xff) as u8)
            as u32) << 24u32) == v,
        ({
            let w = (b0 as u32) | ((b1 as u32) << 8u32) | ((b2 as u32) << 16u32) | ((b3 as u32)
                << 24u32);
            &&& ((w >> 0u32) & 0xff) as u8 == b0
            &&& ((w >> 8u32) & 0xff) as u8 == b1
            &&& ((w >> 16u32) & 0xff) as u8 == b2
            &&& ((w >> 24u32) & 0xff) as u8 == b3
        }),
{
}

/// Decoding the bytes of dwords gives the dwords back.
pub proof fn lemma_dwords_round_trip(d: Seq<u32>)
    ensures
        bytes_to_dwords(dwords_to_bytes(d)) == d,
{
    let b = dwords_to_bytes(d);
    assert forall|i: int| 0 <= i < d.len() implies #[trigger] bytes_to_dwords(b)[i] == d[i] by {
        lemma_u32_bytes(d[i], 0, 0, 0, 0);
        assert((4 * i) / 4 == i && (4 * i) % 4 == 0);
        assert((4 * i + 1) / 4 == i && (4 * i + 1) % 4 == 1);
        assert((4 * i + 2) / 4 == i && (4 * i + 2) % 4 == 2);
        assert((4 * i + 3) / 4 == i && (4 * i + 3) % 4 == 3);
    }
    assert(bytes_to_dwords(b) =~= d);
}

/// Encoding the dwords read from whole dwords of bytes gives the bytes back.
pub proof fn lemma_bytes_round_trip(b: Seq<u8>)
    requires
        b.len() % 4 == 0,
    ensures
        dwords_to_bytes(bytes_to_dwords(b)) == b,
{
    let d = bytes_to_dwords(b);
    assert forall|i: int| 0 <= i < b.len() implies #[trigger] dwords_to_bytes(d)[i] == b[i] by {
        let q = i / 4;
        let r = i % 4;
        assert(4 * q + r == i);
        lemma_u32_bytes(0, b[4 * q], b[4 * q + 1], b[4 * q + 2], b[4 * q + 3]);
    }
    assert(dwords_to_bytes(d) =~= b);
}

/// The bytes of `d`.
pub fn encode_dwords(d: &[u32]) -> (r: Vec<u8>)
    requires
        4 * d@.len() <= usize::MAX,
    ensures
        r@ == dwords_to_bytes(d@),
{
    let mut r: Vec<u8> = Vec::new();
    let mut i: usize = 0;
    while i < d.len()
        invariant
            i <= d@.len(),
            4 * d@.len() <= usize::MAX,
            r@ == dwords_to_bytes(d@).subrange(0, 4 * i as int),
        decreases d@.len() - i,
    {
        let v = d[i];
        r.push((v & 0xff) as u8);
        r.push(((v >> 8u32) & 0xff) as u8);
        r.push(((v >> 16u32) & 0xff) as u8);
        r.push(((v >> 24u32) & 0xff) as u8);
        proof {
            let full = dwords_to_bytes(d@);
            assert((4 * i as int) / 4 == i && (4 * i as int) % 4 == 0);
            assert((4 * i as int + 1) / 4 == i && (4 * i as int + 1) % 4 == 1);
            assert((4 * i as int + 2) / 4 == i && (4 * i as int + 2) % 4 == 2);
            assert((4 * i as int + 3) / 4 == i && (4 * i as int + 3) % 4 == 3);
            assert(v >> 0u32 == v) by (bit_vector);
            assert(r@ =~= full.subrange(0, 4 * (i + 1) as int));
        }
        i = i + 1;
    }
    assert(r@ =~= dwords_to_bytes(d@));
    r
}

/// The dwords of `b`, whose length is a whole number of dwords.
pub fn decode_dwords(b: &[u8]) -> (r: Vec<u32>)
    requires
        b@.len() % 4 == 0,
    ensures
        r@ == bytes_to_dwords(b@),
{
    let mut r: Vec<u32> = Vec::new();
    let n = b.len() / 4;
    let mut i: usize = 0;
    while i < n
        invariant
            i <= n,
            n == b@.len() / 4,
            b@.len() % 4 == 0,
            r@ == bytes_to_dwords(b@).subrange(0, i as int),
        decreases n - i,
    {
        assert(4 * i + 3 < b@.len());
        assert(b@.len() == b.len());
        let k = 4 * i;
        let v = (b[k] as u32) | ((b[k + 1] as u32) << 8u32) | ((b[k + 2] as u32) << 16u32) | ((b[k
            + 3] as u32) << 24u32);
        r.push(v);
        proof {
            assert(r@ =~= bytes_to_dwords(b@).subrange(0, i + 1));
        }
        i = i + 1;
    }
    assert(r@ =~= bytes_to_dwords(b@));
    r
}

// ---------------------------------------------------------------------------
// Structures in guest memory.

/// A structure laid out in guest memory as a fixed number of little-endian
/// dwords; any two of the same size can be reinterpreted as each other.
pub trait TrbCast: Sized {
    /// Number of dwords in the layout.
    spec fn spec_dword_count() -> nat;

    /// The dwords of the value.
    spec fn spec_dwords(&self) -> Seq<u32>;

    /// The value whose dwords are `d`.
    spec fn spec_from_dwords(d: Seq<u32>) -> Self;

    /// A value has as many dwords as the layout, and is rebuilt from them.
    proof fn lemma_layout(&self)
        ensures
            self.spec_dwords().len() == Self::spec_dword_count(),
            Self::spec_dword_count() <= 8,
            Self::spec_from_dwords(self.spec_dwords()) == *self,
    ;

    /// Dwords of the layout's size are those of the value built from them.
    proof fn lemma_layout_from(d: Seq<u32>)
        requires
            d.len() == Self::spec_dword_count(),
        ensures
            Self::spec_from_dwords(d).spec_dwords() == d,
    ;

    fn dword_count() -> (r: usize)
        ensures
            r == Self::spec_dword_count(),
            r <= 8,
    ;

    fn to_dwords(&self) -> (r: Vec<u32>)
        ensures
            r@ == self.spec_dwords(),
    ;

    fn from_dwords(d: &[u32]) -> (r: Self)
        requires
            d@.len() == Self::spec_dword_count(),
        ensures
            r == Self::spec_from_dwords(d@),
    ;
}

/// Reinterprets `s` as another structure of the same size.
pub fn cast<S: TrbCast, T: TrbCast>(s: &S) -> (r: T)
    requires
        T::spec_dword_count() == S::spec_dword_count(),
    ensures
        r == T::spec_from_dwords(s.spec_dwords()),
{
    proof {
        s.lemma_layout();
    }
    let d = s.to_dwords();
    T::from_dwords(d.as_slice())
}

/// The bytes of `t` in guest memory.
pub open spec fn obj_bytes<T: TrbCast>(t: T) -> Seq<u8> {
    dwords_to_bytes(t.spec_dwords())
}

/// The structure stored at `addr`, if its bytes lie in one region.
pub open spec fn obj_at<T: TrbCast>(r: Seq<(u64, Seq<u8>)>, addr: int) -> Option<T> {
    match bytes_at(r, addr, 4 * T::spec_dword_count()) {
        Some(b) => Some(T::spec_from_dwords(bytes_to_dwords(b))),
        None => None,
    }
}

/// Reads the structure at `addr`.
pub fn read_obj<T: TrbCast>(mem: &GuestMemory, addr: GuestAddress) -> (r: Result<T, MemError>)
    ensures
        regions_ok(mem.regions()),
        match r {
            Ok(t) => obj_at::<T>(mem.regions(), addr.0 as int) == Some(t),
            Err(e) => e == MemError::InvalidGuestAddress(addr) && obj_at::<T>(
                mem.regions(),
                addr.0 as int,
            ) is None,
        },
{
    let n = T::dword_count();
    let bytes = mem.read_bytes(addr, 4 * n)?;
    proof {
        assert(bytes@.len() == 4 * n);
        assert(bytes_to_dwords(bytes@).len() == n);
    }
    let d = decode_dwords(bytes.as_slice());
    Ok(T::from_dwords(d.as_slice()))
}

/// Writes `t` at `addr`.
pub fn write_obj<T: TrbCast>(mem: &mut GuestMemory, t: &T, addr: GuestAddress) -> (r: Result<(), MemError>)
    ensures
        regions_ok(old(mem).regions()),
        regions_ok(final(mem).regions()),
        match r {
            Ok(()) => bytes_at(old(mem).regions(), addr.0 as int, 4 * T::spec_dword_count()) is Some
                && final(mem).regions() == write_at(old(mem).regions(), addr.0 as int, obj_bytes(*t)),
            Err(e) => e == MemError::InvalidGuestAddress(addr) && bytes_at(
                old(mem).regions(),
                addr.0 as int,
                4 * T::spec_dword_count(),
            ) is None && final(mem).regions() == old(mem).regions(),
        },
{
    proof {
        t.lemma_layout();
    }
    let d = t.to_dwords();
    let b = encode_dwords(d.as_slice());
    mem.write_bytes(addr, b.as_slice())
}

/// The little-endian 64-bit value at `addr`, if its bytes lie in one region.
pub open spec fn u64_at(r: Seq<(u64, Seq<u8>)>, addr: int) -> Option<u64> {
    match bytes_at(r, addr, 8) {
        Some(b) => Some((dword_at(b, 0) as u64) | ((dword_at(b, 1) as u64) << 32u64)),
        None => None,
    }
}

/// Reads the little-endian 64-bit value at `addr`.
pub fn read_u64(mem: &GuestMemory, addr: GuestAddress) -> (r: Result<u64, MemError>)
    ensures
        regions_ok(mem.regions()),
        match r {
            Ok(v) => u64_at(mem.regions(), addr.0 as int) == Some(v),
            Err(e) => e == MemError::InvalidGuestAddress(addr) && u64_at(mem.regions(), addr.0 as int) is None,
        },
{
    let bytes = mem.read_bytes(addr, 8)?;
    let d = decode_dwords(bytes.as_slice());
    proof {
        assert(d@[0] == dword_at(bytes@, 0));
        assert(d@[1] == dword_at(bytes@, 1));
    }
    Ok((d[0] as u64) | ((d[1] as u64) << 32u64))
}

/// A structure written to guest memory is read back unchanged.
pub proof fn lemma_read_after_write<T: TrbCast>(r: Seq<(u64, Seq<u8>)>, addr: int, t: T)
    requires
        regions_ok(r),
        bytes_at(r, addr, 4 * T::spec_dword_count()) is Some,
    ensures
        obj_at::<T>(write_at(r, addr, obj_bytes(t)), addr) == Some(t),
{
    t.lemma_layout();
    lemma_bytes_at_write(r, addr, obj_bytes(t));
    lemma_dwords_round_trip(t.spec_dwords());
}

/// A transfer request block: four dwords. Every kind of TRB shares this
/// layout; the kind-specific fields are accessors on `Trb`.
#[derive(Debug, Copy, Clone, PartialEq, Eq, Structural)]
pub struct Trb {
    pub d0: u32,
    pub d1: u32,
    pub d2: u32,
    pub d3: u32,
}

impl Trb {
    /// All fields zero.
    pub fn new() -> (r: Self)
        ensures
            r == (Trb { d0: 0, d1: 0, d2: 0, d3: 0 }),
    {
        Trb { d0: 0, d1: 0, d2: 0, d3: 0 }
    }
}

impl TrbCast for Trb {
    open spec fn spec_dword_count() -> nat {
        4
    }

    open spec fn spec_dwords(&self) -> Seq<u32> {
        seq![self.d0, self.d1, self.d2, self.d3]
    }

    open spec fn spec_from_dwords(d: Seq<u32>) -> Self {
        Trb { d0: d[0], d1: d[1], d2: d[2], d3: d[3] }
    }

    proof fn lemma_layout(&self) {
    }

    proof fn lemma_layout_from(d: Seq<u32>) {
        assert(Self::spec_from_dwords(d).spec_dwords() =~= d);
    }

    fn dword_count() -> (r: usize) {
        4
    }

    fn to_dwords(&self) -> (r: Vec<u32>) {
        let mut v: Vec<u32> = Vec::new();
        v.push(self.d0);
        v.push(self.d1);
        v.push(self.d2);
        v.push(self.d3);
        assert(v@ =~= self.spec_dwords());
        v
    }

    fn from_dwords(d: &[u32]) -> (r: Self) {
        Trb { d0: d[0], d1: d[1], d2: d[2], d3: d[3] }
    }
}

/// An entry of the event ring segment table.
#[derive(Debug, Copy, Clone, PartialEq, Eq, Structural)]
pub struct EventRingSegmentTableEntry {
    pub d0: u32,
    pub d1: u32,
    pub d2: u32,
    pub d3: u32,
}

impl EventRingSegmentTableEntry {
    /// All fields zero.
    pub fn new() -> (r: Self)
        ensures
            r == (EventRingSegmentTableEntry { d0: 0, d1: 0, d2: 0, d3: 0 }),
    {
        EventRingSegmentTableEntry { d0: 0, d1: 0, d2: 0, d3: 0 }
    }
}

impl TrbCast for EventRingSegmentTableEntry {
    open spec fn spec_dword_count() -> nat {
        4
    }

    open spec fn spec_dwords(&self) -> Seq<u32> {
        seq![self.d0, self.d1, self.d2, self.d3]
    }

    open spec fn spec_from_dwords(d: Seq<u32>) -> Self {
        EventRingSegmentTableEntry { d0: d[0], d1: d[1], d2: d[2], d3: d[3] }
    }

    proof fn lemma_layout(&self) {
    }

    proof fn lemma_layout_from(d: Seq<u32>) {
        assert(Self::spec_from_dwords(d).spec_dwords() =~= d);
    }

    fn dword_count() -> (r: usize) {
        4
    }

    fn to_dwords(&self) -> (r: Vec<u32>) {
        let mut v: Vec<u32> = Vec::new();
        v.push(self.d0);
        v.push(self.d1);
        v.push(self.d2);
        v.push(self.d3);
        assert(v@ =~= self.spec_dwords());
        v
    }

    fn from_dwords(d: &[u32]) -> (r: Self) {
        EventRingSegmentTableEntry { d0: d[0], d1: d[1], d2: d[2], d3: d[3] }
    }
}

/// The input control context of an input context.
#[derive(Debug, Copy, Clone, PartialEq, Eq, Structural)]
pub struct InputControlContext {
    pub d0: u32,
    pub d1: u32,
    pub d2: u32,
    pub d3: u32,
    pub d4: u32,
    pub d5: u32,
    pub d6: u32,
    pub d7: u32,
}

impl InputControlContext {
    /// All fields zero.
    pub fn new() -> (r: Self)
        ensures
            r == (InputControlContext { d0: 0, d1: 0, d2: 0, d3: 0, d4: 0, d5: 0, d6: 0, d7: 0 }),
    {
        InputControlContext { d0: 0, d1: 0, d2: 0, d3: 0, d4: 0, d5: 0, d6: 0, d7: 0 }
    }
}

impl TrbCast for InputControlContext {
    open spec fn spec_dword_count() -> nat {
        8
    }

    open spec fn spec_dwords(&self) -> Seq<u32> {
        seq![self.d0, self.d1, self.d2, self.d3, self.d4, self.d5, self.d6, self.d7]
    }

    open spec fn spec_from_dwords(d: Seq<u32>) -> Self {
        InputControlContext { d0: d[0], d1: d[1], d2: d[2], d3: d[3], d4: d[4], d5: d[5], d6: d[6], d7: d[7] }
    }

    proof fn lemma_layout(&self) {
    }

    proof fn lemma_layout_from(d: Seq<u32>) {
        assert(Self::spec_from_dwords(d).spec_dwords() =~= d);
    }

    fn dword_count() -> (r: usize) {
        8
    }

    fn to_dwords(&self) -> (r: Vec<u32>) {
        let mut v: Vec<u32> = Vec::new();
        v.push(self.d0);
        v.push(self.d1);
        v.push(self.d2);
        v.push(self.d3);
        v.push(self.d4);
        v.push(self.d5);
        v.push(self.d6);
        v.push(self.d7);
        assert(v@ =~= self.spec_dwords());
        v
    }

    fn from_dwords(d: &[u32]) -> (r: Self) {
        InputControlContext { d0: d[0], d1: d[1], d2: d[2], d3: d[3], d4: d[4], d5: d[5], d6: d[6], d7: d[7] }
    }
}

/// A slot context.
#[derive(Debug, Copy, Clone, PartialEq, Eq, Structural)]
pub struct SlotContext {
    pub d0: u32,
    pub d1: u32,
    pub d2: u32,
    pub d3: u32,
    pub d4: u32,
    pub d5: u32,
    pub d6: u32,
    pub d7: u32,
}

impl SlotContext {
    /// All fields zero.
    pub fn new() -> (r: Self)
        ensures
            r == (SlotContext { d0: 0, d1: 0, d2: 0, d3: 0, d4: 0, d5: 0, d6: 0, d7: 0 }),
    {
        SlotContext { d0: 0, d1: 0, d2: 0, d3: 0, d4: 0, d5: 0, d6: 0, d7: 0 }
    }
}

impl TrbCast for SlotContext {
    open spec fn spec_dword_count() -> nat {
        8
    }

    open spec fn spec_dwords(&self) -> Seq<u32> {
        seq![self.d0, self.d1, self.d2, self.d3, self.d4, self.d5, self.d6, self.d7]
    }

    open spec fn spec_from_dwords(d: Seq<u32>) -> Self {
        SlotContext { d0: d[0], d1: d[1], d2: d[2], d3: d[3], d4: d[4], d5: d[5], d6: d[6], d7: d[7] }
    }

    proof fn lemma_layout(&self) {
    }

    proof fn lemma_layout_from(d: Seq<u32>) {
        assert(Self::spec_from_dwords(d).spec_dwords() =~= d);
    }

    fn dword_count() -> (r: usize) {
        8
    }

    fn to_dwords(&self) -> (r: Vec<u32>) {
        let mut v: Vec<u32> = Vec::new();
        v.push(self.d0);
        v.push(self.d1);
        v.push(self.d2);
        v.push(self.d3);
        v.push(self.d4);
        v.push(self.d5);
        v.push(self.d6);
        v.push(self.d7);
        assert(v@ =~= self.spec_dwords());
        v
    }

    fn from_dwords(d: &[u32]) -> (r: Self) {
        SlotContext { d0: d[0], d1: d[1], d2: d[2], d3: d[3], d4: d[4], d5: d[5], d6: d[6], d7: d[7] }
    }
}

/// An endpoint context.
#[derive(Debug, Copy, Clone, PartialEq, Eq, Structural)]
pub struct EndpointContext {
    pub d0: u32,
    pub d1: u32,
    pub d2: u32,
    pub d3: u32,
    pub d4: u32,
    pub d5: u32,
    pub d6: u32,
    pub d7: u32,
}

impl EndpointContext {
    /// All fields zero.
    pub fn new() -> (r: Self)
        ensures
            r == (EndpointContext { d0: 0, d1: 0, d2: 0, d3: 0, d4: 0, d5: 0, d6: 0, d7: 0 }),
    {
        EndpointContext { d0: 0, d1: 0, d2: 0, d3: 0, d4: 0, d5: 0, d6: 0, d7: 0 }
    }
}

impl TrbCast for EndpointContext {
    open spec fn spec_dword_count() -> nat {
        8
    }

    open spec fn spec_dwords(&self) -> Seq<u32> {
        seq![self.d0, self.d1, self.d2, self.d3, self.d4, self.d5, self.d6, self.d7]
    }

    open spec fn spec_from_dwords(d: Seq<u32>) -> Self {
        EndpointContext { d0: d[0], d1: d[1], d2: d[2], d3: d[3], d4: d[4], d5: d[5], d6: d[6], d7: d[7] }
    }

    proof fn lemma_layout(&self) {
    }

    proof fn lemma_layout_from(d: Seq<u32>) {
        assert(Self::spec_from_dwords(d).spec_dwords() =~= d);
    }

    fn dword_count() -> (r: usize) {
        8
    }

    fn to_dwords(&self) -> (r: Vec<u32>) {
        let mut v: Vec<u32> = Vec::new();
        v.push(self.d0);
        v.push(self.d1);
        v.push(self.d2);
        v.push(self.d3);
        v.push(self.d4);
        v.push(self.d5);
        v.push(self.d6);
        v.push(self.d7);
        assert(v@ =~= self.spec_dwords());
        v
    }

    fn from_dwords(d: &[u32]) -> (r: Self) {
        EndpointContext { d0: d[0], d1: d[1], d2: d[2], d3: d[3], d4: d[4], d5: d[5], d6: d[6], d7: d[7] }
    }
}



/// The 64-bit parameter of a TRB: its first two dwords.
pub open spec fn parameter_of(t: Trb) -> u64 {
    (t.d0 as u64) | ((t.d1 as u64) << 32u64)
}

proof fn lemma_u64_halves(p: u64)
    by (bit_vector)
    ensures
        ((p as u32) as u64) | ((((p >> 32u64) as u32) as u64) << 32u64) == p,
{
}

/// Kinds of TRB, each a view of `Trb`.
pub type NormalTrb = Trb;
pub type SetupStageTrb = Trb;
pub type DataStageTrb = Trb;
pub type StatusStageTrb = Trb;
pub type IsochTrb = Trb;
pub type LinkTrb = Trb;
pub type EventDataTrb = Trb;
pub type NoopTrb = Trb;
pub type DisableSlotCommandTrb = Trb;
pub type AddressDeviceCommandTrb = Trb;
pub type ConfigureEndpointCommandTrb = Trb;
pub type EvaluateContextCommandTrb = Trb;
pub type ResetEndpointCommandTrb = Trb;
pub type StopEndpointCommandTrb = Trb;
pub type SetTRDequeuePointerCommandTrb = Trb;
pub type ResetDeviceCommandTrb = Trb;
pub type TransferEventTrb = Trb;
pub type CommandCompletionEventTrb = Trb;
pub type PortStatusChangeEventTrb = Trb;

/// Type field of a TRB.
pub open spec fn trb_type_bits(t: Trb) -> u8 {
    field32(t.d3, 10, 0x3f) as u8
}

/// The TRB's type, if its type field names one.
pub open spec fn type_of(t: Trb) -> Option<TrbType> {
    TrbType::spec_from(trb_type_bits(t))
}

/// The chain bit of the TRB kinds that have one.
pub open spec fn chain_bit(t: Trb) -> bool {
    match type_of(t) {
        Some(TrbType::Normal) | Some(TrbType::DataStage) | Some(TrbType::StatusStage) | Some(
            TrbType::Isoch,
        ) | Some(TrbType::Noop) | Some(TrbType::Link) | Some(TrbType::EventData) => field32(
            t.d3,
            4,
            1,
        ) != 0,
        _ => false,
    }
}

/// TRB kinds that may stand on a transfer ring.
pub open spec fn in_transfer_ring(t: TrbType) -> bool {
    match t {
        TrbType::Normal | TrbType::SetupStage | TrbType::DataStage | TrbType::StatusStage
        | TrbType::Isoch | TrbType::Link | TrbType::EventData | TrbType::Noop => true,
        _ => false,
    }
}

/// TRB kinds that carry a data buffer.
pub open spec fn carries_data(t: TrbType) -> bool {
    match t {
        TrbType::Normal | TrbType::SetupStage | TrbType::DataStage | TrbType::Isoch => true,
        _ => false,
    }
}

impl Trb {
    /// The 64-bit parameter (dwords 0 and 1).
    pub fn get_parameter(&self) -> (r: u64)
        ensures
            r == parameter_of(*self),
    {
        (self.d0 as u64) | ((self.d1 as u64) << 32u64)
    }

    /// Sets the 64-bit parameter.
    pub fn set_parameter(&mut self, p: u64)
        ensures
            parameter_of(*final(self)) == p,
            final(self).d0 == p as u32,
            final(self).d1 == (p >> 32u64) as u32,
            final(self).d2 == old(self).d2,
            final(self).d3 == old(self).d3,
    {
        self.d0 = p as u32;
        self.d1 = (p >> 32u64) as u32;
        proof {
            lemma_u64_halves(p);
        }
    }

    /// Normal, data stage and isoch TRBs: the buffer's guest address.
    pub fn get_data_buffer(&self) -> (r: u64)
        ensures
            r == parameter_of(*self),
    {
        self.get_parameter()
    }

    /// Sets the buffer's guest address.
    pub fn set_data_buffer(&mut self, p: u64)
        ensures
            parameter_of(*final(self)) == p,
            final(self).d0 == p as u32,
            final(self).d1 == (p >> 32u64) as u32,
            final(self).d2 == old(self).d2,
            final(self).d3 == old(self).d3,
    {
        self.set_parameter(p)
    }

    /// Link TRBs: the next ring segment.
    pub fn get_ring_segment_pointer(&self) -> (r: u64)
        ensures
            r == parameter_of(*self),
    {
        self.get_parameter()
    }

    /// Sets the next ring segment.
    pub fn set_ring_segment_pointer(&mut self, p: u64)
        ensures
            parameter_of(*final(self)) == p,
            final(self).d0 == p as u32,
            final(self).d1 == (p >> 32u64) as u32,
            final(self).d2 == old(self).d2,
            final(self).d3 == old(self).d3,
    {
        self.set_parameter(p)
    }

    /// Address device, configure endpoint and evaluate context commands:
    /// the input context.
    pub fn get_input_context_pointer(&self) -> (r: u64)
        ensures
            r == parameter_of(*self),
    {
        self.get_parameter()
    }

    /// Sets the input context.
    pub fn set_input_context_pointer(&mut self, p: u64)
        ensures
            parameter_of(*final(self)) == p,
            final(self).d0 == p as u32,
            final(self).d1 == (p >> 32u64) as u32,
            final(self).d2 == old(self).d2,
            final(self).d3 == old(self).d3,
    {
        self.set_parameter(p)
    }

    /// Transfer and command completion events: the TRB the event is about.
    pub fn get_trb_pointer(&self) -> (r: u64)
        ensures
            r == parameter_of(*self),
    {
        self.get_parameter()
    }

    /// Sets the TRB the event is about.
    pub fn set_trb_pointer(&mut self, p: u64)
        ensures
            parameter_of(*final(self)) == p,
            final(self).d0 == p as u32,
            final(self).d1 == (p >> 32u64) as u32,
            final(self).d2 == old(self).d2,
            final(self).d3 == old(self).d3,
    {
        self.set_parameter(p)
    }

    /// Event data TRBs: the data.
    pub fn get_event_data(&self) -> (r: u64)
        ensures
            r == parameter_of(*self),
    {
        self.get_parameter()
    }

    /// Set TR dequeue pointer commands: the new dequeue pointer, in 16-byte
    /// units.
    pub fn get_dequeue_ptr(&self) -> (r: u64)
        ensures
            r == parameter_of(*self) >> 4u64,
    {
        self.get_parameter() >> 4u64
    }

    /// The TRB's type.
    pub fn trb_type(&self) -> (r: Result<TrbType, Error>)
        ensures
            match type_of(*self) {
                Some(t) => r == Ok::<TrbType, Error>(t),
                None => r == Err::<TrbType, Error>(Error::InvalidValue(trb_type_bits(*self))),
            },
    {
        <TrbType as PrimitiveEnum>::from(self.get_trb_type())
    }

    /// Sets the cycle bit.
    pub fn set_cycle_bit(&mut self, b: bool)
        ensures
            final(self).d3 == with_field32(old(self).d3, 0, 1, if b { 1 } else { 0 }),
            final(self).d0 == old(self).d0,
            final(self).d1 == old(self).d1,
            final(self).d2 == old(self).d2,
    {
        if b {
            self.set_cycle(1u8);
        } else {
            self.set_cycle(0u8);
        }
    }

    /// Whether the TD continues with the next TRB; false for kinds without a
    /// chain bit.
    pub fn get_chain_bit(&self) -> (r: bool)
        requires
            type_of(*self) is Some,
        ensures
            r == chain_bit(*self),
    {
        match self.trb_type() {
            Ok(TrbType::Normal) | Ok(TrbType::DataStage) | Ok(TrbType::StatusStage) | Ok(
                TrbType::Isoch,
            ) | Ok(TrbType::Noop) | Ok(TrbType::Link) | Ok(TrbType::EventData) => self.get_chain()
                != 0,
            _ => false,
        }
    }

    /// The interrupter target, as its low eight bits.
    pub fn interrupter_target(&self) -> (r: u8)
        ensures
            r == (self.d2 >> 22u32) as u8,
    {
        (self.get_status() >> 22u32) as u8
    }

    /// Whether the TRB's kind may stand on a transfer ring.
    pub fn can_in_transfer_ring(&self) -> (r: bool)
        requires
            type_of(*self) is Some,
        ensures
            r == in_transfer_ring(type_of(*self).unwrap()),
    {
        match self.trb_type() {
            Ok(TrbType::Normal) | Ok(TrbType::SetupStage) | Ok(TrbType::DataStage) | Ok(
                TrbType::StatusStage,
            ) | Ok(TrbType::Isoch) | Ok(TrbType::Link) | Ok(TrbType::EventData) | Ok(
                TrbType::Noop,
            ) => true,
            _ => false,
        }
    }

    /// The transfer length of kinds that carry data; 0 for the others.
    pub fn transfer_length(&self) -> (r: u32)
        requires
            type_of(*self) is Some,
        ensures
            r == if carries_data(type_of(*self).unwrap()) {
                self.d2 & 0x1ffff
            } else {
                0
            },
    {
        match self.trb_type() {
            Ok(TrbType::Normal) | Ok(TrbType::SetupStage) | Ok(TrbType::DataStage) | Ok(
                TrbType::Isoch,
            ) => self.get_status() & 0x1ffff,
            _ => 0,
        }
    }

    /// The interrupt-on-completion flag.
    pub fn interrupt_on_completion(&self) -> (r: bool)
        ensures
            r == ((field32(self.d3, 1, 0x1ff) & 0x10) > 0),
    {
        (self.get_flags() & 0x10) > 0
    }

    /// The immediate-data flag of kinds that carry data; false for the others.
    pub fn immediate_data(&self) -> (r: bool)
        requires
            type_of(*self) is Some,
        ensures
            r == (carries_data(type_of(*self).unwrap()) && (field32(self.d3, 1, 0x1ff) & 0x20)
                > 0),
    {
        match self.trb_type() {
            Ok(TrbType::Normal) | Ok(TrbType::SetupStage) | Ok(TrbType::DataStage) | Ok(
                TrbType::Isoch,
            ) => (self.get_flags() & 0x20) > 0,
            _ => false,
        }
    }

    /// Flag bits 1-9.
    pub fn get_flags(&self) -> (r: u32)
        ensures
            r == field32(self.d3, 1, 0x1ff),
    {
        get_field32(self.d3, 1, 0x1ff)
    }
}

/// A TRB and the guest address it was read from.
#[derive(Debug, Copy, Clone, PartialEq, Eq, Structural)]
pub struct AddressedTrb {
    pub trb: Trb,
    pub gpa: u64,
}

/// The TRBs of one transfer descriptor, in ring order.
pub type TransferDescriptor = Vec<AddressedTrb>;

impl EventRingSegmentTableEntry {
    /// Guest address of the segment.
    pub fn get_ring_segment_base_address(&self) -> (r: u64)
        ensures
            r == (self.d0 as u64) | ((self.d1 as u64) << 32u64),
    {
        (self.d0 as u64) | ((self.d1 as u64) << 32u64)
    }

    /// Sets the guest address of the segment.
    pub fn set_ring_segment_base_address(&mut self, p: u64)
        ensures
            (final(self).d0 as u64) | ((final(self).d1 as u64) << 32u64) == p,
            final(self).d2 == old(self).d2,
            final(self).d3 == old(self).d3,
    {
        self.d0 = p as u32;
        self.d1 = (p >> 32u64) as u32;
        proof {
            lemma_u64_halves(p);
        }
    }
}

/// The TR dequeue pointer of an endpoint context, in 16-byte units.
pub open spec fn tr_dequeue_pointer_of(c: EndpointContext) -> u64 {
    ((c.d2 >> 4u32) as u64) | ((c.d3 as u64) << 28u64)
}

impl EndpointContext {
    /// The TR dequeue pointer, in 16-byte units.
    pub fn get_tr_dequeue_pointer(&self) -> (r: u64)
        ensures
            r == tr_dequeue_pointer_of(*self),
    {
        ((self.d2 >> 4u32) as u64) | ((self.d3 as u64) << 28u64)
    }

    /// The endpoint's state.
    pub fn state(&self) -> (r: Result<EndpointState, Error>)
        ensures
            match EndpointState::spec_from(field32(self.d0, 0, 0x7) as u8) {
                Some(s) => r == Ok::<EndpointState, Error>(s),
                None => r == Err::<EndpointState, Error>(Error::InvalidValue(field32(self.d0, 0, 0x7) as u8)),
            },
    {
        <EndpointState as PrimitiveEnum>::from(self.get_endpoint_state())
    }

    /// Sets the endpoint's state.
    pub fn set_state(&mut self, state: EndpointState)
        ensures
            final(self).d0 == with_field32(old(self).d0, 0, 0x7, state.spec_to() as u32),
            final(self).d1 == old(self).d1,
            final(self).d2 == old(self).d2,
            final(self).d3 == old(self).d3,
            final(self).d4 == old(self).d4,
            final(self).d5 == old(self).d5,
            final(self).d6 == old(self).d6,
            final(self).d7 == old(self).d7,
    {
        self.set_endpoint_state(state.to());
    }
}

impl SlotContext {
    /// The slot's state.
    pub fn state(&self) -> (r: Result<DeviceSlotState, Error>)
        ensures
            match DeviceSlotState::spec_from(field32(self.d3, 27, 0x1f) as u8) {
                Some(s) => r == Ok::<DeviceSlotState, Error>(s),
                None => r == Err::<DeviceSlotState, Error>(Error::InvalidValue(field32(self.d3, 27, 0x1f) as u8)),
            },
    {
        <DeviceSlotState as PrimitiveEnum>::from(self.get_slot_state())
    }

    /// Sets the slot's state.
    pub fn set_state(&mut self, state: DeviceSlotState)
        ensures
            final(self).d3 == with_field32(old(self).d3, 27, 0x1f, state.spec_to() as u32),
            final(self).d0 == old(self).d0,
            final(self).d1 == old(self).d1,
            final(self).d2 == old(self).d2,
            final(self).d4 == old(self).d4,
            final(self).d5 == old(self).d5,
            final(self).d6 == old(self).d6,
            final(self).d7 == old(self).d7,
    {
        self.set_slot_state(state.to());
    }
}

impl InputControlContext {
    /// Whether the context at `idx` is to be dropped.
    pub fn drop_context_flag(&self, idx: u8) -> (r: bool)
        requires
            idx < 32,
        ensures
            r == (field32(self.d0, idx as u32, 1) == 1),
    {
        get_field32(self.d0, idx as u32, 1) == 1
    }

    /// Whether the context at `idx` is to be added.
    pub fn add_context_flag(&self, idx: u8) -> (r: bool)
        requires
            idx < 32,
        ensures
            r == (field32(self.d1, idx as u32, 1) == 1),
    {
        get_field32(self.d1, idx as u32, 1) == 1
    }
}


impl Trb {
    /// The status dword.
    pub fn get_status(&self) -> (r: u32)
        ensures
            r == self.d2,
    {
        self.d2
    }

    /// Sets the status dword.
    pub fn set_status(&mut self, v: u32)
        ensures
            *final(self) == (Trb { d2: v, ..*old(self) }),
    {
        self.d2 = v;
    }

    /// Cycle bit.
    pub fn get_cycle(&self) -> (r: u8)
        ensures
            r == field32(self.d3, 0, 0x1),
    {
        get_field32(self.d3, 0, 0x1) as u8
    }

    /// Sets the field read by `get_cycle`.
    pub fn set_cycle(&mut self, v: u8)
        ensures
            final(self).d3 == with_field32(old(self).d3, 0, 0x1, v as u32),
            final(self).d0 == old(self).d0,
            final(self).d1 == old(self).d1,
            final(self).d2 == old(self).d2,
    {
        self.d3 = set_field32(self.d3, 0, 0x1, v as u32);
    }

    /// TRB type field (see `TrbType`).
    pub fn get_trb_type(&self) -> (r: u8)
        ensures
            r == field32(self.d3, 10, 0x3f),
    {
        get_field32(self.d3, 10, 0x3f) as u8
    }

    /// Sets the field read by `get_trb_type`.
    pub fn set_trb_type(&mut self, v: u8)
        ensures
            final(self).d3 == with_field32(old(self).d3, 10, 0x3f, v as u32),
            final(self).d0 == old(self).d0,
            final(self).d1 == old(self).d1,
            final(self).d2 == old(self).d2,
    {
        self.d3 = set_field32(self.d3, 10, 0x3f, v as u32);
    }

    /// Type-specific control bits 16-31.
    pub fn get_control(&self) -> (r: u16)
        ensures
            r == field32(self.d3, 16, 0xffff),
    {
        get_field32(self.d3, 16, 0xffff) as u16
    }

    /// Sets the field read by `get_control`.
    pub fn set_control(&mut self, v: u16)
        ensures
            final(self).d3 == with_field32(old(self).d3, 16, 0xffff, v as u32),
            final(self).d0 == old(self).d0,
            final(self).d1 == old(self).d1,
            final(self).d2 == old(self).d2,
    {
        self.d3 = set_field32(self.d3, 16, 0xffff, v as u32);
    }

    /// Transfer TRBs: bytes in the buffer.
    pub fn get_trb_transfer_length(&self) -> (r: u32)
        ensures
            r == field32(self.d2, 0, 0x1ffff),
    {
        get_field32(self.d2, 0, 0x1ffff)
    }

    /// Sets the field read by `get_trb_transfer_length`.
    pub fn set_trb_transfer_length(&mut self, v: u32)
        ensures
            final(self).d2 == with_field32(old(self).d2, 0, 0x1ffff, v as u32),
            final(self).d0 == old(self).d0,
            final(self).d1 == old(self).d1,
            final(self).d3 == old(self).d3,
    {
        self.d2 = set_field32(self.d2, 0, 0x1ffff, v as u32);
    }

    /// Transfer TRBs: packets left in the TD.
    pub fn get_td_size(&self) -> (r: u8)
        ensures
            r == field32(self.d2, 17, 0x1f),
    {
        get_field32(self.d2, 17, 0x1f) as u8
    }

    /// Sets the field read by `get_td_size`.
    pub fn set_td_size(&mut self, v: u8)
        ensures
            final(self).d2 == with_field32(old(self).d2, 17, 0x1f, v as u32),
            final(self).d0 == old(self).d0,
            final(self).d1 == old(self).d1,
            final(self).d3 == old(self).d3,
    {
        self.d2 = set_field32(self.d2, 17, 0x1f, v as u32);
    }

    /// Interrupter that receives this TRB's events.
    pub fn get_interrupter_target(&self) -> (r: u16)
        ensures
            r == field32(self.d2, 22, 0x3ff),
    {
        get_field32(self.d2, 22, 0x3ff) as u16
    }

    /// Sets the field read by `get_interrupter_target`.
    pub fn set_interrupter_target(&mut self, v: u16)
        ensures
            final(self).d2 == with_field32(old(self).d2, 22, 0x3ff, v as u32),
            final(self).d0 == old(self).d0,
            final(self).d1 == old(self).d1,
            final(self).d3 == old(self).d3,
    {
        self.d2 = set_field32(self.d2, 22, 0x3ff, v as u32);
    }

    /// Chain bit: the TD continues with the next TRB.
    pub fn get_chain(&self) -> (r: u8)
        ensures
            r == field32(self.d3, 4, 0x1),
    {
        get_field32(self.d3, 4, 0x1) as u8
    }

    /// Sets the field read by `get_chain`.
    pub fn set_chain(&mut self, v: u8)
        ensures
            final(self).d3 == with_field32(old(self).d3, 4, 0x1, v as u32),
            final(self).d0 == old(self).d0,
            final(self).d1 == old(self).d1,
            final(self).d2 == old(self).d2,
    {
        self.d3 = set_field32(self.d3, 4, 0x1, v as u32);
    }

    /// Interrupt-on-completion bit.
    pub fn get_interrupt_on_completion(&self) -> (r: u8)
        ensures
            r == field32(self.d3, 5, 0x1),
    {
        get_field32(self.d3, 5, 0x1) as u8
    }

    /// Sets the field read by `get_interrupt_on_completion`.
    pub fn set_interrupt_on_completion(&mut self, v: u8)
        ensures
            final(self).d3 == with_field32(old(self).d3, 5, 0x1, v as u32),
            final(self).d0 == old(self).d0,
            final(self).d1 == old(self).d1,
            final(self).d2 == old(self).d2,
    {
        self.d3 = set_field32(self.d3, 5, 0x1, v as u32);
    }

    /// Immediate-data bit: the parameter holds the data.
    pub fn get_immediate_data(&self) -> (r: u8)
        ensures
            r == field32(self.d3, 6, 0x1),
    {
        get_field32(self.d3, 6, 0x1) as u8
    }

    /// Sets the field read by `get_immediate_data`.
    pub fn set_immediate_data(&mut self, v: u8)
        ensures
            final(self).d3 == with_field32(old(self).d3, 6, 0x1, v as u32),
            final(self).d0 == old(self).d0,
            final(self).d1 == old(self).d1,
            final(self).d2 == old(self).d2,
    {
        self.d3 = set_field32(self.d3, 6, 0x1, v as u32);
    }

    /// Link TRBs: toggle the consumer cycle state.
    pub fn get_toggle_cycle(&self) -> (r: u8)
        ensures
            r == field32(self.d3, 1, 0x1),
    {
        get_field32(self.d3, 1, 0x1) as u8
    }

    /// Sets the field read by `get_toggle_cycle`.
    pub fn set_toggle_cycle(&mut self, v: u8)
        ensures
            final(self).d3 == with_field32(old(self).d3, 1, 0x1, v as u32),
            final(self).d0 == old(self).d0,
            final(self).d1 == old(self).d1,
            final(self).d2 == old(self).d2,
    {
        self.d3 = set_field32(self.d3, 1, 0x1, v as u32);
    }

    /// Setup stage: bmRequestType.
    pub fn get_request_type(&self) -> (r: u8)
        ensures
            r == field32(self.d0, 0, 0xff),
    {
        get_field32(self.d0, 0, 0xff) as u8
    }

    /// Sets the field read by `get_request_type`.
    pub fn set_request_type(&mut self, v: u8)
        ensures
            final(self).d0 == with_field32(old(self).d0, 0, 0xff, v as u32),
            final(self).d1 == old(self).d1,
            final(self).d2 == old(self).d2,
            final(self).d3 == old(self).d3,
    {
        self.d0 = set_field32(self.d0, 0, 0xff, v as u32);
    }

    /// Setup stage: bRequest.
    pub fn get_request(&self) -> (r: u8)
        ensures
            r == field32(self.d0, 8, 0xff),
    {
        get_field32(self.d0, 8, 0xff) as u8
    }

    /// Sets the field read by `get_request`.
    pub fn set_request(&mut self, v: u8)
        ensures
            final(self).d0 == with_field32(old(self).d0, 8, 0xff, v as u32),
            final(self).d1 == old(self).d1,
            final(self).d2 == old(self).d2,
            final(self).d3 == old(self).d3,
    {
        self.d0 = set_field32(self.d0, 8, 0xff, v as u32);
    }

    /// Setup stage: wValue.
    pub fn get_value(&self) -> (r: u16)
        ensures
            r == field32(self.d0, 16, 0xffff),
    {
        get_field32(self.d0, 16, 0xffff) as u16
    }

    /// Sets the field read by `get_value`.
    pub fn set_value(&mut self, v: u16)
        ensures
            final(self).d0 == with_field32(old(self).d0, 16, 0xffff, v as u32),
            final(self).d1 == old(self).d1,
            final(self).d2 == old(self).d2,
            final(self).d3 == old(self).d3,
    {
        self.d0 = set_field32(self.d0, 16, 0xffff, v as u32);
    }

    /// Setup stage: wIndex.
    pub fn get_index(&self) -> (r: u16)
        ensures
            r == field32(self.d1, 0, 0xffff),
    {
        get_field32(self.d1, 0, 0xffff) as u16
    }

    /// Sets the field read by `get_index`.
    pub fn set_index(&mut self, v: u16)
        ensures
            final(self).d1 == with_field32(old(self).d1, 0, 0xffff, v as u32),
            final(self).d0 == old(self).d0,
            final(self).d2 == old(self).d2,
            final(self).d3 == old(self).d3,
    {
        self.d1 = set_field32(self.d1, 0, 0xffff, v as u32);
    }

    /// Setup stage: wLength.
    pub fn get_length(&self) -> (r: u16)
        ensures
            r == field32(self.d1, 16, 0xffff),
    {
        get_field32(self.d1, 16, 0xffff) as u16
    }

    /// Sets the field read by `get_length`.
    pub fn set_length(&mut self, v: u16)
        ensures
            final(self).d1 == with_field32(old(self).d1, 16, 0xffff, v as u32),
            final(self).d0 == old(self).d0,
            final(self).d2 == old(self).d2,
            final(self).d3 == old(self).d3,
    {
        self.d1 = set_field32(self.d1, 16, 0xffff, v as u32);
    }

    /// Setup stage: transfer type.
    pub fn get_transfer_type(&self) -> (r: u8)
        ensures
            r == field32(self.d3, 16, 0x3),
    {
        get_field32(self.d3, 16, 0x3) as u8
    }

    /// Sets the field read by `get_transfer_type`.
    pub fn set_transfer_type(&mut self, v: u8)
        ensures
            final(self).d3 == with_field32(old(self).d3, 16, 0x3, v as u32),
            final(self).d0 == old(self).d0,
            final(self).d1 == old(self).d1,
            final(self).d2 == old(self).d2,
    {
        self.d3 = set_field32(self.d3, 16, 0x3, v as u32);
    }

    /// Data and status stages: direction (1 is in).
    pub fn get_direction(&self) -> (r: u8)
        ensures
            r == field32(self.d3, 16, 0x1),
    {
        get_field32(self.d3, 16, 0x1) as u8
    }

    /// Sets the field read by `get_direction`.
    pub fn set_direction(&mut self, v: u8)
        ensures
            final(self).d3 == with_field32(old(self).d3, 16, 0x1, v as u32),
            final(self).d0 == old(self).d0,
            final(self).d1 == old(self).d1,
            final(self).d2 == old(self).d2,
    {
        self.d3 = set_field32(self.d3, 16, 0x1, v as u32);
    }

    /// Commands and events: slot id.
    pub fn get_slot_id(&self) -> (r: u8)
        ensures
            r == field32(self.d3, 24, 0xff),
    {
        get_field32(self.d3, 24, 0xff) as u8
    }

    /// Sets the field read by `get_slot_id`.
    pub fn set_slot_id(&mut self, v: u8)
        ensures
            final(self).d3 == with_field32(old(self).d3, 24, 0xff, v as u32),
            final(self).d0 == old(self).d0,
            final(self).d1 == old(self).d1,
            final(self).d2 == old(self).d2,
    {
        self.d3 = set_field32(self.d3, 24, 0xff, v as u32);
    }

    /// Endpoint commands and transfer events: endpoint id.
    pub fn get_endpoint_id(&self) -> (r: u8)
        ensures
            r == field32(self.d3, 16, 0x1f),
    {
        get_field32(self.d3, 16, 0x1f) as u8
    }

    /// Sets the field read by `get_endpoint_id`.
    pub fn set_endpoint_id(&mut self, v: u8)
        ensures
            final(self).d3 == with_field32(old(self).d3, 16, 0x1f, v as u32),
            final(self).d0 == old(self).d0,
            final(self).d1 == old(self).d1,
            final(self).d2 == old(self).d2,
    {
        self.d3 = set_field32(self.d3, 16, 0x1f, v as u32);
    }

    /// Address device: block set-address request.
    pub fn get_block_set_address_request(&self) -> (r: u8)
        ensures
            r == field32(self.d3, 9, 0x1),
    {
        get_field32(self.d3, 9, 0x1) as u8
    }

    /// Sets the field read by `get_block_set_address_request`.
    pub fn set_block_set_address_request(&mut self, v: u8)
        ensures
            final(self).d3 == with_field32(old(self).d3, 9, 0x1, v as u32),
            final(self).d0 == old(self).d0,
            final(self).d1 == old(self).d1,
            final(self).d2 == old(self).d2,
    {
        self.d3 = set_field32(self.d3, 9, 0x1, v as u32);
    }

    /// Configure endpoint: deconfigure.
    pub fn get_deconfigure(&self) -> (r: u8)
        ensures
            r == field32(self.d3, 9, 0x1),
    {
        get_field32(self.d3, 9, 0x1) as u8
    }

    /// Sets the field read by `get_deconfigure`.
    pub fn set_deconfigure(&mut self, v: u8)
        ensures
            final(self).d3 == with_field32(old(self).d3, 9, 0x1, v as u32),
            final(self).d0 == old(self).d0,
            final(self).d1 == old(self).d1,
            final(self).d2 == old(self).d2,
    {
        self.d3 = set_field32(self.d3, 9, 0x1, v as u32);
    }

    /// Set TR dequeue pointer: dequeue cycle state.
    pub fn get_dequeue_cycle_state(&self) -> (r: u8)
        ensures
            r == field32(self.d0, 0, 0x1),
    {
        get_field32(self.d0, 0, 0x1) as u8
    }

    /// Sets the field read by `get_dequeue_cycle_state`.
    pub fn set_dequeue_cycle_state(&mut self, v: u8)
        ensures
            final(self).d0 == with_field32(old(self).d0, 0, 0x1, v as u32),
            final(self).d1 == old(self).d1,
            final(self).d2 == old(self).d2,
            final(self).d3 == old(self).d3,
    {
        self.d0 = set_field32(self.d0, 0, 0x1, v as u32);
    }

    /// Set TR dequeue pointer: stream id.
    pub fn get_stream_id(&self) -> (r: u16)
        ensures
            r == field32(self.d2, 16, 0xffff),
    {
        get_field32(self.d2, 16, 0xffff) as u16
    }

    /// Sets the field read by `get_stream_id`.
    pub fn set_stream_id(&mut self, v: u16)
        ensures
            final(self).d2 == with_field32(old(self).d2, 16, 0xffff, v as u32),
            final(self).d0 == old(self).d0,
            final(self).d1 == old(self).d1,
            final(self).d3 == old(self).d3,
    {
        self.d2 = set_field32(self.d2, 16, 0xffff, v as u32);
    }

    /// Transfer events: bytes not transferred.
    pub fn get_event_trb_transfer_length(&self) -> (r: u32)
        ensures
            r == field32(self.d2, 0, 0xffffff),
    {
        get_field32(self.d2, 0, 0xffffff)
    }

    /// Sets the field read by `get_event_trb_transfer_length`.
    pub fn set_event_trb_transfer_length(&mut self, v: u32)
        ensures
            final(self).d2 == with_field32(old(self).d2, 0, 0xffffff, v as u32),
            final(self).d0 == old(self).d0,
            final(self).d1 == old(self).d1,
            final(self).d3 == old(self).d3,
    {
        self.d2 = set_field32(self.d2, 0, 0xffffff, v as u32);
    }

    /// Events: completion code (see `TrbCompletionCode`).
    pub fn get_completion_code(&self) -> (r: u8)
        ensures
            r == field32(self.d2, 24, 0xff),
    {
        get_field32(self.d2, 24, 0xff) as u8
    }

    /// Sets the field read by `get_completion_code`.
    pub fn set_completion_code(&mut self, v: u8)
        ensures
            final(self).d2 == with_field32(old(self).d2, 24, 0xff, v as u32),
            final(self).d0 == old(self).d0,
            final(self).d1 == old(self).d1,
            final(self).d3 == old(self).d3,
    {
        self.d2 = set_field32(self.d2, 24, 0xff, v as u32);
    }

    /// Transfer events: the pointer is event data.
    pub fn get_event_data_flag(&self) -> (r: u8)
        ensures
            r == field32(self.d3, 2, 0x1),
    {
        get_field32(self.d3, 2, 0x1) as u8
    }

    /// Sets the field read by `get_event_data_flag`.
    pub fn set_event_data_flag(&mut self, v: u8)
        ensures
            final(self).d3 == with_field32(old(self).d3, 2, 0x1, v as u32),
            final(self).d0 == old(self).d0,
            final(self).d1 == old(self).d1,
            final(self).d2 == old(self).d2,
    {
        self.d3 = set_field32(self.d3, 2, 0x1, v as u32);
    }

    /// Command completion events: parameter.
    pub fn get_command_completion_parameter(&self) -> (r: u32)
        ensures
            r == field32(self.d2, 0, 0xffffff),
    {
        get_field32(self.d2, 0, 0xffffff)
    }

    /// Sets the field read by `get_command_completion_parameter`.
    pub fn set_command_completion_parameter(&mut self, v: u32)
        ensures
            final(self).d2 == with_field32(old(self).d2, 0, 0xffffff, v as u32),
            final(self).d0 == old(self).d0,
            final(self).d1 == old(self).d1,
            final(self).d3 == old(self).d3,
    {
        self.d2 = set_field32(self.d2, 0, 0xffffff, v as u32);
    }

    /// Command completion events: virtual function id.
    pub fn get_vf_id(&self) -> (r: u8)
        ensures
            r == field32(self.d3, 16, 0xff),
    {
        get_field32(self.d3, 16, 0xff) as u8
    }

    /// Sets the field read by `get_vf_id`.
    pub fn set_vf_id(&mut self, v: u8)
        ensures
            final(self).d3 == with_field32(old(self).d3, 16, 0xff, v as u32),
            final(self).d0 == old(self).d0,
            final(self).d1 == old(self).d1,
            final(self).d2 == old(self).d2,
    {
        self.d3 = set_field32(self.d3, 16, 0xff, v as u32);
    }

    /// Port status change events: port id.
    pub fn get_port_id(&self) -> (r: u8)
        ensures
            r == field32(self.d0, 24, 0xff),
    {
        get_field32(self.d0, 24, 0xff) as u8
    }

    /// Sets the field read by `get_port_id`.
    pub fn set_port_id(&mut self, v: u8)
        ensures
            final(self).d0 == with_field32(old(self).d0, 24, 0xff, v as u32),
            final(self).d1 == old(self).d1,
            final(self).d2 == old(self).d2,
            final(self).d3 == old(self).d3,
    {
        self.d0 = set_field32(self.d0, 24, 0xff, v as u32);
    }
}


impl SlotContext {
    /// Route string.
    pub fn get_route_string(&self) -> (r: u32)
        ensures
            r == field32(self.d0, 0, 0xfffff),
    {
        get_field32(self.d0, 0, 0xfffff)
    }

    /// Sets the field read by `get_route_string`.
    pub fn set_route_string(&mut self, v: u32)
        ensures
            final(self).d0 == with_field32(old(self).d0, 0, 0xfffff, v as u32),
            final(self).d1 == old(self).d1,
            final(self).d2 == old(self).d2,
            final(self).d3 == old(self).d3,
            final(self).d4 == old(self).d4,
            final(self).d5 == old(self).d5,
            final(self).d6 == old(self).d6,
            final(self).d7 == old(self).d7,
    {
        self.d0 = set_field32(self.d0, 0, 0xfffff, v as u32);
    }

    /// Speed.
    pub fn get_speed(&self) -> (r: u8)
        ensures
            r == field32(self.d0, 20, 0xf),
    {
        get_field32(self.d0, 20, 0xf) as u8
    }

    /// Sets the field read by `get_speed`.
    pub fn set_speed(&mut self, v: u8)
        ensures
            final(self).d0 == with_field32(old(self).d0, 20, 0xf, v as u32),
            final(self).d1 == old(self).d1,
            final(self).d2 == old(self).d2,
            final(self).d3 == old(self).d3,
            final(self).d4 == old(self).d4,
            final(self).d5 == old(self).d5,
            final(self).d6 == old(self).d6,
            final(self).d7 == old(self).d7,
    {
        self.d0 = set_field32(self.d0, 20, 0xf, v as u32);
    }

    /// Index of the last valid endpoint context.
    pub fn get_context_entries(&self) -> (r: u8)
        ensures
            r == field32(self.d0, 27, 0x1f),
    {
        get_field32(self.d0, 27, 0x1f) as u8
    }

    /// Sets the field read by `get_context_entries`.
    pub fn set_context_entries(&mut self, v: u8)
        ensures
            final(self).d0 == with_field32(old(self).d0, 27, 0x1f, v as u32),
            final(self).d1 == old(self).d1,
            final(self).d2 == old(self).d2,
            final(self).d3 == old(self).d3,
            final(self).d4 == old(self).d4,
            final(self).d5 == old(self).d5,
            final(self).d6 == old(self).d6,
            final(self).d7 == old(self).d7,
    {
        self.d0 = set_field32(self.d0, 27, 0x1f, v as u32);
    }

    /// Maximum exit latency.
    pub fn get_max_exit_latency(&self) -> (r: u16)
        ensures
            r == field32(self.d1, 0, 0xffff),
    {
        get_field32(self.d1, 0, 0xffff) as u16
    }

    /// Sets the field read by `get_max_exit_latency`.
    pub fn set_max_exit_latency(&mut self, v: u16)
        ensures
            final(self).d1 == with_field32(old(self).d1, 0, 0xffff, v as u32),
            final(self).d0 == old(self).d0,
            final(self).d2 == old(self).d2,
            final(self).d3 == old(self).d3,
            final(self).d4 == old(self).d4,
            final(self).d5 == old(self).d5,
            final(self).d6 == old(self).d6,
            final(self).d7 == old(self).d7,
    {
        self.d1 = set_field32(self.d1, 0, 0xffff, v as u32);
    }

    /// Root hub port number.
    pub fn get_root_hub_port_number(&self) -> (r: u8)
        ensures
            r == field32(self.d1, 16, 0xff),
    {
        get_field32(self.d1, 16, 0xff) as u8
    }

    /// Sets the field read by `get_root_hub_port_number`.
    pub fn set_root_hub_port_number(&mut self, v: u8)
        ensures
            final(self).d1 == with_field32(old(self).d1, 16, 0xff, v as u32),
            final(self).d0 == old(self).d0,
            final(self).d2 == old(self).d2,
            final(self).d3 == old(self).d3,
            final(self).d4 == old(self).d4,
            final(self).d5 == old(self).d5,
            final(self).d6 == old(self).d6,
            final(self).d7 == old(self).d7,
    {
        self.d1 = set_field32(self.d1, 16, 0xff, v as u32);
    }

    /// Number of downstream ports (hubs).
    pub fn get_num_ports(&self) -> (r: u8)
        ensures
            r == field32(self.d1, 24, 0xff),
    {
        get_field32(self.d1, 24, 0xff) as u8
    }

    /// Sets the field read by `get_num_ports`.
    pub fn set_num_ports(&mut self, v: u8)
        ensures
            final(self).d1 == with_field32(old(self).d1, 24, 0xff, v as u32),
            final(self).d0 == old(self).d0,
            final(self).d2 == old(self).d2,
            final(self).d3 == old(self).d3,
            final(self).d4 == old(self).d4,
            final(self).d5 == old(self).d5,
            final(self).d6 == old(self).d6,
            final(self).d7 == old(self).d7,
    {
        self.d1 = set_field32(self.d1, 24, 0xff, v as u32);
    }

    /// Interrupter target.
    pub fn get_interrupter_target(&self) -> (r: u16)
        ensures
            r == field32(self.d2, 22, 0x3ff),
    {
        get_field32(self.d2, 22, 0x3ff) as u16
    }

    /// Sets the field read by `get_interrupter_target`.
    pub fn set_interrupter_target(&mut self, v: u16)
        ensures
            final(self).d2 == with_field32(old(self).d2, 22, 0x3ff, v as u32),
            final(self).d0 == old(self).d0,
            final(self).d1 == old(self).d1,
            final(self).d3 == old(self).d3,
            final(self).d4 == old(self).d4,
            final(self).d5 == old(self).d5,
            final(self).d6 == old(self).d6,
            final(self).d7 == old(self).d7,
    {
        self.d2 = set_field32(self.d2, 22, 0x3ff, v as u32);
    }

    /// USB device address.
    pub fn get_usb_device_address(&self) -> (r: u8)
        ensures
            r == field32(self.d3, 0, 0xff),
    {
        get_field32(self.d3, 0, 0xff) as u8
    }

    /// Sets the field read by `get_usb_device_address`.
    pub fn set_usb_device_address(&mut self, v: u8)
        ensures
            final(self).d3 == with_field32(old(self).d3, 0, 0xff, v as u32),
            final(self).d0 == old(self).d0,
            final(self).d1 == old(self).d1,
            final(self).d2 == old(self).d2,
            final(self).d4 == old(self).d4,
            final(self).d5 == old(self).d5,
            final(self).d6 == old(self).d6,
            final(self).d7 == old(self).d7,
    {
        self.d3 = set_field32(self.d3, 0, 0xff, v as u32);
    }

    /// Slot state (see `DeviceSlotState`).
    pub fn get_slot_state(&self) -> (r: u8)
        ensures
            r == field32(self.d3, 27, 0x1f),
    {
        get_field32(self.d3, 27, 0x1f) as u8
    }

    /// Sets the field read by `get_slot_state`.
    pub fn set_slot_state(&mut self, v: u8)
        ensures
            final(self).d3 == with_field32(old(self).d3, 27, 0x1f, v as u32),
            final(self).d0 == old(self).d0,
            final(self).d1 == old(self).d1,
            final(self).d2 == old(self).d2,
            final(self).d4 == old(self).d4,
            final(self).d5 == old(self).d5,
            final(self).d6 == old(self).d6,
            final(self).d7 == old(self).d7,
    {
        self.d3 = set_field32(self.d3, 27, 0x1f, v as u32);
    }
}


impl EndpointContext {
    /// Endpoint state (see `EndpointState`).
    pub fn get_endpoint_state(&self) -> (r: u8)
        ensures
            r == field32(self.d0, 0, 0x7),
    {
        get_field32(self.d0, 0, 0x7) as u8
    }

    /// Sets the field read by `get_endpoint_state`.
    pub fn set_endpoint_state(&mut self, v: u8)
        ensures
            final(self).d0 == with_field32(old(self).d0, 0, 0x7, v as u32),
            final(self).d1 == old(self).d1,
            final(self).d2 == old(self).d2,
            final(self).d3 == old(self).d3,
            final(self).d4 == old(self).d4,
            final(self).d5 == old(self).d5,
            final(self).d6 == old(self).d6,
            final(self).d7 == old(self).d7,
    {
        self.d0 = set_field32(self.d0, 0, 0x7, v as u32);
    }

    /// Interval.
    pub fn get_interval(&self) -> (r: u8)
        ensures
            r == field32(self.d0, 16, 0xff),
    {
        get_field32(self.d0, 16, 0xff) as u8
    }

    /// Sets the field read by `get_interval`.
    pub fn set_interval(&mut self, v: u8)
        ensures
            final(self).d0 == with_field32(old(self).d0, 16, 0xff, v as u32),
            final(self).d1 == old(self).d1,
            final(self).d2 == old(self).d2,
            final(self).d3 == old(self).d3,
            final(self).d4 == old(self).d4,
            final(self).d5 == old(self).d5,
            final(self).d6 == old(self).d6,
            final(self).d7 == old(self).d7,
    {
        self.d0 = set_field32(self.d0, 16, 0xff, v as u32);
    }

    /// Error count.
    pub fn get_error_count(&self) -> (r: u8)
        ensures
            r == field32(self.d1, 1, 0x3),
    {
        get_field32(self.d1, 1, 0x3) as u8
    }

    /// Sets the field read by `get_error_count`.
    pub fn set_error_count(&mut self, v: u8)
        ensures
            final(self).d1 == with_field32(old(self).d1, 1, 0x3, v as u32),
            final(self).d0 == old(self).d0,
            final(self).d2 == old(self).d2,
            final(self).d3 == old(self).d3,
            final(self).d4 == old(self).d4,
            final(self).d5 == old(self).d5,
            final(self).d6 == old(self).d6,
            final(self).d7 == old(self).d7,
    {
        self.d1 = set_field32(self.d1, 1, 0x3, v as u32);
    }

    /// Endpoint type.
    pub fn get_endpoint_type(&self) -> (r: u8)
        ensures
            r == field32(self.d1, 3, 0x7),
    {
        get_field32(self.d1, 3, 0x7) as u8
    }

    /// Sets the field read by `get_endpoint_type`.
    pub fn set_endpoint_type(&mut self, v: u8)
        ensures
            final(self).d1 == with_field32(old(self).d1, 3, 0x7, v as u32),
            final(self).d0 == old(self).d0,
            final(self).d2 == old(self).d2,
            final(self).d3 == old(self).d3,
            final(self).d4 == old(self).d4,
            final(self).d5 == old(self).d5,
            final(self).d6 == old(self).d6,
            final(self).d7 == old(self).d7,
    {
        self.d1 = set_field32(self.d1, 3, 0x7, v as u32);
    }

    /// Max burst size.
    pub fn get_max_burst_size(&self) -> (r: u8)
        ensures
            r == field32(self.d1, 8, 0xff),
    {
        get_field32(self.d1, 8, 0xff) as u8
    }

    /// Sets the field read by `get_max_burst_size`.
    pub fn set_max_burst_size(&mut self, v: u8)
        ensures
            final(self).d1 == with_field32(old(self).d1, 8, 0xff, v as u32),
            final(self).d0 == old(self).d0,
            final(self).d2 == old(self).d2,
            final(self).d3 == old(self).d3,
            final(self).d4 == old(self).d4,
            final(self).d5 == old(self).d5,
            final(self).d6 == old(self).d6,
            final(self).d7 == old(self).d7,
    {
        self.d1 = set_field32(self.d1, 8, 0xff, v as u32);
    }

    /// Max packet size.
    pub fn get_max_packet_size(&self) -> (r: u16)
        ensures
            r == field32(self.d1, 16, 0xffff),
    {
        get_field32(self.d1, 16, 0xffff) as u16
    }

    /// Sets the field read by `get_max_packet_size`.
    pub fn set_max_packet_size(&mut self, v: u16)
        ensures
            final(self).d1 == with_field32(old(self).d1, 16, 0xffff, v as u32),
            final(self).d0 == old(self).d0,
            final(self).d2 == old(self).d2,
            final(self).d3 == old(self).d3,
            final(self).d4 == old(self).d4,
            final(self).d5 == old(self).d5,
            final(self).d6 == old(self).d6,
            final(self).d7 == old(self).d7,
    {
        self.d1 = set_field32(self.d1, 16, 0xffff, v as u32);
    }

    /// Dequeue cycle state.
    pub fn get_dequeue_cycle_state(&self) -> (r: u8)
        ensures
            r == field32(self.d2, 0, 0x1),
    {
        get_field32(self.d2, 0, 0x1) as u8
    }

    /// Sets the field read by `get_dequeue_cycle_state`.
    pub fn set_dequeue_cycle_state(&mut self, v: u8)
        ensures
            final(self).d2 == with_field32(old(self).d2, 0, 0x1, v as u32),
            final(self).d0 == old(self).d0,
            final(self).d1 == old(self).d1,
            final(self).d3 == old(self).d3,
            final(self).d4 == old(self).d4,
            final(self).d5 == old(self).d5,
            final(self).d6 == old(self).d6,
            final(self).d7 == old(self).d7,
    {
        self.d2 = set_field32(self.d2, 0, 0x1, v as u32);
    }

    /// Average TRB length.
    pub fn get_average_trb_length(&self) -> (r: u16)
        ensures
            r == field32(self.d4, 0, 0xffff),
    {
        get_field32(self.d4, 0, 0xffff) as u16
    }

    /// Sets the field read by `get_average_trb_length`.
    pub fn set_average_trb_length(&mut self, v: u16)
        ensures
            final(self).d4 == with_field32(old(self).d4, 0, 0xffff, v as u32),
            final(self).d0 == old(self).d0,
            final(self).d1 == old(self).d1,
            final(self).d2 == old(self).d2,
            final(self).d3 == old(self).d3,
            final(self).d5 == old(self).d5,
            final(self).d6 == old(self).d6,
            final(self).d7 == old(self).d7,
    {
        self.d4 = set_field32(self.d4, 0, 0xffff, v as u32);
    }
}


impl InputControlContext {
    /// Drop context flags.
    pub fn get_drop_context_flags(&self) -> (r: u32)
        ensures
            r == field32(self.d0, 0, 0xffffffff),
    {
        get_field32(self.d0, 0, 0xffffffff)
    }

    /// Sets the field read by `get_drop_context_flags`.
    pub fn set_drop_context_flags(&mut self, v: u32)
        ensures
            final(self).d0 == with_field32(old(self).d0, 0, 0xffffffff, v as u32),
            final(self).d1 == old(self).d1,
            final(self).d2 == old(self).d2,
            final(self).d3 == old(self).d3,
            final(self).d4 == old(self).d4,
            final(self).d5 == old(self).d5,
            final(self).d6 == old(self).d6,
            final(self).d7 == old(self).d7,
    {
        self.d0 = set_field32(self.d0, 0, 0xffffffff, v as u32);
    }

    /// Add context flags.
    pub fn get_add_context_flags(&self) -> (r: u32)
        ensures
            r == field32(self.d1, 0, 0xffffffff),
    {
        get_field32(self.d1, 0, 0xffffffff)
    }

    /// Sets the field read by `get_add_context_flags`.
    pub fn set_add_context_flags(&mut self, v: u32)
        ensures
            final(self).d1 == with_field32(old(self).d1, 0, 0xffffffff, v as u32),
            final(self).d0 == old(self).d0,
            final(self).d2 == old(self).d2,
            final(self).d3 == old(self).d3,
            final(self).d4 == old(self).d4,
            final(self).d5 == old(self).d5,
            final(self).d6 == old(self).d6,
            final(self).d7 == old(self).d7,
    {
        self.d1 = set_field32(self.d1, 0, 0xffffffff, v as u32);
    }

    /// Configuration value.
    pub fn get_configuration_value(&self) -> (r: u8)
        ensures
            r == field32(self.d7, 0, 0xff),
    {
        get_field32(self.d7, 0, 0xff) as u8
    }

    /// Sets the field read by `get_configuration_value`.
    pub fn set_configuration_value(&mut self, v: u8)
        ensures
            final(self).d7 == with_field32(old(self).d7, 0, 0xff, v as u32),
            final(self).d0 == old(self).d0,
            final(self).d1 == old(self).d1,
            final(self).d2 == old(self).d2,
            final(self).d3 == old(self).d3,
            final(self).d4 == old(self).d4,
            final(self).d5 == old(self).d5,
            final(self).d6 == old(self).d6,
    {
        self.d7 = set_field32(self.d7, 0, 0xff, v as u32);
    }

    /// Interface number.
    pub fn get_interface_number(&self) -> (r: u8)
        ensures
            r == field32(self.d7, 8, 0xff),
    {
        get_field32(self.d7, 8, 0xff) as u8
    }

    /// Sets the field read by `get_interface_number`.
    pub fn set_interface_number(&mut self, v: u8)
        ensures
            final(self).d7 == with_field32(old(self).d7, 8, 0xff, v as u32),
            final(self).d0 == old(self).d0,
            final(self).d1 == old(self).d1,
            final(self).d2 == old(self).d2,
            final(self).d3 == old(self).d3,
            final(self).d4 == old(self).d4,
            final(self).d5 == old(self).d5,
            final(self).d6 == old(self).d6,
    {
        self.d7 = set_field32(self.d7, 8, 0xff, v as u32);
    }

    /// Alternate setting.
    pub fn get_alternate_setting(&self) -> (r: u8)
        ensures
            r == field32(self.d7, 16, 0xff),
    {
        get_field32(self.d7, 16, 0xff) as u8
    }

    /// Sets the field read by `get_alternate_setting`.
    pub fn set_alternate_setting(&mut self, v: u8)
        ensures
            final(self).d7 == with_field32(old(self).d7, 16, 0xff, v as u32),
            final(self).d0 == old(self).d0,
            final(self).d1 == old(self).d1,
            final(self).d2 == old(self).d2,
            final(self).d3 == old(self).d3,
            final(self).d4 == old(self).d4,
            final(self).d5 == old(self).d5,
            final(self).d6 == old(self).d6,
    {
        self.d7 = set_field32(self.d7, 16, 0xff, v as u32);
    }
}


impl EventRingSegmentTableEntry {
    /// Number of TRBs in the segment.
    pub fn get_ring_segment_size(&self) -> (r: u16)
        ensures
            r == field32(self.d2, 0, 0xffff),
    {
        get_field32(self.d2, 0, 0xffff) as u16
    }

    /// Sets the field read by `get_ring_segment_size`.
    pub fn set_ring_segment_size(&mut self, v: u16)
        ensures
            final(self).d2 == with_field32(old(self).d2, 0, 0xffff, v as u32),
            final(self).d0 == old(self).d0,
            final(self).d1 == old(self).d1,
            final(self).d3 == old(self).d3,
    {
        self.d2 = set_field32(self.d2, 0, 0xffff, v as u32);
    }
}

} // verus!
