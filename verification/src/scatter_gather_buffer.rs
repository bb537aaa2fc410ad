//! A transfer's data spread over the buffers of its TRBs (xHCI 3.2.8):
//! bulk and interrupt transfers read and write it as one run of bytes.
use crate::guest_memory::{
    bytes_at, lemma_bytes_at_write, lemma_bytes_at_write_other, lemma_same_layout_access,
    lemma_write_keeps_layout, regions_ok, same_layout, slice_len, write_at, Error as MemError,
    GuestAddress, GuestMemory,
};
use crate::xhci_abi::{field32, parameter_of, type_of, AddressedTrb, TransferDescriptor, TrbType};
use vstd::prelude::*;

verus! {

/// TRB kinds whose buffers a scatter-gather buffer is made of.
pub open spec fn sg_trb(a: AddressedTrb) -> bool {
    type_of(a.trb) == Some(TrbType::Normal) || type_of(a.trb) == Some(TrbType::DataStage)
        || type_of(a.trb) == Some(TrbType::Isoch)
}

/// Length of one TRB's buffer.
pub open spec fn piece_len(a: AddressedTrb) -> nat {
    field32(a.trb.d2, 0, 0x1ffff) as nat
}

/// Total length of the buffers.
pub open spec fn total_len(td: Seq<AddressedTrb>) -> nat
    decreases td.len(),
{
    if td.len() == 0 {
        0
    } else {
        piece_len(td[0]) + total_len(td.drop_first())
    }
}

/// How much of the caller's buffer, from `offset` on, goes to or comes from
/// the next TRB's buffer: the TRB's length, or what is left.
pub open spec fn piece_take(len: nat, buf_len: nat, offset: nat) -> nat {
    if buf_len > offset + len {
        len
    } else {
        (buf_len - offset) as nat
    }
}

/// What a write of `buf` leaves: guest memory, and the bytes written, unless
/// a TRB's buffer address is not in memory. Each TRB's buffer takes the next
/// piece of `buf`; a piece that crosses the end of a memory region is cut
/// there. Writing stops when `buf` is used up.
pub struct SgOutcome {
    pub regions: Seq<(u64, Seq<u8>)>,
    pub total: Option<nat>,
}

pub open spec fn sg_write(
    r: Seq<(u64, Seq<u8>)>,
    td: Seq<AddressedTrb>,
    buf: Seq<u8>,
    offset: nat,
) -> SgOutcome
    decreases td.len(),
{
    if td.len() == 0 || offset >= buf.len() {
        SgOutcome { regions: r, total: Some(0) }
    } else {
        let take = piece_take(piece_len(td[0]), buf.len(), offset);
        let addr = parameter_of(td[0].trb);
        match slice_len(r, addr as int, take) {
            None => SgOutcome { regions: r, total: None },
            Some(n) => {
                let r2 = write_at(r, addr as int, buf.subrange(offset as int, (offset + n) as int));
                let rest = sg_write(r2, td.drop_first(), buf, offset + take);
                SgOutcome {
                    regions: rest.regions,
                    total: match rest.total {
                        Some(t) => Some(n + t),
                        None => None,
                    },
                }
            },
        }
    }
}

/// What a read into `buf` leaves: the buffer, and the bytes read, unless a
/// TRB's buffer address is not in memory.
pub struct SgReadOutcome {
    pub buf: Seq<u8>,
    pub total: Option<nat>,
}

pub open spec fn sg_read(
    r: Seq<(u64, Seq<u8>)>,
    td: Seq<AddressedTrb>,
    buf: Seq<u8>,
    offset: nat,
) -> SgReadOutcome
    decreases td.len(),
{
    if td.len() == 0 || offset >= buf.len() {
        SgReadOutcome { buf, total: Some(0) }
    } else {
        let take = piece_take(piece_len(td[0]), buf.len(), offset);
        let addr = parameter_of(td[0].trb);
        match slice_len(r, addr as int, take) {
            None => SgReadOutcome { buf, total: None },
            Some(n) => {
                let data = bytes_at(r, addr as int, n).unwrap();
                let buf2 = buf.subrange(0, offset as int) + data + buf.subrange(
                    (offset + n) as int,
                    buf.len() as int,
                );
                let rest = sg_read(r, td.drop_first(), buf2, offset + take);
                SgReadOutcome {
                    buf: rest.buf,
                    total: match rest.total {
                        Some(t) => Some(n + t),
                        None => None,
                    },
                }
            },
        }
    }
}

/// Every TRB's buffer lies whole in one memory region.
pub open spec fn sg_fits(r: Seq<(u64, Seq<u8>)>, td: Seq<AddressedTrb>) -> bool
    decreases td.len(),
{
    td.len() == 0 || {
        &&& slice_len(r, parameter_of(td[0].trb) as int, piece_len(td[0])) == Some(piece_len(td[0]))
        &&& bytes_at(r, parameter_of(td[0].trb) as int, piece_len(td[0])) is Some
        &&& sg_fits(r, td.drop_first())
    }
}

/// The `n` bytes at `a` share no byte with any TRB buffer of `td`.
pub open spec fn sg_apart(a: int, n: nat, td: Seq<AddressedTrb>) -> bool
    decreases td.len(),
{
    td.len() == 0 || {
        &&& (a + n <= parameter_of(td[0].trb) || parameter_of(td[0].trb) + piece_len(td[0]) <= a)
        &&& sg_apart(a, n, td.drop_first())
    }
}

/// No two TRB buffers of `td` share a byte.
pub open spec fn sg_disjoint(td: Seq<AddressedTrb>) -> bool
    decreases td.len(),
{
    td.len() == 0 || {
        &&& sg_apart(parameter_of(td[0].trb) as int, piece_len(td[0]), td.drop_first())
        &&& sg_disjoint(td.drop_first())
    }
}

/// Each TRB buffer holds its piece of `buf`, from `offset` on.
pub open spec fn sg_holds(r: Seq<(u64, Seq<u8>)>, td: Seq<AddressedTrb>, buf: Seq<u8>, offset: nat) -> bool
    decreases td.len(),
{
    td.len() == 0 || {
        let a = parameter_of(td[0].trb) as int;
        let n = piece_len(td[0]);
        &&& slice_len(r, a, n) == Some(n)
        &&& bytes_at(r, a, n) == Some(buf.subrange(offset as int, (offset + n) as int))
        &&& sg_holds(r, td.drop_first(), buf, offset + n)
    }
}

/// Buffers that fit in one layout fit in any region list of that layout.
proof fn lemma_fits_same_layout(r1: Seq<(u64, Seq<u8>)>, r2: Seq<(u64, Seq<u8>)>, td: Seq<AddressedTrb>)
    requires
        regions_ok(r1),
        same_layout(r1, r2),
        sg_fits(r1, td),
    ensures
        sg_fits(r2, td),
    decreases td.len(),
{
    if td.len() > 0 {
        lemma_same_layout_access(r1, r2, parameter_of(td[0].trb) as int, piece_len(td[0]));
        lemma_fits_same_layout(r1, r2, td.drop_first());
    }
}

/// A scatter-gather write keeps the memory layout, and bytes apart from
/// every TRB buffer.
proof fn lemma_sg_write_frame(r: Seq<(u64, Seq<u8>)>, td: Seq<AddressedTrb>, buf: Seq<u8>, offset: nat, a: int, n: nat)
    requires
        regions_ok(r),
    ensures
        same_layout(r, sg_write(r, td, buf, offset).regions),
        regions_ok(sg_write(r, td, buf, offset).regions),
        sg_apart(a, n, td) ==> bytes_at(sg_write(r, td, buf, offset).regions, a, n) == bytes_at(r, a, n),
    decreases td.len(),
{
    if td.len() == 0 || offset >= buf.len() {
        return;
    }
    let take = piece_take(piece_len(td[0]), buf.len(), offset);
    let addr = parameter_of(td[0].trb);
    match slice_len(r, addr as int, take) {
        None => {},
        Some(m) => {
            let data = buf.subrange(offset as int, (offset + m) as int);
            let r2 = write_at(r, addr as int, data);
            lemma_write_keeps_layout(r, addr as int, data);
            lemma_sg_write_frame(r2, td.drop_first(), buf, offset + take, a, n);
            let w = sg_write(r2, td.drop_first(), buf, offset + take).regions;
            assert forall|i: int| 0 <= i < r.len() implies (#[trigger] w[i]).0 == r[i].0 && w[i].1.len() == r[i].1.len() by {
                assert(r2[i].0 == r[i].0);
            }
            if sg_apart(a, n, td) {
                if m > 0 {
                    assert(m <= take);
                }
                lemma_bytes_at_write_other(r, addr as int, data, a, n);
            }
        },
    }
}

/// A TRB list asking for no bytes holds the empty tail of any buffer.
proof fn lemma_holds_empty(r: Seq<(u64, Seq<u8>)>, td: Seq<AddressedTrb>, buf: Seq<u8>, offset: nat)
    requires
        sg_fits(r, td),
        total_len(td) == 0,
        offset <= buf.len(),
    ensures
        sg_holds(r, td, buf, offset),
    decreases td.len(),
{
    if td.len() > 0 {
        let a = parameter_of(td[0].trb) as int;
        let i = choose|i: int| 0 <= i < r.len() && (#[trigger] r[i]).0 <= a && a + 0nat <= r[i].0 + r[i].1.len();
        assert(r[i].1.subrange(a - r[i].0, a - r[i].0) =~= buf.subrange(offset as int, offset as int));
        lemma_holds_empty(r, td.drop_first(), buf, offset);
    }
}

/// Writing a buffer of exactly the TRBs' total length into buffers that
/// fit and do not overlap writes all of it: each TRB buffer holds its
/// piece afterwards.
proof fn lemma_sg_write_holds(r: Seq<(u64, Seq<u8>)>, td: Seq<AddressedTrb>, buf: Seq<u8>, offset: nat)
    requires
        regions_ok(r),
        sg_fits(r, td),
        sg_disjoint(td),
        offset + total_len(td) == buf.len(),
    ensures
        sg_write(r, td, buf, offset).total == Some(total_len(td)),
        sg_holds(sg_write(r, td, buf, offset).regions, td, buf, offset),
    decreases td.len(),
{
    if td.len() == 0 {
        return;
    }
    if offset >= buf.len() {
        lemma_holds_empty(r, td, buf, offset);
        return;
    }
    let a = parameter_of(td[0].trb);
    let len = piece_len(td[0]);
    let rest_td = td.drop_first();
    assert(piece_take(len, buf.len(), offset) == len);
    assert(slice_len(r, a as int, len) == Some(len));
    assert(bytes_at(r, a as int, len) is Some);
    assert(sg_disjoint(rest_td) && sg_apart(a as int, len, rest_td));
    assert(sg_fits(r, rest_td));
    let data = buf.subrange(offset as int, (offset + len) as int);
    let r2 = write_at(r, a as int, data);
    let rest = sg_write(r2, rest_td, buf, offset + len);
    assert(sg_write(r, td, buf, offset).regions == rest.regions);
    let w = rest.regions;
    assert(regions_ok(r2) && same_layout(r, r2)) by {
        lemma_write_keeps_layout(r, a as int, data);
    }
    assert(sg_fits(r2, rest_td)) by {
        lemma_fits_same_layout(r, r2, rest_td);
    }
    assert(rest.total == Some(total_len(rest_td)) && sg_holds(w, rest_td, buf, offset + len)) by {
        lemma_sg_write_holds(r2, rest_td, buf, offset + len);
    }
    assert(sg_write(r, td, buf, offset).total == Some(total_len(td)));
    assert(bytes_at(w, a as int, len) == Some(data)) by {
        lemma_sg_write_frame(r2, rest_td, buf, offset + len, a as int, len);
        lemma_bytes_at_write(r, a as int, data);
    }
    assert(slice_len(w, a as int, len) == Some(len)) by {
        lemma_same_layout_access(r, r2, a as int, len);
        lemma_sg_write_frame(r2, rest_td, buf, offset + len, a as int, len);
        lemma_same_layout_access(r2, w, a as int, len);
    }
}

/// Reading buffers that each hold their piece of `data` gives back `data`
/// from `offset` on.
proof fn lemma_sg_read_holds(r: Seq<(u64, Seq<u8>)>, td: Seq<AddressedTrb>, data: Seq<u8>, b: Seq<u8>, offset: nat)
    requires
        sg_holds(r, td, data, offset),
        offset + total_len(td) == data.len(),
        b.len() == data.len(),
    ensures
        sg_read(r, td, b, offset) == (SgReadOutcome {
            buf: b.subrange(0, offset as int) + data.subrange(offset as int, data.len() as int),
            total: Some(total_len(td)),
        }),
    decreases td.len(),
{
    if td.len() == 0 || offset >= b.len() {
        assert(b.subrange(0, offset as int) + data.subrange(offset as int, data.len() as int) =~= b);
        return;
    }
    let len = piece_len(td[0]);
    let piece = data.subrange(offset as int, (offset + len) as int);
    let b2 = b.subrange(0, offset as int) + piece + b.subrange((offset + len) as int, b.len() as int);
    lemma_sg_read_holds(r, td.drop_first(), data, b2, offset + len);
    assert(b2.subrange(0, (offset + len) as int) + data.subrange((offset + len) as int, data.len() as int)
        =~= b.subrange(0, offset as int) + data.subrange(offset as int, data.len() as int));
}

/// What a scatter-gather write puts in buffers that fit in memory and do
/// not overlap, a read gives back: writing a buffer of exactly the TRBs'
/// total length writes all of it, and reading into any buffer of that
/// length then yields the written bytes.
pub proof fn lemma_write_then_read(r: Seq<(u64, Seq<u8>)>, td: Seq<AddressedTrb>, data: Seq<u8>, b: Seq<u8>)
    requires
        regions_ok(r),
        sg_fits(r, td),
        sg_disjoint(td),
        data.len() == total_len(td),
        b.len() == data.len(),
    ensures
        sg_write(r, td, data, 0).total == Some(data.len()),
        sg_read(sg_write(r, td, data, 0).regions, td, b, 0) == (SgReadOutcome { buf: data, total: Some(data.len()) }),
{
    lemma_sg_write_holds(r, td, data, 0);
    lemma_sg_read_holds(sg_write(r, td, data, 0).regions, td, data, b, 0);
    assert(b.subrange(0, 0) + data.subrange(0, data.len() as int) =~= data);
}

/// The buffers of a transfer descriptor's normal, data stage or isoch TRBs.
#[derive(Debug, PartialEq)]
pub struct ScatterGatherBuffer {
    td: TransferDescriptor,
}

impl ScatterGatherBuffer {
    pub closed spec fn td(self) -> Seq<AddressedTrb> {
        self.td@
    }

    /// Makes a buffer of the TRBs of `td`, which must all be normal, data
    /// stage or isoch TRBs.
    pub fn new(td: TransferDescriptor) -> (r: ScatterGatherBuffer)
        requires
            forall|i: int| 0 <= i < td@.len() ==> sg_trb(#[trigger] td@[i]),
        ensures
            r.td() == td@,
    {
        ScatterGatherBuffer { td }
    }

    /// Total length of the buffers.
    pub fn len(&self) -> (r: usize)
        requires
            total_len(self.td()) <= usize::MAX,
        ensures
            r == total_len(self.td()),
    {
        let mut sum: usize = 0;
        let n = self.td.len();
        let mut i: usize = n;
        proof {
            assert(self.td@.subrange(n as int, n as int) =~= Seq::<AddressedTrb>::empty());
        }
        while i > 0
            invariant
                i <= n,
                n == self.td@.len(),
                total_len(self.td@) <= usize::MAX,
                sum == total_len(self.td@.subrange(i as int, n as int)),
            decreases i,
        {
            i = i - 1;
            let ghost rest = self.td@.subrange(i as int, n as int);
            proof {
                assert(rest.drop_first() =~= self.td@.subrange(i + 1, n as int));
                lemma_total_len_suffix(self.td@, i as int);
            }
            let len = self.td[i].trb.get_trb_transfer_length() as usize;
            sum = sum + len;
        }
        assert(self.td@.subrange(0, n as int) =~= self.td@);
        sum
    }

    /// Reads the buffers into `buffer`, piece by piece, until `buffer` is
    /// full; returns the bytes read.
    pub fn read(&self, mem: &GuestMemory, buffer: &mut [u8]) -> (r: Result<usize, MemError>)
        ensures
            ({
                let out = sg_read(mem.regions(), self.td(), old(buffer)@, 0);
                &&& final(buffer)@ == out.buf
                &&& match r {
                    Ok(n) => out.total == Some(n as nat),
                    Err(_) => out.total is None,
                }
            }),
    {
        let ghost r0 = mem.regions();
        let ghost b0 = buffer@;
        let mut total_size: usize = 0;
        let mut offset: usize = 0;
        let n = self.td.len();
        let mut i: usize = 0;
        proof {
            assert(self.td@.subrange(0, n as int) =~= self.td@);
        }
        while i < n
            invariant_except_break
                offset <= buffer@.len(),
                total_size <= offset,
                ({
                    let whole = sg_read(r0, self.td@, b0, 0);
                    let rest = sg_read(r0, self.td@.subrange(i as int, n as int), buffer@, offset as nat);
                    &&& rest.buf == whole.buf
                    &&& match whole.total {
                        Some(t) => rest.total == Some((t - total_size) as nat),
                        None => rest.total is None,
                    }
                    &&& (whole.total is Some ==> whole.total.unwrap() >= total_size)
                }),
            invariant
                i <= n,
                n == self.td@.len(),
                r0 == mem.regions(),
                b0 == old(buffer)@,
                buffer@.len() == b0.len(),
            ensures
                ({
                    let whole = sg_read(r0, self.td@, b0, 0);
                    &&& buffer@ == whole.buf
                    &&& whole.total == Some(total_size as nat)
                }),
            decreases n - i,
        {
            if offset == buffer.len() {
                break;
            }
            let trb = self.td[i].trb;
            let len = trb.get_trb_transfer_length() as usize;
            let take = if buffer.len() - offset > len {
                len
            } else {
                buffer.len() - offset
            };
            let ghost rest_td = self.td@.subrange(i as int, n as int);
            proof {
                assert(rest_td[0] == self.td@[i as int]);
                assert(rest_td.drop_first() =~= self.td@.subrange(i + 1, n as int));
            }
            let mut piece: Vec<u8> = vec_of_zeros(take);
            let got = match mem.read_slice_at_addr(piece.as_mut_slice(), GuestAddress(trb.get_data_buffer())) {
                Ok(g) => g,
                Err(e) => {
                    proof {
                        assert(sg_read(r0, rest_td, buffer@, offset as nat).buf == buffer@);
                        assert(sg_read(r0, rest_td, buffer@, offset as nat).total is None);
                    }
                    return Err(e);
                },
            };
            let ghost before = buffer@;
            let blen = buffer.len();
            let mut k: usize = 0;
            while k < got
                invariant
                    blen == buffer@.len(),
                    k <= got,
                    got <= take,
                    offset + take <= before.len(),
                    piece@.len() == take,
                    buffer@.len() == before.len(),
                    forall|j: int|
                        0 <= j < before.len() ==> #[trigger] buffer@[j] == if offset <= j < offset
                            + k {
                            piece@[j - offset]
                        } else {
                            before[j]
                        },
                decreases got - k,
            {
                buffer[offset + k] = piece[k];
                k = k + 1;
            }
            proof {
                let data = bytes_at(r0, parameter_of(trb) as int, got as nat).unwrap();
                assert(data == piece@.subrange(0, got as int));
                assert(buffer@ =~= before.subrange(0, offset as int) + data + before.subrange(
                    offset + got,
                    before.len() as int,
                ));
            }
            total_size = total_size + got;
            offset = offset + take;
            i = i + 1;
        }
        proof {
            if i == n {
                assert(self.td@.subrange(n as int, n as int) =~= Seq::<AddressedTrb>::empty());
            }
        }
        Ok(total_size)
    }

    /// Writes `buffer` into the buffers, piece by piece, until `buffer` is
    /// used up; returns the bytes written.
    pub fn write(&self, mem: &mut GuestMemory, buffer: &[u8]) -> (r: Result<usize, MemError>)
        ensures
            ({
                let out = sg_write(old(mem).regions(), self.td(), buffer@, 0);
                &&& final(mem).regions() == out.regions
                &&& match r {
                    Ok(n) => out.total == Some(n as nat),
                    Err(_) => out.total is None,
                }
            }),
    {
        let ghost r0 = mem.regions();
        let mut total_size: usize = 0;
        let mut offset: usize = 0;
        let n = self.td.len();
        let mut i: usize = 0;
        proof {
            assert(self.td@.subrange(0, n as int) =~= self.td@);
        }
        while i < n
            invariant_except_break
                offset <= buffer@.len(),
                total_size <= offset,
                ({
                    let whole = sg_write(r0, self.td@, buffer@, 0);
                    let rest = sg_write(mem.regions(), self.td@.subrange(i as int, n as int), buffer@, offset as nat);
                    &&& rest.regions == whole.regions
                    &&& match whole.total {
                        Some(t) => rest.total == Some((t - total_size) as nat),
                        None => rest.total is None,
                    }
                    &&& (whole.total is Some ==> whole.total.unwrap() >= total_size)
                }),
            invariant
                i <= n,
                n == self.td@.len(),
                r0 == old(mem).regions(),
            ensures
                ({
                    let whole = sg_write(r0, self.td@, buffer@, 0);
                    &&& mem.regions() == whole.regions
                    &&& whole.total == Some(total_size as nat)
                }),
            decreases n - i,
        {
            if offset == buffer.len() {
                break;
            }
            let trb = self.td[i].trb;
            let len = trb.get_trb_transfer_length() as usize;
            let take = if buffer.len() - offset > len {
                len
            } else {
                buffer.len() - offset
            };
            let ghost rest_td = self.td@.subrange(i as int, n as int);
            proof {
                assert(rest_td[0] == self.td@[i as int]);
                assert(rest_td.drop_first() =~= self.td@.subrange(i + 1, n as int));
            }
            let piece = slice_copy(buffer, offset, take);
            let ghost cur = mem.regions();
            let got = match mem.write_slice_at_addr(piece.as_slice(), GuestAddress(trb.get_data_buffer())) {
                Ok(g) => g,
                Err(e) => {
                    proof {
                        assert(sg_write(cur, rest_td, buffer@, offset as nat).total is None);
                        assert(sg_write(cur, rest_td, buffer@, offset as nat).regions == cur);
                    }
                    return Err(e);
                },
            };
            proof {
                assert(piece@.subrange(0, got as int) =~= buffer@.subrange(offset as int, offset + got));
            }
            total_size = total_size + got;
            offset = offset + take;
            i = i + 1;
        }
        proof {
            if i == n {
                assert(self.td@.subrange(n as int, n as int) =~= Seq::<AddressedTrb>::empty());
            }
        }
        Ok(total_size)
    }
}

proof fn lemma_total_len_suffix(td: Seq<AddressedTrb>, i: int)
    requires
        0 <= i < td.len(),
    ensures
        total_len(td.subrange(i, td.len() as int)) == piece_len(td[i]) + total_len(td.subrange(i + 1, td.len() as int)),
        total_len(td.subrange(i, td.len() as int)) <= total_len(td),
    decreases i,
{
    assert(td.subrange(i, td.len() as int).drop_first() =~= td.subrange(i + 1, td.len() as int));
    if i > 0 {
        lemma_total_len_suffix(td, i - 1);
    } else {
        assert(td.subrange(0, td.len() as int) =~= td);
    }
}

/// `n` zero bytes.
fn vec_of_zeros(n: usize) -> (r: Vec<u8>)
    ensures
        r@.len() == n,
{
    let mut v: Vec<u8> = Vec::new();
    while v.len() < n
        invariant
            v@.len() <= n,
        decreases n - v@.len(),
    {
        v.push(0);
    }
    v
}

/// The `n` bytes of `b` from `start` on.
fn slice_copy(b: &[u8], start: usize, n: usize) -> (r: Vec<u8>)
    requires
        start + n <= b@.len(),
    ensures
        r@ == b@.subrange(start as int, start + n),
{
    let mut v: Vec<u8> = Vec::new();
    let bl = b.len();
    let mut k: usize = 0;
    while k < n
        invariant
            bl == b@.len(),
            k <= n,
            start + n <= b@.len(),
            v@ == b@.subrange(start as int, start + k),
        decreases n - k,
    {
        v.push(b[start + k]);
        k = k + 1;
        assert(v@ =~= b@.subrange(start as int, start + k));
    }
    v
}

} // verus!
