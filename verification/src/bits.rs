//! Byte-level views of little-endian integers, shared by the register files.
use vstd::prelude::*;

verus! {

/// The `k`-th little-endian byte of `v`.
pub open spec fn byte_of(v: u64, k: nat) -> u8 {
    ((v >> ((8 * k) as u64)) & 0xff) as u8
}

/// All-ones mask covering a value of `n` bytes (`n` is 1, 2, 4 or 8).
pub open spec fn size_mask(n: nat) -> u64 {
    if n == 1 {
        0xff
    } else if n == 2 {
        0xffff
    } else if n == 4 {
        0xffff_ffff
    } else {
        0xffff_ffff_ffff_ffff
    }
}

/// Register widths in bytes.
pub open spec fn valid_size(n: nat) -> bool {
    n == 1 || n == 2 || n == 4 || n == 8
}

/// Result of one guest byte write through a writable mask and a
/// write-1-to-clear mask (xHCI 5.1): writable bits take the written value,
/// except write-1-to-clear bits, which clear when written with 1 and keep
/// their value when written with 0; other bits keep their value.
pub open spec fn masked_byte(old: u8, write: u8, w_mask: u8, w1c_mask: u8) -> u8 {
    (old & !w_mask) | (((!w1c_mask & write) | (w1c_mask & old & !write)) & w_mask)
}

/// Extracts byte `k` of `v`.
pub fn get_byte_u64(v: u64, k: usize) -> (r: u8)
    requires
        k < 8,
    ensures
        r == byte_of(v, k as nat),
{
    let s: u64 = (k as u64) * 8;
    proof {
        assert((v >> s) as u8 == ((v >> s) & 0xff) as u8) by (bit_vector);
    }
    (v >> s) as u8
}

/// Replaces byte `k` of `v` with `b`.
pub fn set_byte_u64(v: u64, k: usize, b: u8) -> (r: u64)
    requires
        k < 8,
    ensures
        forall|j: nat| j < 8 ==> #[trigger] byte_of(r, j) == if j == k as nat {
            b
        } else {
            byte_of(v, j)
        },
        forall|m: u64| v & m == v && (b as u64) << ((8 * k) as u64) & m == (b as u64) << ((8 * k) as u64) ==> r & m == r,
{
    let s: u64 = (k as u64) * 8;
    let r = (v & !(0xffu64 << s)) | ((b as u64) << s);
    proof {
        assert forall|j: nat| j < 8 implies #[trigger] byte_of(r, j) == if j == k as nat {
            b
        } else {
            byte_of(v, j)
        } by {
            let jj: u64 = j as u64;
            assert(((((v & !(0xffu64 << s)) | ((b as u64) << s)) >> (8 * jj)) & 0xff) as u8 == if jj
                == s / 8 {
                b
            } else {
                (((v >> (8 * jj)) & 0xff) as u8)
            }) by (bit_vector)
                requires
                    jj < 8,
                    s < 64,
                    s % 8 == 0,
            ;
        }
        assert forall|m: u64| v & m == v && (b as u64) << s & m == (b as u64) << s implies r & m
            == r by {
            assert(v & m == v && (b as u64) << s & m == (b as u64) << s ==> ((v & !(0xffu64 << s))
                | ((b as u64) << s)) & m == ((v & !(0xffu64 << s)) | ((b as u64) << s)))
                by (bit_vector);
        }
    }
    r
}


/// A byte placed at position `k` of an `n`-byte value stays inside the
/// value's mask.
pub proof fn lemma_byte_in_mask(b: u8, k: u64, n: u64)
    requires
        k < n,
        valid_size(n as nat),
    ensures
        ((b as u64) << ((8 * k) as u64)) & size_mask(n as nat) == ((b as u64) << ((8 * k) as u64)),
{
    let s: u64 = (8 * k) as u64;
    if n == 1 {
        assert(s == 0 ==> ((b as u64) << s) & 0xff == ((b as u64) << s)) by (bit_vector);
    } else if n == 2 {
        assert(s <= 8 && s % 8 == 0 ==> ((b as u64) << s) & 0xffff == ((b as u64) << s))
            by (bit_vector);
    } else if n == 4 {
        assert(s <= 24 && s % 8 == 0 ==> ((b as u64) << s) & 0xffff_ffff == ((b as u64) << s))
            by (bit_vector);
    } else {
        assert(((b as u64) << s) & 0xffff_ffff_ffff_ffff == ((b as u64) << s)) by (bit_vector);
    }
}

/// Or-ing a byte into an empty byte position of `v` places it there and
/// leaves the other bytes alone.
pub proof fn lemma_or_byte(v: u64, k: u64, b: u8)
    requires
        k < 8,
        byte_of(v, k as nat) == 0,
    ensures
        forall|j: nat| j < 8 ==> #[trigger] byte_of(v | ((b as u64) << ((8 * k) as u64)), j) == if j
            == k {
            b
        } else {
            byte_of(v, j)
        },
{
    let s: u64 = (8 * k) as u64;
    assert forall|j: nat| j < 8 implies #[trigger] byte_of(v | ((b as u64) << s), j) == if j == k {
        b
    } else {
        byte_of(v, j)
    } by {
        let jj: u64 = j as u64;
        assert(((((v | ((b as u64) << s)) >> (8 * jj)) & 0xff) as u8) == if jj == s / 8 {
            b
        } else {
            (((v >> (8 * jj)) & 0xff) as u8)
        }) by (bit_vector)
            requires
                jj < 8,
                s < 64,
                s % 8 == 0,
                (((v >> s) & 0xff) as u8) == 0,
        ;
    }
}

/// Every byte of zero is zero.
pub proof fn lemma_bytes_of_zero()
    ensures
        forall|k: nat| k < 8 ==> #[trigger] byte_of(0, k) == 0,
{
    assert forall|k: nat| k < 8 implies #[trigger] byte_of(0, k) == 0 by {
        let kk: u64 = k as u64;
        assert((((0u64 >> (8 * kk)) & 0xff) as u8) == 0) by (bit_vector)
            requires
                kk < 8,
        ;
    }
}

} // verus!
