//! Formats and usage flags of DRM-managed buffer objects.
use vstd::prelude::*;

verus! {

pub const GBM_BO_USE_SCANOUT: u32 = 1;

pub const GBM_BO_USE_CURSOR: u32 = 2;

pub const GBM_BO_USE_CURSOR_64X64: u32 = 2;

pub const GBM_BO_USE_RENDERING: u32 = 4;

pub const GBM_BO_USE_LINEAR: u32 = 16;

pub const GBM_BO_USE_TEXTURING: u32 = 32;

/// A [fourcc](https://en.wikipedia.org/wiki/FourCC) format identifier.
#[derive(Copy, Clone, PartialEq, Eq, Structural)]
pub struct Format(pub u32);

/// The four bytes of a fourcc code, lowest first.
pub open spec fn fourcc_bytes(f: u32) -> Seq<u8> {
    seq![(f & 0xff) as u8, ((f >> 8u32) & 0xff) as u8, ((f >> 16u32) & 0xff) as u8, ((f >> 24u32) & 0xff) as u8]
}

/// A printable ASCII character other than space.
pub open spec fn is_graphic(b: u8) -> bool {
    0x21 <= b <= 0x7e
}

/// Lower-case hexadecimal digit of `d` (below 16).
pub open spec fn hex_digit(d: u8) -> u8 {
    if d < 10 {
        (0x30 + d) as u8
    } else {
        (0x61 + d - 10) as u8
    }
}

/// Two lower-case hexadecimal digits of `b`.
pub open spec fn hex2(b: u8) -> Seq<u8> {
    seq![hex_digit(b / 16), hex_digit(b % 16)]
}

/// "fourcc(" as bytes.
pub open spec fn fourcc_prefix() -> Seq<u8> {
    seq![0x66u8, 0x6f, 0x75, 0x72, 0x63, 0x63, 0x28]
}

/// The debug text of a fourcc code: its four characters when all are
/// printable, otherwise `0x` and the bytes in hexadecimal, lowest first.
pub open spec fn fourcc_debug_text(b: Seq<u8>) -> Seq<u8> {
    if is_graphic(b[0]) && is_graphic(b[1]) && is_graphic(b[2]) && is_graphic(b[3]) {
        fourcc_prefix() + b + seq![0x29u8]
    } else {
        fourcc_prefix() + seq![0x30u8, 0x78] + hex2(b[0]) + hex2(b[1]) + hex2(b[2]) + hex2(b[3])
            + seq![0x29u8]
    }
}

fn push_hex2(v: &mut Vec<u8>, b: u8)
    ensures
        final(v)@ == old(v)@ + hex2(b),
{
    let hi = b / 16;
    let lo = b % 16;
    let h = if hi < 10 {
        0x30 + hi
    } else {
        0x61 + hi - 10
    };
    let l = if lo < 10 {
        0x30 + lo
    } else {
        0x61 + lo - 10
    };
    v.push(h);
    v.push(l);
    assert(final(v)@ =~= old(v)@ + hex2(b));
}

/// A string holding the given ASCII bytes, made by `String::from_utf8`.
/// Trusted: ASCII bytes are valid UTF-8, so the call succeeds and each byte
/// becomes the char of the same value; the error arm is never taken.
#[verifier::external_body]
fn ascii_string(bytes: Vec<u8>) -> (r: String)
    requires
        forall|i: int| 0 <= i < bytes@.len() ==> #[trigger] bytes@[i] < 0x80,
    ensures
        r@ == bytes@.map_values(|b: u8| b as char),
{
    match String::from_utf8(bytes) {
        Ok(s) => s,
        Err(_) => String::new(),
    }
}

impl Format {
    /// Constructs a format identifer using a fourcc byte sequence.
    pub fn new(a: u8, b: u8, c: u8, d: u8) -> (r: Format)
        ensures
            fourcc_bytes(r.0) == seq![a, b, c, d],
    {
        let r = Format(a as u32 | (b as u32) << 8u32 | (c as u32) << 16u32 | (d as u32) << 24u32);
        assert(((a as u32 | (b as u32) << 8u32 | (c as u32) << 16u32 | (d as u32) << 24u32) & 0xff) as u8 == a
            && (((a as u32 | (b as u32) << 8u32 | (c as u32) << 16u32 | (d as u32) << 24u32) >> 8u32) & 0xff) as u8 == b
            && (((a as u32 | (b as u32) << 8u32 | (c as u32) << 16u32 | (d as u32) << 24u32) >> 16u32) & 0xff) as u8 == c
            && (((a as u32 | (b as u32) << 8u32 | (c as u32) << 16u32 | (d as u32) << 24u32) >> 24u32) & 0xff) as u8 == d)
            by (bit_vector);
        assert(fourcc_bytes(r.0) =~= seq![a, b, c, d]);
        r
    }

    /// Returns the fourcc code as a sequence of bytes.
    pub fn to_bytes(&self) -> (r: [u8; 4])
        ensures
            r@ == fourcc_bytes(self.0),
    {
        let f = self.0;
        let r = [f as u8, (f >> 8u32) as u8, (f >> 16u32) as u8, (f >> 24u32) as u8];
        assert(f as u8 == (f & 0xff) as u8 && (f >> 8u32) as u8 == ((f >> 8u32) & 0xff) as u8 && (f
            >> 16u32) as u8 == ((f >> 16u32) & 0xff) as u8 && (f >> 24u32) as u8 == ((f >> 24u32)
            & 0xff) as u8) by (bit_vector);
        assert(r@ =~= fourcc_bytes(self.0));
        r
    }

    /// The text that formats this code for debugging, such as `fourcc(XR24)`.
    pub fn to_debug_string(&self) -> (r: String)
        ensures
            r@ == fourcc_debug_text(fourcc_bytes(self.0)).map_values(|b: u8| b as char),
    {
        let b = self.to_bytes();
        let mut v: Vec<u8> = Vec::new();
        v.push(0x66);
        v.push(0x6f);
        v.push(0x75);
        v.push(0x72);
        v.push(0x63);
        v.push(0x63);
        v.push(0x28);
        assert(v@ =~= fourcc_prefix());
        let graphic = 0x21 <= b[0] && b[0] <= 0x7e && 0x21 <= b[1] && b[1] <= 0x7e && 0x21 <= b[2]
            && b[2] <= 0x7e && 0x21 <= b[3] && b[3] <= 0x7e;
        if graphic {
            v.push(b[0]);
            v.push(b[1]);
            v.push(b[2]);
            v.push(b[3]);
        } else {
            v.push(0x30);
            v.push(0x78);
            push_hex2(&mut v, b[0]);
            push_hex2(&mut v, b[1]);
            push_hex2(&mut v, b[2]);
            push_hex2(&mut v, b[3]);
        }
        v.push(0x29);
        assert(v@ =~= fourcc_debug_text(b@));
        assert forall|i: int| 0 <= i < v@.len() implies #[trigger] v@[i] < 0x80 by {
            assert(v@[i] == fourcc_debug_text(b@)[i]);
        }
        ascii_string(v)
    }
}

impl From<u32> for Format {
    fn from(u: u32) -> (r: Format) {
        Format(u)
    }
}

impl vstd::std_specs::convert::FromSpecImpl<u32> for Format {
    open spec fn obeys_from_spec() -> bool {
        true
    }

    open spec fn from_spec(u: u32) -> Format {
        Format(u)
    }
}

impl From<Format> for u32 {
    fn from(f: Format) -> (r: u32) {
        f.0
    }
}

impl vstd::std_specs::convert::FromSpecImpl<Format> for u32 {
    open spec fn obeys_from_spec() -> bool {
        true
    }

    open spec fn from_spec(f: Format) -> u32 {
        f.0
    }
}

/// Usage flags for constructing a buffer object.
#[derive(Copy, Clone, PartialEq, Eq, Structural)]
pub struct Flags(pub u32);

/// `flags` with `bit` set when `e` holds and cleared otherwise.
pub open spec fn with_flag(flags: u32, bit: u32, e: bool) -> u32 {
    if e {
        flags | bit
    } else {
        flags & !bit
    }
}

impl Flags {
    /// Returns empty set of flags.
    pub fn empty() -> (r: Flags)
        ensures
            r.0 == 0,
    {
        Flags(0)
    }

    /// Returns the given set of raw `GBM_BO` flags wrapped in a `Flags` struct.
    pub fn new(raw: u32) -> (r: Flags)
        ensures
            r.0 == raw,
    {
        Flags(raw)
    }

    /// Sets the scanout flag's presence
    pub fn use_scanout(self, e: bool) -> (r: Flags)
        ensures
            r.0 == with_flag(self.0, GBM_BO_USE_SCANOUT, e),
    {
        if e {
            Flags(self.0 | GBM_BO_USE_SCANOUT)
        } else {
            Flags(self.0 & !GBM_BO_USE_SCANOUT)
        }
    }

    /// Sets the cursor flag's presence
    pub fn use_cursor(self, e: bool) -> (r: Flags)
        ensures
            r.0 == with_flag(self.0, GBM_BO_USE_CURSOR, e),
    {
        if e {
            Flags(self.0 | GBM_BO_USE_CURSOR)
        } else {
            Flags(self.0 & !GBM_BO_USE_CURSOR)
        }
    }

    /// Sets the cursor 64x64 flag's presence
    pub fn use_cursor64(self, e: bool) -> (r: Flags)
        ensures
            r.0 == with_flag(self.0, GBM_BO_USE_CURSOR_64X64, e),
    {
        if e {
            Flags(self.0 | GBM_BO_USE_CURSOR_64X64)
        } else {
            Flags(self.0 & !GBM_BO_USE_CURSOR_64X64)
        }
    }

    /// Sets the rendering flag's presence
    pub fn use_rendering(self, e: bool) -> (r: Flags)
        ensures
            r.0 == with_flag(self.0, GBM_BO_USE_RENDERING, e),
    {
        if e {
            Flags(self.0 | GBM_BO_USE_RENDERING)
        } else {
            Flags(self.0 & !GBM_BO_USE_RENDERING)
        }
    }

    /// Sets the linear flag's presence
    pub fn use_linear(self, e: bool) -> (r: Flags)
        ensures
            r.0 == with_flag(self.0, GBM_BO_USE_LINEAR, e),
    {
        if e {
            Flags(self.0 | GBM_BO_USE_LINEAR)
        } else {
            Flags(self.0 & !GBM_BO_USE_LINEAR)
        }
    }

    /// Sets the texturing flag's presence
    pub fn use_texturing(self, e: bool) -> (r: Flags)
        ensures
            r.0 == with_flag(self.0, GBM_BO_USE_TEXTURING, e),
    {
        if e {
            Flags(self.0 | GBM_BO_USE_TEXTURING)
        } else {
            Flags(self.0 & !GBM_BO_USE_TEXTURING)
        }
    }
}

/// How many bytes of each scatter-gather piece are copied into a mapping of
/// `copy_size` bytes: pieces are copied in order until the mapping is full.
pub open spec fn sg_copy_plan(copy_size: nat, sizes: Seq<u64>) -> Seq<u64>
    decreases sizes.len(),
{
    if sizes.len() == 0 || copy_size == 0 {
        Seq::empty()
    } else {
        let n: nat = if sizes[0] < copy_size {
            sizes[0] as nat
        } else {
            copy_size
        };
        seq![n as u64] + sg_copy_plan((copy_size - n) as nat, sizes.drop_first())
    }
}

/// How many bytes a read of a mapped region copies out: `y` rows of
/// `stride` bytes, when they fit in the destination of `dst_len` bytes;
/// `None` when they do not, and nothing is copied.
pub fn read_copy_size(y: u32, stride: u32, dst_len: u64) -> (r: Option<u64>)
    ensures
        r == if (y as nat) * (stride as nat) <= dst_len {
            Some(((y as nat) * (stride as nat)) as u64)
        } else {
            None::<u64>
        },
{
    proof {
        vstd::arithmetic::mul::lemma_mul_upper_bound(y as int, u32::MAX as int, stride as int, u32::MAX as int);
        assert(u32::MAX * u32::MAX <= u64::MAX) by (nonlinear_arith);
    }
    let copy_size: u64 = (y as u64) * (stride as u64);
    if copy_size <= dst_len {
        Some(copy_size)
    } else {
        None
    }
}

/// The amount to copy from each scatter-gather piece when writing a
/// region of `height` rows of `stride` bytes: a piece is copied up to what
/// is left of the region, and copying stops once the region is full.
pub fn sg_copy_sizes(height: u32, stride: u32, sg_sizes: &Vec<u64>) -> (r: Vec<u64>)
    ensures
        r@ == sg_copy_plan((height as nat) * (stride as nat), sg_sizes@),
{
    proof {
        vstd::arithmetic::mul::lemma_mul_upper_bound(height as int, u32::MAX as int, stride as int, u32::MAX as int);
        assert(u32::MAX * u32::MAX <= u64::MAX) by (nonlinear_arith);
    }
    let mut copy_size: u64 = (height as u64) * (stride as u64);
    let mut out: Vec<u64> = Vec::new();
    let mut i: usize = 0;
    proof {
        assert(sg_sizes@.subrange(0, sg_sizes@.len() as int) =~= sg_sizes@);
        assert(Seq::<u64>::empty() + sg_sizes@ =~= sg_sizes@);
        vstd::arithmetic::mul::lemma_mul_upper_bound(height as int, u32::MAX as int, stride as int, u32::MAX as int);
    }
    while i < sg_sizes.len() && copy_size > 0
        invariant
            i <= sg_sizes@.len(),
            out@ + sg_copy_plan(copy_size as nat, sg_sizes@.subrange(i as int, sg_sizes@.len() as int))
                == sg_copy_plan((height as nat) * (stride as nat), sg_sizes@),
        decreases sg_sizes@.len() - i,
    {
        let ghost rest = sg_sizes@.subrange(i as int, sg_sizes@.len() as int);
        let piece = sg_sizes[i];
        let copy_sg_size = if piece < copy_size {
            piece
        } else {
            copy_size
        };
        let ghost prev = out@;
        out.push(copy_sg_size);
        copy_size = copy_size - copy_sg_size;
        proof {
            assert(rest.drop_first() =~= sg_sizes@.subrange(i + 1, sg_sizes@.len() as int));
            assert(rest[0] == piece);
        }
        i = i + 1;
        proof {
            assert(prev + seq![copy_sg_size] =~= out@);
            assert(prev + (seq![copy_sg_size] + sg_copy_plan(copy_size as nat, sg_sizes@.subrange(i as int, sg_sizes@.len() as int)))
                =~= out@ + sg_copy_plan(copy_size as nat, sg_sizes@.subrange(i as int, sg_sizes@.len() as int)));
        }
    }
    assert(out@ + Seq::<u64>::empty() =~= out@);
    out
}

} // verus!
