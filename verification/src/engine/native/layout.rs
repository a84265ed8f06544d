//! Decoding of the little-endian x86-64 memory layouts that the engine's
//! structures have in the game process.

use vstd::prelude::*;

verus! {

/// The unsigned 16-bit little-endian value at `off` in `b`.
pub open spec fn le_u16(b: Seq<u8>, off: int) -> u16 {
    (b[off] as u16) | ((b[off + 1] as u16) << 8u16)
}

/// The unsigned 32-bit little-endian value at `off` in `b`.
pub open spec fn le_u32(b: Seq<u8>, off: int) -> u32 {
    (b[off] as u32) | ((b[off + 1] as u32) << 8u32) | ((b[off + 2] as u32) << 16u32) | ((b[off
        + 3] as u32) << 24u32)
}

/// The unsigned 64-bit little-endian value at `off` in `b`.
pub open spec fn le_u64(b: Seq<u8>, off: int) -> u64 {
    (b[off] as u64) | ((b[off + 1] as u64) << 8u64) | ((b[off + 2] as u64) << 16u64) | ((b[off
        + 3] as u64) << 24u64) | ((b[off + 4] as u64) << 32u64) | ((b[off + 5] as u64) << 40u64)
        | ((b[off + 6] as u64) << 48u64) | ((b[off + 7] as u64) << 56u64)
}

/// Reads the 16-bit little-endian value at `off`.
pub fn read_u16(b: &[u8], off: usize) -> (r: u16)
    requires
        off + 2 <= b@.len(),
    ensures
        r == le_u16(b@, off as int),
{
    (b[off] as u16) | ((b[off + 1] as u16) << 8u16)
}

/// Reads the 32-bit little-endian value at `off`.
pub fn read_u32(b: &[u8], off: usize) -> (r: u32)
    requires
        off + 4 <= b@.len(),
    ensures
        r == le_u32(b@, off as int),
{
    (b[off] as u32) | ((b[off + 1] as u32) << 8u32) | ((b[off + 2] as u32) << 16u32) | ((b[off
        + 3] as u32) << 24u32)
}

/// Reads the 64-bit little-endian value at `off`.
pub fn read_u64(b: &[u8], off: usize) -> (r: u64)
    requires
        off + 8 <= b@.len(),
    ensures
        r == le_u64(b@, off as int),
{
    (b[off] as u64) | ((b[off + 1] as u64) << 8u64) | ((b[off + 2] as u64) << 16u64) | ((b[off
        + 3] as u64) << 24u64) | ((b[off + 4] as u64) << 32u64) | ((b[off + 5] as u64) << 40u64)
        | ((b[off + 6] as u64) << 48u64) | ((b[off + 7] as u64) << 56u64)
}

/// Copies `b[off..off + len]`.
pub fn read_bytes(b: &[u8], off: usize, len: usize) -> (r: Vec<u8>)
    requires
        off + len <= b@.len(),
    ensures
        r@ == b@.subrange(off as int, off + len),
{
    let mut r: Vec<u8> = Vec::new();
    let mut i: usize = 0;
    let n = b.len();
    while i < len
        invariant
            i <= len,
            n == b@.len(),
            off + len <= b@.len(),
            r@ == b@.subrange(off as int, off + i),
        decreases len - i,
    {
        assert(b@.subrange(off as int, off + i + 1) =~= b@.subrange(off as int, off + i).push(
            b@[off + i],
        ));
        r.push(b[off + i]);
        i += 1;
    }
    r
}

/// `v` rounded up to a multiple of `align`.
pub open spec fn align_up(v: nat, align: nat) -> nat {
    if align == 0 {
        v
    } else {
        (((v + align - 1) as nat / align) * align) as nat
    }
}

/// Rounding up gives at least the value, and less than one alignment more.
pub proof fn lemma_align_up(v: nat, align: nat)
    requires
        align > 0,
    ensures
        v <= align_up(v, align) < v + align,
{
    let q = ((v + align - 1) as nat / align) as int;
    let r = ((v + align - 1) as nat % align) as int;
    assert((v + align - 1) as int == q * align + r && 0 <= r < align) by (nonlinear_arith)
        requires
            align > 0,
            q == ((v + align - 1) as nat / align) as int,
            r == ((v + align - 1) as nat % align) as int,
    ;
}

/// Rounds `v` up to a multiple of `align`.
pub fn align_up_usize(v: usize, align: usize) -> (r: usize)
    requires
        1 <= align <= 8,
        v <= 0x10000,
    ensures
        r == align_up(v as nat, align as nat),
        v <= r < v + align,
{
    proof {
        lemma_align_up(v as nat, align as nat);
    }
    (v + align - 1) / align * align
}

/// A value with a fixed native memory layout that can be decoded from the
/// bytes of the game process.
pub trait NativeLayout: Sized {
    /// Size in bytes of the layout.
    spec fn layout_size() -> nat;

    /// Alignment in bytes of the layout.
    spec fn layout_align() -> nat;

    /// The value that `bytes` (of the layout's size) hold.
    spec fn from_layout(bytes: Seq<u8>) -> Self;

    /// Size in bytes of the layout.
    fn size() -> (r: usize)
        ensures
            r == Self::layout_size(),
            1 <= r <= 0x1000,
    ;

    /// Alignment in bytes of the layout.
    fn align() -> (r: usize)
        ensures
            r == Self::layout_align(),
            1 <= r <= 8,
    ;

    /// Decodes the value that `bytes` hold.
    fn decode(bytes: &[u8]) -> (r: Self)
        requires
            bytes@.len() == Self::layout_size(),
        ensures
            r == Self::from_layout(bytes@),
    ;
}

/// Whether `v` is what some bytes of its layout decode to.
pub open spec fn is_decoded<T: NativeLayout>(v: T) -> bool {
    exists|b: Seq<u8>| b.len() == T::layout_size() && v == T::from_layout(b)
}

impl NativeLayout for u8 {
    open spec fn layout_size() -> nat {
        1
    }

    open spec fn layout_align() -> nat {
        1
    }

    open spec fn from_layout(bytes: Seq<u8>) -> u8 {
        bytes[0]
    }

    fn size() -> (r: usize) {
        1
    }

    fn align() -> (r: usize) {
        1
    }

    fn decode(bytes: &[u8]) -> (r: u8) {
        bytes[0]
    }
}

impl NativeLayout for u32 {
    open spec fn layout_size() -> nat {
        4
    }

    open spec fn layout_align() -> nat {
        4
    }

    open spec fn from_layout(bytes: Seq<u8>) -> u32 {
        le_u32(bytes, 0)
    }

    fn size() -> (r: usize) {
        4
    }

    fn align() -> (r: usize) {
        4
    }

    fn decode(bytes: &[u8]) -> (r: u32) {
        read_u32(bytes, 0)
    }
}

impl NativeLayout for u64 {
    open spec fn layout_size() -> nat {
        8
    }

    open spec fn layout_align() -> nat {
        8
    }

    open spec fn from_layout(bytes: Seq<u8>) -> u64 {
        le_u64(bytes, 0)
    }

    fn size() -> (r: usize) {
        8
    }

    fn align() -> (r: usize) {
        8
    }

    fn decode(bytes: &[u8]) -> (r: u64) {
        read_u64(bytes, 0)
    }
}

/// A little-endian value read at `k` within the part of `b` that starts at
/// `off` is the one at `off + k` in `b`.
pub proof fn lemma_le_in_part(b: Seq<u8>, off: int, len: int, k: int)
    requires
        0 <= off,
        0 <= k,
        off + len <= b.len(),
    ensures
        k + 8 <= len ==> le_u64(b.subrange(off, off + len), k) == le_u64(b, off + k),
        k + 4 <= len ==> le_u32(b.subrange(off, off + len), k) == le_u32(b, off + k),
        k + 2 <= len ==> le_u16(b.subrange(off, off + len), k) == le_u16(b, off + k),
        k + 1 <= len ==> b.subrange(off, off + len)[k] == b[off + k],
{
    let s = b.subrange(off, off + len);
    assert forall|j: int| 0 <= j < len implies s[j] == b[off + j] by {}
    if k + 8 <= len {
        assert(s[k] == b[off + k] && s[k + 1] == b[off + k + 1] && s[k + 2] == b[off + k + 2] && s[k + 3]
            == b[off + k + 3]);
        assert(s[k + 4] == b[off + k + 4] && s[k + 5] == b[off + k + 5] && s[k + 6] == b[off + k + 6] && s[k
            + 7] == b[off + k + 7]);
    }
    if k + 4 <= len {
        assert(s[k] == b[off + k] && s[k + 1] == b[off + k + 1] && s[k + 2] == b[off + k + 2] && s[k + 3]
            == b[off + k + 3]);
    }
    if k + 2 <= len {
        assert(s[k] == b[off + k] && s[k + 1] == b[off + k + 1]);
    }
}

/// The value of layout `T` stored at `off` in `b`.
pub open spec fn field<T: NativeLayout>(b: Seq<u8>, off: int) -> T {
    T::from_layout(b.subrange(off, off + T::layout_size()))
}

/// Decodes the value of layout `T` stored at `off` in `b`.
pub fn decode_at<T: NativeLayout>(b: &[u8], off: usize) -> (r: T)
    requires
        off + T::layout_size() <= b@.len(),
    ensures
        r == field::<T>(b@, off as int),
{
    let size = T::size();
    let sub = read_bytes(b, off, size);
    T::decode(sub.as_slice())
}

impl NativeLayout for u16 {
    open spec fn layout_size() -> nat {
        2
    }

    open spec fn layout_align() -> nat {
        2
    }

    open spec fn from_layout(bytes: Seq<u8>) -> u16 {
        le_u16(bytes, 0)
    }

    fn size() -> (r: usize) {
        2
    }

    fn align() -> (r: usize) {
        2
    }

    fn decode(bytes: &[u8]) -> (r: u16) {
        read_u16(bytes, 0)
    }
}

} // verus!
