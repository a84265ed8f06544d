//! Engine strings as they lie in memory: a pointer, a size and flag bits.

use vstd::prelude::*;
use vstd::utf8::{decode_utf8, valid_utf8};

use crate::engine::native::layout::{le_u32, read_u32, read_u64, NativeLayout};
use crate::engine::native::pointer::{spec_pointer_valid, LuminousCString, LuminousPointer};
use crate::memory::{same_source, MemoryReader};

verus! {

/// The characters that `String::from_utf8_lossy` makes of `bytes`.
pub uninterp spec fn spec_utf8_lossy(bytes: Seq<u8>) -> Seq<char>;

/// Wraps `String::from_utf8_lossy`: the result is named `spec_utf8_lossy` of
/// the bytes, and on valid UTF-8 it is the decoded text, as the function's
/// documentation states; what replaces invalid sequences is not stated here.
#[verifier::external_body]
pub(crate) fn utf8_lossy(bytes: &[u8]) -> (r: String)
    ensures
        r@ == spec_utf8_lossy(bytes@),
        valid_utf8(bytes@) ==> r@ == decode_utf8(bytes@),
{
    String::from_utf8_lossy(bytes).to_string()
}

/// Mask of the flag bits that hold a string's length.
pub const STRING_SIZE_MASK: u32 = 0xffffffu32;

/// An engine string header.
#[derive(Debug, Clone, Copy)]
pub struct LuminousString {
    pub address: LuminousPointer<u8>,
    pub memory_size: u32,
    pub flags: u32,
}

/// The length in bytes that the flags of a string hold.
pub open spec fn spec_string_size(flags: u32) -> u32 {
    flags & STRING_SIZE_MASK
}

impl LuminousString {
    /// Reads the string text; empty when it cannot be read.
    pub fn as_string<R: MemoryReader>(&self, reader: &mut R) -> (r: String)
        ensures
            same_source(*old(reader), *final(reader)),
            spec_string_size(self.flags) == 0 ==> r@ == Seq::<char>::empty(),
            r@ == Seq::<char>::empty() || exists|b: Seq<u8>|
                b.len() == spec_string_size(self.flags) && r@ == spec_utf8_lossy(b),
            spec_string_size(self.flags) > 0 ==> (old(reader).spec_memory(
                self.address.inner,
                spec_string_size(self.flags) as nat,
            ) matches Some(b) ==> r@ == spec_utf8_lossy(b)),
    {
        match self.as_some_string(reader) {
            Some(s) => s,
            None => String::new(),
        }
    }

    /// Reads the string text: none for an empty string or when the reader
    /// fails, otherwise the lossy UTF-8 text of the `size()` bytes read at
    /// its address, which are the known ones where the reader knows them.
    pub fn as_some_string<R: MemoryReader>(&self, reader: &mut R) -> (r: Option<String>)
        ensures
            same_source(*old(reader), *final(reader)),
            spec_string_size(self.flags) == 0 ==> r is None,
            r matches Some(s) ==> exists|b: Seq<u8>|
                b.len() == spec_string_size(self.flags) && s@ == spec_utf8_lossy(b),
            spec_string_size(self.flags) > 0 ==> (old(reader).spec_memory(
                self.address.inner,
                spec_string_size(self.flags) as nat,
            ) matches Some(b) ==> r matches Some(s) && s@ == spec_utf8_lossy(b)),
    {
        let size = self.size();
        if size == 0 {
            return None;
        }
        let mut buf: Vec<u8> = vec![0u8; size];
        if reader.read(self.address.cast(), buf.as_mut_slice()).is_err() {
            return None;
        }
        Some(utf8_lossy(buf.as_slice()))
    }

    /// The length in bytes, held in the low 24 flag bits.
    pub fn size(&self) -> (r: usize)
        ensures
            r == spec_string_size(self.flags),
    {
        let f: u32 = self.flags;
        let v: u32 = f & STRING_SIZE_MASK;
        assert(v <= 0xffffff) by (bit_vector)
            requires
                v == f & 0xffffffu32,
        ;
        v as usize
    }

    /// Whether flag bit 30 marks the string read-only.
    pub fn is_read_only(&self) -> (r: bool)
        ensures
            r == ((self.flags >> 30u32) & 1 == 1),
    {
        (self.flags >> 30u32) & 1 == 1
    }

    /// Whether flag bit 31 marks the string as allocated.
    pub fn is_allocated(&self) -> (r: bool)
        ensures
            r == ((self.flags >> 31u32) & 1 == 1),
    {
        (self.flags >> 31u32) & 1 == 1
    }
}

impl NativeLayout for LuminousString {
    open spec fn layout_size() -> nat {
        16
    }

    open spec fn layout_align() -> nat {
        8
    }

    open spec fn from_layout(bytes: Seq<u8>) -> LuminousString {
        LuminousString {
            address: LuminousPointer::<u8>::from_layout(bytes),
            memory_size: le_u32(bytes, 8),
            flags: le_u32(bytes, 12),
        }
    }

    fn size() -> (r: usize) {
        16
    }

    fn align() -> (r: usize) {
        8
    }

    fn decode(bytes: &[u8]) -> (r: LuminousString) {
        LuminousString {
            address: LuminousPointer::new(read_u64(bytes, 0)),
            memory_size: read_u32(bytes, 8),
            flags: read_u32(bytes, 12),
        }
    }
}

/// The bytes of the NUL-terminated string at `address` as far as `reader`
/// knows them, looked at byte by byte for at most `steps` bytes: the bytes
/// before the first NUL; none where a byte before it is not known or the
/// address space ends first.
pub open spec fn known_cstring<R: MemoryReader>(reader: R, address: u64, steps: nat) -> Option<Seq<u8>>
    decreases steps,
{
    if steps == 0 {
        None
    } else {
        match reader.spec_memory(address, 1) {
            Some(b) => if b.len() != 1 {
                None
            } else if b[0] == 0 {
                Some(Seq::empty())
            } else if address == u64::MAX {
                None
            } else {
                match known_cstring(reader, (address + 1) as u64, (steps - 1) as nat) {
                    Some(rest) => Some(seq![b[0]] + rest),
                    None => None,
                }
            },
            None => None,
        }
    }
}

/// Two readers that know the same bytes know the same C strings.
pub proof fn lemma_known_cstring_same<R: MemoryReader>(a: R, b: R, address: u64, steps: nat)
    requires
        forall|x: u64, n: nat| #[trigger] b.spec_memory(x, n) == a.spec_memory(x, n),
    ensures
        known_cstring(a, address, steps) == known_cstring(b, address, steps),
    decreases steps,
{
    if steps > 0 && address < u64::MAX {
        lemma_known_cstring_same(a, b, (address + 1) as u64, (steps - 1) as nat);
    }
    assert(b.spec_memory(address, 1) == a.spec_memory(address, 1));
}

/// Whether, after reading the bytes `prefix` of the string at `start` and
/// moving on to `address`, what is known of the string from `start` within
/// `steps` bytes is `prefix` followed by what is known from `address`.
pub open spec fn cstring_progress<R: MemoryReader>(
    reader: R,
    start: u64,
    address: u64,
    prefix: Seq<u8>,
    steps: nat,
) -> bool {
    match known_cstring(reader, start, steps) {
        Some(bs) => steps >= prefix.len() && (known_cstring(reader, address, (steps - prefix.len()) as nat)
            matches Some(rest) && bs == prefix + rest),
        None => true,
    }
}

impl LuminousCString {
    /// Reads the NUL-terminated string at the address, byte by byte: none
    /// when the address is not valid, when a read fails or when the address
    /// space ends before a NUL; otherwise the lossy UTF-8 text of the bytes
    /// before the first NUL, which are the known ones where the reader knows
    /// them.
    pub fn read<R: MemoryReader>(&self, reader: &mut R) -> (r: Option<String>)
        ensures
            same_source(*old(reader), *final(reader)),
            !spec_pointer_valid(self.inner.inner) ==> r is None,
            r matches Some(s) ==> exists|b: Seq<u8>|
                (forall|i: int| 0 <= i < b.len() ==> b[i] != 0) && s@ == spec_utf8_lossy(b),
            spec_pointer_valid(self.inner.inner) ==> forall|steps: nat|
                #[trigger] known_cstring(*old(reader), self.inner.inner, steps) matches Some(bs) ==> r matches Some(
                    s,
                ) && s@ == spec_utf8_lossy(bs),
    {
        if !self.is_valid() {
            return None;
        }
        let ghost start = self.inner.inner;
        let mut address: u64 = self.inner.inner;
        let mut bytes: Vec<u8> = Vec::new();
        let mut byte: Vec<u8> = vec![0u8; 1];
        assert forall|steps: nat| #[trigger] cstring_progress(*old(reader), start, address, bytes@, steps) by {
            if let Some(bs) = known_cstring(*old(reader), start, steps) {
                assert(bytes@ + bs =~= bs);
            }
        }
        loop
            invariant
                same_source(*old(reader), *reader),
                byte@.len() == 1,
                spec_pointer_valid(self.inner.inner),
                start == self.inner.inner,
                forall|i: int| 0 <= i < bytes@.len() ==> bytes@[i] != 0,
                forall|steps: nat| #[trigger] cstring_progress(*old(reader), start, address, bytes@, steps),
            decreases u64::MAX - address,
        {
            let ghost known = old(reader).spec_memory(address, 1);
            if reader.read(LuminousPointer::new(address), byte.as_mut_slice()).is_err() {
                proof {
                    assert forall|steps: nat| #[trigger] known_cstring(*old(reader), start, steps) is None by {
                        assert(cstring_progress(*old(reader), start, address, bytes@, steps));
                        if let Some(bs) = known_cstring(*old(reader), start, steps) {
                            assert(known is None);
                        }
                    }
                }
                return None;
            }
            let b = byte[0];
            if b == 0 {
                proof {
                    assert forall|steps: nat| #[trigger] known_cstring(*old(reader), start, steps) is None
                        || known_cstring(*old(reader), start, steps) == Some(bytes@) by {
                        assert(cstring_progress(*old(reader), start, address, bytes@, steps));
                        if let Some(bs) = known_cstring(*old(reader), start, steps) {
                            assert(known matches Some(k) && k == byte@);
                            assert(bytes@ + Seq::<u8>::empty() =~= bytes@);
                        }
                    }
                }
                return Some(utf8_lossy(bytes.as_slice()));
            }
            let ghost before = bytes@;
            bytes.push(b);
            if address == u64::MAX {
                proof {
                    assert forall|steps: nat| #[trigger] known_cstring(*old(reader), start, steps) is None by {
                        assert(cstring_progress(*old(reader), start, address, before, steps));
                        if let Some(bs) = known_cstring(*old(reader), start, steps) {
                            assert(known matches Some(k) && k == byte@);
                        }
                    }
                }
                return None;
            }
            proof {
                assert forall|steps: nat| #[trigger] cstring_progress(
                    *old(reader),
                    start,
                    (address + 1) as u64,
                    bytes@,
                    steps,
                ) by {
                    assert(cstring_progress(*old(reader), start, address, before, steps));
                    if let Some(bs) = known_cstring(*old(reader), start, steps) {
                        let n = (steps - before.len()) as nat;
                        assert(known matches Some(k) && k == byte@);
                        let rest = known_cstring(*old(reader), address, n).unwrap();
                        assert(n > 0);
                        let tail = known_cstring(*old(reader), (address + 1) as u64, (n - 1) as nat).unwrap();
                        assert(rest == seq![b] + tail);
                        assert(bytes@ == before.push(b));
                        assert(bs == before + (seq![b] + tail));
                        assert(before + (seq![b] + tail) =~= bytes@ + tail);
                        assert((steps - bytes@.len()) as nat == (n - 1) as nat);
                    }
                }
            }
            address = address + 1;
        }
    }
}

} // verus!
