//! Typed pointers into the game's address space.

use core::marker::PhantomData;

use vstd::prelude::*;

use crate::engine::native::layout::{is_decoded, le_u32, le_u64, read_u32, read_u64, NativeLayout};
use crate::memory::{same_source, MemoryError, MemoryReader};

verus! {

/// Lowest address (exclusive) that a pointer must exceed to be deemed valid.
pub const POINTER_MIN_EXCLUSIVE: u64 = 0x1000u64;

/// Highest address (exclusive) that a pointer must stay below to be deemed valid.
pub const POINTER_MAX_EXCLUSIVE: u64 = 0x7fffffffffffffffu64;

/// An address in the game process that points at a `T`.
#[derive(Debug)]
pub struct LuminousPointer<T> {
    pub inner: u64,
    pub _marker: PhantomData<T>,
}

impl<T> Clone for LuminousPointer<T> {
    fn clone(&self) -> (r: Self)
        ensures
            r.inner == self.inner,
    {
        LuminousPointer::new(self.inner)
    }
}

impl<T> Copy for LuminousPointer<T> {

}

/// The simple heuristic by which an address lies in the user address space.
pub open spec fn spec_pointer_valid(address: u64) -> bool {
    POINTER_MIN_EXCLUSIVE < address < POINTER_MAX_EXCLUSIVE
}

/// The offset of `address` from `base` that `debase` computes: zero for an
/// invalid address or one below the base.
pub open spec fn spec_debase(address: u64, base: u64) -> u64 {
    if !spec_pointer_valid(address) || address < base {
        0
    } else {
        (address - base) as u64
    }
}

/// Rebasing undoes `debase`: a valid address at or above the base is the
/// base plus its offset.
pub proof fn lemma_debase_rebase(address: u64, base: u64)
    requires
        spec_pointer_valid(address),
        base <= address,
    ensures
        spec_debase(address, base) + base == address,
{
}

impl<T> LuminousPointer<T> {
    /// A pointer to `address`.
    pub fn new(address: u64) -> (r: Self)
        ensures
            r.inner == address,
    {
        LuminousPointer { inner: address, _marker: PhantomData }
    }

    /// The same address, seen as pointing at an `N`.
    pub fn cast<N>(&self) -> (r: LuminousPointer<N>)
        ensures
            r.inner == self.inner,
    {
        LuminousPointer::new(self.inner)
    }

    /// Simple heuristic check that the pointer lies in a valid address space.
    pub fn is_valid(&self) -> (r: bool)
        ensures
            r == spec_pointer_valid(self.inner),
    {
        self.inner > POINTER_MIN_EXCLUSIVE && self.inner < POINTER_MAX_EXCLUSIVE
    }

    /// The offset relative to `base`.
    pub fn debase(&self, base: LuminousPointer<T>) -> (r: u64)
        requires
            spec_pointer_valid(self.inner) ==> base.inner <= i64::MAX,
        ensures
            r == spec_debase(self.inner, base.inner),
    {
        self.debase_typed(base).inner
    }

    /// The offset relative to `base`, keeping the pointer type.
    pub fn debase_typed(&self, base: LuminousPointer<T>) -> (r: LuminousPointer<T>)
        requires
            spec_pointer_valid(self.inner) ==> base.inner <= i64::MAX,
        ensures
            r.inner == spec_debase(self.inner, base.inner),
    {
        if !self.is_valid() || (self.inner as i64 - base.inner as i64) < 0 {
            LuminousPointer::new(0)
        } else {
            LuminousPointer::new(self.inner - base.inner)
        }
    }

    /// The pointer moved forward by `rhs` bytes.
    pub fn offset(self, rhs: u64) -> (r: LuminousPointer<T>)
        requires
            self.inner + rhs <= u64::MAX,
        ensures
            r.inner == self.inner + rhs,
    {
        LuminousPointer::new(self.inner + rhs)
    }

    /// The pointer moved back by `rhs` bytes.
    pub fn offset_back(self, rhs: u64) -> (r: LuminousPointer<T>)
        requires
            self.inner >= rhs,
        ensures
            r.inner == self.inner - rhs,
    {
        LuminousPointer::new(self.inner - rhs)
    }

    /// The sum of two addresses, typed as `self`.
    pub fn offset_by<R>(self, rhs: LuminousPointer<R>) -> (r: LuminousPointer<T>)
        requires
            self.inner + rhs.inner <= u64::MAX,
        ensures
            r.inner == self.inner + rhs.inner,
    {
        LuminousPointer::new(self.inner + rhs.inner)
    }

    /// The difference of two addresses, typed as `self`.
    pub fn offset_back_by<R>(self, rhs: LuminousPointer<R>) -> (r: LuminousPointer<T>)
        requires
            self.inner >= rhs.inner,
        ensures
            r.inner == self.inner - rhs.inner,
    {
        LuminousPointer::new(self.inner - rhs.inner)
    }
}

impl<T: NativeLayout> LuminousPointer<T> {
    /// Reads the `T` that the pointer targets: fails without reading when the
    /// pointer is not valid, fails when the reader fails, and otherwise gives
    /// the value that the bytes read decode to: where the reader knows the
    /// bytes at a valid pointer, the value they decode to.
    pub fn read<R: MemoryReader>(&self, reader: &mut R) -> (r: Result<T, MemoryError>)
        ensures
            same_source(*old(reader), *final(reader)),
            spec_pointer_valid(self.inner) ==> (old(reader).spec_memory(self.inner, T::layout_size())
                matches Some(b) ==> r == Ok::<T, MemoryError>(T::from_layout(b))),
            !spec_pointer_valid(self.inner) ==> r == Err::<T, MemoryError>(
                MemoryError::InvalidPointer,
            ),
            r is Err ==> !spec_pointer_valid(self.inner) || r == Err::<T, MemoryError>(
                MemoryError::ReadFailed,
            ),
            r matches Ok(v) ==> spec_pointer_valid(self.inner) && is_decoded::<T>(v),
    {
        if !self.is_valid() {
            return Err(MemoryError::InvalidPointer);
        }
        let size = T::size();
        let mut buf: Vec<u8> = vec![0u8; size];
        match reader.read(self.cast(), buf.as_mut_slice()) {
            Ok(()) => {},
            Err(_) => {
                return Err(MemoryError::ReadFailed);
            },
        }
        let v = T::decode(buf.as_slice());
        Ok(v)
    }
}

impl<T> NativeLayout for LuminousPointer<T> {
    open spec fn layout_size() -> nat {
        8
    }

    open spec fn layout_align() -> nat {
        8
    }

    open spec fn from_layout(bytes: Seq<u8>) -> LuminousPointer<T> {
        LuminousPointer { inner: le_u64(bytes, 0), _marker: PhantomData }
    }

    fn size() -> (r: usize) {
        8
    }

    fn align() -> (r: usize) {
        8
    }

    fn decode(bytes: &[u8]) -> (r: LuminousPointer<T>) {
        LuminousPointer { inner: read_u64(bytes, 0), _marker: PhantomData }
    }
}

/// A pointer to a NUL-terminated string.
#[derive(Debug, Clone, Copy)]
pub struct LuminousCString {
    pub inner: LuminousPointer<()>,
}

impl LuminousCString {
    /// A C string at `address`.
    pub fn new(address: LuminousPointer<()>) -> (r: Self)
        ensures
            r.inner.inner == address.inner,
    {
        LuminousCString { inner: address }
    }

    /// Simple heuristic check that the string's address is valid.
    pub fn is_valid(&self) -> (r: bool)
        ensures
            r == spec_pointer_valid(self.inner.inner),
    {
        self.inner.is_valid()
    }
}

impl NativeLayout for LuminousCString {
    open spec fn layout_size() -> nat {
        8
    }

    open spec fn layout_align() -> nat {
        8
    }

    open spec fn from_layout(bytes: Seq<u8>) -> LuminousCString {
        LuminousCString { inner: LuminousPointer { inner: le_u64(bytes, 0), _marker: PhantomData } }
    }

    fn size() -> (r: usize) {
        8
    }

    fn align() -> (r: usize) {
        8
    }

    fn decode(bytes: &[u8]) -> (r: LuminousCString) {
        LuminousCString { inner: LuminousPointer { inner: read_u64(bytes, 0), _marker: PhantomData } }
    }
}

/// The header of a reference-counted engine object.
#[derive(Debug, Clone, Copy)]
pub struct LuminousIntrusivePointer {
    pub vtable: LuminousPointer<()>,
    pub ref_count: u32,
    pub reserved: u32,
}

impl NativeLayout for LuminousIntrusivePointer {
    open spec fn layout_size() -> nat {
        16
    }

    open spec fn layout_align() -> nat {
        8
    }

    open spec fn from_layout(bytes: Seq<u8>) -> LuminousIntrusivePointer {
        LuminousIntrusivePointer {
            vtable: LuminousPointer { inner: le_u64(bytes, 0), _marker: PhantomData },
            ref_count: le_u32(bytes, 8),
            reserved: le_u32(bytes, 12),
        }
    }

    fn size() -> (r: usize) {
        16
    }

    fn align() -> (r: usize) {
        8
    }

    fn decode(bytes: &[u8]) -> (r: LuminousIntrusivePointer) {
        LuminousIntrusivePointer {
            vtable: LuminousPointer { inner: read_u64(bytes, 0), _marker: PhantomData },
            ref_count: read_u32(bytes, 8),
            reserved: read_u32(bytes, 12),
        }
    }
}

} // verus!
