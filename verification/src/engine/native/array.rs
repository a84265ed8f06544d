//! Dynamic arrays of the engine: a buffer of pointers with a size and a capacity.

use vstd::prelude::*;

use crate::engine::native::layout::{is_decoded, le_u32, read_u32, read_u64, NativeLayout};
use crate::engine::native::pointer::{spec_pointer_valid, LuminousPointer};
use crate::memory::{same_source, MemoryError, MemoryReader};

verus! {

/// A dynamic array from the engine internals, `std::vector`-like, whose
/// buffer holds pointers to the items.
#[derive(Debug)]
pub struct LuminousDynamicArray<T> {
    pub inner: LuminousPointer<LuminousPointer<T>>,
    pub size: u32,
    pub capacity: u32,
}

impl<T> Clone for LuminousDynamicArray<T> {
    fn clone(&self) -> (r: Self)
        ensures
            r.inner.inner == self.inner.inner,
            r.size == self.size,
            r.capacity == self.capacity,
    {
        LuminousDynamicArray {
            inner: LuminousPointer::new(self.inner.inner),
            size: self.size,
            capacity: self.capacity,
        }
    }
}

impl<T> Copy for LuminousDynamicArray<T> {

}

/// Whether an array header is usable: a valid buffer and a size within the capacity.
pub open spec fn spec_array_valid(inner: u64, size: u32, capacity: u32) -> bool {
    spec_pointer_valid(inner) && size <= capacity
}

impl<T> LuminousDynamicArray<T> {
    /// Whether the buffer pointer is valid and the size within the capacity.
    pub fn is_valid(&self) -> (r: bool)
        ensures
            r == spec_array_valid(self.inner.inner, self.size, self.capacity),
    {
        self.inner.is_valid() && self.size <= self.capacity
    }

    /// Whether the array holds no item.
    pub fn is_empty(&self) -> (r: bool)
        ensures
            r == (self.size == 0),
    {
        self.size == 0
    }

    /// Reads the item pointers of the array, in order: fails for an unusable
    /// header or when a read fails; otherwise one pointer per item, each
    /// decoded from the bytes that the reader knows at its slot, and a read
    /// of slots that the reader all knows succeeds.
    pub fn read_ptrs<R: MemoryReader>(&self, reader: &mut R) -> (r: Result<
        Vec<LuminousPointer<T>>,
        MemoryError,
    >)
        ensures
            same_source(*old(reader), *final(reader)),
            !spec_array_valid(self.inner.inner, self.size, self.capacity) ==> r == Err::<
                Vec<LuminousPointer<T>>,
                MemoryError,
            >(MemoryError::InvalidPointer),
            spec_array_valid(self.inner.inner, self.size, self.capacity) && self.size == 0 ==> (r
                matches Ok(v) && v@.len() == 0),
            r matches Ok(v) ==> v@.len() == self.size,
            r matches Ok(v) ==> forall|i: int|
                0 <= i < self.size ==> (old(reader).spec_memory((self.inner.inner + 8 * i) as u64, 8)
                    matches Some(b) ==> #[trigger] v@[i] == LuminousPointer::<T>::from_layout(b)),
            spec_array_valid(self.inner.inner, self.size, self.capacity) && (forall|i: int|
                0 <= i < self.size ==> spec_pointer_valid((self.inner.inner + 8 * i) as u64)
                    && #[trigger] old(reader).spec_memory((self.inner.inner + 8 * i) as u64, 8) is Some)
                ==> r is Ok,
    {
        if !self.is_valid() {
            return Err(MemoryError::InvalidPointer);
        }
        let mut vec: Vec<LuminousPointer<T>> = Vec::new();
        if self.is_empty() {
            return Ok(vec);
        }
        let mut address: LuminousPointer<LuminousPointer<T>> = LuminousPointer::new(
            self.inner.inner,
        );
        let mut i: u32 = 0;
        while i < self.size
            invariant
                same_source(*old(reader), *reader),
                i <= self.size,
                vec@.len() == i,
                spec_array_valid(self.inner.inner, self.size, self.capacity),
                address.inner == self.inner.inner + 8 * i,
                forall|j: int|
                    0 <= j < i ==> (old(reader).spec_memory((self.inner.inner + 8 * j) as u64, 8)
                        matches Some(b) ==> #[trigger] vec@[j] == LuminousPointer::<T>::from_layout(b)),
            decreases self.size - i,
        {
            proof {
                assert(address.inner == (self.inner.inner + 8 * i) as u64);
            }
            let item = match address.read(reader) {
                Ok(p) => p,
                Err(e) => {
                    proof {
                        assert(!(forall|j: int|
                            0 <= j < self.size ==> spec_pointer_valid((self.inner.inner + 8 * j) as u64)
                                && #[trigger] old(reader).spec_memory((self.inner.inner + 8 * j) as u64, 8)
                                is Some)) by {
                            assert(0 <= i < self.size);
                        }
                    }
                    return Err(e);
                },
            };
            let ghost before = vec@;
            vec.push(item);
            proof {
                assert forall|j: int|
                    0 <= j < i + 1 implies (old(reader).spec_memory((self.inner.inner + 8 * j) as u64, 8)
                        matches Some(b) ==> #[trigger] vec@[j] == LuminousPointer::<T>::from_layout(b)) by {
                    if j < i {
                        assert(vec@[j] == before[j]);
                    }
                }
            }
            address = address.offset(8);
            i += 1;
        }
        Ok(vec)
    }
}

/// The item that the slot at `slot` points to, as far as `reader` knows it:
/// the pointer decoded from the slot's known bytes, and the item decoded
/// from the known bytes where that pointer (a valid one) points.
pub open spec fn known_item<R: MemoryReader, T: NativeLayout>(reader: R, slot: u64) -> Option<T> {
    match reader.spec_memory(slot, 8) {
        Some(b) => {
            let p = LuminousPointer::<T>::from_layout(b);
            if spec_pointer_valid(p.inner) {
                match reader.spec_memory(p.inner, T::layout_size()) {
                    Some(c) => Some(T::from_layout(c)),
                    None => None,
                }
            } else {
                None
            }
        },
        None => None,
    }
}

impl<T: NativeLayout> LuminousDynamicArray<T> {
    /// Reads the items of the array, following each item pointer: fails for
    /// an unusable header or when a read fails; otherwise one item per slot,
    /// each decoded from bytes read at its pointer, which are the known ones
    /// where the reader knows them.
    pub fn read<R: MemoryReader>(&self, reader: &mut R) -> (r: Result<Vec<T>, MemoryError>)
        ensures
            same_source(*old(reader), *final(reader)),
            !spec_array_valid(self.inner.inner, self.size, self.capacity) ==> r == Err::<
                Vec<T>,
                MemoryError,
            >(MemoryError::InvalidPointer),
            spec_array_valid(self.inner.inner, self.size, self.capacity) && self.size == 0 ==> (r
                matches Ok(v) && v@.len() == 0),
            r matches Ok(v) ==> v@.len() == self.size && forall|k: int|
                0 <= k < v@.len() ==> is_decoded::<T>(#[trigger] v@[k]),
            r matches Ok(v) ==> forall|k: int|
                0 <= k < v@.len() ==> (known_item::<R, T>(*old(reader), (self.inner.inner + 8 * k) as u64)
                    matches Some(x) ==> #[trigger] v@[k] == x),
            spec_array_valid(self.inner.inner, self.size, self.capacity) && (forall|k: int|
                0 <= k < self.size ==> spec_pointer_valid((self.inner.inner + 8 * k) as u64)
                    && #[trigger] known_item::<R, T>(*old(reader), (self.inner.inner + 8 * k) as u64) is Some)
                ==> r is Ok,
    {
        if !self.is_valid() {
            return Err(MemoryError::InvalidPointer);
        }
        let mut vec: Vec<T> = Vec::new();
        if self.is_empty() {
            return Ok(vec);
        }
        let mut address: LuminousPointer<LuminousPointer<T>> = LuminousPointer::new(
            self.inner.inner,
        );
        let mut i: u32 = 0;
        while i < self.size
            invariant
                same_source(*old(reader), *reader),
                i <= self.size,
                vec@.len() == i,
                spec_array_valid(self.inner.inner, self.size, self.capacity),
                address.inner == self.inner.inner + 8 * i,
                forall|k: int| 0 <= k < vec@.len() ==> is_decoded::<T>(#[trigger] vec@[k]),
                forall|k: int|
                    0 <= k < vec@.len() ==> (known_item::<R, T>(*old(reader), (self.inner.inner + 8 * k) as u64)
                        matches Some(x) ==> #[trigger] vec@[k] == x),
            decreases self.size - i,
        {
            let ghost all_known = forall|k: int|
                0 <= k < self.size ==> spec_pointer_valid((self.inner.inner + 8 * k) as u64)
                    && #[trigger] known_item::<R, T>(*old(reader), (self.inner.inner + 8 * k) as u64) is Some;
            proof {
                assert(address.inner == (self.inner.inner + 8 * i) as u64);
                if all_known {
                    assert(known_item::<R, T>(*old(reader), (self.inner.inner + 8 * i) as u64) is Some);
                }
            }
            let pointer = match address.read(reader) {
                Ok(p) => p,
                Err(e) => {
                    return Err(e);
                },
            };
            let item = match pointer.read(reader) {
                Ok(v) => v,
                Err(e) => {
                    return Err(e);
                },
            };
            let ghost before = vec@;
            vec.push(item);
            assert(vec@[vec@.len() - 1] == item);
            proof {
                assert(address.inner == (self.inner.inner + 8 * i) as u64);
                assert forall|k: int|
                    0 <= k < vec@.len() implies (known_item::<R, T>(*old(reader), (self.inner.inner + 8 * k) as u64)
                        matches Some(x) ==> #[trigger] vec@[k] == x) by {
                    if k < i {
                        assert(vec@[k] == before[k]);
                    }
                }
            }
            address = address.offset(8);
            i += 1;
        }
        Ok(vec)
    }
}

impl<T> NativeLayout for LuminousDynamicArray<T> {
    open spec fn layout_size() -> nat {
        16
    }

    open spec fn layout_align() -> nat {
        8
    }

    open spec fn from_layout(bytes: Seq<u8>) -> LuminousDynamicArray<T> {
        LuminousDynamicArray {
            inner: LuminousPointer::<LuminousPointer<T>>::from_layout(bytes),
            size: le_u32(bytes, 8),
            capacity: le_u32(bytes, 12),
        }
    }

    fn size() -> (r: usize) {
        16
    }

    fn align() -> (r: usize) {
        8
    }

    fn decode(bytes: &[u8]) -> (r: LuminousDynamicArray<T>) {
        LuminousDynamicArray {
            inner: LuminousPointer::new(read_u64(bytes, 0)),
            size: read_u32(bytes, 8),
            capacity: read_u32(bytes, 12),
        }
    }
}

} // verus!
