//! The engine's mutex layout (a Windows critical section behind a header).

use vstd::prelude::*;

use crate::engine::native::layout::{decode_at, field, le_u32, le_u64, lemma_le_in_part, NativeLayout};
use crate::engine::native::pointer::LuminousPointer;

verus! {

/// The critical section of an engine mutex.
#[derive(Debug, Clone, Copy)]
pub struct LuminousMutexCriticalSection {
    pub debug_info: LuminousPointer<()>,
    pub lock_count: u32,
    pub recursion_count: u32,
    pub tid: u64,
    pub semaphore: u64,
    pub spin_cont: u64,
}

impl NativeLayout for LuminousMutexCriticalSection {
    open spec fn layout_size() -> nat {
        40
    }

    open spec fn layout_align() -> nat {
        8
    }

    open spec fn from_layout(b: Seq<u8>) -> LuminousMutexCriticalSection {
        LuminousMutexCriticalSection {
            debug_info: field(b, 0),
            lock_count: field(b, 8),
            recursion_count: field(b, 12),
            tid: field(b, 16),
            semaphore: field(b, 24),
            spin_cont: field(b, 32),
        }
    }

    fn size() -> (r: usize) {
        40
    }

    fn align() -> (r: usize) {
        8
    }

    fn decode(b: &[u8]) -> (r: LuminousMutexCriticalSection) {
        LuminousMutexCriticalSection {
            debug_info: decode_at(b, 0),
            lock_count: decode_at(b, 8),
            recursion_count: decode_at(b, 12),
            tid: decode_at(b, 16),
            semaphore: decode_at(b, 24),
            spin_cont: decode_at(b, 32),
        }
    }
}

/// An engine mutex.
#[derive(Debug, Clone, Copy)]
pub struct LuminousMutex {
    pub reserved: u64,
    pub mutex: LuminousMutexCriticalSection,
}

impl NativeLayout for LuminousMutex {
    open spec fn layout_size() -> nat {
        48
    }

    open spec fn layout_align() -> nat {
        8
    }

    open spec fn from_layout(b: Seq<u8>) -> LuminousMutex {
        LuminousMutex { reserved: field(b, 0), mutex: field(b, 8) }
    }

    fn size() -> (r: usize) {
        48
    }

    fn align() -> (r: usize) {
        8
    }

    fn decode(b: &[u8]) -> (r: LuminousMutex) {
        LuminousMutex { reserved: decode_at(b, 0), mutex: decode_at(b, 8) }
    }
}

/// The native layout of an engine mutex: a reserved word at byte 0, then
/// the critical section from byte 8: its debug record, lock count,
/// recursion count, owning thread, semaphore and spin count at bytes 8, 16,
/// 20, 24, 32 and 40.
pub proof fn lemma_mutex_layout(b: Seq<u8>)
    requires
        b.len() >= 48,
    ensures
        ({
            let m = LuminousMutex::from_layout(b);
            &&& m.reserved == le_u64(b, 0)
            &&& m.mutex.debug_info.inner == le_u64(b, 8)
            &&& m.mutex.lock_count == le_u32(b, 16)
            &&& m.mutex.recursion_count == le_u32(b, 20)
            &&& m.mutex.tid == le_u64(b, 24)
            &&& m.mutex.semaphore == le_u64(b, 32)
            &&& m.mutex.spin_cont == le_u64(b, 40)
        }),
{
    lemma_le_in_part(b, 0, 8, 0);
    let c = b.subrange(8, 48);
    assert(c.subrange(0, 8) =~= b.subrange(8, 16));
    assert(c.subrange(8, 12) =~= b.subrange(16, 20));
    assert(c.subrange(12, 16) =~= b.subrange(20, 24));
    assert(c.subrange(16, 24) =~= b.subrange(24, 32));
    assert(c.subrange(24, 32) =~= b.subrange(32, 40));
    assert(c.subrange(32, 40) =~= b.subrange(40, 48));
    lemma_le_in_part(b, 8, 8, 0);
    lemma_le_in_part(b, 16, 4, 0);
    lemma_le_in_part(b, 20, 4, 0);
    lemma_le_in_part(b, 24, 8, 0);
    lemma_le_in_part(b, 32, 8, 0);
    lemma_le_in_part(b, 40, 8, 0);
}

} // verus!
