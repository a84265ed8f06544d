//! Layouts of the engine's asset factory registry.

use vstd::prelude::*;

use crate::asset_id::AssetId;
use crate::engine::native::layout::{decode_at, field, le_u32, le_u64, lemma_le_in_part, NativeLayout};
use crate::engine::native::map::{LuminousDynamicMap, MapKey};
use crate::engine::native::mutex::LuminousMutex;
use crate::engine::native::pointer::LuminousPointer;

verus! {

impl NativeLayout for AssetId {
    open spec fn layout_size() -> nat {
        8
    }

    open spec fn layout_align() -> nat {
        8
    }

    open spec fn from_layout(b: Seq<u8>) -> AssetId {
        AssetId(field(b, 0))
    }

    fn size() -> (r: usize) {
        8
    }

    fn align() -> (r: usize) {
        8
    }

    fn decode(b: &[u8]) -> (r: AssetId) {
        AssetId(decode_at(b, 0))
    }
}

impl MapKey for AssetId {
    open spec fn spec_empty_key() -> AssetId {
        AssetId(0)
    }

    fn empty_key() -> (r: AssetId) {
        AssetId(0)
    }

    fn same_key(&self, other: &AssetId) -> (r: bool) {
        self.0 == other.0
    }
}

/// The entry points of an asset factory.
#[derive(Debug, Clone, Copy)]
pub struct AssetFactory {
    pub loader: LuminousPointer<()>,
    pub alloc: LuminousPointer<()>,
    pub init: LuminousPointer<()>,
    pub fs: LuminousPointer<()>,
}

impl NativeLayout for AssetFactory {
    open spec fn layout_size() -> nat {
        32
    }

    open spec fn layout_align() -> nat {
        8
    }

    open spec fn from_layout(b: Seq<u8>) -> AssetFactory {
        AssetFactory { loader: field(b, 0), alloc: field(b, 8), init: field(b, 16), fs: field(b, 24) }
    }

    fn size() -> (r: usize) {
        32
    }

    fn align() -> (r: usize) {
        8
    }

    fn decode(b: &[u8]) -> (r: AssetFactory) {
        AssetFactory {
            loader: decode_at(b, 0),
            alloc: decode_at(b, 8),
            init: decode_at(b, 16),
            fs: decode_at(b, 24),
        }
    }
}

/// Allocation statistics of an asset factory.
#[derive(Debug, Clone, Copy)]
pub struct AssetFactoryStatistics {
    pub current_size: u64,
    pub peak_size: u64,
    pub current_count: u32,
    pub peak_count: u32,
}

impl NativeLayout for AssetFactoryStatistics {
    open spec fn layout_size() -> nat {
        24
    }

    open spec fn layout_align() -> nat {
        8
    }

    open spec fn from_layout(b: Seq<u8>) -> AssetFactoryStatistics {
        AssetFactoryStatistics {
            current_size: field(b, 0),
            peak_size: field(b, 8),
            current_count: field(b, 16),
            peak_count: field(b, 20),
        }
    }

    fn size() -> (r: usize) {
        24
    }

    fn align() -> (r: usize) {
        8
    }

    fn decode(b: &[u8]) -> (r: AssetFactoryStatistics) {
        AssetFactoryStatistics {
            current_size: decode_at(b, 0),
            peak_size: decode_at(b, 8),
            current_count: decode_at(b, 16),
            peak_count: decode_at(b, 20),
        }
    }
}

/// A registered asset factory: its entry points, statistics and name buffer.
#[derive(Debug, Clone, Copy)]
pub struct AssetFactoryStatisticsHolder {
    pub factory: LuminousPointer<AssetFactory>,
    pub statistics: AssetFactoryStatistics,
    pub name: [u8; 16],
}

impl NativeLayout for AssetFactoryStatisticsHolder {
    open spec fn layout_size() -> nat {
        48
    }

    open spec fn layout_align() -> nat {
        8
    }

    open spec fn from_layout(b: Seq<u8>) -> AssetFactoryStatisticsHolder {
        AssetFactoryStatisticsHolder {
            factory: field(b, 0),
            statistics: field(b, 8),
            name: [
                b[32],
                b[33],
                b[34],
                b[35],
                b[36],
                b[37],
                b[38],
                b[39],
                b[40],
                b[41],
                b[42],
                b[43],
                b[44],
                b[45],
                b[46],
                b[47],
            ],
        }
    }

    fn size() -> (r: usize) {
        48
    }

    fn align() -> (r: usize) {
        8
    }

    fn decode(b: &[u8]) -> (r: AssetFactoryStatisticsHolder) {
        AssetFactoryStatisticsHolder {
            factory: decode_at(b, 0),
            statistics: decode_at(b, 8),
            name: [
                b[32],
                b[33],
                b[34],
                b[35],
                b[36],
                b[37],
                b[38],
                b[39],
                b[40],
                b[41],
                b[42],
                b[43],
                b[44],
                b[45],
                b[46],
                b[47],
            ],
        }
    }
}

/// The asset factory registry: a lock, the registered factories by asset
/// type id, and the default factory.
#[derive(Debug, Clone, Copy)]
pub struct AssetFactoryContainer {
    pub mutex: LuminousMutex,
    pub factory_holder: LuminousDynamicMap<AssetId, AssetFactoryStatisticsHolder>,
    pub default_factory: AssetFactory,
}

impl NativeLayout for AssetFactoryContainer {
    open spec fn layout_size() -> nat {
        136
    }

    open spec fn layout_align() -> nat {
        8
    }

    open spec fn from_layout(b: Seq<u8>) -> AssetFactoryContainer {
        AssetFactoryContainer {
            mutex: field(b, 0),
            factory_holder: field(b, 48),
            default_factory: field(b, 104),
        }
    }

    fn size() -> (r: usize) {
        136
    }

    fn align() -> (r: usize) {
        8
    }

    fn decode(b: &[u8]) -> (r: AssetFactoryContainer) {
        AssetFactoryContainer {
            mutex: decode_at(b, 0),
            factory_holder: decode_at(b, 48),
            default_factory: decode_at(b, 104),
        }
    }
}

/// The native layout of a factory's allocation statistics: the current
/// size at byte 0, the peak size at byte 8, the current count at byte 16 and
/// the peak count at byte 20.
pub proof fn lemma_asset_factory_statistics_layout(b: Seq<u8>)
    requires
        b.len() >= 24,
    ensures
        ({
            let s = AssetFactoryStatistics::from_layout(b);
            &&& s.current_size == le_u64(b, 0)
            &&& s.peak_size == le_u64(b, 8)
            &&& s.current_count == le_u32(b, 16)
            &&& s.peak_count == le_u32(b, 20)
        }),
{
    lemma_le_in_part(b, 0, 8, 0);
    lemma_le_in_part(b, 8, 8, 0);
    lemma_le_in_part(b, 16, 4, 0);
    lemma_le_in_part(b, 20, 4, 0);
}

/// The native layout of a factory registration: the factory pointer at
/// byte 0, its statistics from byte 8 (so the current count at byte 24 and
/// the peak count at byte 28), and its name buffer from byte 32.
pub proof fn lemma_asset_factory_holder_layout(b: Seq<u8>)
    requires
        b.len() >= 48,
    ensures
        ({
            let h = AssetFactoryStatisticsHolder::from_layout(b);
            &&& h.factory.inner == le_u64(b, 0)
            &&& h.statistics.current_size == le_u64(b, 8)
            &&& h.statistics.peak_size == le_u64(b, 16)
            &&& h.statistics.current_count == le_u32(b, 24)
            &&& h.statistics.peak_count == le_u32(b, 28)
            &&& forall|i: int| 0 <= i < 16 ==> h.name@[i] == b[32 + i]
        }),
{
    lemma_le_in_part(b, 0, 8, 0);
    lemma_le_in_part(b, 8, 24, 0);
    lemma_le_in_part(b, 8, 24, 8);
    lemma_le_in_part(b, 8, 24, 16);
    lemma_le_in_part(b, 8, 24, 20);
    let p = b.subrange(8, 32);
    lemma_le_in_part(p, 0, 8, 0);
    lemma_le_in_part(p, 8, 8, 0);
    lemma_le_in_part(p, 16, 4, 0);
    lemma_le_in_part(p, 20, 4, 0);
}

/// The native layout of a factory record: the loader, allocator, initialiser
/// and file-system entry slots, eight bytes apart from byte 0.
pub proof fn lemma_asset_factory_layout(b: Seq<u8>)
    requires
        b.len() >= 32,
    ensures
        ({
            let f = AssetFactory::from_layout(b);
            &&& f.loader.inner == le_u64(b, 0)
            &&& f.alloc.inner == le_u64(b, 8)
            &&& f.init.inner == le_u64(b, 16)
            &&& f.fs.inner == le_u64(b, 24)
        }),
{
    lemma_le_in_part(b, 0, 8, 0);
    lemma_le_in_part(b, 8, 8, 0);
    lemma_le_in_part(b, 16, 8, 0);
    lemma_le_in_part(b, 24, 8, 0);
}

} // verus!
