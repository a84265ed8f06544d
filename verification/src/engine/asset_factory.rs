//! The engine's asset factories: which code loads each asset type.

use vstd::prelude::*;

use crate::asset_id::AssetId;
use crate::engine::native::asset_factory::{AssetFactoryContainer, AssetFactoryStatisticsHolder};
use crate::engine::native::map::{
    dynamic_map_walk, extends_entries, keys_distinct, lemma_dynamic_map_walk_same, MapKey,
};
use crate::engine::native::pointer::{spec_debase, spec_pointer_valid, LuminousPointer};
use crate::engine::native::string::{spec_utf8_lossy, utf8_lossy};
use crate::engine::native::layout::{le_u64, read_bytes, NativeLayout};
use crate::engine::offsets::EngineOffsets;
use crate::text::{lemma_nul_prefix, nul_prefix, nul_prefix_len};
use crate::memory::{
    game_type, same_source, spec_determine_game_type, spec_reader_name, LuminousGame, MemoryCursor,
    MemoryError, MemoryReader,
};

verus! {

/// The entry points of an asset factory, as offsets from the module base.
#[derive(Debug, Clone, Copy)]
pub struct AssetFactoryFunctions {
    pub load: u64,
    pub alloc: u64,
    pub init: u64,
    pub from_fs: u64,
}

/// Whether `v` is the offset of the entry point that a slot at `slot`
/// yields: the pointer read there (zero when it cannot be read) relative to
/// `base`, which is the pointer that the slot's known bytes hold where
/// `reader` knows them.
pub open spec fn entry_offset<R: MemoryReader>(reader: R, slot: u64, base: u64, v: u64) -> bool {
    &&& exists|target: u64| (!spec_pointer_valid(slot) ==> target == 0) && v == spec_debase(target, base)
    &&& spec_pointer_valid(slot) ==> (reader.spec_memory(slot, 8) matches Some(b) ==> v == spec_debase(
        LuminousPointer::<()>::from_layout(b).inner,
        base,
    ))
}

/// Reads the entry point stored at `slot`, as an offset from the base; zero
/// offset when it cannot be read.
fn read_entry<R: MemoryReader>(reader: &mut R, slot: LuminousPointer<()>, base: LuminousPointer<()>) -> (r: u64)
    requires
        base.inner <= i64::MAX,
    ensures
        same_source(*old(reader), *final(reader)),
        entry_offset(*old(reader), slot.inner, base.inner, r),
{
    let p: LuminousPointer<LuminousPointer<()>> = slot.cast();
    let target: LuminousPointer<()> = match p.read(reader) {
        Ok(t) => t,
        Err(_) => LuminousPointer::new(0),
    };
    target.debase(base)
}

impl AssetFactoryFunctions {
    /// Reads the entry points of a factory: each slot holds a pointer to the
    /// function, which is made relative to the module base.
    pub fn new<R: MemoryReader>(
        reader: &mut MemoryCursor<R>,
        dto: crate::engine::native::asset_factory::AssetFactory,
    ) -> (r: Self)
        ensures
            old(reader).pos == final(reader).pos,
            same_source(old(reader).inner, final(reader).inner),
            entry_offset(old(reader).inner, dto.loader.inner, old(reader).inner.spec_base_address(), r.load),
            entry_offset(old(reader).inner, dto.alloc.inner, old(reader).inner.spec_base_address(), r.alloc),
            entry_offset(old(reader).inner, dto.init.inner, old(reader).inner.spec_base_address(), r.init),
            entry_offset(old(reader).inner, dto.fs.inner, old(reader).inner.spec_base_address(), r.from_fs),
    {
        let base = reader.inner.get_base_address();
        let load = read_entry(&mut reader.inner, dto.loader, base);
        let alloc = read_entry(&mut reader.inner, dto.alloc, base);
        let init = read_entry(&mut reader.inner, dto.init, base);
        let from_fs = read_entry(&mut reader.inner, dto.fs, base);
        AssetFactoryFunctions { load, alloc, init, from_fs }
    }

    /// No entry points.
    pub fn empty() -> (r: Self)
        ensures
            r.load == 0 && r.alloc == 0 && r.init == 0 && r.from_fs == 0,
    {
        AssetFactoryFunctions { load: 0, alloc: 0, init: 0, from_fs: 0 }
    }
}

/// Allocation statistics of an asset factory.
#[derive(Debug, Clone, Copy)]
pub struct AssetFactoryStatistics {
    pub current_size: u64,
    pub peak_size: u64,
    pub current_count: usize,
    pub peak_count: usize,
}

impl AssetFactoryStatistics {
    /// The statistics of a factory record.
    pub fn new(dto: crate::engine::native::asset_factory::AssetFactoryStatistics) -> (r: Self)
        ensures
            r.current_size == dto.current_size,
            r.peak_size == dto.peak_size,
            r.current_count == dto.current_count,
            r.peak_count == dto.peak_count,
    {
        AssetFactoryStatistics {
            current_size: dto.current_size,
            peak_size: dto.peak_size,
            current_count: dto.current_count as usize,
            peak_count: dto.peak_count as usize,
        }
    }

    /// All statistics zero.
    pub fn empty() -> (r: Self)
        ensures
            r.current_size == 0 && r.peak_size == 0 && r.current_count == 0 && r.peak_count == 0,
    {
        AssetFactoryStatistics { current_size: 0, peak_size: 0, current_count: 0, peak_count: 0 }
    }
}

/// A registered asset factory.
#[derive(Debug)]
pub struct AssetFactoryHolder {
    pub functions: AssetFactoryFunctions,
    pub stats: AssetFactoryStatistics,
    pub name: String,
    pub asset_id: AssetId,
}

/// The length of the text before the first NUL of a name buffer.
fn name_length(name: &[u8; 16]) -> (r: usize)
    ensures
        r == nul_prefix_len(name@),
        r <= 16,
{
    proof {
        lemma_nul_prefix(name@);
    }
    let mut i: usize = 0;
    while i < 16
        invariant
            i <= 16,
            name@.len() == 16,
            i <= nul_prefix_len(name@),
            nul_prefix_len(name@) <= 16,
            nul_prefix_len(name@) < 16 ==> name@[nul_prefix_len(name@) as int] == 0,
            forall|j: int| 0 <= j < nul_prefix_len(name@) ==> name@[j] != 0,
        decreases 16 - i,
    {
        if name[i] == 0 {
            return i;
        }
        i += 1;
    }
    i
}

/// Whether `r` holds the entry points that the factory record `dto` yields
/// (`entry_offset`), relative to the reader's base address.
pub open spec fn functions_from<R: MemoryReader>(
    reader: R,
    dto: crate::engine::native::asset_factory::AssetFactory,
    r: AssetFactoryFunctions,
) -> bool {
    let base = reader.spec_base_address();
    &&& entry_offset(reader, dto.loader.inner, base, r.load)
    &&& entry_offset(reader, dto.alloc.inner, base, r.alloc)
    &&& entry_offset(reader, dto.init.inner, base, r.init)
    &&& entry_offset(reader, dto.fs.inner, base, r.from_fs)
}

/// Whether `h` is the factory that a read of the registration `dto` under
/// `key` gives: that key, the lossy UTF-8 text before the first NUL of the
/// name buffer, the recorded statistics, and, where the reader knows the
/// factory record, the entry points it yields.
pub open spec fn holder_from<R: MemoryReader>(
    reader: R,
    dto: AssetFactoryStatisticsHolder,
    key: AssetId,
    h: AssetFactoryHolder,
) -> bool {
    &&& h.asset_id == key
    &&& h.name@ == spec_utf8_lossy(nul_prefix(dto.name@))
    &&& h.stats.current_size == dto.statistics.current_size
    &&& h.stats.peak_size == dto.statistics.peak_size
    &&& h.stats.current_count == dto.statistics.current_count
    &&& h.stats.peak_count == dto.statistics.peak_count
    &&& spec_pointer_valid(dto.factory.inner) ==> (reader.spec_memory(
        dto.factory.inner,
        crate::engine::native::asset_factory::AssetFactory::layout_size(),
    ) matches Some(b) ==> functions_from(
        reader,
        crate::engine::native::asset_factory::AssetFactory::from_layout(b),
        h.functions,
    ))
}

/// Whether the factory record of `dto` is at a valid address that the
/// reader knows.
pub open spec fn factory_known<R: MemoryReader>(reader: R, dto: AssetFactoryStatisticsHolder) -> bool {
    &&& spec_pointer_valid(dto.factory.inner)
    &&& reader.spec_memory(
        dto.factory.inner,
        crate::engine::native::asset_factory::AssetFactory::layout_size(),
    ) is Some
}

impl AssetFactoryHolder {
    /// Reads a registered factory: its entry points through the factory
    /// pointer, its statistics, and its name, the lossy UTF-8 text before the
    /// first NUL of the name buffer. Fails when the factory cannot be read;
    /// a factory whose record the reader knows is read from that record.
    pub fn new<R: MemoryReader>(
        reader: &mut MemoryCursor<R>,
        dto: AssetFactoryStatisticsHolder,
        key: AssetId,
    ) -> (r: Result<Self, MemoryError>)
        ensures
            old(reader).pos == final(reader).pos,
            same_source(old(reader).inner, final(reader).inner),
            !spec_pointer_valid(dto.factory.inner) ==> r == Err::<Self, MemoryError>(
                MemoryError::InvalidPointer,
            ),
            spec_pointer_valid(dto.factory.inner) ==> (old(reader).inner.spec_memory(
                dto.factory.inner,
                crate::engine::native::asset_factory::AssetFactory::layout_size(),
            ) matches Some(b) ==> r matches Ok(h) && {
                let f = crate::engine::native::asset_factory::AssetFactory::from_layout(b);
                let base = old(reader).inner.spec_base_address();
                &&& entry_offset(old(reader).inner, f.loader.inner, base, h.functions.load)
                &&& entry_offset(old(reader).inner, f.alloc.inner, base, h.functions.alloc)
                &&& entry_offset(old(reader).inner, f.init.inner, base, h.functions.init)
                &&& entry_offset(old(reader).inner, f.fs.inner, base, h.functions.from_fs)
            }),
            r matches Ok(h) ==> {
                &&& h.asset_id == key
                &&& h.name@ == spec_utf8_lossy(nul_prefix(dto.name@))
                &&& h.stats.current_size == dto.statistics.current_size
                &&& h.stats.peak_size == dto.statistics.peak_size
                &&& h.stats.current_count == dto.statistics.current_count
                &&& h.stats.peak_count == dto.statistics.peak_count
            },
            r matches Ok(h) ==> holder_from(old(reader).inner, dto, key, h),
    {
        let functions_dto = match dto.factory.read(&mut reader.inner) {
            Ok(f) => f,
            Err(e) => {
                return Err(e);
            },
        };
        let functions = AssetFactoryFunctions::new(reader, functions_dto);
        let len = name_length(&dto.name);
        let bytes = read_bytes(&dto.name, 0, len);
        proof {
            lemma_nul_prefix(dto.name@);
            assert(bytes@ =~= nul_prefix(dto.name@));
        }
        let name = utf8_lossy(bytes.as_slice());
        Ok(AssetFactoryHolder {
            functions,
            stats: AssetFactoryStatistics::new(dto.statistics),
            name,
            asset_id: key,
        })
    }
}

/// The asset factories by asset type id, and the default factory.
#[derive(Debug)]
pub struct AssetFactory {
    pub factories: Vec<(AssetId, AssetFactoryHolder)>,
    pub default_factory: AssetFactoryFunctions,
}

/// Whether the factories hold each asset type once, the last being the
/// default factory under the null id.
pub open spec fn factories_wf(factories: Seq<(AssetId, AssetFactoryHolder)>) -> bool {
    &&& keys_distinct(factories)
    &&& factories.len() >= 1
    &&& factories.last().0 == AssetId(0)
    &&& factories.last().1.name@ == "default"@
    &&& forall|k: int| 0 <= k < factories.len() ==> (#[trigger] factories[k]).1.asset_id == factories[k].0
}

/// Whether `f` is the registry that the registrations `elements` and the
/// default factory record `default_dto` give: each registration's factory
/// under its key, in order (`holder_from`), then the default factory under
/// the null id, named `default`, with zero statistics.
pub open spec fn factories_from<R: MemoryReader>(
    reader: R,
    elements: Seq<(AssetId, AssetFactoryStatisticsHolder)>,
    default_dto: crate::engine::native::asset_factory::AssetFactory,
    f: AssetFactory,
) -> bool {
    let last = f.factories@.last();
    &&& f.factories@.len() == elements.len() + 1
    &&& forall|k: int|
        0 <= k < elements.len() ==> (#[trigger] f.factories@[k]).0 == elements[k].0 && holder_from(
            reader,
            elements[k].1,
            elements[k].0,
            f.factories@[k].1,
        )
    &&& last.0 == AssetId(0)
    &&& last.1.asset_id == AssetId(0)
    &&& last.1.name@ == "default"@
    &&& last.1.functions == f.default_factory
    &&& last.1.stats.current_size == 0 && last.1.stats.peak_size == 0
    &&& last.1.stats.current_count == 0 && last.1.stats.peak_count == 0
    &&& functions_from(reader, default_dto, f.default_factory)
}

/// Address of the pointer through which the asset factory registry of
/// `game` is reached, for a module loaded at `base`.
pub open spec fn asset_registry_root(base: u64, game: LuminousGame, offsets: EngineOffsets) -> int {
    if game == LuminousGame::FORSPOKEN {
        base + offsets.asset_factory_container_addr_forspoken
    } else {
        base + offsets.asset_factory_container_addr_xv
    }
}

/// The word at `address`, where the reader knows it at a valid address.
pub open spec fn known_word<R: MemoryReader>(reader: R, address: u64) -> Option<u64> {
    if spec_pointer_valid(address) {
        match reader.spec_memory(address, 8) {
            Some(b) => Some(le_u64(b, 0)),
            None => None,
        }
    } else {
        None
    }
}

/// Where the asset factory registry of `game` lies, for a module loaded at
/// `base`, where the reader knows the pointers that lead there: through two
/// pointers from the root for Forspoken, one for the other games, then the
/// game's offset into the holder.
pub open spec fn known_registry_address<R: MemoryReader>(
    reader: R,
    base: u64,
    game: LuminousGame,
    offsets: EngineOffsets,
) -> Option<u64> {
    let root = asset_registry_root(base, game, offsets) as u64;
    if game == LuminousGame::FORSPOKEN {
        match known_word(reader, root) {
            Some(p1) => match known_word(reader, p1) {
                Some(p2) => if p2 + offsets.asset_factory_container_offs_forspoken <= u64::MAX {
                    Some((p2 + offsets.asset_factory_container_offs_forspoken) as u64)
                } else {
                    None
                },
                None => None,
            },
            None => None,
        }
    } else {
        match known_word(reader, root) {
            Some(p) => if p + offsets.asset_factory_container_offs_xv <= u64::MAX {
                Some((p + offsets.asset_factory_container_offs_xv) as u64)
            } else {
                None
            },
            None => None,
        }
    }
}

/// The asset factory registry of `game`, where the reader knows it and the
/// pointers that lead there (`known_registry_address`).
pub open spec fn known_registry<R: MemoryReader>(
    reader: R,
    base: u64,
    game: LuminousGame,
    offsets: EngineOffsets,
) -> Option<AssetFactoryContainer> {
    match known_registry_address(reader, base, game, offsets) {
        Some(a) => if spec_pointer_valid(a) {
            match reader.spec_memory(a, AssetFactoryContainer::layout_size()) {
                Some(c) => Some(AssetFactoryContainer::from_layout(c)),
                None => None,
            }
        } else {
            None
        },
        None => None,
    }
}

/// What a factory record yields depends only on the reader's base address
/// and known bytes.
proof fn lemma_functions_from_same<R: MemoryReader>(
    a: R,
    b: R,
    dto: crate::engine::native::asset_factory::AssetFactory,
    r: AssetFactoryFunctions,
)
    requires
        same_source(a, b),
    ensures
        functions_from(a, dto, r) == functions_from(b, dto, r),
{
    assert(a.spec_memory(dto.loader.inner, 8) == b.spec_memory(dto.loader.inner, 8));
    assert(a.spec_memory(dto.alloc.inner, 8) == b.spec_memory(dto.alloc.inner, 8));
    assert(a.spec_memory(dto.init.inner, 8) == b.spec_memory(dto.init.inner, 8));
    assert(a.spec_memory(dto.fs.inner, 8) == b.spec_memory(dto.fs.inner, 8));
}

/// What a registration yields depends only on the reader's base address and
/// known bytes.
proof fn lemma_holder_from_same<R: MemoryReader>(
    a: R,
    b: R,
    dto: AssetFactoryStatisticsHolder,
    key: AssetId,
    h: AssetFactoryHolder,
)
    requires
        same_source(a, b),
    ensures
        holder_from(a, dto, key, h) == holder_from(b, dto, key, h),
{
    let n = crate::engine::native::asset_factory::AssetFactory::layout_size();
    assert(a.spec_memory(dto.factory.inner, n) == b.spec_memory(dto.factory.inner, n));
    if let Some(bytes) = a.spec_memory(dto.factory.inner, n) {
        lemma_functions_from_same(
            a,
            b,
            crate::engine::native::asset_factory::AssetFactory::from_layout(bytes),
            h.functions,
        );
    }
}

/// Whether a factory record is known depends only on the known bytes.
proof fn lemma_factory_known_same<R: MemoryReader>(a: R, b: R, dto: AssetFactoryStatisticsHolder)
    requires
        same_source(a, b),
    ensures
        factory_known(a, dto) == factory_known(b, dto),
{
    let n = crate::engine::native::asset_factory::AssetFactory::layout_size();
    assert(a.spec_memory(dto.factory.inner, n) == b.spec_memory(dto.factory.inner, n));
}

/// Reads the asset factory registry of the reader's game: fails when a
/// pointer on the way cannot be read, as an invalid pointer where the root is
/// not valid, and as malformed where the offset into the holder overflows;
/// where the reader knows the way (`known_registry`), the registry read is
/// the one it leads to.
fn locate_registry<R: MemoryReader>(reader: &mut R, offsets: &EngineOffsets) -> (r: Result<
    AssetFactoryContainer,
    MemoryError,
>)
    requires
        offsets.bounded(),
    ensures
        same_source(*old(reader), *final(reader)),
        !spec_pointer_valid(
            asset_registry_root(
                old(reader).spec_base_address(),
                spec_determine_game_type(spec_reader_name(old(reader))),
                *offsets,
            ) as u64,
        ) ==> r == Err::<AssetFactoryContainer, MemoryError>(MemoryError::InvalidPointer),
        known_registry(
            *old(reader),
            old(reader).spec_base_address(),
            spec_determine_game_type(spec_reader_name(old(reader))),
            *offsets,
        ) matches Some(c) ==> r == Ok::<AssetFactoryContainer, MemoryError>(c),
{
    let base = reader.get_base_address();
    let registry_ptr: LuminousPointer<AssetFactoryContainer> = match game_type(reader) {
        LuminousGame::FORSPOKEN => {
            let root: LuminousPointer<LuminousPointer<LuminousPointer<()>>> = LuminousPointer::new(
                base.inner + offsets.asset_factory_container_addr_forspoken,
            );
            let p = match root.read(reader) {
                Ok(p) => p,
                Err(e) => {
                    return Err(e);
                },
            };
            let p = match p.read(reader) {
                Ok(p) => p,
                Err(e) => {
                    return Err(e);
                },
            };
            if p.inner > u64::MAX - offsets.asset_factory_container_offs_forspoken {
                return Err(MemoryError::Malformed);
            }
            LuminousPointer::new(p.inner + offsets.asset_factory_container_offs_forspoken)
        },
        _ => {
            let root: LuminousPointer<LuminousPointer<()>> = LuminousPointer::new(
                base.inner + offsets.asset_factory_container_addr_xv,
            );
            let p = match root.read(reader) {
                Ok(p) => p,
                Err(e) => {
                    return Err(e);
                },
            };
            if p.inner > u64::MAX - offsets.asset_factory_container_offs_xv {
                return Err(MemoryError::Malformed);
            }
            LuminousPointer::new(p.inner + offsets.asset_factory_container_offs_xv)
        },
    };
    registry_ptr.read(reader)
}

/// The registry that registrations and a default factory record give
/// depends only on the reader's base address and known bytes.
proof fn lemma_factories_from_same<R: MemoryReader>(
    a: R,
    b: R,
    elements: Seq<(AssetId, AssetFactoryStatisticsHolder)>,
    default_dto: crate::engine::native::asset_factory::AssetFactory,
    f: AssetFactory,
)
    requires
        same_source(a, b),
    ensures
        factories_from(a, elements, default_dto, f) == factories_from(b, elements, default_dto, f),
{
    assert forall|k: int| 0 <= k < elements.len() implies holder_from(
        a,
        elements[k].1,
        elements[k].0,
        #[trigger] f.factories@[k].1,
    ) == holder_from(b, elements[k].1, elements[k].0, f.factories@[k].1) by {
        lemma_holder_from_same(a, b, elements[k].1, elements[k].0, f.factories@[k].1);
    }
    lemma_functions_from_same(a, b, default_dto, f.default_factory);
}

impl AssetFactory {
    /// Reads the asset factory registry: the registered factories, then the
    /// default factory, which is also registered under the null id. Fails
    /// when the registry or a registered factory cannot be read, or when the
    /// registry's address overflows.
    pub fn new<R: MemoryReader>(reader: &mut MemoryCursor<R>, offsets: &EngineOffsets) -> (r: Result<
        Self,
        MemoryError,
    >)
        requires
            offsets.bounded(),
        ensures
            old(reader).pos == final(reader).pos,
            same_source(old(reader).inner, final(reader).inner),
            !spec_pointer_valid(
                asset_registry_root(
                    old(reader).inner.spec_base_address(),
                    spec_determine_game_type(spec_reader_name(&old(reader).inner)),
                    *offsets,
                ) as u64,
            ) ==> r == Err::<Self, MemoryError>(MemoryError::InvalidPointer),
            r matches Ok(f) ==> {
                &&& factories_wf(f.factories@)
                &&& f.default_factory == f.factories@.last().1.functions
            },
            known_registry(
                old(reader).inner,
                old(reader).inner.spec_base_address(),
                spec_determine_game_type(spec_reader_name(&old(reader).inner)),
                *offsets,
            ) matches Some(c) ==> (spec_pointer_valid(c.factory_holder.buckets.inner) && spec_pointer_valid(
                c.factory_holder.chain.inner,
            ) ==> (dynamic_map_walk(old(reader).inner, c.factory_holder) matches Some(elements) ==> {
                &&& r matches Ok(f) ==> factories_from(old(reader).inner, elements, c.default_factory, f)
                &&& (forall|k: int|
                    0 <= k < elements.len() ==> factory_known(old(reader).inner, #[trigger] elements[k].1))
                    ==> r is Ok
            })),
            r matches Ok(f) ==> exists|
                elements: Seq<(AssetId, AssetFactoryStatisticsHolder)>,
                default_dto: crate::engine::native::asset_factory::AssetFactory,
            |
                {
                    &&& keys_distinct(elements)
                    &&& forall|k: int| 0 <= k < elements.len() ==> (#[trigger] elements[k]).0 != AssetId(0)
                    &&& #[trigger] factories_from(old(reader).inner, elements, default_dto, f)
                },
    {
        let ghost r0 = reader.inner;
        let registry = match locate_registry(&mut reader.inner, offsets) {
            Ok(r) => r,
            Err(e) => {
                return Err(e);
            },
        };
        let ghost r1 = reader.inner;
        proof {
            lemma_dynamic_map_walk_same(r0, r1, registry.factory_holder);
        }
        let elements = match registry.factory_holder.read(&mut reader.inner) {
            Ok(e) => e,
            Err(e) => {
                return Err(e);
            },
        };
        proof {
            assert forall|k: int| 0 <= k < elements@.len() implies (#[trigger] elements@[k]).0 != AssetId(
                0,
            ) by {
                assert(elements@[k].0 != AssetId::spec_empty_key());
            }
        }
        let ghost r2 = reader.inner;
        proof {
            assert forall|k: int| 0 <= k < elements@.len() && factory_known(r0, #[trigger] elements@[k].1) implies factory_known(
                r2,
                elements@[k].1,
            ) by {
                lemma_factory_known_same(r0, r2, elements@[k].1);
            }
        }
        let r = Self::from_entries(reader, &elements, registry.default_factory);
        proof {
            if r is Ok {
                lemma_factories_from_same(r0, r2, elements@, registry.default_factory, r->Ok_0);
                assert(factories_from(old(reader).inner, elements@, registry.default_factory, r->Ok_0));
            }
        }
        r
    }

    /// The registry of the registrations `elements`, whose keys are distinct
    /// and not the null id, and of the default factory record `default_dto`:
    /// each registration's factory under its key, in order, then the default
    /// factory under the null id (`factories_from`). Fails when a
    /// registration's factory cannot be read; succeeds where the reader knows
    /// every factory record.
    pub fn from_entries<R: MemoryReader>(
        reader: &mut MemoryCursor<R>,
        elements: &Vec<(AssetId, AssetFactoryStatisticsHolder)>,
        default_dto: crate::engine::native::asset_factory::AssetFactory,
    ) -> (r: Result<Self, MemoryError>)
        requires
            keys_distinct(elements@),
            forall|k: int| 0 <= k < elements@.len() ==> (#[trigger] elements@[k]).0 != AssetId(0),
        ensures
            old(reader).pos == final(reader).pos,
            same_source(old(reader).inner, final(reader).inner),
            r matches Ok(f) ==> {
                &&& factories_wf(f.factories@)
                &&& f.default_factory == f.factories@.last().1.functions
                &&& factories_from(old(reader).inner, elements@, default_dto, f)
            },
            (forall|k: int|
                0 <= k < elements@.len() ==> factory_known(old(reader).inner, #[trigger] elements@[k].1))
                ==> r is Ok,
    {
        let mut factories: Vec<(AssetId, AssetFactoryHolder)> = Vec::new();
        let mut i: usize = 0;
        while i < elements.len()
            invariant
                old(reader).pos == reader.pos,
                same_source(old(reader).inner, reader.inner),
                i <= elements@.len(),
                keys_distinct(elements@),
                forall|k: int| 0 <= k < elements@.len() ==> (#[trigger] elements@[k]).0 != AssetId(0),
                factories@.len() == i,
                forall|k: int| 0 <= k < i ==> (#[trigger] factories@[k]).0 == elements@[k].0,
                forall|k: int| 0 <= k < i ==> (#[trigger] factories@[k]).1.asset_id == factories@[k].0,
                forall|k: int|
                    0 <= k < i ==> holder_from(
                        old(reader).inner,
                        elements@[k].1,
                        elements@[k].0,
                        (#[trigger] factories@[k]).1,
                    ),
            decreases elements@.len() - i,
        {
            let (k, v) = elements[i];
            let ghost before = reader.inner;
            let holder = match AssetFactoryHolder::new(reader, v, k) {
                Ok(h) => h,
                Err(e) => {
                    proof {
                        lemma_factory_known_same(old(reader).inner, before, v);
                        assert(!factory_known(old(reader).inner, elements@[i as int].1));
                    }
                    return Err(e);
                },
            };
            proof {
                lemma_holder_from_same(old(reader).inner, before, v, k, holder);
            }
            let ghost prev = factories@;
            factories.push((k, holder));
            assert forall|j: int| 0 <= j < i + 1 implies holder_from(
                old(reader).inner,
                elements@[j].1,
                elements@[j].0,
                (#[trigger] factories@[j]).1,
            ) by {
                if j < i {
                    assert(factories@[j] == prev[j]);
                }
            }
            i += 1;
        }
        let ghost before = reader.inner;
        let default_factory = AssetFactoryFunctions::new(reader, default_dto);
        proof {
            lemma_functions_from_same(old(reader).inner, before, default_dto, default_factory);
        }
        let ghost before_push = factories@;
        factories.push(
            (
                AssetId(0),
                AssetFactoryHolder {
                    functions: default_factory,
                    stats: AssetFactoryStatistics::empty(),
                    name: String::from_str("default"),
                    asset_id: AssetId(0),
                },
            ),
        );
        assert forall|a: int, b: int|
            0 <= a < factories@.len() && 0 <= b < factories@.len() && a != b implies factories@[a].0
            != factories@[b].0 by {
            if a < before_push.len() && b < before_push.len() {
                assert(factories@[a].0 == elements@[a].0);
                assert(factories@[b].0 == elements@[b].0);
            } else if a < before_push.len() {
                assert(factories@[a].0 == elements@[a].0);
            } else if b < before_push.len() {
                assert(factories@[b].0 == elements@[b].0);
            }
        }
        assert forall|j: int| 0 <= j < elements@.len() implies (#[trigger] factories@[j]).0 == elements@[j].0
            && holder_from(old(reader).inner, elements@[j].1, elements@[j].0, factories@[j].1) by {
            assert(factories@[j] == before_push[j]);
        }
        let f = AssetFactory { factories, default_factory };
        proof {
            reveal_strlit("default");
        }
        Ok(f)
    }
}

} // verus!
