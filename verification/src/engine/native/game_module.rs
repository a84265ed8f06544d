//! Layouts of the game framework's module registry.

use vstd::prelude::*;

use crate::engine::native::array::LuminousDynamicArray;
use crate::engine::native::layout::{decode_at, field, le_u32, le_u64, lemma_le_in_part, NativeLayout};
use crate::engine::native::map::{LuminousStaticMap, MapKey};
use crate::engine::native::pointer::LuminousPointer;

verus! {

/// The virtual table of a game framework module.
#[derive(Debug, Clone, Copy)]
pub struct GameModuleVTable {
    pub alloc: LuminousPointer<()>,
    pub get_name: LuminousPointer<()>,
    pub get_dependencies: LuminousPointer<()>,
    pub init: LuminousPointer<()>,
    pub tick: LuminousPointer<()>,
}

impl NativeLayout for GameModuleVTable {
    open spec fn layout_size() -> nat {
        40
    }

    open spec fn layout_align() -> nat {
        8
    }

    open spec fn from_layout(b: Seq<u8>) -> GameModuleVTable {
        GameModuleVTable {
            alloc: field(b, 0),
            get_name: field(b, 8),
            get_dependencies: field(b, 16),
            init: field(b, 24),
            tick: field(b, 32),
        }
    }

    fn size() -> (r: usize) {
        40
    }

    fn align() -> (r: usize) {
        8
    }

    fn decode(b: &[u8]) -> (r: GameModuleVTable) {
        GameModuleVTable {
            alloc: decode_at(b, 0),
            get_name: decode_at(b, 8),
            get_dependencies: decode_at(b, 16),
            init: decode_at(b, 24),
            tick: decode_at(b, 32),
        }
    }
}

/// The key of a game framework module.
#[derive(Debug, Clone, Copy, PartialEq, Eq, Structural, Hash)]
pub struct GameModuleKey {
    pub key: u32,
    pub unknown: u32,
}

impl NativeLayout for GameModuleKey {
    open spec fn layout_size() -> nat {
        8
    }

    open spec fn layout_align() -> nat {
        4
    }

    open spec fn from_layout(b: Seq<u8>) -> GameModuleKey {
        GameModuleKey {
            key: field(b, 0),
            unknown: field(b, 4),
        }
    }

    fn size() -> (r: usize) {
        8
    }

    fn align() -> (r: usize) {
        4
    }

    fn decode(b: &[u8]) -> (r: GameModuleKey) {
        GameModuleKey {
            key: decode_at(b, 0),
            unknown: decode_at(b, 4),
        }
    }
}

/// The registry of game framework modules.
#[derive(Debug, Clone, Copy)]
pub struct GameModuleMap {
    pub pending_initialize: LuminousStaticMap<GameModuleKey, LuminousPointer<()>>,
    pub modules: LuminousStaticMap<GameModuleKey, LuminousPointer<()>>,
    pub module_list: LuminousDynamicArray<LuminousPointer<()>>,
}

impl NativeLayout for GameModuleMap {
    open spec fn layout_size() -> nat {
        48
    }

    open spec fn layout_align() -> nat {
        8
    }

    open spec fn from_layout(b: Seq<u8>) -> GameModuleMap {
        GameModuleMap {
            pending_initialize: field(b, 0),
            modules: field(b, 16),
            module_list: field(b, 32),
        }
    }

    fn size() -> (r: usize) {
        48
    }

    fn align() -> (r: usize) {
        8
    }

    fn decode(b: &[u8]) -> (r: GameModuleMap) {
        GameModuleMap {
            pending_initialize: decode_at(b, 0),
            modules: decode_at(b, 16),
            module_list: decode_at(b, 32),
        }
    }
}

impl MapKey for GameModuleKey {
    open spec fn spec_empty_key() -> GameModuleKey {
        GameModuleKey { key: 0, unknown: 0 }
    }

    fn empty_key() -> (r: GameModuleKey) {
        GameModuleKey { key: 0, unknown: 0 }
    }

    fn same_key(&self, other: &GameModuleKey) -> (r: bool) {
        self.key == other.key && self.unknown == other.unknown
    }
}

/// The native layout of the module registry: the map of modules waiting to
/// be initialised at byte 0, the map of running modules at byte 16, and the
/// module list at byte 32, each map a pointer to its pairs, then its size
/// and capacity, and the list a pointer to its items, then its size and
/// capacity.
pub proof fn lemma_game_module_map_layout(b: Seq<u8>)
    requires
        b.len() >= 48,
    ensures
        ({
            let m = GameModuleMap::from_layout(b);
            &&& m.pending_initialize.data.inner == le_u64(b, 0)
            &&& m.pending_initialize.size == le_u32(b, 8)
            &&& m.pending_initialize.capacity == le_u32(b, 12)
            &&& m.modules.data.inner == le_u64(b, 16)
            &&& m.modules.size == le_u32(b, 24)
            &&& m.modules.capacity == le_u32(b, 28)
            &&& m.module_list.inner.inner == le_u64(b, 32)
            &&& m.module_list.size == le_u32(b, 40)
            &&& m.module_list.capacity == le_u32(b, 44)
        }),
{
    lemma_le_in_part(b, 0, 16, 0);
    lemma_le_in_part(b, 0, 16, 8);
    lemma_le_in_part(b, 0, 16, 12);
    lemma_le_in_part(b, 16, 16, 0);
    lemma_le_in_part(b, 16, 16, 8);
    lemma_le_in_part(b, 16, 16, 12);
    lemma_le_in_part(b, 32, 16, 0);
    lemma_le_in_part(b, 32, 16, 8);
    lemma_le_in_part(b, 32, 16, 12);
}

/// The native layout of a module key: the id at byte 0, then a second word
/// at byte 4.
pub proof fn lemma_game_module_key_layout(b: Seq<u8>)
    requires
        b.len() >= 8,
    ensures
        GameModuleKey::from_layout(b).key == le_u32(b, 0),
        GameModuleKey::from_layout(b).unknown == le_u32(b, 4),
{
    lemma_le_in_part(b, 0, 4, 0);
    lemma_le_in_part(b, 4, 4, 0);
}

/// The native layout of a module's virtual table: the allocator, the name
/// accessor, the dependencies accessor, the initialiser and the tick
/// function, eight bytes apart from byte 0.
pub proof fn lemma_game_module_vtable_layout(b: Seq<u8>)
    requires
        b.len() >= 40,
    ensures
        ({
            let v = GameModuleVTable::from_layout(b);
            &&& v.alloc.inner == le_u64(b, 0)
            &&& v.get_name.inner == le_u64(b, 8)
            &&& v.get_dependencies.inner == le_u64(b, 16)
            &&& v.init.inner == le_u64(b, 24)
            &&& v.tick.inner == le_u64(b, 32)
        }),
{
    lemma_le_in_part(b, 0, 8, 0);
    lemma_le_in_part(b, 8, 8, 0);
    lemma_le_in_part(b, 16, 8, 0);
    lemma_le_in_part(b, 24, 8, 0);
    lemma_le_in_part(b, 32, 8, 0);
}

} // verus!
