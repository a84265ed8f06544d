//! Where the engine keeps its registries, as offsets from the module base of
//! each game build. These depend on the exact game executable and are given
//! by the caller.

use vstd::prelude::*;

verus! {

/// Offsets from the module base of the registries that the tools read.
#[derive(Debug, Clone, Copy)]
pub struct EngineOffsets {
    /// Reflected type table, Forspoken.
    pub ebex_object_array_forspoken: u64,
    /// Reflected type table, Final Fantasy XV.
    pub ebex_object_array_xv: u64,
    /// Pointer to the asset factory registry, Forspoken.
    pub asset_factory_container_addr_forspoken: u64,
    /// Offset of the asset factory registry inside its owner, Forspoken.
    pub asset_factory_container_offs_forspoken: u64,
    /// Pointer to the asset factory registry, Final Fantasy XV.
    pub asset_factory_container_addr_xv: u64,
    /// Offset of the asset factory registry inside its owner, Final Fantasy XV.
    pub asset_factory_container_offs_xv: u64,
    /// Pointer to the game framework module registry, Forspoken.
    pub game_framework_module_map_addr_forspoken: u64,
}

/// The largest offset accepted.
pub const MAX_ENGINE_OFFSET: u64 = 0x4000_0000_0000_0000u64;

impl EngineOffsets {
    /// Whether every offset is at most `MAX_ENGINE_OFFSET`, so that adding
    /// it to a base address in the lower half of the address space cannot
    /// overflow.
    pub open spec fn bounded(&self) -> bool {
        &&& self.ebex_object_array_forspoken <= MAX_ENGINE_OFFSET
        &&& self.ebex_object_array_xv <= MAX_ENGINE_OFFSET
        &&& self.asset_factory_container_addr_forspoken <= MAX_ENGINE_OFFSET
        &&& self.asset_factory_container_offs_forspoken <= MAX_ENGINE_OFFSET
        &&& self.asset_factory_container_addr_xv <= MAX_ENGINE_OFFSET
        &&& self.asset_factory_container_offs_xv <= MAX_ENGINE_OFFSET
        &&& self.game_framework_module_map_addr_forspoken <= MAX_ENGINE_OFFSET
    }

    /// Whether every offset is at most `MAX_ENGINE_OFFSET`; see `bounded`.
    pub fn is_bounded(&self) -> (r: bool)
        ensures
            r == self.bounded(),
    {
        self.ebex_object_array_forspoken <= MAX_ENGINE_OFFSET && self.ebex_object_array_xv <= MAX_ENGINE_OFFSET
            && self.asset_factory_container_addr_forspoken <= MAX_ENGINE_OFFSET
            && self.asset_factory_container_offs_forspoken <= MAX_ENGINE_OFFSET
            && self.asset_factory_container_addr_xv <= MAX_ENGINE_OFFSET
            && self.asset_factory_container_offs_xv <= MAX_ENGINE_OFFSET
            && self.game_framework_module_map_addr_forspoken <= MAX_ENGINE_OFFSET
    }
}

} // verus!
