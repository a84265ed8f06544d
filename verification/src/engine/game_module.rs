//! The game framework's modules (Forspoken): their entry points, names and
//! dependencies.

use vstd::prelude::*;

use std::collections::HashMap;

use crate::engine::ebex::{cstring_or_empty, cstring_text_or_empty, cursor_kept, known_cstring_text};
use crate::engine::native::string::{known_cstring, lemma_known_cstring_same};
use crate::engine::native::game_module::GameModuleKey;
use crate::engine::native::layout::{le_u64, NativeLayout};
use crate::engine::native::map::{lemma_static_map_known_same, LuminousStaticMap};
use crate::engine::native::pointer::{
    spec_debase, spec_pointer_valid, LuminousCString, LuminousPointer,
};
use crate::engine::offsets::EngineOffsets;
use crate::engine::x86::{decode_first, x86_first_instruction, ScannedInstruction, X86Mnemonic};
use crate::memory::{
    game_type, same_source, spec_determine_game_type, spec_reader_name, LuminousGame, MemoryCursor,
    MemoryError, MemoryReader,
};

verus! {

broadcast use vstd::std_specs::hash::group_hash_axioms;

/// The entry points of a module, as offsets from the module base.
#[derive(Debug, Clone, Copy, PartialEq, Eq, Structural)]
pub struct GameModuleVTable {
    pub alloc: u64,
    pub get_name: u64,
    pub get_dependencies: u64,
    pub init: u64,
    pub tick: u64,
}

/// The entry points of a native virtual table relative to `base`.
pub open spec fn spec_game_module_vtable(
    dto: crate::engine::native::game_module::GameModuleVTable,
    base: u64,
) -> GameModuleVTable {
    GameModuleVTable {
        alloc: spec_debase(dto.alloc.inner, base),
        get_name: spec_debase(dto.get_name.inner, base),
        get_dependencies: spec_debase(dto.get_dependencies.inner, base),
        init: spec_debase(dto.init.inner, base),
        tick: spec_debase(dto.tick.inner, base),
    }
}

impl GameModuleVTable {
    /// The entry points of a native virtual table, each relative to the
    /// module base (zero where the pointer is not valid or lies below it).
    pub fn new<R: MemoryReader>(
        reader: &mut R,
        dto: crate::engine::native::game_module::GameModuleVTable,
    ) -> (r: Self)
        ensures
            *final(reader) == *old(reader),
            r == spec_game_module_vtable(dto, old(reader).spec_base_address()),
    {
        let base = reader.get_base_address();
        GameModuleVTable {
            alloc: dto.alloc.debase(base),
            get_name: dto.get_name.debase(base),
            get_dependencies: dto.get_dependencies.debase(base),
            init: dto.init.debase(base),
            tick: dto.tick.debase(base),
        }
    }
}

/// One step of the scan for the value that a function returns in `rax`:
/// a `lea` with a memory source loads its address into `rax`, a `ret` ends
/// the scan, anything else leaves `rax` as it was. Gives the new `rax` and
/// whether the scan ends.
pub open spec fn spec_lea_ret_step(rax: u64, insn: ScannedInstruction) -> (u64, bool) {
    if insn.mnemonic == X86Mnemonic::Lea && insn.op1_memory {
        (insn.displacement, false)
    } else if insn.mnemonic == X86Mnemonic::Ret {
        (rax, true)
    } else {
        (rax, false)
    }
}

/// The value in `rax` after scanning `code`, placed at address `ip`, one
/// decoded instruction after another with `rax` holding `rax` at first,
/// up to the first `ret` or the end of the code.
pub open spec fn spec_lea_ret_code(rax: u64, code: Seq<u8>, ip: u64) -> u64
    decreases code.len(),
{
    if code.len() == 0 {
        rax
    } else {
        let (insn, len) = x86_first_instruction(code, ip);
        let (next, stop) = spec_lea_ret_step(rax, insn);
        if stop || len == 0 || len > code.len() {
            next
        } else {
            spec_lea_ret_code(next, code.skip(len as int), vstd::wrapping::u64_specs::wrapping_add(ip, len as u64))
        }
    }
}

/// What the scan of a function's code gives: the address last loaded into
/// `rax` before the first `ret`, or an error when none is.
pub open spec fn spec_lea_ret_result(rax: u64) -> Result<LuminousPointer<()>, MemoryError> {
    if rax == 0 {
        Err(MemoryError::Malformed)
    } else {
        Ok(LuminousPointer { inner: rax, _marker: core::marker::PhantomData })
    }
}

/// One step of the `rax` scan; see `spec_lea_ret_step`.
pub fn lea_ret_step(rax: u64, insn: ScannedInstruction) -> (r: (u64, bool))
    ensures
        r == spec_lea_ret_step(rax, insn),
{
    if insn.mnemonic == X86Mnemonic::Lea && insn.op1_memory {
        (insn.displacement, false)
    } else if insn.mnemonic == X86Mnemonic::Ret {
        (rax, true)
    } else {
        (rax, false)
    }
}

/// A module, as the game framework registers it.
#[derive(Debug)]
pub struct GameModuleInfo {
    pub vtable: GameModuleVTable,
    pub name: String,
    pub dependencies: Vec<String>,
    pub stable_ptr: LuminousPointer<()>,
}

/// The size of the code read from each accessor function.
pub const ACCESSOR_CODE_SIZE: usize = 0x100;

impl GameModuleInfo {
    /// Finds the value that the function at `rip`, whose code is `buffer`,
    /// returns in `rax`: decodes its instructions up to the first `ret` and
    /// takes the address of the last `lea` with a memory source. Fails when
    /// no such address (or a zero one) was found.
    pub fn sim_lea_ret(rip: u64, buffer: &[u8]) -> (r: Result<LuminousPointer<()>, MemoryError>)
        ensures
            r == spec_lea_ret_result(spec_lea_ret_code(0, buffer@, rip)),
    {
        let mut pos: usize = 0;
        let mut ip: u64 = rip;
        let mut rax: u64 = 0;
        let mut done = false;
        assert(buffer@.skip(0) =~= buffer@);
        while !done && pos < buffer.len()
            invariant
                pos <= buffer@.len(),
                done ==> spec_lea_ret_code(0, buffer@, rip) == rax,
                !done ==> spec_lea_ret_code(0, buffer@, rip) == spec_lea_ret_code(
                    rax,
                    buffer@.skip(pos as int),
                    ip,
                ),
            decreases buffer@.len() - pos + (if done {
                0int
            } else {
                1int
            }),
        {
            let (_, rest) = buffer.split_at(pos);
            assert(rest@ =~= buffer@.skip(pos as int));
            let (insn, len) = decode_first(rest, ip);
            let (next, stop) = lea_ret_step(rax, insn);
            rax = next;
            if stop {
                done = true;
            } else {
                proof {
                    assert(buffer@.skip(pos as int).skip(len as int) =~= buffer@.skip(pos + len));
                }
                pos = pos + len;
                ip = ip.wrapping_add(len as u64);
            }
        }
        proof {
            if !done {
                assert(buffer@.skip(pos as int).len() == 0);
            }
        }
        if rax == 0 {
            Err(MemoryError::Malformed)
        } else {
            Ok(LuminousPointer::new(rax))
        }
    }
}

/// Whether the reader knows the dependency array at `address` up to its
/// end, within `steps` entries: each entry at a valid address and known, up
/// to one that is not a valid pointer.
pub open spec fn known_list_ends<R: MemoryReader>(reader: R, address: u64, steps: nat) -> bool
    decreases steps,
{
    if steps == 0 || !spec_pointer_valid(address) {
        false
    } else {
        match reader.spec_memory(address, 8) {
            Some(b) => !spec_pointer_valid(le_u64(b, 0)) || (address + 8 <= u64::MAX && known_list_ends(
                reader,
                (address + 8) as u64,
                (steps - 1) as nat,
            )),
            None => false,
        }
    }
}

/// The address of entry `i` of the dependency array at `start`.
pub open spec fn dependency_slot(start: u64, i: int) -> u64 {
    (start + 8 * i) as u64
}

/// Whether `deps` are the dependencies that the array at `start` lists,
/// where the reader knows it: entry `i` points to the C string whose text is
/// `deps[i]`, and the entry after the last is not a valid pointer.
pub open spec fn dependencies_from<R: MemoryReader>(reader: R, start: u64, deps: Seq<String>) -> bool {
    &&& forall|i: int| 0 <= i < deps.len() ==> dependency_entry(reader, start, i, #[trigger] deps[i])
    &&& reader.spec_memory(dependency_slot(start, deps.len() as int), 8) matches Some(b)
        ==> !spec_pointer_valid(LuminousCString::from_layout(b).inner.inner)
}

/// Whether `dep` is what entry `i` of the dependency array at `start` gives,
/// where the reader knows the entry: a valid pointer to the C string whose
/// text is `dep`.
pub open spec fn dependency_entry<R: MemoryReader>(reader: R, start: u64, i: int, dep: String) -> bool {
    reader.spec_memory(dependency_slot(start, i), 8) matches Some(b) ==> {
        let target = LuminousCString::from_layout(b).inner.inner;
        spec_pointer_valid(target) && known_cstring_text(reader, target, dep@)
    }
}

/// The address of the dependency array that an accessor whose code is
/// `code`, at `ip`, returns; zero where the scan finds none.
pub open spec fn spec_dependencies_address(code: Seq<u8>, ip: u64) -> u64 {
    match spec_lea_ret_result(spec_lea_ret_code(0, code, ip)) {
        Ok(p) => p.inner,
        Err(_) => 0,
    }
}

/// Whether the reader knows all that reading the module at `instance`
/// reads, so that the read succeeds: the instance's first word, a valid
/// virtual table there, the code of both accessors, a name address found in
/// the name accessor's code, and, where the dependencies accessor gives a
/// valid address, the dependency array up to its end.
pub open spec fn module_readable<R: MemoryReader>(reader: R, instance: u64) -> bool {
    &&& spec_pointer_valid(instance)
    &&& reader.spec_memory(instance, 8) matches Some(b1)
    &&& spec_pointer_valid(le_u64(b1, 0))
    &&& reader.spec_memory(
        le_u64(b1, 0),
        crate::engine::native::game_module::GameModuleVTable::layout_size(),
    ) matches Some(b2)
    &&& {
        let vt = crate::engine::native::game_module::GameModuleVTable::from_layout(b2);
        &&& reader.spec_memory(vt.get_name.inner, ACCESSOR_CODE_SIZE as nat) matches Some(code)
        &&& spec_lea_ret_result(spec_lea_ret_code(0, code, vt.get_name.inner)) is Ok
        &&& reader.spec_memory(vt.get_dependencies.inner, ACCESSOR_CODE_SIZE as nat) matches Some(dcode)
        &&& spec_pointer_valid(spec_dependencies_address(dcode, vt.get_dependencies.inner)) ==> exists|n: nat|
            known_list_ends(reader, spec_dependencies_address(dcode, vt.get_dependencies.inner), n)
    }
}

/// Whether the reader knows the instance at `instance`, its virtual table
/// and the code of the name accessor, and the scan of that code finds no
/// name address.
pub open spec fn name_scan_fails<R: MemoryReader>(reader: R, instance: u64) -> bool {
    &&& spec_pointer_valid(instance)
    &&& reader.spec_memory(instance, 8) matches Some(b1)
    &&& spec_pointer_valid(le_u64(b1, 0))
    &&& reader.spec_memory(
        le_u64(b1, 0),
        crate::engine::native::game_module::GameModuleVTable::layout_size(),
    ) matches Some(b2)
    &&& {
        let vt = crate::engine::native::game_module::GameModuleVTable::from_layout(b2);
        &&& reader.spec_memory(vt.get_name.inner, ACCESSOR_CODE_SIZE as nat) matches Some(code)
        &&& spec_lea_ret_result(spec_lea_ret_code(0, code, vt.get_name.inner)) is Err
    }
}

impl GameModuleInfo {
    /// Reads the module whose instance is at `instance`: its virtual table
    /// (through the instance's first word), its name and its dependencies.
    /// The name is the C string whose address the name accessor returns in
    /// `rax`, found by decoding the accessor's first bytes; the dependencies
    /// are the C strings of the array whose address the dependencies accessor
    /// returns, up to the first null entry. Fails when the instance, its
    /// virtual table, the accessors' code or an entry of the dependency array
    /// cannot be read, and when no name address is found. Where the reader
    /// knows the instance, the table and the name accessor's code, the
    /// entry points and the name are those that they give; where it knows
    /// all that the read reads (`module_readable`), the read succeeds.
    pub fn new<R: MemoryReader>(reader: &mut MemoryCursor<R>, instance: LuminousPointer<()>) -> (r:
        Result<Self, MemoryError>)
        ensures
            cursor_kept(*old(reader), *final(reader)),
            module_readable(old(reader).inner, instance.inner) ==> r is Ok,
            !spec_pointer_valid(instance.inner) ==> r == Err::<Self, MemoryError>(
                MemoryError::InvalidPointer,
            ),
            r matches Ok(m) ==> {
                &&& m.stable_ptr == instance
                &&& cstring_text_or_empty(m.name@)
                &&& forall|i: int|
                    0 <= i < m.dependencies@.len() ==> cstring_text_or_empty(
                        #[trigger] m.dependencies@[i]@,
                    )
                &&& exists|v: crate::engine::native::game_module::GameModuleVTable|
                    m.vtable == spec_game_module_vtable(v, old(reader).inner.spec_base_address())
                &&& (old(reader).inner.spec_memory(instance.inner, 8) matches Some(b1) ==> {
                    let table = LuminousPointer::<
                        crate::engine::native::game_module::GameModuleVTable,
                    >::from_layout(b1);
                    spec_pointer_valid(table.inner) ==> (old(reader).inner.spec_memory(
                        table.inner,
                        crate::engine::native::game_module::GameModuleVTable::layout_size(),
                    ) matches Some(b2) ==> {
                        let vt = crate::engine::native::game_module::GameModuleVTable::from_layout(b2);
                        &&& m.vtable == spec_game_module_vtable(vt, old(reader).inner.spec_base_address())
                        &&& (old(reader).inner.spec_memory(vt.get_name.inner, ACCESSOR_CODE_SIZE as nat) matches Some(
                            code,
                        ) ==> (spec_lea_ret_result(spec_lea_ret_code(0, code, vt.get_name.inner)) matches Ok(
                            target,
                        ) ==> known_cstring_text(old(reader).inner, target.inner, m.name@)))
                        &&& (old(reader).inner.spec_memory(
                            vt.get_dependencies.inner,
                            ACCESSOR_CODE_SIZE as nat,
                        ) matches Some(dcode) ==> {
                            let d = spec_dependencies_address(dcode, vt.get_dependencies.inner);
                            &&& !spec_pointer_valid(d) ==> m.dependencies@.len() == 0
                            &&& spec_pointer_valid(d) ==> dependencies_from(old(reader).inner, d, m.dependencies@)
                        })
                    })
                })
            },
            name_scan_fails(old(reader).inner, instance.inner) ==> r == Err::<Self, MemoryError>(
                MemoryError::Malformed,
            ),
    {
        let ghost first = reader.inner;
        let vtable_ptr: LuminousPointer<
            LuminousPointer<crate::engine::native::game_module::GameModuleVTable>,
        > = instance.cast();
        let vtable_ptr = match vtable_ptr.read(&mut reader.inner) {
            Ok(p) => p,
            Err(e) => {
                return Err(e);
            },
        };
        let vtable = match vtable_ptr.read(&mut reader.inner) {
            Ok(v) => v,
            Err(e) => {
                return Err(e);
            },
        };
        let mut buffer: Vec<u8> = vec![0u8; ACCESSOR_CODE_SIZE];
        match reader.inner.read(vtable.get_name, buffer.as_mut_slice()) {
            Ok(()) => {},
            Err(e) => {
                return Err(e);
            },
        }
        let name_target = match Self::sim_lea_ret(vtable.get_name.inner, buffer.as_slice()) {
            Ok(p) => p,
            Err(e) => {
                return Err(e);
            },
        };
        let name_addr = LuminousCString::new(name_target);
        let mut buffer: Vec<u8> = vec![0u8; ACCESSOR_CODE_SIZE];
        match reader.inner.read(vtable.get_dependencies, buffer.as_mut_slice()) {
            Ok(()) => {},
            Err(e) => {
                return Err(e);
            },
        }
        let deps_target = match Self::sim_lea_ret(vtable.get_dependencies.inner, buffer.as_slice()) {
            Ok(p) => p,
            Err(_) => LuminousPointer::new(0),
        };
        let mut deps_addr: LuminousPointer<LuminousCString> = deps_target.cast();
        let ghost before_name = reader.inner;
        let name = cstring_or_empty(name_addr, &mut reader.inner);
        proof {
            assert forall|steps: nat| #[trigger] known_cstring(first, name_target.inner, steps) == known_cstring(
                before_name,
                name_target.inner,
                steps,
            ) by {
                lemma_known_cstring_same(first, before_name, name_target.inner, steps);
            }
        }
        let ghost ready = module_readable(first, instance.inner);
        let ghost mut n: nat = 0;
        proof {
            if ready && spec_pointer_valid(deps_addr.inner) {
                n = choose|n: nat| known_list_ends(first, deps_addr.inner, n);
            }
        }
        let mut deps: Vec<String> = Vec::new();
        let ghost deps_start = deps_addr.inner;
        if deps_addr.is_valid() {
            loop
                invariant
                    cursor_kept(*old(reader), *reader),
                    same_source(first, reader.inner),
                    first == old(reader).inner,
                    spec_pointer_valid(instance.inner),
                    forall|i: int| 0 <= i < deps@.len() ==> cstring_text_or_empty(#[trigger] deps@[i]@),
                    ready ==> known_list_ends(first, deps_addr.inner, n),
                    ready == module_readable(first, instance.inner),
                    !name_scan_fails(first, instance.inner),
                    deps_addr.inner == deps_start + 8 * deps@.len(),
                    forall|i: int| 0 <= i < deps@.len() ==> dependency_entry(first, deps_start, i, #[trigger] deps@[i]),
                ensures
                    cursor_kept(*old(reader), *reader),
                    same_source(first, reader.inner),
                    forall|i: int| 0 <= i < deps@.len() ==> cstring_text_or_empty(#[trigger] deps@[i]@),
                    dependencies_from(first, deps_start, deps@),
                decreases u64::MAX - deps_addr.inner,
            {
                let ghost slot_reader = reader.inner;
                let outer = match deps_addr.read(&mut reader.inner) {
                    Ok(o) => o,
                    Err(e) => {
                        return Err(e);
                    },
                };
                proof {
                    assert(dependency_slot(deps_start, deps@.len() as int) == deps_addr.inner);
                    assert(slot_reader.spec_memory(deps_addr.inner, 8) == first.spec_memory(deps_addr.inner, 8));
                }
                if !outer.is_valid() {
                    proof {
                        let slot = dependency_slot(deps_start, deps@.len() as int);
                        assert(slot == deps_addr.inner);
                        if first.spec_memory(slot, 8) is Some {
                            assert(outer == LuminousCString::from_layout(first.spec_memory(slot, 8)->0));
                            assert(!spec_pointer_valid(LuminousCString::from_layout(first.spec_memory(slot, 8)->0).inner.inner));
                        }
                        assert(dependencies_from(first, deps_start, deps@));
                    }
                    break;
                }
                proof {
                    if first.spec_memory(deps_addr.inner, 8) is Some {
                        assert(outer == LuminousCString::from_layout(first.spec_memory(deps_addr.inner, 8)->0));
                    }
                }
                let ghost before_dep = reader.inner;
                let dep = cstring_or_empty(outer, &mut reader.inner);
                proof {
                    assert forall|steps: nat| #[trigger] known_cstring(first, outer.inner.inner, steps)
                        == known_cstring(before_dep, outer.inner.inner, steps) by {
                        lemma_known_cstring_same(first, before_dep, outer.inner.inner, steps);
                    }
                }
                let ghost prev = deps@;
                deps.push(dep);
                proof {
                    assert forall|i: int| 0 <= i < deps@.len() implies dependency_entry(
                        first,
                        deps_start,
                        i,
                        #[trigger] deps@[i],
                    ) by {
                        if i < prev.len() {
                            assert(deps@[i] == prev[i]);
                        } else {
                            assert(dependency_slot(deps_start, i) == deps_addr.inner);
                            assert(deps@[i] == dep);
                        }
                    }
                }
                deps_addr = deps_addr.offset(8);
                proof {
                    if ready {
                        n = (n - 1) as nat;
                    }
                }
            }
        }
        let vtable = GameModuleVTable::new(&mut reader.inner, vtable);
        Ok(GameModuleInfo { vtable, name, dependencies: deps, stable_ptr: instance })
    }
}

/// Two readers that know the same bytes know the same dependency arrays.
proof fn lemma_known_list_ends_same<R: MemoryReader>(a: R, b: R, address: u64, steps: nat)
    requires
        forall|x: u64, n: nat| #[trigger] b.spec_memory(x, n) == a.spec_memory(x, n),
    ensures
        known_list_ends(a, address, steps) == known_list_ends(b, address, steps),
    decreases steps,
{
    if steps > 0 && address + 8 <= u64::MAX {
        lemma_known_list_ends_same(a, b, (address + 8) as u64, (steps - 1) as nat);
    }
    assert(b.spec_memory(address, 8) == a.spec_memory(address, 8));
}

/// Two readers that know the same bytes can read the same modules.
proof fn lemma_module_readable_same<R: MemoryReader>(a: R, b: R, instance: u64)
    requires
        forall|x: u64, n: nat| #[trigger] b.spec_memory(x, n) == a.spec_memory(x, n),
    ensures
        module_readable(a, instance) == module_readable(b, instance),
{
    assert forall|address: u64, n: nat|
        #![trigger known_list_ends(a, address, n)]
        #![trigger known_list_ends(b, address, n)]
        known_list_ends(a, address, n) == known_list_ends(b, address, n) by {
        lemma_known_list_ends_same(a, b, address, n);
    }
}

/// Two readers that know the same bytes can read the same modules of a list
/// of entries.
proof fn lemma_entries_readable_same<R: MemoryReader>(
    a: R,
    b: R,
    entries: Seq<(GameModuleKey, LuminousPointer<()>)>,
)
    requires
        forall|x: u64, n: nat| #[trigger] b.spec_memory(x, n) == a.spec_memory(x, n),
    ensures
        entries_readable(a, entries) == entries_readable(b, entries),
{
    assert forall|i: int|
        #![trigger module_readable(a, entries[i].1.inner)]
        #![trigger module_readable(b, entries[i].1.inner)]
        0 <= i < entries.len() implies module_readable(a, entries[i].1.inner) == module_readable(
            b,
            entries[i].1.inner,
        ) by {
        lemma_module_readable_same(a, b, entries[i].1.inner);
    }
}

/// Whether entry `i` is the first of `entries` with its id.
pub open spec fn first_of_key(entries: Seq<(GameModuleKey, LuminousPointer<()>)>, i: int) -> bool {
    forall|j: int| 0 <= j < i ==> entries[j].0.key != entries[i].0.key
}

/// Whether `map` holds, under the `key` part of each key of `entries`, the
/// module of the first entry with that key: `info` tells which module
/// information belongs to which instance.
pub open spec fn modules_from_entries(
    entries: Seq<(GameModuleKey, LuminousPointer<()>)>,
    map: Map<u32, GameModuleInfo>,
) -> bool {
    &&& forall|i: int| 0 <= i < entries.len() ==> map.contains_key(#[trigger] entries[i].0.key)
    &&& forall|key: u32|
        #![trigger map.contains_key(key)]
        map.contains_key(key) ==> exists|i: int|
            0 <= i < entries.len() && (#[trigger] entries[i]).0.key == key && map[key].stable_ptr
                == entries[i].1 && forall|j: int| 0 <= j < i ==> entries[j].0.key != key
}

/// Whether the reader knows all that reading the module of each entry that
/// is the first of its id reads (`module_readable`).
pub open spec fn entries_readable<R: MemoryReader>(
    reader: R,
    entries: Seq<(GameModuleKey, LuminousPointer<()>)>,
) -> bool {
    forall|i: int|
        0 <= i < entries.len() && first_of_key(entries, i) ==> #[trigger] module_readable(
            reader,
            entries[i].1.inner,
        )
}

/// The module registry that the pointer at `root` leads to, where the reader
/// knows the pointer and the registry, both at valid addresses.
pub open spec fn known_module_map<R: MemoryReader>(reader: R, root: u64) -> Option<
    crate::engine::native::game_module::GameModuleMap,
> {
    if !spec_pointer_valid(root) {
        None
    } else {
        match reader.spec_memory(root, 8) {
            Some(b) => {
                let p = le_u64(b, 0);
                if !spec_pointer_valid(p) {
                    None
                } else {
                    match reader.spec_memory(
                        p,
                        crate::engine::native::game_module::GameModuleMap::layout_size(),
                    ) {
                        Some(c) => Some(crate::engine::native::game_module::GameModuleMap::from_layout(c)),
                        None => None,
                    }
                }
            },
            None => None,
        }
    }
}

/// The modules of the game framework: those waiting to be initialised and
/// those running, by module id.
#[derive(Debug)]
pub struct GameModules {
    pub pending: HashMap<u32, GameModuleInfo>,
    pub modules: HashMap<u32, GameModuleInfo>,
}

impl GameModules {
    /// Reads the module of each entry, keyed by the id part of the entry's
    /// key; of entries with the same id the first is kept. Fails when a kept
    /// module cannot be read, as the first entry's does where its instance
    /// is not valid; succeeds where the reader knows all that reading each
    /// kept module reads (`module_readable`).
    pub fn convert_entries<R: MemoryReader>(
        reader: &mut MemoryCursor<R>,
        entries: &[(GameModuleKey, LuminousPointer<()>)],
    ) -> (r: Result<HashMap<u32, GameModuleInfo>, MemoryError>)
        ensures
            cursor_kept(*old(reader), *final(reader)),
            r matches Ok(m) ==> modules_from_entries(entries@, m@),
            (forall|i: int|
                0 <= i < entries@.len() && first_of_key(entries@, i) ==> #[trigger] module_readable(
                    old(reader).inner,
                    entries@[i].1.inner,
                )) ==> r is Ok,
            entries@.len() > 0 && !spec_pointer_valid(entries@[0].1.inner) ==> r == Err::<
                HashMap<u32, GameModuleInfo>,
                MemoryError,
            >(MemoryError::InvalidPointer),
    {
        let ghost first = reader.inner;
        let ghost ready = forall|i: int|
            0 <= i < entries@.len() && first_of_key(entries@, i) ==> #[trigger] module_readable(
                first,
                entries@[i].1.inner,
            );
        let mut map: HashMap<u32, GameModuleInfo> = HashMap::new();
        let mut i: usize = 0;
        while i < entries.len()
            invariant
                cursor_kept(*old(reader), *reader),
                first == old(reader).inner,
                ready == (forall|i: int|
                    0 <= i < entries@.len() && first_of_key(entries@, i) ==> #[trigger] module_readable(
                        first,
                        entries@[i].1.inner,
                    )),
                i <= entries@.len(),
                i > 0 ==> spec_pointer_valid(entries@[0].1.inner),
                modules_from_entries(entries@.take(i as int), map@),
            decreases entries@.len() - i,
        {
            let (k, v) = entries[i];
            let ghost prefix = entries@.take(i as int);
            proof {
                assert(entries@.take(i + 1) =~= prefix.push(entries@[i as int]));
            }
            if !map.contains_key(&k.key) {
                proof {
                    assert forall|j: int| 0 <= j < i implies entries@[j].0.key != entries@[i as int].0.key by {
                        assert(prefix[j] == entries@[j]);
                        if entries@[j].0.key == k.key {
                            assert(map@.contains_key(prefix[j].0.key));
                        }
                    }
                    assert(first_of_key(entries@, i as int));
                    lemma_module_readable_same(first, reader.inner, v.inner);
                    if ready {
                        assert(module_readable(first, entries@[i as int].1.inner));
                    }
                }
                let info = match GameModuleInfo::new(reader, v) {
                    Ok(m) => m,
                    Err(e) => {
                        return Err(e);
                    },
                };
                map.insert(k.key, info);
                proof {
                    let next = entries@.take(i + 1);
                    assert forall|key: u32| #![trigger map@.contains_key(key)]
                        map@.contains_key(key) implies exists|j: int|
                            0 <= j < next.len() && (#[trigger] next[j]).0.key == key
                                && map@[key].stable_ptr == next[j].1 && forall|l: int|
                                0 <= l < j ==> next[l].0.key != key by {
                        if key == k.key {
                            assert(next[i as int].0.key == key);
                            assert forall|l: int| 0 <= l < i implies next[l].0.key != key by {
                                assert(next[l] == prefix[l]);
                                if next[l].0.key == key {
                                    assert(map@.contains_key(key));
                                }
                            }
                        } else {
                            let j = choose|j: int|
                                0 <= j < prefix.len() && (#[trigger] prefix[j]).0.key == key
                                    && map@[key].stable_ptr == prefix[j].1 && forall|l: int|
                                    0 <= l < j ==> prefix[l].0.key != key;
                            assert(next[j] == prefix[j]);
                        }
                    }
                }
            } else {
                proof {
                    let next = entries@.take(i + 1);
                    assert forall|key: u32| #![trigger map@.contains_key(key)]
                        map@.contains_key(key) implies exists|j: int|
                            0 <= j < next.len() && (#[trigger] next[j]).0.key == key
                                && map@[key].stable_ptr == next[j].1 && forall|l: int|
                                0 <= l < j ==> next[l].0.key != key by {
                        let j = choose|j: int|
                            0 <= j < prefix.len() && (#[trigger] prefix[j]).0.key == key
                                && map@[key].stable_ptr == prefix[j].1 && forall|l: int|
                                0 <= l < j ==> prefix[l].0.key != key;
                        assert(next[j] == prefix[j]);
                    }
                }
            }
            i += 1;
        }
        proof {
            assert(entries@.take(entries@.len() as int) =~= entries@);
        }
        Ok(map)
    }

    /// Reads the entries of a module map and then their modules, as
    /// `convert_entries` does. Fails when the map cannot be read.
    fn convert_map<R: MemoryReader>(
        reader: &mut MemoryCursor<R>,
        map: LuminousStaticMap<GameModuleKey, LuminousPointer<()>>,
    ) -> (r: Result<HashMap<u32, GameModuleInfo>, MemoryError>)
        ensures
            cursor_kept(*old(reader), *final(reader)),
            !spec_pointer_valid(map.data.inner) ==> r == Err::<HashMap<u32, GameModuleInfo>, MemoryError>(
                MemoryError::InvalidPointer,
            ),
            r matches Ok(m) ==> exists|entries: Seq<(GameModuleKey, LuminousPointer<()>)>|
                #[trigger] modules_from_entries(entries, m@),
            map.known_by(old(reader).inner) ==> (r matches Ok(m) ==> modules_from_entries(
                map.known_entries(old(reader).inner),
                m@,
            )),
            map.known_by(old(reader).inner) && entries_readable(
                old(reader).inner,
                map.known_entries(old(reader).inner),
            ) ==> r is Ok,
    {
        let entries = match map.read(&mut reader.inner) {
            Ok(e) => e,
            Err(e) => {
                return Err(e);
            },
        };
        let ghost before = reader.inner;
        proof {
            if map.known_by(old(reader).inner) && entries_readable(
                old(reader).inner,
                map.known_entries(old(reader).inner),
            ) {
                assert(entries@ == map.known_entries(old(reader).inner));
                assert forall|i: int|
                    0 <= i < entries@.len() && first_of_key(entries@, i) implies #[trigger] module_readable(
                        before,
                        entries@[i].1.inner,
                    ) by {
                    assert(module_readable(old(reader).inner, entries@[i].1.inner));
                    lemma_module_readable_same(old(reader).inner, before, entries@[i].1.inner);
                }
            }
        }
        let r = Self::convert_entries(reader, entries.as_slice());
        if let Ok(m) = &r {
            assert(modules_from_entries(entries@, m@));
        }
        r
    }

    /// Reads the game framework's module registry (Forspoken only): the
    /// pending and the running modules. Fails for another game, and when the
    /// registry or a module cannot be read.
    pub fn new<R: MemoryReader>(reader: &mut MemoryCursor<R>, offsets: &EngineOffsets) -> (r: Result<
        Self,
        MemoryError,
    >)
        requires
            offsets.bounded(),
        ensures
            cursor_kept(*old(reader), *final(reader)),
            spec_determine_game_type(spec_reader_name(&old(reader).inner))
                != LuminousGame::FORSPOKEN ==> r == Err::<Self, MemoryError>(
                MemoryError::UnsupportedGame,
            ),
            !spec_pointer_valid(
                (old(reader).inner.spec_base_address()
                    + offsets.game_framework_module_map_addr_forspoken) as u64,
            ) ==> r is Err,
            spec_determine_game_type(spec_reader_name(&old(reader).inner)) == LuminousGame::FORSPOKEN
                && !spec_pointer_valid(
                (old(reader).inner.spec_base_address()
                    + offsets.game_framework_module_map_addr_forspoken) as u64,
            ) ==> r == Err::<Self, MemoryError>(MemoryError::InvalidPointer),
            r matches Ok(g) ==> {
                &&& exists|e: Seq<(GameModuleKey, LuminousPointer<()>)>|
                    #[trigger] modules_from_entries(e, g.pending@)
                &&& exists|e: Seq<(GameModuleKey, LuminousPointer<()>)>|
                    #[trigger] modules_from_entries(e, g.modules@)
            },
            r matches Ok(g) ==> (known_module_map(
                old(reader).inner,
                (old(reader).inner.spec_base_address() + offsets.game_framework_module_map_addr_forspoken) as u64,
            ) matches Some(mm) ==> {
                &&& mm.pending_initialize.known_by(old(reader).inner) ==> modules_from_entries(
                    mm.pending_initialize.known_entries(old(reader).inner),
                    g.pending@,
                )
                &&& mm.modules.known_by(old(reader).inner) ==> modules_from_entries(
                    mm.modules.known_entries(old(reader).inner),
                    g.modules@,
                )
            }),
            spec_determine_game_type(spec_reader_name(&old(reader).inner)) == LuminousGame::FORSPOKEN
                ==> (known_module_map(
                old(reader).inner,
                (old(reader).inner.spec_base_address() + offsets.game_framework_module_map_addr_forspoken) as u64,
            ) matches Some(mm) ==> ({
                &&& mm.pending_initialize.known_by(old(reader).inner)
                &&& entries_readable(old(reader).inner, mm.pending_initialize.known_entries(old(reader).inner))
                &&& mm.modules.known_by(old(reader).inner)
                &&& entries_readable(old(reader).inner, mm.modules.known_entries(old(reader).inner))
            } ==> r is Ok)),
    {
        if game_type(&reader.inner) != LuminousGame::FORSPOKEN {
            return Err(MemoryError::UnsupportedGame);
        }
        let base = reader.inner.get_base_address();
        let modules_addr: LuminousPointer<
            LuminousPointer<crate::engine::native::game_module::GameModuleMap>,
        > = LuminousPointer::new(base.inner + offsets.game_framework_module_map_addr_forspoken);
        let ghost first = reader.inner;
        let map_ptr = match modules_addr.read(&mut reader.inner) {
            Ok(p) => p,
            Err(e) => {
                return Err(e);
            },
        };
        let ghost second = reader.inner;
        proof {
            assert(second.spec_memory(map_ptr.inner, crate::engine::native::game_module::GameModuleMap::layout_size())
                == first.spec_memory(map_ptr.inner, crate::engine::native::game_module::GameModuleMap::layout_size()));
        }
        let module_map = match map_ptr.read(&mut reader.inner) {
            Ok(m) => m,
            Err(e) => {
                return Err(e);
            },
        };
        proof {
            if known_module_map(first, modules_addr.inner) is Some {
                assert(known_module_map(first, modules_addr.inner) == Some(module_map));
            }
        }
        let ghost third = reader.inner;
        proof {
            lemma_static_map_known_same(module_map.pending_initialize, first, third);
            lemma_entries_readable_same(first, third, module_map.pending_initialize.known_entries(first));
        }
        let pending = match Self::convert_map(reader, module_map.pending_initialize) {
            Ok(m) => m,
            Err(e) => {
                return Err(e);
            },
        };
        let ghost pending_entries = choose|e: Seq<(GameModuleKey, LuminousPointer<()>)>|
            #[trigger] modules_from_entries(e, pending@);
        let ghost fourth = reader.inner;
        proof {
            lemma_static_map_known_same(module_map.modules, first, fourth);
            lemma_entries_readable_same(first, fourth, module_map.modules.known_entries(first));
        }
        let modules = match Self::convert_map(reader, module_map.modules) {
            Ok(m) => m,
            Err(e) => {
                return Err(e);
            },
        };
        let ghost modules_entries = choose|e: Seq<(GameModuleKey, LuminousPointer<()>)>|
            #[trigger] modules_from_entries(e, modules@);
        let read = GameModules { pending, modules };
        assert(modules_from_entries(pending_entries, read.pending@));
        assert(modules_from_entries(modules_entries, read.modules@));
        let r = Ok(read);
        assert(r matches Ok(g) ==> modules_from_entries(pending_entries, g.pending@));
        r
    }
}

} // verus!
