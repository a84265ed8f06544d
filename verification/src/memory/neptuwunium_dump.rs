//! NP93 process dumps: a header with the process's memory map, the dumped
//! bytes, and a table of the dumped regions before the footer.
//!
//! Layout (integers little-endian):
//! - `NP93DUMP`, the format version (8 bytes), the memory map text up to a
//!   NUL, and from version 2 on the process name up to a NUL;
//! - at 40 bytes before the end, the region table (24 bytes per region:
//!   dump offset, length, address), whose region count stands 16 bytes
//!   before the end;
//! - `DUMPFOOT` as the last 8 bytes.

use vstd::prelude::*;

use crate::engine::native::layout::{le_u64, read_bytes, read_u64};
use crate::engine::native::pointer::LuminousPointer;
use crate::engine::native::string::{spec_utf8_lossy, utf8_lossy};
use crate::memory::dump::{plan_prefix, read_from_virtual, reads_done, virtual_bytes, virtual_read_ok, DumpMemory};
use crate::memory::proc_maps::{
    first_mapping_with_suffix, get_process_base, lemma_first_mapping_bounds, mapping_names,
    mappings_from_lines, parse_mappings, spec_process_base, MemoryMapping,
};
use crate::memory::{MemoryError, MemoryReader};
use crate::text::{
    chars_of, ends_with, find_nul, nul_prefix, nul_prefix_len, opt_view, spec_ends_with, split_char_spec,
};

verus! {

/// The magic at the start of a dump.
pub open spec fn np93_magic() -> Seq<u8> {
    seq![0x4eu8, 0x50u8, 0x39u8, 0x33u8, 0x44u8, 0x55u8, 0x4du8, 0x50u8]
}

/// The magic at the end of a dump.
pub open spec fn np93_footer() -> Seq<u8> {
    seq![0x44u8, 0x55u8, 0x4du8, 0x50u8, 0x46u8, 0x4fu8, 0x4fu8, 0x54u8]
}

/// Size of the header's fixed part: magic and version.
pub const NP93_HEADER_SIZE: usize = 16;

/// Distance of the region table from the end of the dump.
pub const NP93_TABLE_FROM_END: usize = 40;

/// Size of one entry of the region table.
pub const NP93_ENTRY_SIZE: usize = 24;

/// The format version.
pub open spec fn np93_version(data: Seq<u8>) -> u64 {
    le_u64(data, 8)
}

/// The memory map text's bytes.
pub open spec fn np93_proc(data: Seq<u8>) -> Seq<u8> {
    nul_prefix(data.skip(16))
}

/// Where the process name starts: after the memory map text's NUL.
pub open spec fn np93_comm_start(data: Seq<u8>) -> int {
    16 + nul_prefix_len(data.skip(16)) as int + 1
}

/// The process name, for versions from 2 on.
pub open spec fn np93_comm(data: Seq<u8>) -> Option<Seq<char>> {
    if np93_version(data) >= 2 {
        Some(spec_utf8_lossy(nul_prefix(data.skip(np93_comm_start(data)))))
    } else {
        None
    }
}

/// The number of regions in the table.
pub open spec fn np93_count(data: Seq<u8>) -> u64 {
    le_u64(data, data.len() - 16)
}

/// Entry `i` of the region table.
pub open spec fn np93_entry(data: Seq<u8>, i: int) -> DumpMemory {
    let at = data.len() - 40 + 24 * i;
    DumpMemory { offset: le_u64(data, at), length: le_u64(data, at + 8), rva: le_u64(data, at + 16) }
}

/// The region table.
pub open spec fn np93_memory(data: Seq<u8>) -> Seq<DumpMemory> {
    Seq::new(np93_count(data) as nat, |i: int| np93_entry(data, i))
}

/// Whether `data` is a dump that can be read: both magics in place, the
/// memory map text (and from version 2 on the process name) NUL-terminated,
/// and the region table inside the dump.
pub open spec fn np93_well_formed(data: Seq<u8>) -> bool {
    &&& data.len() >= 40
    &&& data.subrange(data.len() - 8, data.len() as int) == np93_footer()
    &&& data.subrange(0, 8) == np93_magic()
    &&& nul_prefix_len(data.skip(16)) < data.len() - 16
    &&& np93_version(data) >= 2 ==> nul_prefix_len(data.skip(np93_comm_start(data))) < data.len()
        - np93_comm_start(data)
    &&& np93_count(data) * 24 <= 40
}

/// The name of the first mapping whose name ends with `.exe`.
pub open spec fn exe_mapping(maps: Seq<MemoryMapping>) -> Option<String> {
    let i = first_mapping_with_suffix(mapping_names(maps), ".exe"@);
    if i < maps.len() {
        Some(maps[i].name)
    } else {
        None
    }
}

/// The process name of a dump: the recorded one, or else the name of the
/// first mapped module whose name ends with `.exe`.
pub open spec fn np93_process_name(comm: Option<String>, maps: Seq<MemoryMapping>) -> Option<String> {
    match comm {
        Some(c) => Some(c),
        None => exe_mapping(maps),
    }
}

/// A reader of an NP93 dump held in memory.
pub struct Np93DumpReader {
    data: Vec<u8>,
    memory: Vec<DumpMemory>,
    proc: Vec<MemoryMapping>,
    comm: Option<String>,
}

/// Whether the bytes of `data` at `at` are `expected`.
fn bytes_at(data: &[u8], at: usize, expected: &[u8]) -> (r: bool)
    requires
        at + expected@.len() <= data@.len(),
    ensures
        r == (data@.subrange(at as int, at + expected@.len()) == expected@),
{
    let n: usize = data.len();
    let mut i: usize = 0;
    while i < expected.len()
        invariant
            i <= expected@.len(),
            n == data@.len(),
            at + expected@.len() <= data@.len(),
            forall|j: int| 0 <= j < i ==> data@[at + j] == expected@[j],
        decreases expected@.len() - i,
    {
        if data[at + i] != expected[i] {
            assert(data@.subrange(at as int, at + expected@.len())[i as int] != expected@[i as int]);
            return false;
        }
        i += 1;
    }
    assert(data@.subrange(at as int, at + expected@.len()) =~= expected@);
    true
}

/// The name of the first mapping whose name ends with `.exe`.
fn find_exe_mapping(proc: &Vec<MemoryMapping>) -> (r: Option<String>)
    ensures
        r == exe_mapping(proc@),
{
    let suffix = chars_of(".exe");
    let ghost names = mapping_names(proc@);
    proof {
        lemma_first_mapping_bounds(names, ".exe"@);
    }
    let mut i: usize = 0;
    while i < proc.len()
        invariant
            i <= proc@.len(),
            names == mapping_names(proc@),
            suffix@ == ".exe"@,
            forall|j: int| 0 <= j < i ==> !spec_ends_with(#[trigger] names[j], ".exe"@),
        decreases proc@.len() - i,
    {
        let entry = chars_of(proc[i].name.as_str());
        assert(names[i as int] == proc@[i as int].name@);
        if ends_with(entry.as_slice(), suffix.as_slice()) {
            proof {
                lemma_first_mapping_bounds(names, ".exe"@);
                let k = first_mapping_with_suffix(names, ".exe"@);
                if k < i {
                    assert(!spec_ends_with(names[k], ".exe"@));
                }
                if k > i {
                    assert(!spec_ends_with(names[i as int], ".exe"@));
                }
            }
            return Some(proc[i].name.clone());
        }
        i += 1;
    }
    proof {
        lemma_first_mapping_bounds(names, ".exe"@);
        let k = first_mapping_with_suffix(names, ".exe"@);
        if k < names.len() {
            assert(!spec_ends_with(names[k], ".exe"@));
        }
    }
    None
}

impl Np93DumpReader {
    /// The dump's bytes.
    pub closed spec fn dump(&self) -> Seq<u8> {
        self.data@
    }

    /// The dumped regions.
    pub closed spec fn regions(&self) -> Seq<DumpMemory> {
        self.memory@
    }

    /// The process's memory map.
    pub closed spec fn mappings(&self) -> Seq<MemoryMapping> {
        self.proc@
    }

    /// The recorded process name.
    pub closed spec fn recorded_name(&self) -> Option<String> {
        self.comm
    }

    /// The base address lies in the lower half of the address space.
    #[verifier::type_invariant]
    spec fn base_in_lower_half(&self) -> bool {
        spec_process_base(opt_view(np93_process_name(self.recorded_name(), self.mappings())), self.mappings())
            <= i64::MAX
    }

    /// Reads a dump held in memory: checks both magics, takes the memory map
    /// (its well-formed lines) and the process name from the header and the
    /// region table from before the footer. Fails as malformed when the
    /// dump is not well formed (`np93_well_formed`), and when the base
    /// address found in it lies in the upper half of the address space.
    pub fn new(data: Vec<u8>) -> (r: Result<Np93DumpReader, MemoryError>)
        ensures
            !np93_well_formed(data@) ==> r == Err::<Np93DumpReader, MemoryError>(
                MemoryError::Malformed,
            ),
            r is Err ==> r == Err::<Np93DumpReader, MemoryError>(MemoryError::Malformed),
            r matches Ok(d) ==> {
                &&& np93_well_formed(data@)
                &&& d.dump() == data@
                &&& d.regions() == np93_memory(data@)
                &&& opt_view(d.recorded_name()) == np93_comm(data@)
                &&& mappings_from_lines(
                    split_char_spec(spec_utf8_lossy(np93_proc(data@)), '\n'),
                    d.mappings(),
                )
            },
            np93_well_formed(data@) && r is Err ==> exists|maps: Seq<MemoryMapping>, comm: Option<String>|
                mappings_from_lines(split_char_spec(spec_utf8_lossy(np93_proc(data@)), '\n'), maps)
                    && opt_view(comm) == np93_comm(data@)
                    && spec_process_base(opt_view(np93_process_name(comm, maps)), maps) > i64::MAX,
    {
        let len = data.len();
        if len < NP93_TABLE_FROM_END {
            return Err(MemoryError::Malformed);
        }
        let footer: [u8; 8] = [0x44u8, 0x55u8, 0x4du8, 0x50u8, 0x46u8, 0x4fu8, 0x4fu8, 0x54u8];
        let magic: [u8; 8] = [0x4eu8, 0x50u8, 0x39u8, 0x33u8, 0x44u8, 0x55u8, 0x4du8, 0x50u8];
        assert(footer@ =~= np93_footer());
        assert(magic@ =~= np93_magic());
        if !bytes_at(data.as_slice(), len - 8, &footer) {
            return Err(MemoryError::Malformed);
        }
        if !bytes_at(data.as_slice(), 0, &magic) {
            return Err(MemoryError::Malformed);
        }
        let version = read_u64(data.as_slice(), 8);
        let proc_end = match find_nul(data.as_slice(), NP93_HEADER_SIZE) {
            Some(i) => i,
            None => {
                return Err(MemoryError::Malformed);
            },
        };
        let proc_bytes = read_bytes(data.as_slice(), NP93_HEADER_SIZE, proc_end - NP93_HEADER_SIZE);
        proof {
            crate::text::lemma_nul_prefix(data@.skip(16));
            assert(proc_bytes@ =~= np93_proc(data@));
        }
        let comm = if version >= 2 {
            let comm_start = proc_end + 1;
            let comm_end = match find_nul(data.as_slice(), comm_start) {
                Some(i) => i,
                None => {
                    return Err(MemoryError::Malformed);
                },
            };
            let comm_bytes = read_bytes(data.as_slice(), comm_start, comm_end - comm_start);
            proof {
                crate::text::lemma_nul_prefix(data@.skip(comm_start as int));
                assert(comm_bytes@ =~= nul_prefix(data@.skip(np93_comm_start(data@))));
            }
            Some(utf8_lossy(comm_bytes.as_slice()))
        } else {
            None
        };
        let count = read_u64(data.as_slice(), len - 16);
        if count > 1 {
            return Err(MemoryError::Malformed);
        }
        let table = len - NP93_TABLE_FROM_END;
        let mut memory: Vec<DumpMemory> = Vec::new();
        let mut i: u64 = 0;
        while i < count
            invariant
                i <= count <= 1,
                len == data@.len(),
                len >= 40,
                table == len - 40,
                count == np93_count(data@),
                memory@ =~= np93_memory(data@).take(i as int),
            decreases count - i,
        {
            let at = table + (i as usize) * NP93_ENTRY_SIZE;
            let entry = DumpMemory {
                offset: read_u64(data.as_slice(), at),
                length: read_u64(data.as_slice(), at + 8),
                rva: read_u64(data.as_slice(), at + 16),
            };
            memory.push(entry);
            i += 1;
        }
        let proc_text = utf8_lossy(proc_bytes.as_slice());
        let proc = parse_mappings(proc_text.as_str());
        let name = match &comm {
            Some(c) => Some(c.clone()),
            None => find_exe_mapping(&proc),
        };
        assert(name == np93_process_name(comm, proc@));
        let base = get_process_base(name, &proc);
        if base.inner > i64::MAX as u64 {
            assert(mappings_from_lines(split_char_spec(spec_utf8_lossy(np93_proc(data@)), '\n'), proc@)
                && opt_view(comm) == np93_comm(data@) && spec_process_base(
                opt_view(np93_process_name(comm, proc@)),
                proc@,
            ) > i64::MAX);
            return Err(MemoryError::Malformed);
        }
        Ok(Np93DumpReader { data, memory, proc, comm })
    }
}

impl MemoryReader for Np93DumpReader {
    open spec fn spec_base_address(&self) -> u64 {
        spec_process_base(opt_view(self.spec_process_name()), self.mappings())
    }

    open spec fn spec_process_name(&self) -> Option<String> {
        np93_process_name(self.recorded_name(), self.mappings())
    }

    /// The bytes of the dumped address space: known wherever a read of the
    /// dump succeeds (`virtual_read_ok`).
    open spec fn spec_memory(&self, address: u64, len: nat) -> Option<Seq<u8>> {
        if virtual_read_ok(self.dump(), self.regions(), address, len) {
            Some(virtual_bytes(self.dump(), self.regions(), address, len))
        } else {
            None
        }
    }

    /// Reads from the dumped regions; see `read_from_virtual`.
    fn read(&mut self, address: LuminousPointer<()>, buf: &mut [u8]) -> (r: Result<(), MemoryError>)
        ensures
            *final(self) == *old(self),
            r is Ok <==> virtual_read_ok(old(self).dump(), old(self).regions(), address.inner, old(buf)@.len()),
            r matches Ok(()) ==> plan_prefix(
                old(self).regions(),
                old(self).regions().len() as int,
                address.inner,
                old(buf)@.len(),
            ) matches Some((reads, _)) && reads_done(old(self).dump(), reads, final(buf)@),
    {
        read_from_virtual(self.data.as_slice(), self.memory.as_slice(), address.inner, buf)
    }

    fn get_base_address(&self) -> (r: LuminousPointer<()>) {
        proof {
            use_type_invariant(self);
        }
        get_process_base(self.get_process_name(), &self.proc)
    }

    fn get_process_name(&self) -> (r: Option<String>)
        ensures
            r == self.spec_process_name(),
    {
        match &self.comm {
            Some(c) => Some(c.clone()),
            None => find_exe_mapping(&self.proc),
        }
    }
}

} // verus!
