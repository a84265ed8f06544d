//! Windows minidumps: the full-memory region list and the loaded modules,
//! which the minidump crate finds in the dump, and reads of the dumped
//! memory.

use vstd::prelude::*;

use crate::engine::native::layout::{le_u64, read_u64};
use crate::engine::native::pointer::LuminousPointer;
use crate::memory::dump::{plan_prefix, read_from_virtual, reads_done, virtual_bytes, virtual_read_ok, DumpMemory};
use crate::memory::{MemoryError, MemoryReader};
use crate::text::{chars_equal, chars_of, ends_with, opt_view, spec_ends_with, string_from_chars};

verus! {

/// A module loaded in the dumped process.
#[derive(Debug, Clone)]
pub struct DumpModule {
    /// The module's file name, as recorded (usually a full path).
    pub name: String,
    pub base_address: u64,
}

/// The number of regions of a full-memory region list.
pub open spec fn memory64_count(stream: Seq<u8>) -> u64 {
    le_u64(stream, 0)
}

/// Where the first region's bytes lie in the dump.
pub open spec fn memory64_base(stream: Seq<u8>) -> u64 {
    le_u64(stream, 8)
}

/// The address of region `i`.
pub open spec fn memory64_rva(stream: Seq<u8>, i: int) -> u64 {
    le_u64(stream, 16 + 16 * i)
}

/// The length of region `i`.
pub open spec fn memory64_length(stream: Seq<u8>, i: int) -> u64 {
    le_u64(stream, 16 + 16 * i + 8)
}

/// Where region `i`'s bytes lie in the dump: the regions are stored one
/// after the other from the list's base offset.
pub open spec fn memory64_offset(stream: Seq<u8>, i: int) -> int
    decreases i,
{
    if i <= 0 {
        memory64_base(stream) as int
    } else {
        memory64_offset(stream, i - 1) + memory64_length(stream, i - 1)
    }
}

/// Whether a full-memory region list can be read: its header and all its
/// entries lie inside it, and the regions' dump offsets, up to the end of
/// the last region, fit in 64 bits.
pub open spec fn memory64_ok(stream: Seq<u8>) -> bool {
    &&& stream.len() >= 16
    &&& 16 + 16 * memory64_count(stream) <= stream.len()
    &&& memory64_offset(stream, memory64_count(stream) as int) <= u64::MAX
}

/// The regions of a full-memory region list.
pub open spec fn memory64_regions(stream: Seq<u8>) -> Seq<DumpMemory> {
    Seq::new(
        memory64_count(stream) as nat,
        |i: int|
            DumpMemory {
                offset: memory64_offset(stream, i) as u64,
                length: memory64_length(stream, i),
                rva: memory64_rva(stream, i),
            },
    )
}

proof fn lemma_memory64_offset_monotone(stream: Seq<u8>, i: int, j: int)
    requires
        0 <= i <= j,
    ensures
        memory64_offset(stream, i) <= memory64_offset(stream, j),
    decreases j - i,
{
    if i < j {
        lemma_memory64_offset_monotone(stream, i, j - 1);
    }
}

/// Reads the regions of a full-memory region list (`Memory64ListStream`):
/// a 16-byte header (region count, dump offset of the first region) and a
/// 16-byte entry per region (address, length). Fails as malformed when the
/// list is not `memory64_ok`.
pub fn parse_memory64_list(stream: &[u8]) -> (r: Result<Vec<DumpMemory>, MemoryError>)
    ensures
        r is Ok <==> memory64_ok(stream@),
        r is Err ==> r == Err::<Vec<DumpMemory>, MemoryError>(MemoryError::Malformed),
        r matches Ok(v) ==> v@ == memory64_regions(stream@),
{
    if stream.len() < 16 {
        return Err(MemoryError::Malformed);
    }
    let count = read_u64(stream, 0);
    if count > ((stream.len() - 16) / 16) as u64 {
        return Err(MemoryError::Malformed);
    }
    let n: usize = stream.len();
    let entries: usize = count as usize;
    let mut offset: u64 = read_u64(stream, 8);
    let mut regions: Vec<DumpMemory> = Vec::new();
    let mut i: usize = 0;
    while i < entries
        invariant
            i <= entries,
            n == stream@.len(),
            entries == count,
            count == memory64_count(stream@),
            16 + 16 * count <= stream@.len(),
            offset == memory64_offset(stream@, i as int),
            regions@ =~= memory64_regions(stream@).take(i as int),
        decreases entries - i,
    {
        let at: usize = 16 + i * 16;
        let rva = read_u64(stream, at);
        let length = read_u64(stream, at + 8);
        regions.push(DumpMemory { offset, length, rva });
        assert(memory64_offset(stream@, i + 1) == memory64_offset(stream@, i as int)
            + memory64_length(stream@, i as int));
        if offset > u64::MAX - length {
            proof {
                lemma_memory64_offset_monotone(stream@, i + 1, count as int);
            }
            return Err(MemoryError::Malformed);
        }
        offset = offset + length;
        i += 1;
    }
    Ok(regions)
}

/// Whether `c` separates the parts of a path.
pub open spec fn is_path_separator(c: char) -> bool {
    c == '\\' || c == '/'
}

/// The last part of a path: what follows its last `\` or `/`, or the whole
/// path when it has neither.
pub open spec fn last_path_component(s: Seq<char>) -> Seq<char>
    decreases s.len(),
{
    if s.len() == 0 {
        s
    } else if is_path_separator(s.last()) {
        Seq::empty()
    } else {
        last_path_component(s.drop_last()).push(s.last())
    }
}

/// The last part of a path; see `last_path_component`.
pub fn path_file_name(path: &str) -> (r: String)
    ensures
        r@ == last_path_component(path@),
{
    let chars = chars_of(path);
    let mut start: usize = chars.len();
    proof {
        assert(chars@.take(start as int) =~= chars@);
        assert(last_path_component(chars@) + chars@.skip(start as int) =~= last_path_component(chars@));
    }
    while start > 0 && chars[start - 1] != '\\' && chars[start - 1] != '/'
        invariant
            start <= chars@.len(),
            last_path_component(chars@) == last_path_component(chars@.take(start as int))
                + chars@.skip(start as int),
        decreases start,
    {
        proof {
            let t = chars@.take(start as int);
            assert(t.drop_last() =~= chars@.take(start - 1));
            assert(t.last() == chars@[start - 1]);
            assert(chars@.skip(start - 1) =~= seq![chars@[start - 1]] + chars@.skip(start as int));
            assert(last_path_component(chars@.take(start - 1)).push(chars@[start - 1])
                + chars@.skip(start as int) =~= last_path_component(chars@.take(start - 1))
                + chars@.skip(start - 1));
        }
        start -= 1;
    }
    proof {
        assert(last_path_component(chars@.take(start as int)) =~= Seq::<char>::empty()) by {
            if start > 0 {
                assert(chars@.take(start as int).last() == chars@[start - 1]);
            }
        }
        assert(chars@.take(chars@.len() as int) =~= chars@);
    }
    let mut tail: Vec<char> = Vec::new();
    let mut k: usize = start;
    while k < chars.len()
        invariant
            start <= k <= chars@.len(),
            tail@ =~= chars@.subrange(start as int, k as int),
        decreases chars@.len() - k,
    {
        tail.push(chars[k]);
        k += 1;
    }
    assert(tail@ =~= chars@.skip(start as int));
    string_from_chars(tail.as_slice())
}

/// The modules as the minidump records them: each module's name and base
/// address.
pub open spec fn module_entries(modules: Seq<DumpModule>) -> Seq<(Seq<char>, u64)> {
    modules.map_values(|m: DumpModule| (m.name@, m.base_address))
}

/// The names of recorded modules.
pub open spec fn entry_names(entries: Seq<(Seq<char>, u64)>) -> Seq<Seq<char>> {
    entries.map_values(|e: (Seq<char>, u64)| e.0)
}

/// The file names of recorded modules: the last part of each name.
pub open spec fn entry_file_names(entries: Seq<(Seq<char>, u64)>) -> Seq<Seq<char>> {
    entries.map_values(|e: (Seq<char>, u64)| last_path_component(e.0))
}

/// The names of the modules.
pub open spec fn module_names(modules: Seq<DumpModule>) -> Seq<Seq<char>> {
    entry_names(module_entries(modules))
}

/// The file names of the modules: the last part of each module's path.
pub open spec fn module_file_names(modules: Seq<DumpModule>) -> Seq<Seq<char>> {
    entry_file_names(module_entries(modules))
}

/// The index of the first module whose name ends with `.exe`, or the number
/// of modules.
pub open spec fn first_exe_module(names: Seq<Seq<char>>) -> int
    decreases names.len(),
{
    if names.len() == 0 {
        0
    } else if spec_ends_with(names[0], ".exe"@) {
        0
    } else {
        1 + first_exe_module(names.drop_first())
    }
}

/// The index of the first module named exactly `name`, or the number of
/// modules.
pub open spec fn first_module_named(names: Seq<Seq<char>>, name: Seq<char>) -> int
    decreases names.len(),
{
    if names.len() == 0 {
        0
    } else if names[0] == name {
        0
    } else {
        1 + first_module_named(names.drop_first(), name)
    }
}

proof fn lemma_first_exe_module(names: Seq<Seq<char>>)
    ensures
        0 <= first_exe_module(names) <= names.len(),
        forall|j: int| 0 <= j < first_exe_module(names) ==> !spec_ends_with(#[trigger] names[j], ".exe"@),
        first_exe_module(names) < names.len() ==> spec_ends_with(names[first_exe_module(names)], ".exe"@),
    decreases names.len(),
{
    if names.len() > 0 && !spec_ends_with(names[0], ".exe"@) {
        lemma_first_exe_module(names.drop_first());
        assert forall|j: int| 0 <= j < first_exe_module(names) implies !spec_ends_with(
            #[trigger] names[j],
            ".exe"@,
        ) by {
            if j > 0 {
                assert(names[j] == names.drop_first()[j - 1]);
            }
        }
    }
}

proof fn lemma_first_module_named(names: Seq<Seq<char>>, name: Seq<char>)
    ensures
        0 <= first_module_named(names, name) <= names.len(),
        forall|j: int| 0 <= j < first_module_named(names, name) ==> #[trigger] names[j] != name,
        first_module_named(names, name) < names.len() ==> names[first_module_named(names, name)] == name,
    decreases names.len(),
{
    if names.len() > 0 && names[0] != name {
        lemma_first_module_named(names.drop_first(), name);
        assert forall|j: int| 0 <= j < first_module_named(names, name) implies #[trigger] names[j]
            != name by {
            if j > 0 {
                assert(names[j] == names.drop_first()[j - 1]);
            }
        }
    }
}

/// The process name of a dumped process: the file name of the first
/// recorded module whose name ends with `.exe`.
pub open spec fn entries_process_name(entries: Seq<(Seq<char>, u64)>) -> Option<Seq<char>> {
    let i = first_exe_module(entry_names(entries));
    if i < entries.len() {
        Some(last_path_component(entries[i].0))
    } else {
        None
    }
}

/// The base address of a dumped process: that of the main module, the first
/// recorded module whose file name is the process name; zero when there is
/// none or the process name is unknown.
pub open spec fn entries_base(entries: Seq<(Seq<char>, u64)>) -> u64 {
    match entries_process_name(entries) {
        None => 0,
        Some(name) => {
            let i = first_module_named(entry_file_names(entries), name);
            if i < entries.len() {
                entries[i].1
            } else {
                0
            }
        },
    }
}

/// The process name of a minidump; see `entries_process_name`.
pub open spec fn minidump_process_name(modules: Seq<DumpModule>) -> Option<Seq<char>> {
    entries_process_name(module_entries(modules))
}

/// The base address of a minidump's process; see `entries_base`.
pub open spec fn minidump_base(modules: Seq<DumpModule>) -> u64 {
    entries_base(module_entries(modules))
}

/// What the minidump crate finds as the full-memory region list
/// (`Memory64ListStream`) of the minidump `data`: `None` when the dump cannot
/// be read or has no such stream.
pub uninterp spec fn minidump_memory64_list(data: Seq<u8>) -> Option<Seq<u8>>;

/// What the minidump crate finds as the module list of the minidump `data`,
/// each module by name and base address: `None` when the dump cannot be read
/// or its module list cannot be parsed.
pub uninterp spec fn minidump_module_list(data: Seq<u8>) -> Option<Seq<(Seq<char>, u64)>>;

/// Parses the minidump `data` with the minidump crate (`Minidump::read`),
/// and takes from it the raw full-memory region list (`get_raw_stream` of
/// `Memory64ListStream`) and the module list (`get_stream` of
/// `MinidumpModuleList`, each module's `name` and `base_of_image`, in the
/// list's order). Claims only that the result is those two named values,
/// and `None` when either is missing.
#[verifier::external_body]
fn read_minidump_streams(data: &[u8]) -> (r: Option<(Vec<u8>, Vec<DumpModule>)>)
    ensures
        r is Some <==> (minidump_memory64_list(data@) is Some && minidump_module_list(data@) is Some),
        r matches Some((l, m)) ==> Some(l@) == minidump_memory64_list(data@) && Some(module_entries(m@))
            == minidump_module_list(data@),
{
    let dump = minidump::Minidump::read(data).ok()?;
    let stream = minidump::format::MINIDUMP_STREAM_TYPE::Memory64ListStream as u32;
    let memory_list = dump.get_raw_stream(stream).ok()?.to_vec();
    let module_list = dump.get_stream::<minidump::MinidumpModuleList>().ok()?;
    let modules = module_list.iter().map(
        |m| DumpModule { name: m.name.clone(), base_address: m.raw.base_of_image },
    ).collect();
    Some((memory_list, modules))
}

/// A reader of a minidump held in memory.
pub struct Win32DumpReader {
    data: Vec<u8>,
    memory: Vec<DumpMemory>,
    modules: Vec<DumpModule>,
    process_name: Option<String>,
}

/// The process name of a minidump; see `minidump_process_name`.
fn find_process_name(modules: &Vec<DumpModule>) -> (r: Option<String>)
    ensures
        match r {
            Some(s) => minidump_process_name(modules@) == Some(s@),
            None => minidump_process_name(modules@) is None,
        },
{
    let suffix = chars_of(".exe");
    let ghost names = module_names(modules@);
    proof {
        lemma_first_exe_module(names);
    }
    let mut i: usize = 0;
    while i < modules.len()
        invariant
            i <= modules@.len(),
            names == module_names(modules@),
            suffix@ == ".exe"@,
            forall|j: int| 0 <= j < i ==> !spec_ends_with(#[trigger] names[j], ".exe"@),
        decreases modules@.len() - i,
    {
        let entry = chars_of(modules[i].name.as_str());
        assert(names[i as int] == modules@[i as int].name@);
        if ends_with(entry.as_slice(), suffix.as_slice()) {
            proof {
                lemma_first_exe_module(names);
                let k = first_exe_module(names);
                if k < i {
                    assert(!spec_ends_with(names[k], ".exe"@));
                }
                if k > i {
                    assert(!spec_ends_with(names[i as int], ".exe"@));
                }
            }
            return Some(path_file_name(modules[i].name.as_str()));
        }
        i += 1;
    }
    proof {
        lemma_first_exe_module(names);
        let k = first_exe_module(names);
        if k < names.len() {
            assert(!spec_ends_with(names[k], ".exe"@));
        }
    }
    None
}

/// The base address of a minidump's process; see `minidump_base`.
fn find_base(modules: &Vec<DumpModule>) -> (r: u64)
    ensures
        r == minidump_base(modules@),
{
    let own = match find_process_name(modules) {
        Some(n) => n,
        None => {
            return 0;
        },
    };
    let own_chars = chars_of(own.as_str());
    let ghost names = module_file_names(modules@);
    proof {
        lemma_first_module_named(names, own@);
    }
    let mut i: usize = 0;
    while i < modules.len()
        invariant
            i <= modules@.len(),
            names == module_file_names(modules@),
            own_chars@ == own@,
            minidump_process_name(modules@) == Some(own@),
            forall|j: int| 0 <= j < i ==> #[trigger] names[j] != own@,
        decreases modules@.len() - i,
    {
        let file_name = path_file_name(modules[i].name.as_str());
        let entry = chars_of(file_name.as_str());
        assert(names[i as int] == last_path_component(modules@[i as int].name@));
        if chars_equal(entry.as_slice(), own_chars.as_slice()) {
            proof {
                lemma_first_module_named(names, own@);
                let k = first_module_named(names, own@);
                if k < i {
                    assert(names[k] != own@);
                }
                if k > i {
                    assert(names[i as int] != own@);
                }
            }
            return modules[i].base_address;
        }
        i += 1;
    }
    proof {
        lemma_first_module_named(names, own@);
        let k = first_module_named(names, own@);
        if k < names.len() {
            assert(names[k] != own@);
        }
    }
    0
}

impl Win32DumpReader {
    /// The dump's bytes.
    pub closed spec fn dump(&self) -> Seq<u8> {
        self.data@
    }

    /// The dumped regions.
    pub closed spec fn regions(&self) -> Seq<DumpMemory> {
        self.memory@
    }

    /// The dumped process's modules.
    pub closed spec fn module_list(&self) -> Seq<DumpModule> {
        self.modules@
    }

    /// The process name, found once from the modules.
    pub closed spec fn found_name(&self) -> Option<String> {
        self.process_name
    }

    /// The process name is the one the modules give, and the base address
    /// lies in the lower half of the address space.
    #[verifier::type_invariant]
    spec fn name_found_and_base_in_lower_half(&self) -> bool {
        &&& opt_view(self.found_name()) == minidump_process_name(self.module_list())
        &&& minidump_base(self.module_list()) <= i64::MAX
    }

    /// A reader of the minidump `data`, given the minidump's full-memory
    /// region list and its modules. Fails as malformed when the region list
    /// cannot be read (`memory64_ok`) and when the process's base address
    /// lies in the upper half of the address space.
    pub fn new(data: Vec<u8>, memory_list: &[u8], modules: Vec<DumpModule>) -> (r: Result<
        Win32DumpReader,
        MemoryError,
    >)
        ensures
            r is Ok <==> memory64_ok(memory_list@) && minidump_base(modules@) <= i64::MAX,
            r is Err ==> r == Err::<Win32DumpReader, MemoryError>(MemoryError::Malformed),
            r matches Ok(d) ==> {
                &&& d.dump() == data@
                &&& d.regions() == memory64_regions(memory_list@)
                &&& d.module_list() == modules@
                &&& opt_view(d.spec_process_name()) == minidump_process_name(modules@)
            },
    {
        let memory = match parse_memory64_list(memory_list) {
            Ok(m) => m,
            Err(e) => {
                return Err(e);
            },
        };
        if find_base(&modules) > i64::MAX as u64 {
            return Err(MemoryError::Malformed);
        }
        let process_name = find_process_name(&modules);
        Ok(Win32DumpReader { data, memory, modules, process_name })
    }

    /// A reader of the minidump `data`: the minidump crate finds the
    /// full-memory region list and the module list in it, and `new` reads
    /// them. Fails as malformed when either cannot be found, and wherever
    /// `new` fails on what was found.
    pub fn from_dump(data: Vec<u8>) -> (r: Result<Win32DumpReader, MemoryError>)
        ensures
            r is Ok <==> {
                &&& minidump_memory64_list(data@) is Some
                &&& memory64_ok(minidump_memory64_list(data@)->0)
                &&& minidump_module_list(data@) is Some
                &&& entries_base(minidump_module_list(data@)->0) <= i64::MAX
            },
            r is Err ==> r == Err::<Win32DumpReader, MemoryError>(MemoryError::Malformed),
            r matches Ok(d) ==> {
                &&& d.dump() == data@
                &&& d.regions() == memory64_regions(minidump_memory64_list(data@)->0)
                &&& module_entries(d.module_list()) == minidump_module_list(data@)->0
                &&& opt_view(d.spec_process_name()) == entries_process_name(
                    minidump_module_list(data@)->0,
                )
                &&& d.spec_base_address() == entries_base(minidump_module_list(data@)->0)
            },
    {
        match read_minidump_streams(data.as_slice()) {
            None => Err(MemoryError::Malformed),
            Some((memory_list, modules)) => Win32DumpReader::new(data, memory_list.as_slice(), modules),
        }
    }
}

impl MemoryReader for Win32DumpReader {
    open spec fn spec_base_address(&self) -> u64 {
        minidump_base(self.module_list())
    }

    open spec fn spec_process_name(&self) -> Option<String> {
        self.found_name()
    }

    /// The bytes of the dumped address space: known wherever a read of the
    /// dump succeeds (`virtual_read_ok`).
    open spec fn spec_memory(&self, address: u64, len: nat) -> Option<Seq<u8>> {
        if virtual_read_ok(self.dump(), self.regions(), address, len) {
            Some(virtual_bytes(self.dump(), self.regions(), address, len))
        } else {
            None
        }
    }

    /// Reads from the dumped regions; see `read_from_virtual`.
    fn read(&mut self, address: LuminousPointer<()>, buf: &mut [u8]) -> (r: Result<(), MemoryError>)
        ensures
            *final(self) == *old(self),
            r is Ok <==> virtual_read_ok(old(self).dump(), old(self).regions(), address.inner, old(buf)@.len()),
            r matches Ok(()) ==> plan_prefix(
                old(self).regions(),
                old(self).regions().len() as int,
                address.inner,
                old(buf)@.len(),
            ) matches Some((reads, _)) && reads_done(old(self).dump(), reads, final(buf)@),
    {
        read_from_virtual(self.data.as_slice(), self.memory.as_slice(), address.inner, buf)
    }

    fn get_base_address(&self) -> (r: LuminousPointer<()>) {
        proof {
            use_type_invariant(self);
        }
        LuminousPointer::new(find_base(&self.modules))
    }

    fn get_process_name(&self) -> (r: Option<String>)
        ensures
            r == self.spec_process_name(),
    {
        self.process_name.clone()
    }
}

} // verus!
