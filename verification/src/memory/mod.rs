//! Access to the memory of a game process, and what is told from its name.

pub mod dump;
pub mod neptuwunium_dump;
pub mod proc_maps;
pub mod windows_local_mem;
pub mod windows_minidump;

use vstd::prelude::*;

use crate::engine::native::layout::{is_decoded, NativeLayout};
use crate::engine::native::pointer::LuminousPointer;
use crate::memory::neptuwunium_dump::Np93DumpReader;
use crate::memory::windows_minidump::Win32DumpReader;
use crate::text::{
    chars_equal, chars_of, spec_starts_with, spec_to_lowercase, starts_with, sub_chars, to_lowercase,
};

verus! {

/// Why reading game memory failed.
#[derive(Debug, Clone, Copy, PartialEq, Eq, Structural)]
pub enum MemoryError {
    /// The address is outside the valid address space.
    InvalidPointer,
    /// The reader could not read the requested bytes.
    ReadFailed,
    /// A structure read from memory is not well formed.
    Malformed,
    /// The game does not have the structure asked for.
    UnsupportedGame,
}

/// A source of game memory: a live process, or a dump of one.
///
/// The model functions name what the reader reports: the base address that
/// `get_base_address` returns and the process name that `get_process_name`
/// returns (an implementation outside the verified code gives exactly those
/// values), and the bytes that reads give where they are known: a dump's
/// bytes are, a running process's are not, as they change.
pub trait MemoryReader {
    /// The base address of the process's main module.
    spec fn spec_base_address(&self) -> u64;

    /// The name of the process, when known.
    spec fn spec_process_name(&self) -> Option<String>;

    /// The bytes that a read of `len` bytes at `address` gives, for a reader
    /// whose memory does not change (a dump); none where they are not known,
    /// as for a running process.
    open spec fn spec_memory(&self, address: u64, len: nat) -> Option<Seq<u8>> {
        None
    }

    /// Reads `buf.len()` bytes at `address` into `buf`: where the bytes there
    /// are known, the read succeeds and gives them. The base address, the
    /// process name and the known bytes stay as they were.
    fn read(&mut self, address: LuminousPointer<()>, buf: &mut [u8]) -> (r: Result<(), MemoryError>)
        ensures
            final(buf)@.len() == old(buf)@.len(),
            final(self).spec_base_address() == old(self).spec_base_address(),
            final(self).spec_process_name() == old(self).spec_process_name(),
            forall|a: u64, n: nat| #[trigger] final(self).spec_memory(a, n) == old(self).spec_memory(a, n),
            old(self).spec_memory(address.inner, old(buf)@.len()) matches Some(b) ==> r is Ok && final(buf)@
                == b,
    ;

    /// The base address of the process's main module, which lies in the
    /// lower half of the address space: every structure the tools read lies
    /// at the base plus an offset, and no address in the upper half passes
    /// the pointer validity test (`spec_pointer_valid`), so a process based
    /// there has nothing that could be read; readers of dumps refuse such a
    /// dump when they open it.
    fn get_base_address(&self) -> (r: LuminousPointer<()>)
        ensures
            r.inner == self.spec_base_address(),
            r.inner <= i64::MAX,
    ;

    /// The name of the process whose memory is read.
    fn get_process_name(&self) -> (r: Option<String>)
        ensures
            match r {
                Some(s) => self.spec_process_name() matches Some(n) && n@ == s@,
                None => self.spec_process_name() is None,
            },
    ;
}

} // verus!

verus! {

/// The games that the tools know.
#[derive(Debug, Clone, Copy, PartialEq, Eq, Structural)]
pub enum LuminousGame {
    FORSPOKEN,
    FinalFantasyXV,
    LuminousEngine,
}

/// The name that `determine_game_type` looks up: the lowercased name with a
/// `scarlet-` prefix removed, or the name as given when the lowercased name
/// has no such prefix.
pub open spec fn spec_game_key(name: Seq<char>) -> Seq<char> {
    let lower = spec_to_lowercase(name);
    if spec_starts_with(lower, "scarlet-"@) {
        lower.skip("scarlet-"@.len() as int)
    } else {
        name
    }
}

/// The game that a process name designates.
pub open spec fn spec_determine_game_type(name: Seq<char>) -> LuminousGame {
    let key = spec_game_key(name);
    if key == "forspoken.exe"@ {
        LuminousGame::FORSPOKEN
    } else if key == "ffxv_s.exe"@ {
        LuminousGame::FinalFantasyXV
    } else {
        LuminousGame::LuminousEngine
    }
}

/// Determines which game runs from its process name.
pub fn determine_game_type(name: &str) -> (r: LuminousGame)
    ensures
        r == spec_determine_game_type(name@),
{
    let lower = to_lowercase(name);
    let lower_chars = chars_of(lower.as_str());
    let prefix = chars_of("scarlet-");
    let key = if starts_with(lower_chars.as_slice(), prefix.as_slice()) {
        sub_chars(lower_chars.as_slice(), prefix.len(), lower_chars.len())
    } else {
        chars_of(name)
    };
    assert(spec_starts_with(lower_chars@, prefix@) ==> key@ =~= lower_chars@.skip(
        prefix@.len() as int,
    ));
    let forspoken = chars_of("forspoken.exe");
    let ffxv = chars_of("ffxv_s.exe");
    if chars_equal(key.as_slice(), forspoken.as_slice()) {
        LuminousGame::FORSPOKEN
    } else if chars_equal(key.as_slice(), ffxv.as_slice()) {
        LuminousGame::FinalFantasyXV
    } else {
        LuminousGame::LuminousEngine
    }
}

/// Whether two states of a reader read the same process: same base address,
/// same process name and the same known bytes.
pub open spec fn same_source<R: MemoryReader>(a: R, b: R) -> bool {
    &&& a.spec_base_address() == b.spec_base_address()
    &&& a.spec_process_name() == b.spec_process_name()
    &&& forall|x: u64, n: nat| #[trigger] b.spec_memory(x, n) == a.spec_memory(x, n)
}

/// The name by which a reader's game is told: its process name, or the
/// empty name when it is unknown.
pub open spec fn spec_reader_name<R: MemoryReader>(reader: &R) -> Seq<char> {
    match reader.spec_process_name() {
        Some(n) => n@,
        None => Seq::empty(),
    }
}

/// Determines which game a reader reads from its process name.
pub fn game_type<R: MemoryReader>(reader: &R) -> (r: LuminousGame)
    ensures
        r == spec_determine_game_type(spec_reader_name(reader)),
{
    let name = match reader.get_process_name() {
        Some(n) => n,
        None => String::new(),
    };
    determine_game_type(name.as_str())
}

/// The sources of game memory: the running game itself (`Process`), an NP93
/// dump, a minidump, another process on Linux or on Windows.
pub enum MemoryReaderType<P, L, W> {
    Process(P),
    Neptuwunium(Np93DumpReader),
    Minidump(Win32DumpReader),
    Linux(L),
    Windows(W),
}

impl<P: MemoryReader, L: MemoryReader, W: MemoryReader> MemoryReaderType<P, L, W> {
    /// Determines which game is read, from the process name.
    pub fn game_type(&self) -> (r: LuminousGame)
        ensures
            r == spec_determine_game_type(spec_reader_name(self)),
    {
        game_type(self)
    }

    /// Reads the `T` at `address`, without checking the address first: fails
    /// with the reader's error when the reader fails, and otherwise gives the
    /// value that the bytes read decode to; where the reader knows the bytes
    /// there, it succeeds with the value they decode to.
    pub fn read_type<T: NativeLayout>(&mut self, address: LuminousPointer<T>) -> (r: Result<T, MemoryError>)
        ensures
            same_source(*old(self), *final(self)),
            r matches Ok(v) ==> is_decoded::<T>(v),
            old(self).spec_memory(address.inner, T::layout_size()) matches Some(b) ==> r == Ok::<
                T,
                MemoryError,
            >(T::from_layout(b)),
    {
        let mut buf: Vec<u8> = vec![0u8; T::size()];
        match self.read(address.cast(), buf.as_mut_slice()) {
            Ok(()) => {},
            Err(e) => {
                return Err(e);
            },
        }
        Ok(T::decode(buf.as_slice()))
    }

    /// Whether the reader shares the address space of the process it reads:
    /// true exactly for the reader of the tool's own process.
    pub fn is_same_address_space(&self) -> (r: bool)
        ensures
            r == (self is Process),
    {
        match self {
            MemoryReaderType::Process(_) => true,
            _ => false,
        }
    }
}

impl<P: MemoryReader, L: MemoryReader, W: MemoryReader> MemoryReader for MemoryReaderType<P, L, W> {
    open spec fn spec_base_address(&self) -> u64 {
        match self {
            MemoryReaderType::Process(r) => r.spec_base_address(),
            MemoryReaderType::Neptuwunium(r) => r.spec_base_address(),
            MemoryReaderType::Minidump(r) => r.spec_base_address(),
            MemoryReaderType::Linux(r) => r.spec_base_address(),
            MemoryReaderType::Windows(r) => r.spec_base_address(),
        }
    }

    open spec fn spec_process_name(&self) -> Option<String> {
        match self {
            MemoryReaderType::Process(r) => r.spec_process_name(),
            MemoryReaderType::Neptuwunium(r) => r.spec_process_name(),
            MemoryReaderType::Minidump(r) => r.spec_process_name(),
            MemoryReaderType::Linux(r) => r.spec_process_name(),
            MemoryReaderType::Windows(r) => r.spec_process_name(),
        }
    }

    open spec fn spec_memory(&self, address: u64, len: nat) -> Option<Seq<u8>> {
        match self {
            MemoryReaderType::Process(r) => r.spec_memory(address, len),
            MemoryReaderType::Neptuwunium(r) => r.spec_memory(address, len),
            MemoryReaderType::Minidump(r) => r.spec_memory(address, len),
            MemoryReaderType::Linux(r) => r.spec_memory(address, len),
            MemoryReaderType::Windows(r) => r.spec_memory(address, len),
        }
    }

    /// Reads through the reader held.
    fn read(&mut self, address: LuminousPointer<()>, buf: &mut [u8]) -> (r: Result<(), MemoryError>) {
        match self {
            MemoryReaderType::Process(r) => r.read(address, buf),
            MemoryReaderType::Neptuwunium(r) => r.read(address, buf),
            MemoryReaderType::Minidump(r) => r.read(address, buf),
            MemoryReaderType::Linux(r) => r.read(address, buf),
            MemoryReaderType::Windows(r) => r.read(address, buf),
        }
    }

    /// The base address that the reader held finds.
    fn get_base_address(&self) -> (r: LuminousPointer<()>) {
        match self {
            MemoryReaderType::Process(r) => r.get_base_address(),
            MemoryReaderType::Neptuwunium(r) => r.get_base_address(),
            MemoryReaderType::Minidump(r) => r.get_base_address(),
            MemoryReaderType::Linux(r) => r.get_base_address(),
            MemoryReaderType::Windows(r) => r.get_base_address(),
        }
    }

    /// The process name that the reader held finds.
    fn get_process_name(&self) -> (r: Option<String>) {
        match self {
            MemoryReaderType::Process(r) => r.get_process_name(),
            MemoryReaderType::Neptuwunium(r) => r.get_process_name(),
            MemoryReaderType::Minidump(r) => r.get_process_name(),
            MemoryReaderType::Linux(r) => r.get_process_name(),
            MemoryReaderType::Windows(r) => r.get_process_name(),
        }
    }
}

/// Where a cursor seeks from: an absolute position, the end (which a memory
/// cursor does not have), or the current position.
#[derive(Debug, Clone, Copy, PartialEq, Eq, Structural)]
pub enum SeekOrigin {
    Start(u64),
    End(i64),
    Current(i64),
}

/// A read position over a memory reader.
pub struct MemoryCursor<R> {
    pub pos: usize,
    pub inner: R,
}

impl<R: MemoryReader> MemoryCursor<R> {
    /// A cursor over `reader`, placed at its base address.
    pub fn new(reader: R) -> (r: Self)
        ensures
            r.inner == reader,
            r.pos == reader.spec_base_address() as usize,
    {
        let base = reader.get_base_address();
        MemoryCursor { pos: base.inner as usize, inner: reader }
    }

    /// The current position.
    pub fn position(&self) -> (r: usize)
        ensures
            r == self.pos,
    {
        self.pos
    }

    /// Moves to an absolute position.
    pub fn seek_start(&mut self, pos: u64) -> (r: u64)
        requires
            pos <= usize::MAX,
        ensures
            final(self).pos == pos,
            final(self).inner == old(self).inner,
            r == pos,
    {
        self.pos = pos as usize;
        self.pos as u64
    }

    /// Moves by `delta` bytes from the current position.
    pub fn seek_current(&mut self, delta: i64) -> (r: u64)
        requires
            0 <= old(self).pos + delta <= usize::MAX,
        ensures
            final(self).pos == old(self).pos + delta,
            final(self).inner == old(self).inner,
            r == final(self).pos,
    {
        if delta >= 0 {
            self.pos = self.pos + delta as usize;
        } else {
            self.pos = self.pos - (0 - (delta as i128)) as usize;
        }
        self.pos as u64
    }

    /// Moves as `pos` says and gives the new position; none for a seek from
    /// the end, which leaves the position as it was.
    pub fn seek(&mut self, pos: SeekOrigin) -> (r: Option<u64>)
        requires
            pos matches SeekOrigin::Start(p) ==> p <= usize::MAX,
            pos matches SeekOrigin::Current(d) ==> 0 <= old(self).pos + d <= usize::MAX,
        ensures
            final(self).inner == old(self).inner,
            match pos {
                SeekOrigin::Start(p) => final(self).pos == p && r == Some(p),
                SeekOrigin::Current(d) => final(self).pos == old(self).pos + d && r == Some(
                    final(self).pos as u64,
                ),
                SeekOrigin::End(_) => final(self).pos == old(self).pos && r is None,
            },
    {
        match pos {
            SeekOrigin::Start(p) => Some(self.seek_start(p)),
            SeekOrigin::End(_) => None,
            SeekOrigin::Current(d) => Some(self.seek_current(d)),
        }
    }

    /// Reads `buf.len()` bytes at the position; the position advances by that
    /// many bytes whether or not the read succeeds. Where the bytes there are
    /// known, the read succeeds and gives them.
    pub fn read(&mut self, buf: &mut [u8]) -> (r: Result<usize, MemoryError>)
        requires
            old(self).pos + old(buf)@.len() <= usize::MAX,
        ensures
            final(self).pos == old(self).pos + old(buf)@.len(),
            final(buf)@.len() == old(buf)@.len(),
            same_source(old(self).inner, final(self).inner),
            r matches Ok(n) ==> n == old(buf)@.len(),
            old(self).inner.spec_memory(old(self).pos as u64, old(buf)@.len()) matches Some(b) ==> r
                == Ok::<usize, MemoryError>(old(buf)@.len() as usize) && final(buf)@ == b,
    {
        let pos: LuminousPointer<()> = LuminousPointer::new(self.pos as u64);
        self.pos = self.pos + buf.len();
        match self.inner.read(pos, buf) {
            Ok(()) => Ok(buf.len()),
            Err(e) => Err(e),
        }
    }
}

} // verus!
