//! What the game detected of the system it runs on: wine, the SteamDeck and
//! the dxvk version, read from where Forspoken keeps them.

use vstd::prelude::*;

use crate::engine::native::pointer::{spec_pointer_valid, LuminousCString, LuminousPointer};
use crate::engine::native::layout::le_u64;
use crate::engine::native::string::{known_cstring, lemma_known_cstring_same, spec_utf8_lossy};
use crate::memory::{game_type, same_source, spec_determine_game_type, spec_reader_name, LuminousGame, MemoryReader};

verus! {

/// Offset from Forspoken's module base of the byte that is nonzero under
/// wine.
pub const FORSPOKEN_WINE_FLAG_OFFSET: u64 = 0x77c5630u64;

/// Offset from Forspoken's module base of the byte that is nonzero on the
/// SteamDeck.
pub const FORSPOKEN_DECK_FLAG_OFFSET: u64 = 0x77c5609u64;

/// Offset from Forspoken's module base of the pointer to the dxvk version
/// string.
pub const FORSPOKEN_DXVK_VERSION_OFFSET: u64 = 0x9bef0f0u64;

/// What the game detected of its system.
pub struct DetectedEnvironment {
    /// The game runs under wine.
    pub is_wine: bool,
    /// The game runs on a SteamDeck.
    pub is_deck: bool,
    /// The dxvk version the game saw, when it saw one.
    pub dxvk_version: Option<String>,
}

/// Whether `v` is what a detection byte at `address` reads as where the
/// reader knows it: whether the byte is nonzero.
pub open spec fn known_flag<R: MemoryReader>(reader: R, address: u64, v: bool) -> bool {
    spec_pointer_valid(address) ==> (reader.spec_memory(address, 1) matches Some(b) ==> v == (b[0] != 0))
}

/// Whether `v` is the dxvk version read through the pointer at `slot`
/// where the reader knows it: none for an invalid slot or an invalid
/// pointer in it; else the lossy UTF-8 text of the known bytes of the C
/// string it points to, none when that text is empty.
pub open spec fn known_dxvk_version<R: MemoryReader>(reader: R, slot: u64, v: Option<String>) -> bool {
    &&& !spec_pointer_valid(slot) ==> v is None
    &&& spec_pointer_valid(slot) ==> (reader.spec_memory(slot, 8) matches Some(b) ==> {
        let p = le_u64(b, 0);
        &&& !spec_pointer_valid(p) ==> v is None
        &&& spec_pointer_valid(p) ==> forall|steps: nat|
            #[trigger] known_cstring(reader, p, steps) matches Some(bs) ==> (if spec_utf8_lossy(bs).len() > 0 {
                v matches Some(s) && s@ == spec_utf8_lossy(bs)
            } else {
                v is None
            })
    })
}

/// Reads a detection byte: whether the byte at `address` is nonzero; false
/// when it cannot be read.
fn read_flag<R: MemoryReader>(reader: &mut R, address: u64) -> (r: bool)
    ensures
        same_source(*old(reader), *final(reader)),
        !spec_pointer_valid(address) ==> !r,
        known_flag(*old(reader), address, r),
{
    let pointer: LuminousPointer<u8> = LuminousPointer::new(address);
    match pointer.read(reader) {
        Ok(v) => v != 0,
        Err(_) => false,
    }
}

impl DetectedEnvironment {
    /// Reads what the game detected. Only Forspoken keeps it where it is
    /// read: another game is detected as neither wine nor SteamDeck, without
    /// a dxvk version. A value that cannot be read counts as not detected,
    /// and an empty dxvk version as none.
    pub fn read<R: MemoryReader>(reader: &mut R) -> (r: Self)
        ensures
            same_source(*old(reader), *final(reader)),
            spec_determine_game_type(spec_reader_name(old(reader))) == LuminousGame::FORSPOKEN ==> {
                let base = old(reader).spec_base_address();
                &&& known_flag(*old(reader), (base + FORSPOKEN_WINE_FLAG_OFFSET) as u64, r.is_wine)
                &&& known_flag(*old(reader), (base + FORSPOKEN_DECK_FLAG_OFFSET) as u64, r.is_deck)
                &&& known_dxvk_version(
                    *old(reader),
                    (base + FORSPOKEN_DXVK_VERSION_OFFSET) as u64,
                    r.dxvk_version,
                )
            },
            spec_determine_game_type(spec_reader_name(old(reader))) != LuminousGame::FORSPOKEN ==> {
                &&& !r.is_wine
                &&& !r.is_deck
                &&& r.dxvk_version is None
            },
            !spec_pointer_valid((old(reader).spec_base_address() + FORSPOKEN_WINE_FLAG_OFFSET) as u64)
                ==> !r.is_wine,
            !spec_pointer_valid((old(reader).spec_base_address() + FORSPOKEN_DECK_FLAG_OFFSET) as u64)
                ==> !r.is_deck,
            r.dxvk_version matches Some(v) ==> v@.len() > 0 && exists|b: Seq<u8>|
                (forall|i: int| 0 <= i < b.len() ==> b[i] != 0) && v@ == spec_utf8_lossy(b),
    {
        let game = game_type(reader);
        let base = reader.get_base_address();
        if game != LuminousGame::FORSPOKEN {
            return DetectedEnvironment { is_wine: false, is_deck: false, dxvk_version: None };
        }
        let is_wine = read_flag(reader, base.inner + FORSPOKEN_WINE_FLAG_OFFSET);
        let is_deck = read_flag(reader, base.inner + FORSPOKEN_DECK_FLAG_OFFSET);
        let version_pointer: LuminousPointer<u64> = LuminousPointer::new(
            base.inner + FORSPOKEN_DXVK_VERSION_OFFSET,
        );
        let ghost first = *old(reader);
        let version_address = match version_pointer.read(reader) {
            Ok(a) => a,
            Err(_) => 0,
        };
        let ghost before_string = *reader;
        proof {
            assert forall|steps: nat| #[trigger] known_cstring(first, version_address, steps) == known_cstring(
                before_string,
                version_address,
                steps,
            ) by {
                lemma_known_cstring_same(first, before_string, version_address, steps);
            }
        }
        let dxvk = LuminousCString::new(LuminousPointer::new(version_address));
        let dxvk_version = match dxvk.read(reader) {
            Some(s) => if !s.as_str().is_empty() {
                Some(s)
            } else {
                None
            },
            None => None,
        };
        DetectedEnvironment { is_wine, is_deck, dxvk_version }
    }
}

} // verus!
