//! Asset identifiers: a 64-bit value whose low 44 bits hash the asset's path
//! stem and whose high 20 bits hash its type extension.

use vstd::prelude::*;
use vstd::utf8::encode_utf8;

use crate::hash::{fnv1a64, spec_fnv1a64};
use crate::text::{
    chars_of, find_char, hex_string, spec_hex_padded, first_index_of, spec_to_lowercase, string_from_chars, sub_chars,
    to_lowercase, trim_end_char, trim_end_matches_char,
};

verus! {

/// Bits of an asset id that hold the path hash.
pub const ASSET_ID_PATH_MASK: u64 = 0xfffffffffffu64;

/// Bits of an asset id that hold the type hash.
pub const ASSET_ID_TYPE_MASK: u64 = 0xfffff00000000000u64;

/// An engine asset identifier.
#[derive(Copy, Clone, Default, Eq, PartialEq, Structural, Hash, Debug)]
pub struct AssetId(pub u64);

/// The FNV-1a 64 hash of the UTF-8 encoding of `s`.
pub open spec fn hash_chars(s: Seq<char>) -> u64 {
    spec_fnv1a64(encode_utf8(s))
}

/// The id that `AssetId::from_pathlike` gives a path: zero for the empty path;
/// otherwise the lowercased stem before the first `.` hashed into the path
/// bits, and the extension after it, without trailing `@`, hashed into the
/// type bits; a path without `.` hashes whole, lowercased, into the path bits.
pub open spec fn spec_from_pathlike(p: Seq<char>) -> u64 {
    if p.len() == 0 {
        0
    } else if first_index_of(p, '.') < p.len() {
        let i = first_index_of(p, '.');
        (hash_chars(spec_to_lowercase(p.take(i))) & ASSET_ID_PATH_MASK) | (hash_chars(
            trim_end_char(p.skip(i + 1), '@'),
        ) << 44u64)
    } else {
        hash_chars(spec_to_lowercase(p)) & ASSET_ID_PATH_MASK
    }
}

impl AssetId {
    /// The path part of the id.
    pub fn path_hash(&self) -> (r: u64)
        ensures
            r == self.0 & ASSET_ID_PATH_MASK,
    {
        self.0 & ASSET_ID_PATH_MASK
    }

    /// The type part of the id, left in place in the high bits.
    pub fn type_hash(&self) -> (r: u64)
        ensures
            r == self.0 & ASSET_ID_TYPE_MASK,
    {
        self.0 & ASSET_ID_TYPE_MASK
    }

    /// Whether this is the null id.
    pub fn is_null(&self) -> (r: bool)
        ensures
            r == (self.0 == 0),
    {
        self.0 == 0
    }

    /// Builds the id of a path such as `data/model.gmdl@`.
    pub fn from_pathlike(path: &str) -> (r: AssetId)
        ensures
            r.0 == spec_from_pathlike(path@),
    {
        if path.is_empty() {
            return AssetId(0);
        }
        let chars = chars_of(path);
        let n = chars.len();
        let hash: u64;
        match find_char(chars.as_slice(), '.') {
            Some(i) => {
                let stem = sub_chars(chars.as_slice(), 0, i);
                assert(stem@ == path@.take(i as int));
                let stem_string = string_from_chars(stem.as_slice());
                let lower = to_lowercase(stem_string.as_str());
                let path_part = fnv1a64(lower.as_str().as_bytes()) & ASSET_ID_PATH_MASK;
                let ext = sub_chars(chars.as_slice(), i + 1, n);
                assert(ext@ == path@.skip(i + 1));
                let trimmed = trim_end_matches_char(ext.as_slice(), '@');
                let ext_string = string_from_chars(trimmed.as_slice());
                let type_part = fnv1a64(ext_string.as_str().as_bytes());
                hash = path_part | (type_part << 44u64);
            },
            None => {
                let lower = to_lowercase(path);
                hash = fnv1a64(lower.as_str().as_bytes()) & ASSET_ID_PATH_MASK;
            },
        }
        AssetId(hash)
    }

    /// How the id is shown: `null` for the null id, else the id in
    /// hexadecimal padded to 16 characters with the `0x`. (Ids are shown by
    /// their path where a table of known paths names them; the tools fill no
    /// such table, so every other id is shown in hexadecimal.)
    pub fn to_display_string(&self) -> (r: String)
        ensures
            r@ == (if self.0 == 0 {
                "null"@
            } else {
                spec_hex_padded(self.0 as nat, 16)
            }),
    {
        if self.is_null() {
            return String::from_str("null");
        }
        hex_string(self.0, 16)
    }
}

impl From<u64> for AssetId {
    fn from(value: u64) -> (r: AssetId) {
        AssetId(value)
    }
}

impl vstd::std_specs::convert::FromSpecImpl<u64> for AssetId {
    open spec fn obeys_from_spec() -> bool {
        true
    }

    open spec fn from_spec(v: u64) -> AssetId {
        AssetId(v)
    }
}

impl<'a> From<&'a str> for AssetId {
    fn from(value: &'a str) -> (r: AssetId) {
        AssetId(fnv1a64(value.as_bytes()))
    }
}

impl<'a> vstd::std_specs::convert::FromSpecImpl<&'a str> for AssetId {
    open spec fn obeys_from_spec() -> bool {
        true
    }

    open spec fn from_spec(v: &'a str) -> AssetId {
        AssetId(hash_chars(v@))
    }
}

/// The path and type parts of an id are disjoint and together give it back.
pub proof fn lemma_path_type_partition(id: AssetId)
    ensures
        (id.0 & ASSET_ID_PATH_MASK) | (id.0 & ASSET_ID_TYPE_MASK) == id.0,
        (id.0 & ASSET_ID_PATH_MASK) & (id.0 & ASSET_ID_TYPE_MASK) == 0,
{
    let x = id.0;
    assert((x & 0xfffffffffffu64) | (x & 0xfffff00000000000u64) == x) by (bit_vector);
    assert((x & 0xfffffffffffu64) & (x & 0xfffff00000000000u64) == 0) by (bit_vector);
}

/// The id of a path with an extension keeps the stem hash in its path part and
/// the extension hash, cut to 20 bits, in its type part.
pub proof fn lemma_from_pathlike_parts(p: Seq<char>)
    requires
        p.len() > 0,
        first_index_of(p, '.') < p.len(),
    ensures
        spec_from_pathlike(p) & ASSET_ID_PATH_MASK == hash_chars(
            spec_to_lowercase(p.take(first_index_of(p, '.'))),
        ) & ASSET_ID_PATH_MASK,
        spec_from_pathlike(p) & ASSET_ID_TYPE_MASK == hash_chars(
            trim_end_char(p.skip(first_index_of(p, '.') + 1), '@'),
        ) << 44u64,
{
    let i = first_index_of(p, '.');
    let a = hash_chars(spec_to_lowercase(p.take(i)));
    let b = hash_chars(trim_end_char(p.skip(i + 1), '@'));
    assert(((a & 0xfffffffffffu64) | (b << 44u64)) & 0xfffffffffffu64 == a & 0xfffffffffffu64)
        by (bit_vector);
    assert(((a & 0xfffffffffffu64) | (b << 44u64)) & 0xfffff00000000000u64 == b << 44u64)
        by (bit_vector);
}

/// Every id built from a path without extension has an empty type part.
pub proof fn lemma_from_pathlike_no_extension(p: Seq<char>)
    requires
        first_index_of(p, '.') == p.len(),
    ensures
        spec_from_pathlike(p) & ASSET_ID_TYPE_MASK == 0,
{
    let a = hash_chars(spec_to_lowercase(p));
    assert((a & 0xfffffffffffu64) & 0xfffff00000000000u64 == 0) by (bit_vector);
    assert((0u64 & 0xfffff00000000000u64) == 0) by (bit_vector);
}

} // verus!
