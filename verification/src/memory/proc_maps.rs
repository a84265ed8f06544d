//! Lines of a process memory map (`/proc/<pid>/maps` format), and the base
//! address of a module looked up in them.

use vstd::prelude::*;

use crate::engine::native::pointer::LuminousPointer;
use crate::text::{
    chars_of, chars_views, ends_with, join_from, join_with, parse_hex_usize, spec_ends_with,
    spec_parse_hex, split_char, split_char_spec, split_whitespace, string_from_chars, ws_tokens, opt_view,
};

verus! {

/// One mapped region of a process.
pub struct MemoryMapping {
    pub name: String,
    pub start: usize,
    pub end: usize,
    pub permissions: String,
}

/// Whether `line` is a well-formed map line: at least five fields, the first
/// being two hexadecimal addresses `start-end` with `start < end`.
pub open spec fn spec_mapping_ok(line: Seq<char>) -> bool {
    let tokens = ws_tokens(line);
    tokens.len() >= 5 && {
        let range = split_char_spec(tokens[0], '-');
        &&& range.len() == 2
        &&& spec_parse_hex(range[0]) is Some
        &&& spec_parse_hex(range[1]) is Some
        &&& spec_parse_hex(range[0])->0 < spec_parse_hex(range[1])->0
    }
}

/// Whether `m` is the mapping that a well-formed `line` describes.
pub open spec fn spec_mapping_of(line: Seq<char>, m: MemoryMapping) -> bool {
    let tokens = ws_tokens(line);
    let range = split_char_spec(tokens[0], '-');
    &&& m.start == spec_parse_hex(range[0])->0
    &&& m.end == spec_parse_hex(range[1])->0
    &&& m.permissions@ == tokens[1]
    &&& m.name@ == join_with(tokens.skip(5), ' ')
}

/// The well-formed lines of `lines`, in order.
pub open spec fn mapping_lines(lines: Seq<Seq<char>>) -> Seq<Seq<char>>
    decreases lines.len(),
{
    if lines.len() == 0 {
        Seq::empty()
    } else {
        let prev = mapping_lines(lines.drop_last());
        if spec_mapping_ok(lines.last()) {
            prev.push(lines.last())
        } else {
            prev
        }
    }
}

/// Whether `maps` are the mappings of the well-formed lines of `lines`, in
/// order.
pub open spec fn mappings_from_lines(lines: Seq<Seq<char>>, maps: Seq<MemoryMapping>) -> bool {
    let ok = mapping_lines(lines);
    &&& maps.len() == ok.len()
    &&& forall|i: int| 0 <= i < ok.len() ==> spec_mapping_of(#[trigger] ok[i], maps[i])
}

impl MemoryMapping {
    /// Parses one line of a process memory map: the address range, the
    /// permissions, and as name the fields after the inode joined by single
    /// spaces; none for a malformed line.
    pub fn new(line: &str) -> (r: Option<MemoryMapping>)
        ensures
            r is Some <==> spec_mapping_ok(line@),
            r matches Some(m) ==> spec_mapping_of(line@, m) && m.start < m.end,
    {
        let chars = chars_of(line);
        let tokens = split_whitespace(chars.as_slice());
        if tokens.len() < 5 {
            return None;
        }
        let parts = split_char(tokens[0].as_slice(), '-');
        assert(chars_views(tokens@)[0] == tokens@[0]@);
        if parts.len() != 2 {
            return None;
        }
        assert(chars_views(parts@)[0] == parts@[0]@);
        assert(chars_views(parts@)[1] == parts@[1]@);
        let start = match parse_hex_usize(parts[0].as_slice()) {
            Some(v) => v,
            None => {
                return None;
            },
        };
        let end = match parse_hex_usize(parts[1].as_slice()) {
            Some(v) => v,
            None => {
                return None;
            },
        };
        if start >= end {
            return None;
        }
        assert(chars_views(tokens@)[1] == tokens@[1]@);
        let permissions = string_from_chars(tokens[1].as_slice());
        let name_chars = join_from(&tokens, 5, ' ');
        let name = string_from_chars(name_chars.as_slice());
        Some(MemoryMapping { name, start, end, permissions })
    }
}

/// Parses a process memory map: the mappings of its well-formed lines, in
/// order; lines are separated by `\n`.
pub fn parse_mappings(text: &str) -> (r: Vec<MemoryMapping>)
    ensures
        mappings_from_lines(split_char_spec(text@, '\n'), r@),
{
    let chars = chars_of(text);
    let lines = split_char(chars.as_slice(), '\n');
    let ghost views = chars_views(lines@);
    let mut maps: Vec<MemoryMapping> = Vec::new();
    let mut i: usize = 0;
    while i < lines.len()
        invariant
            i <= lines@.len(),
            views == chars_views(lines@),
            mappings_from_lines(views.take(i as int), maps@),
        decreases lines@.len() - i,
    {
        let line = string_from_chars(lines[i].as_slice());
        let ghost prefix = views.take(i as int);
        proof {
            assert(views.take(i + 1).drop_last() =~= prefix);
            assert(views.take(i + 1).last() == views[i as int]);
            assert(views[i as int] == lines@[i as int]@);
        }
        match MemoryMapping::new(line.as_str()) {
            Some(m) => {
                maps.push(m);
                proof {
                    let ok = mapping_lines(views.take(i + 1));
                    assert(ok == mapping_lines(prefix).push(views[i as int]));
                    assert forall|j: int| 0 <= j < ok.len() implies spec_mapping_of(
                        #[trigger] ok[j],
                        maps@[j],
                    ) by {
                        if j < ok.len() - 1 {
                            assert(ok[j] == mapping_lines(prefix)[j]);
                        }
                    }
                }
            },
            None => {
                assert(mapping_lines(views.take(i + 1)) == mapping_lines(prefix));
            },
        }
        i += 1;
    }
    proof {
        assert(views.take(lines@.len() as int) =~= views);
    }
    maps
}

/// The index of the first mapping whose name ends with `name`, or the number
/// of mappings when none does.
pub open spec fn first_mapping_with_suffix(names: Seq<Seq<char>>, name: Seq<char>) -> int
    decreases names.len(),
{
    if names.len() == 0 {
        0
    } else if spec_ends_with(names[0], name) {
        0
    } else {
        1 + first_mapping_with_suffix(names.drop_first(), name)
    }
}

/// The names of the mappings.
pub open spec fn mapping_names(maps: Seq<MemoryMapping>) -> Seq<Seq<char>> {
    maps.map_values(|m: MemoryMapping| m.name@)
}

/// Address used when no mapping matches: the usual image base of the games.
pub const DEFAULT_PROCESS_BASE: u64 = 0x140000000u64;

/// The suffix looked for when the process name is unknown.
pub open spec fn spec_fallback_name() -> Seq<char> {
    ".exe"@
}

/// The base address that `get_process_base` finds: the start of the first
/// mapping whose name ends with the process name (`.exe` when unknown), or
/// the default image base.
pub open spec fn spec_process_base(name: Option<Seq<char>>, maps: Seq<MemoryMapping>) -> u64 {
    let n = match name {
        Some(n) => n,
        None => spec_fallback_name(),
    };
    let i = first_mapping_with_suffix(mapping_names(maps), n);
    if i < maps.len() {
        maps[i].start as u64
    } else {
        DEFAULT_PROCESS_BASE
    }
}

pub(crate) proof fn lemma_first_mapping_bounds(names: Seq<Seq<char>>, name: Seq<char>)
    ensures
        0 <= first_mapping_with_suffix(names, name) <= names.len(),
        forall|j: int|
            0 <= j < first_mapping_with_suffix(names, name) ==> !spec_ends_with(
                #[trigger] names[j],
                name,
            ),
        first_mapping_with_suffix(names, name) < names.len() ==> spec_ends_with(
            names[first_mapping_with_suffix(names, name)],
            name,
        ),
    decreases names.len(),
{
    if names.len() > 0 && !spec_ends_with(names[0], name) {
        lemma_first_mapping_bounds(names.drop_first(), name);
        assert forall|j: int|
            0 <= j < first_mapping_with_suffix(names, name) implies !spec_ends_with(
            #[trigger] names[j],
            name,
        ) by {
            if j > 0 {
                assert(names[j] == names.drop_first()[j - 1]);
            }
        }
    }
}

/// Finds the base address of the process's main module in its memory map.
pub fn get_process_base(name: Option<String>, proc: &Vec<MemoryMapping>) -> (r: LuminousPointer<()>)
    ensures
        r.inner == spec_process_base(opt_view(name), proc@),
{
    let ghost n = match &name {
        Some(n) => n@,
        None => spec_fallback_name(),
    };
    let name_chars = match &name {
        Some(n) => chars_of(n.as_str()),
        None => chars_of(".exe"),
    };
    assert(name_chars@ == n);
    let ghost names = mapping_names(proc@);
    proof {
        lemma_first_mapping_bounds(names, n);
    }
    let mut i: usize = 0;
    while i < proc.len()
        invariant
            i <= proc@.len(),
            names == mapping_names(proc@),
            name_chars@ == n,
            n == (match name {
                Some(nn) => nn@,
                None => spec_fallback_name(),
            }),
            forall|j: int| 0 <= j < i ==> !spec_ends_with(#[trigger] names[j], n),
        decreases proc@.len() - i,
    {
        let entry = chars_of(proc[i].name.as_str());
        assert(names[i as int] == proc@[i as int].name@);
        if ends_with(entry.as_slice(), name_chars.as_slice()) {
            proof {
                lemma_first_mapping_bounds(names, n);
                let k = first_mapping_with_suffix(names, n);
                if k < i {
                    assert(!spec_ends_with(names[k], n));
                }
                if k > i {
                    assert(!spec_ends_with(names[i as int], n));
                }
                assert(k == i);
            }
            return LuminousPointer::new(proc[i].start as u64);
        }
        i += 1;
    }
    proof {
        lemma_first_mapping_bounds(names, n);
        let k = first_mapping_with_suffix(names, n);
        if k < names.len() {
            assert(!spec_ends_with(names[k], n));
        }
    }
    LuminousPointer::new(DEFAULT_PROCESS_BASE)
}

} // verus!
