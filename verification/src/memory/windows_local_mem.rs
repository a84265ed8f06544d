//! Reading the memory of the running game process itself.

use vstd::prelude::*;

use crate::text::{chars_of, ends_with, spec_ends_with};

verus! {

/// Whether a module path, where it could be read, ends with `own`.
pub open spec fn path_matches(path: Option<String>, own: Seq<char>) -> bool {
    path matches Some(p) && spec_ends_with(p@, own)
}

/// The main module among the modules of a process, given the path of each
/// (none where it could not be read): the first whose path ends with the
/// process's own path `own_path`.
pub fn select_module(paths: &Vec<Option<String>>, own_path: &str) -> (r: Option<usize>)
    ensures
        match r {
            Some(i) => i < paths@.len() && path_matches(paths@[i as int], own_path@) && forall|j: int|
                0 <= j < i ==> !path_matches(#[trigger] paths@[j], own_path@),
            None => forall|j: int| 0 <= j < paths@.len() ==> !path_matches(#[trigger] paths@[j], own_path@),
        },
{
    let own = chars_of(own_path);
    let mut i: usize = 0;
    while i < paths.len()
        invariant
            i <= paths@.len(),
            own@ == own_path@,
            forall|j: int| 0 <= j < i ==> !path_matches(#[trigger] paths@[j], own_path@),
        decreases paths@.len() - i,
    {
        match &paths[i] {
            Some(p) => {
                let chars = chars_of(p.as_str());
                if ends_with(chars.as_slice(), own.as_slice()) {
                    return Some(i);
                }
            },
            None => {},
        }
        i += 1;
    }
    None
}

/// A reader of the current process's own memory; with `query_if_safe` it
/// checks, before each access, that the addressed range is mapped.
#[derive(Debug, Clone, Copy)]
pub struct Win32LocalMemoryReader {
    pub query_if_safe: bool,
}

impl Win32LocalMemoryReader {
    /// A reader that checks addresses before access when `safe` holds.
    pub fn new(safe: bool) -> (r: Self)
        ensures
            r.query_if_safe == safe,
    {
        Win32LocalMemoryReader { query_if_safe: safe }
    }
}

} // verus!
