//! The names of flag bits, and flag sets written as the names of their set
//! bits.

use vstd::prelude::*;

use crate::engine::ebex::{
    ObjectFunctionFlag, ObjectFunctionTypeFlag, ObjectInfoAttributeFlag, ATTRIBUTE_FLAG_DYNAMIC_ARRAY,
    ATTRIBUTE_FLAG_NONE, ATTRIBUTE_FLAG_POINTER, ATTRIBUTE_FLAG_REFERENCE, FUNCTION_FLAG_OBJECT,
    FUNCTION_FLAG_STATIC, FUNCTION_FLAG_UNKNOWN, TYPE_FLAG_CONST, TYPE_FLAG_NONE, TYPE_FLAG_POINTER,
    TYPE_FLAG_REFERENCE, TYPE_FLAG_VOID,
};
use crate::text::{hex_string, join_strings, spec_hex, spec_hex_padded, spec_join, string_views};

verus! {

/// A table of bit names, each name as its characters.
pub open spec fn name_views(names: Seq<(u32, &str)>) -> Seq<(u32, Seq<char>)> {
    names.map_values(|p: (u32, &str)| (p.0, p.1@))
}

/// The names in `names` of the bits set in `bits`, in table order; a name of
/// the value zero names no bit.
pub open spec fn spec_set_names(bits: u32, names: Seq<(u32, Seq<char>)>) -> Seq<Seq<char>>
    decreases names.len(),
{
    if names.len() == 0 {
        Seq::empty()
    } else {
        let earlier = spec_set_names(bits, names.drop_last());
        let (bit, name) = names.last();
        if bit != 0 && bits & bit == bit {
            earlier.push(name)
        } else {
            earlier
        }
    }
}

/// Every bit that a name of `names` stands for.
pub open spec fn names_mask(names: Seq<(u32, Seq<char>)>) -> u32
    decreases names.len(),
{
    if names.len() == 0 {
        0
    } else {
        names_mask(names.drop_last()) | names.last().0
    }
}

/// The parts of a flag set's text: the names of its set bits, then the set
/// bits that no name stands for, in hexadecimal after `0x`.
pub open spec fn spec_flag_parts(bits: u32, names: Seq<(u32, Seq<char>)>) -> Seq<Seq<char>> {
    let unnamed = bits & !names_mask(names);
    spec_set_names(bits, names) + (if unnamed != 0 {
        seq!["0x"@ + spec_hex(unnamed as nat)]
    } else {
        Seq::empty()
    })
}

/// A flag set as text: its parts joined by ` | `; empty for no bit.
pub open spec fn spec_flags_text(bits: u32, names: Seq<(u32, Seq<char>)>) -> Seq<char> {
    spec_join(spec_flag_parts(bits, names), " | "@)
}

/// A flag set as text; see `spec_flags_text`.
pub fn flags_text(bits: u32, names: &[(u32, &str)]) -> (r: String)
    ensures
        r@ == spec_flags_text(bits, name_views(names@)),
{
    let ghost table = name_views(names@);
    let mut parts: Vec<String> = Vec::new();
    let mut mask: u32 = 0;
    let mut i: usize = 0;
    while i < names.len()
        invariant
            i <= names@.len(),
            table == name_views(names@),
            string_views(parts@) =~= spec_set_names(bits, table.take(i as int)),
            mask == names_mask(table.take(i as int)),
        decreases names@.len() - i,
    {
        let (bit, name) = names[i];
        proof {
            assert(table.take(i + 1).drop_last() =~= table.take(i as int));
            assert(table.take(i + 1).last() == (bit, name@));
        }
        if bit != 0 && bits & bit == bit {
            let ghost before = parts@;
            parts.push(String::from_str(name));
            proof {
                assert(string_views(parts@) =~= string_views(before).push(name@));
            }
        }
        mask = mask | bit;
        i += 1;
    }
    proof {
        assert(table.take(names@.len() as int) =~= table);
        assert(mask == names_mask(table));
        assert(string_views(parts@) =~= spec_set_names(bits, table));
    }
    let unnamed = bits & !mask;
    if unnamed != 0 {
        let digits = hex_string(unnamed as u64, 0);
        let ghost before = parts@;
        parts.push(digits);
        proof {
            reveal_strlit("0x");
            assert(spec_hex_padded(unnamed as nat, 0) =~= "0x"@ + spec_hex(unnamed as nat));
            assert(string_views(parts@) =~= string_views(before).push(digits@));
        }
    } else {
        proof {
            assert(string_views(parts@) =~= string_views(parts@) + Seq::<Seq<char>>::empty());
        }
    }
    proof {
        assert(string_views(parts@) =~= spec_flag_parts(bits, table));
    }
    join_strings(&parts, " | ")
}

/// The names of the bits of [`ObjectFunctionFlag`], in declaration order.
pub open spec fn spec_function_flag_names() -> Seq<(u32, Seq<char>)> {
    seq![(FUNCTION_FLAG_UNKNOWN, "Unknown"@), (FUNCTION_FLAG_STATIC, "Static"@), (FUNCTION_FLAG_OBJECT, "Object"@)]
}

/// The names of the bits of [`ObjectFunctionTypeFlag`], in declaration order.
pub open spec fn spec_type_flag_names() -> Seq<(u32, Seq<char>)> {
    seq![
        (TYPE_FLAG_NONE, "None"@),
        (TYPE_FLAG_CONST, "Const"@),
        (TYPE_FLAG_POINTER, "Pointer"@),
        (TYPE_FLAG_REFERENCE, "Reference"@),
        (TYPE_FLAG_VOID, "Void"@),
    ]
}

/// The names of the bits of [`ObjectInfoAttributeFlag`], in declaration
/// order.
pub open spec fn spec_attribute_flag_names() -> Seq<(u32, Seq<char>)> {
    seq![
        (ATTRIBUTE_FLAG_NONE, "None"@),
        (ATTRIBUTE_FLAG_POINTER, "Pointer"@),
        (ATTRIBUTE_FLAG_REFERENCE, "Reference"@),
        (ATTRIBUTE_FLAG_DYNAMIC_ARRAY, "DynamicArray"@),
    ]
}

impl ObjectFunctionFlag {
    /// The names of the set bits; see `spec_flags_text`.
    pub fn names_text(&self) -> (r: String)
        ensures
            r@ == spec_flags_text(self.bits, spec_function_flag_names()),
    {
        let names: [(u32, &str); 3] = [
            (FUNCTION_FLAG_UNKNOWN, "Unknown"),
            (FUNCTION_FLAG_STATIC, "Static"),
            (FUNCTION_FLAG_OBJECT, "Object"),
        ];
        proof {
            assert(name_views(names@) =~= spec_function_flag_names());
        }
        flags_text(self.bits, &names)
    }
}

impl ObjectFunctionTypeFlag {
    /// The names of the set bits; see `spec_flags_text`.
    pub fn names_text(&self) -> (r: String)
        ensures
            r@ == spec_flags_text(self.bits, spec_type_flag_names()),
    {
        let names: [(u32, &str); 5] = [
            (TYPE_FLAG_NONE, "None"),
            (TYPE_FLAG_CONST, "Const"),
            (TYPE_FLAG_POINTER, "Pointer"),
            (TYPE_FLAG_REFERENCE, "Reference"),
            (TYPE_FLAG_VOID, "Void"),
        ];
        proof {
            assert(name_views(names@) =~= spec_type_flag_names());
        }
        flags_text(self.bits, &names)
    }
}

impl ObjectInfoAttributeFlag {
    /// The names of the set bits; see `spec_flags_text`.
    pub fn names_text(&self) -> (r: String)
        ensures
            r@ == spec_flags_text(self.bits, spec_attribute_flag_names()),
    {
        let names: [(u32, &str); 4] = [
            (ATTRIBUTE_FLAG_NONE, "None"),
            (ATTRIBUTE_FLAG_POINTER, "Pointer"),
            (ATTRIBUTE_FLAG_REFERENCE, "Reference"),
            (ATTRIBUTE_FLAG_DYNAMIC_ARRAY, "DynamicArray"),
        ];
        proof {
            assert(name_views(names@) =~= spec_attribute_flag_names());
        }
        flags_text(self.bits, &names)
    }
}

} // verus!
