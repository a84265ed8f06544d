//! How reflected types are spelled in the C#-like pseudocode that the
//! introspection tool writes.

use vstd::prelude::*;

use crate::engine::ebex::{
    ObjectFunction, ObjectFunctionFlag, ObjectFunctionType, ObjectInfo, ObjectInfoAttributeFlag,
    ObjectInfoPrimitiveType, ObjectInfoRegistry, ObjectProperty, engine_primitive_kinds, spec_primitive_type,
    FUNCTION_FLAG_STATIC, TYPE_FLAG_CONST,
    TYPE_FLAG_NONE, TYPE_FLAG_POINTER, TYPE_FLAG_REFERENCE, TYPE_FLAG_VOID,
};
use crate::engine::flag_names::{spec_attribute_flag_names, spec_flags_text};
use crate::text::{
    decimal_string, hex_string, join_strings, spec_decimal, spec_hex_padded, spec_join, spec_starts_with,
    string_views,
};

verus! {

/// The pseudocode name of a primitive kind; none for kinds without one.
pub open spec fn spec_primitive_type_name(t: ObjectInfoPrimitiveType) -> Option<Seq<char>> {
    match t {
        ObjectInfoPrimitiveType::Int8 => Some("int8"@),
        ObjectInfoPrimitiveType::Int16 => Some("int16"@),
        ObjectInfoPrimitiveType::Int32 => Some("int32"@),
        ObjectInfoPrimitiveType::Int64 => Some("int64"@),
        ObjectInfoPrimitiveType::UInt8 => Some("uint8"@),
        ObjectInfoPrimitiveType::UInt16 => Some("uint16"@),
        ObjectInfoPrimitiveType::UInt32 => Some("uint32"@),
        ObjectInfoPrimitiveType::UInt64 => Some("uint64"@),
        ObjectInfoPrimitiveType::SizeT => Some("usize"@),
        ObjectInfoPrimitiveType::Bool => Some("bool"@),
        ObjectInfoPrimitiveType::Float => Some("float"@),
        ObjectInfoPrimitiveType::Double => Some("double"@),
        ObjectInfoPrimitiveType::String => Some("string"@),
        ObjectInfoPrimitiveType::Fixid => Some("FIXID"@),
        ObjectInfoPrimitiveType::Float4 => Some("Vec4"@),
        ObjectInfoPrimitiveType::Color => Some("Color"@),
        ObjectInfoPrimitiveType::Double4 => Some("Vec4D"@),
        _ => None,
    }
}

/// The pseudocode name of a primitive kind; see `spec_primitive_type_name`.
pub fn primitive_type_to_string(primitive_type: ObjectInfoPrimitiveType) -> (r: Option<&'static str>)
    ensures
        match r {
            Some(s) => spec_primitive_type_name(primitive_type) == Some(s@),
            None => spec_primitive_type_name(primitive_type) is None,
        },
{
    match primitive_type {
        ObjectInfoPrimitiveType::Int8 => Some("int8"),
        ObjectInfoPrimitiveType::Int16 => Some("int16"),
        ObjectInfoPrimitiveType::Int32 => Some("int32"),
        ObjectInfoPrimitiveType::Int64 => Some("int64"),
        ObjectInfoPrimitiveType::UInt8 => Some("uint8"),
        ObjectInfoPrimitiveType::UInt16 => Some("uint16"),
        ObjectInfoPrimitiveType::UInt32 => Some("uint32"),
        ObjectInfoPrimitiveType::UInt64 => Some("uint64"),
        ObjectInfoPrimitiveType::SizeT => Some("usize"),
        ObjectInfoPrimitiveType::Bool => Some("bool"),
        ObjectInfoPrimitiveType::Float => Some("float"),
        ObjectInfoPrimitiveType::Double => Some("double"),
        ObjectInfoPrimitiveType::String => Some("string"),
        ObjectInfoPrimitiveType::Fixid => Some("FIXID"),
        ObjectInfoPrimitiveType::Float4 => Some("Vec4"),
        ObjectInfoPrimitiveType::Color => Some("Color"),
        ObjectInfoPrimitiveType::Double4 => Some("Vec4D"),
        _ => None,
    }
}

/// How a function's parameter or return type is spelled: `void` for exactly
/// the void flag; otherwise the primitive name (the type's own name for a
/// kind without one), preceded by `const ` for the const flag, replaced by
/// `void` where the void flag is among others, and followed by `*` for the
/// pointer or reference flag.
pub open spec fn spec_format_type(flags: u32, primitive_type: ObjectInfoPrimitiveType, name: Seq<char>) -> Seq<char> {
    if flags == TYPE_FLAG_VOID {
        "void"@
    } else {
        let base = match spec_primitive_type_name(primitive_type) {
            Some(n) => n,
            None => name,
        };
        if flags == TYPE_FLAG_NONE {
            base
        } else {
            (if flags & TYPE_FLAG_CONST == TYPE_FLAG_CONST {
                "const "@
            } else {
                Seq::empty()
            }) + (if flags & TYPE_FLAG_VOID == TYPE_FLAG_VOID {
                "void"@
            } else {
                base
            }) + (if flags & TYPE_FLAG_POINTER == TYPE_FLAG_POINTER || flags & TYPE_FLAG_REFERENCE
                == TYPE_FLAG_REFERENCE {
                "*"@
            } else {
                Seq::empty()
            })
        }
    }
}

/// Bit facts on type flags that the spelling laws use.
proof fn lemma_type_flag_bits(flags: u32)
    ensures
        (flags & 0xfffffff9u32) & 2u32 == 0,
        (flags & 0xfffffff9u32) & 4u32 == 0,
        (flags & 0xfffffff9u32) & 1u32 == flags & 1u32,
        (flags & 0xfffffff9u32) & 8u32 == flags & 8u32,
        (flags & 0xfffffff9u32) == 0u32 ==> flags & 1u32 == 0 && flags & 8u32 == 0,
        (flags & 0xfffffff9u32) == 8u32 ==> flags & 1u32 == 0 && flags & 8u32 == 8u32,
        flags & 6u32 != 0 ==> flags != 0u32 && flags != 8u32,
        flags & 6u32 != 0 <==> (flags & 2u32 == 2u32 || flags & 4u32 == 4u32),
        (flags & 0xfffffffeu32) & 1u32 == 0,
        (flags & 0xfffffffeu32) & 2u32 == flags & 2u32,
        (flags & 0xfffffffeu32) & 4u32 == flags & 4u32,
        (flags & 0xfffffffeu32) & 8u32 == flags & 8u32,
        (flags & 0xfffffffeu32) == 0u32 ==> flags & 6u32 == 0 && flags & 8u32 == 0,
        (flags & 0xfffffffeu32) == 8u32 ==> flags & 6u32 == 0 && flags & 8u32 == 8u32,
        flags & 1u32 == 1u32 ==> flags != 0u32 && flags != 8u32,
        flags & 8u32 == 8u32 ==> flags != 0u32,
{
    assert((flags & 0xfffffff9u32) & 2u32 == 0) by (bit_vector);
    assert((flags & 0xfffffff9u32) & 4u32 == 0) by (bit_vector);
    assert((flags & 0xfffffff9u32) & 1u32 == flags & 1u32) by (bit_vector);
    assert((flags & 0xfffffff9u32) & 8u32 == flags & 8u32) by (bit_vector);
    assert((flags & 0xfffffff9u32) == 0u32 ==> flags & 1u32 == 0 && flags & 8u32 == 0) by (bit_vector);
    assert((flags & 0xfffffff9u32) == 8u32 ==> flags & 1u32 == 0 && flags & 8u32 == 8u32) by (bit_vector);
    assert(flags & 6u32 != 0 ==> flags != 0u32 && flags != 8u32) by (bit_vector);
    assert(flags & 6u32 != 0 <==> (flags & 2u32 == 2u32 || flags & 4u32 == 4u32)) by (bit_vector);
    assert((flags & 0xfffffffeu32) & 1u32 == 0) by (bit_vector);
    assert((flags & 0xfffffffeu32) & 2u32 == flags & 2u32) by (bit_vector);
    assert((flags & 0xfffffffeu32) & 4u32 == flags & 4u32) by (bit_vector);
    assert((flags & 0xfffffffeu32) & 8u32 == flags & 8u32) by (bit_vector);
    assert((flags & 0xfffffffeu32) == 0u32 ==> flags & 6u32 == 0 && flags & 8u32 == 0) by (bit_vector);
    assert((flags & 0xfffffffeu32) == 8u32 ==> flags & 6u32 == 0 && flags & 8u32 == 8u32) by (bit_vector);
    assert(flags & 1u32 == 1u32 ==> flags != 0u32 && flags != 8u32) by (bit_vector);
    assert(flags & 8u32 == 8u32 ==> flags != 0u32) by (bit_vector);
}

/// A pointer or a reference flag, with or without the const flag, adds
/// exactly one `*` to the spelling of the type without those two flags.
pub proof fn lemma_format_type_pointer_or_reference(flags: u32, primitive_type: ObjectInfoPrimitiveType, name: Seq<char>)
    requires
        flags & TYPE_FLAG_POINTER == TYPE_FLAG_POINTER || flags & TYPE_FLAG_REFERENCE == TYPE_FLAG_REFERENCE,
    ensures
        spec_format_type(flags, primitive_type, name) == spec_format_type(
            flags & 0xfffffff9u32,
            primitive_type,
            name,
        ) + "*"@,
        spec_format_type(flags, primitive_type, name).last() == '*',
{
    lemma_type_flag_bits(flags);
    reveal_strlit("*");
    let f2 = flags & 0xfffffff9u32;
    let base = match spec_primitive_type_name(primitive_type) {
        Some(n) => n,
        None => name,
    };
    let c: Seq<char> = if flags & TYPE_FLAG_CONST == TYPE_FLAG_CONST {
        "const "@
    } else {
        Seq::empty()
    };
    let v = if flags & TYPE_FLAG_VOID == TYPE_FLAG_VOID {
        "void"@
    } else {
        base
    };
    assert(spec_format_type(flags, primitive_type, name) == c + v + "*"@);
    if f2 == 0u32 {
        assert(c =~= Seq::<char>::empty());
        assert(spec_format_type(f2, primitive_type, name) == base);
        assert(c + v + "*"@ =~= base + "*"@);
    } else if f2 == 8u32 {
        assert(c + v + "*"@ =~= "void"@ + "*"@);
    } else {
        assert(spec_format_type(f2, primitive_type, name) == c + v + Seq::<char>::empty());
        assert(c + v + Seq::<char>::empty() =~= c + v);
    }
}

/// The const flag puts `const ` before the spelling of the type without it.
pub proof fn lemma_format_type_const(flags: u32, primitive_type: ObjectInfoPrimitiveType, name: Seq<char>)
    requires
        flags & TYPE_FLAG_CONST == TYPE_FLAG_CONST,
    ensures
        spec_format_type(flags, primitive_type, name) == "const "@ + spec_format_type(
            flags & 0xfffffffeu32,
            primitive_type,
            name,
        ),
{
    lemma_type_flag_bits(flags);
    let f2 = flags & 0xfffffffeu32;
    let base = match spec_primitive_type_name(primitive_type) {
        Some(n) => n,
        None => name,
    };
    let v = if flags & TYPE_FLAG_VOID == TYPE_FLAG_VOID {
        "void"@
    } else {
        base
    };
    let star: Seq<char> = if flags & TYPE_FLAG_POINTER == TYPE_FLAG_POINTER || flags & TYPE_FLAG_REFERENCE
        == TYPE_FLAG_REFERENCE {
        "*"@
    } else {
        Seq::empty()
    };
    assert(spec_format_type(flags, primitive_type, name) == "const "@ + v + star);
    if f2 == 0u32 {
        assert(star =~= Seq::<char>::empty());
        assert("const "@ + v + star =~= "const "@ + base);
    } else if f2 == 8u32 {
        assert(star =~= Seq::<char>::empty());
        assert("const "@ + v + star =~= "const "@ + "void"@);
    } else {
        assert(spec_format_type(f2, primitive_type, name) == Seq::<char>::empty() + v + star);
        assert("const "@ + v + star =~= "const "@ + (Seq::<char>::empty() + v + star));
    }
}

/// With the void flag the spelling does not depend on the kind or the type
/// name: `void`, with `const ` and `*` as the other flags ask.
pub proof fn lemma_format_type_void_ignores_type(
    flags: u32,
    k1: ObjectInfoPrimitiveType,
    n1: Seq<char>,
    k2: ObjectInfoPrimitiveType,
    n2: Seq<char>,
)
    requires
        flags & TYPE_FLAG_VOID == TYPE_FLAG_VOID,
    ensures
        spec_format_type(flags, k1, n1) == spec_format_type(flags, k2, n2),
{
    lemma_type_flag_bits(flags);
}

/// How a function's parameter or return type is spelled; see
/// `spec_format_type`.
pub fn format_type(type_info: &ObjectFunctionType) -> (r: String)
    ensures
        r@ == spec_format_type(
            type_info.type_flag.bits,
            type_info.primitive_type,
            type_info.type_label@,
        ),
{
    let flags = type_info.type_flag.bits;
    if flags == TYPE_FLAG_VOID {
        return String::from_str("void");
    }
    let base: &str = match primitive_type_to_string(type_info.primitive_type) {
        Some(n) => n,
        None => type_info.type_label.as_str(),
    };
    if flags == TYPE_FLAG_NONE {
        return String::from_str(base);
    }
    let mut assembled = String::new();
    if flags & TYPE_FLAG_CONST == TYPE_FLAG_CONST {
        assembled.append("const ");
    }
    if flags & TYPE_FLAG_VOID == TYPE_FLAG_VOID {
        assembled.append("void");
    } else {
        assembled.append(base);
    }
    if flags & TYPE_FLAG_POINTER == TYPE_FLAG_POINTER || flags & TYPE_FLAG_REFERENCE == TYPE_FLAG_REFERENCE {
        assembled.append("*");
    }
    proof {
        assert(Seq::<char>::empty() + assembled@ =~= assembled@);
    }
    assembled
}


/// The name of a primitive kind as its debug form shows it.
pub open spec fn spec_primitive_type_label(t: ObjectInfoPrimitiveType) -> Seq<char> {
    match t {
        ObjectInfoPrimitiveType::Unknown => "Unknown"@,
        ObjectInfoPrimitiveType::ClassField => "ClassField"@,
        ObjectInfoPrimitiveType::Int8 => "Int8"@,
        ObjectInfoPrimitiveType::Int16 => "Int16"@,
        ObjectInfoPrimitiveType::Int32 => "Int32"@,
        ObjectInfoPrimitiveType::Int64 => "Int64"@,
        ObjectInfoPrimitiveType::UInt8 => "UInt8"@,
        ObjectInfoPrimitiveType::UInt16 => "UInt16"@,
        ObjectInfoPrimitiveType::UInt32 => "UInt32"@,
        ObjectInfoPrimitiveType::UInt64 => "UInt64"@,
        ObjectInfoPrimitiveType::SizeT => "SizeT"@,
        ObjectInfoPrimitiveType::Bool => "Bool"@,
        ObjectInfoPrimitiveType::Float => "Float"@,
        ObjectInfoPrimitiveType::Double => "Double"@,
        ObjectInfoPrimitiveType::String => "String"@,
        ObjectInfoPrimitiveType::Pointer => "Pointer"@,
        ObjectInfoPrimitiveType::Reference => "Reference"@,
        ObjectInfoPrimitiveType::Array => "Array"@,
        ObjectInfoPrimitiveType::PointerArray => "PointerArray"@,
        ObjectInfoPrimitiveType::Fixid => "Fixid"@,
        ObjectInfoPrimitiveType::Float4 => "Float4"@,
        ObjectInfoPrimitiveType::Color => "Color"@,
        ObjectInfoPrimitiveType::Buffer => "Buffer"@,
        ObjectInfoPrimitiveType::Enum => "Enum"@,
        ObjectInfoPrimitiveType::IntrusivePointerArray => "IntrusivePointerArray"@,
        ObjectInfoPrimitiveType::Double4 => "Double4"@,
    }
}

/// The debug names of the primitive kinds, in the order of the engine's
/// enumeration (codes 0x0 to 0x19).
pub open spec fn engine_primitive_labels() -> Seq<Seq<char>> {
    seq![
        "Unknown"@,
        "ClassField"@,
        "Int8"@,
        "Int16"@,
        "Int32"@,
        "Int64"@,
        "UInt8"@,
        "UInt16"@,
        "UInt32"@,
        "UInt64"@,
        "SizeT"@,
        "Bool"@,
        "Float"@,
        "Double"@,
        "String"@,
        "Pointer"@,
        "Reference"@,
        "Array"@,
        "PointerArray"@,
        "Fixid"@,
        "Float4"@,
        "Color"@,
        "Buffer"@,
        "Enum"@,
        "IntrusivePointerArray"@,
        "Double4"@,
    ]
}

/// The kind decoded from engine code `c` carries the `c`-th debug name of
/// the engine's enumeration, so a property of code 0xc is shown as `Float`
/// and one of code 0xd as `Double`.
pub proof fn lemma_primitive_labels_follow_engine_order(c: u32)
    requires
        c < 26,
    ensures
        spec_primitive_type_label(spec_primitive_type(c)) == engine_primitive_labels()[c as int],
        spec_primitive_type_label(engine_primitive_kinds()[c as int]) == engine_primitive_labels()[c as int],
{
    crate::engine::ebex::lemma_primitive_codes_follow_engine_order();
}

/// The name of a primitive kind; see `spec_primitive_type_label`.
pub fn primitive_type_label(t: ObjectInfoPrimitiveType) -> (r: &'static str)
    ensures
        r@ == spec_primitive_type_label(t),
{
    match t {
        ObjectInfoPrimitiveType::Unknown => "Unknown",
        ObjectInfoPrimitiveType::ClassField => "ClassField",
        ObjectInfoPrimitiveType::Int8 => "Int8",
        ObjectInfoPrimitiveType::Int16 => "Int16",
        ObjectInfoPrimitiveType::Int32 => "Int32",
        ObjectInfoPrimitiveType::Int64 => "Int64",
        ObjectInfoPrimitiveType::UInt8 => "UInt8",
        ObjectInfoPrimitiveType::UInt16 => "UInt16",
        ObjectInfoPrimitiveType::UInt32 => "UInt32",
        ObjectInfoPrimitiveType::UInt64 => "UInt64",
        ObjectInfoPrimitiveType::SizeT => "SizeT",
        ObjectInfoPrimitiveType::Bool => "Bool",
        ObjectInfoPrimitiveType::Float => "Float",
        ObjectInfoPrimitiveType::Double => "Double",
        ObjectInfoPrimitiveType::String => "String",
        ObjectInfoPrimitiveType::Pointer => "Pointer",
        ObjectInfoPrimitiveType::Reference => "Reference",
        ObjectInfoPrimitiveType::Array => "Array",
        ObjectInfoPrimitiveType::PointerArray => "PointerArray",
        ObjectInfoPrimitiveType::Fixid => "Fixid",
        ObjectInfoPrimitiveType::Float4 => "Float4",
        ObjectInfoPrimitiveType::Color => "Color",
        ObjectInfoPrimitiveType::Buffer => "Buffer",
        ObjectInfoPrimitiveType::Enum => "Enum",
        ObjectInfoPrimitiveType::IntrusivePointerArray => "IntrusivePointerArray",
        ObjectInfoPrimitiveType::Double4 => "Double4",
    }
}

/// The debug form of an attribute set: `ObjectInfoAttributeFlag(..)` around
/// `0x0` for the empty set, else around the names of its bits.
pub open spec fn spec_attribute_text(bits: u32) -> Seq<char> {
    "ObjectInfoAttributeFlag("@ + (if bits == 0 {
        "0x0"@
    } else {
        spec_flags_text(bits, spec_attribute_flag_names())
    }) + ")"@
}

/// The debug form of an attribute set; see `spec_attribute_text`.
pub fn attribute_text(flags: ObjectInfoAttributeFlag) -> (r: String)
    ensures
        r@ == spec_attribute_text(flags.bits),
{
    let mut out = String::from_str("ObjectInfoAttributeFlag(");
    if flags.bits == 0 {
        out.append("0x0");
    } else {
        let names = flags.names_text();
        out.append(names.as_str());
    }
    out.append(")");
    out
}

/// The pseudocode line of a property: its type (with the item count in
/// brackets for more than one item), its name, and a comment with the item
/// kind, the attributes, the offset and the size.
pub open spec fn spec_property_line(p: ObjectProperty) -> Seq<char> {
    "\t"@ + (match spec_primitive_type_name(p.primitive_type) {
        Some(n) => n,
        None => p.type_label@,
    }) + (if p.item_count > 1 {
        "["@ + spec_decimal(p.item_count as nat) + "]"@
    } else {
        Seq::empty()
    }) + " "@ + p.name@ + "; // Item Type: "@ + spec_primitive_type_label(p.item_primitive_type)
        + ", Item: "@ + spec_attribute_text(p.attributes.bits) + ", Offset: "@ + spec_hex_padded(
        p.offset as nat,
        0,
    ) + ", Size: "@ + spec_hex_padded(p.size as nat, 0) + "\n"@
}

/// The pseudocode line of a property; see `spec_property_line`.
pub fn property_line(p: &ObjectProperty) -> (r: String)
    ensures
        r@ == spec_property_line(*p),
{
    let mut out = String::from_str("\t");
    match primitive_type_to_string(p.primitive_type) {
        Some(n) => out.append(n),
        None => out.append(p.type_label.as_str()),
    }
    if p.item_count > 1 {
        out.append("[");
        let count = decimal_string(p.item_count as u64);
        out.append(count.as_str());
        out.append("]");
    } else {
        proof {
            assert(out@ + Seq::<char>::empty() =~= out@);
        }
    }
    out.append(" ");
    out.append(p.name.as_str());
    out.append("; // Item Type: ");
    out.append(primitive_type_label(p.item_primitive_type));
    out.append(", Item: ");
    let attributes = attribute_text(p.attributes);
    out.append(attributes.as_str());
    out.append(", Offset: ");
    let offset = hex_string(p.offset as u64, 0);
    out.append(offset.as_str());
    out.append(", Size: ");
    let size = hex_string(p.size as u64, 0);
    out.append(size.as_str());
    out.append("\n");
    out
}

/// How a parameter or return type is spelled; see `spec_format_type`.
pub open spec fn spec_type_text(t: ObjectFunctionType) -> Seq<char> {
    spec_format_type(t.type_flag.bits, t.primitive_type, t.type_label@)
}

/// The pseudocode line of a function: `static ` for a static one, the
/// return type, the name and the parameter types in brackets.
pub open spec fn spec_function_line(f: ObjectFunction) -> Seq<char> {
    "\t"@ + (if f.flags.bits & FUNCTION_FLAG_STATIC == FUNCTION_FLAG_STATIC {
        "static "@
    } else {
        Seq::empty()
    }) + spec_type_text(f.return_type) + " "@ + f.name@ + "("@ + spec_join(
        f.argument_types@.map_values(|t: ObjectFunctionType| spec_type_text(t)),
        ", "@,
    ) + ");\n"@
}

/// The pseudocode line of a function; see `spec_function_line`.
pub fn function_line(f: &ObjectFunction) -> (r: String)
    ensures
        r@ == spec_function_line(*f),
{
    let mut out = String::from_str("\t");
    if f.flags.contains(ObjectFunctionFlag::from_bits_retain(FUNCTION_FLAG_STATIC)) {
        out.append("static ");
    } else {
        proof {
            assert(out@ + Seq::<char>::empty() =~= out@);
        }
    }
    let ret = format_type(&f.return_type);
    out.append(ret.as_str());
    out.append(" ");
    out.append(f.name.as_str());
    out.append("(");
    let mut args: Vec<String> = Vec::new();
    let mut i: usize = 0;
    while i < f.argument_types.len()
        invariant
            i <= f.argument_types@.len(),
            string_views(args@) =~= f.argument_types@.take(i as int).map_values(
                |t: ObjectFunctionType| spec_type_text(t),
            ),
        decreases f.argument_types@.len() - i,
    {
        let a = format_type(&f.argument_types[i]);
        let ghost before = args@;
        args.push(a);
        proof {
            assert(args@ == before.push(a));
            assert(string_views(args@) =~= string_views(before).push(a@));
            assert(f.argument_types@.take(i + 1) =~= f.argument_types@.take(i as int).push(
                f.argument_types@[i as int],
            ));
        }
        i += 1;
    }
    proof {
        assert(f.argument_types@.take(f.argument_types@.len() as int) =~= f.argument_types@);
    }
    let joined = join_strings(&args, ", ");
    out.append(joined.as_str());
    out.append(");\n");
    out
}

/// The concatenation of `parts`.
pub open spec fn spec_concat(parts: Seq<Seq<char>>) -> Seq<char>
    decreases parts.len(),
{
    if parts.len() == 0 {
        Seq::empty()
    } else {
        spec_concat(parts.drop_last()) + parts.last()
    }
}

/// The pseudocode lines of a type's properties, in table order.
pub open spec fn spec_property_lines(o: ObjectInfo) -> Seq<char> {
    spec_concat(
        o.properties.properties.entries@.map_values(|e: (String, ObjectProperty)| spec_property_line(e.1)),
    )
}

/// The pseudocode lines of a type's functions, in table order.
pub open spec fn spec_function_lines(o: ObjectInfo) -> Seq<char> {
    spec_concat(o.functions.entries@.map_values(|e: (String, ObjectFunction)| spec_function_line(e.1)))
}

/// The pseudocode of a type: `struct`, its name and ` : ` with its base
/// type if it has one; ` { }` for a type without properties and functions;
/// else its property lines, an empty line where functions follow
/// properties, its function lines, and `};`. An empty line follows.
pub open spec fn spec_struct_text(o: ObjectInfo) -> Seq<char> {
    let props = o.properties.properties.entries@.len();
    let funcs = o.functions.entries@.len();
    "struct "@ + o.name@ + (match o.base_type {
        Some(b) => " : "@ + b@,
        None => Seq::empty(),
    }) + (if props == 0 && funcs == 0 {
        " { }\n\n"@
    } else {
        " {\n"@ + spec_property_lines(o) + (if props > 0 && funcs > 0 {
            "\n"@
        } else {
            Seq::empty()
        }) + spec_function_lines(o) + "};\n\n"@
    })
}

/// The pseudocode of a type; see `spec_struct_text`.
#[verifier::rlimit(40)]
pub fn struct_text(o: &ObjectInfo) -> (r: String)
    ensures
        r@ == spec_struct_text(*o),
{
    let mut out = String::from_str("struct ");
    out.append(o.name.as_str());
    match &o.base_type {
        Some(b) => {
            out.append(" : ");
            out.append(b.as_str());
        },
        None => {
            proof {
                assert(out@ + Seq::<char>::empty() =~= out@);
            }
        },
    }
    let props = o.properties.properties.entries.len();
    let funcs = o.functions.entries.len();
    if props == 0 && funcs == 0 {
        out.append(" { }\n\n");
        return out;
    }
    out.append(" {\n");
    let ghost head = out@;
    let mut i: usize = 0;
    while i < props
        invariant
            props == o.properties.properties.entries@.len(),
            i <= props,
            out@ == head + spec_concat(
                o.properties.properties.entries@.take(i as int).map_values(
                    |e: (String, ObjectProperty)| spec_property_line(e.1),
                ),
            ),
        decreases props - i,
    {
        proof {
            assert(o.properties.properties.entries@.take(i + 1).map_values(
                |e: (String, ObjectProperty)| spec_property_line(e.1),
            ).drop_last() =~= o.properties.properties.entries@.take(i as int).map_values(
                |e: (String, ObjectProperty)| spec_property_line(e.1),
            ));
        }
        let line = property_line(&o.properties.properties.entries[i].1);
        out.append(line.as_str());
        i += 1;
    }
    proof {
        assert(o.properties.properties.entries@.take(props as int) =~= o.properties.properties.entries@);
    }
    if props > 0 && funcs > 0 {
        out.append("\n");
    } else {
        proof {
            assert(out@ + Seq::<char>::empty() =~= out@);
        }
    }
    let ghost middle = out@;
    let mut j: usize = 0;
    while j < funcs
        invariant
            funcs == o.functions.entries@.len(),
            j <= funcs,
            out@ == middle + spec_concat(
                o.functions.entries@.take(j as int).map_values(
                    |e: (String, ObjectFunction)| spec_function_line(e.1),
                ),
            ),
        decreases funcs - j,
    {
        proof {
            assert(o.functions.entries@.take(j + 1).map_values(
                |e: (String, ObjectFunction)| spec_function_line(e.1),
            ).drop_last() =~= o.functions.entries@.take(j as int).map_values(
                |e: (String, ObjectFunction)| spec_function_line(e.1),
            ));
        }
        let line = function_line(&o.functions.entries[j].1);
        out.append(line.as_str());
        j += 1;
    }
    proof {
        assert(o.functions.entries@.take(funcs as int) =~= o.functions.entries@);
    }
    out.append("};\n\n");
    out
}

/// The pseudocode of every reflected type, in registry order.
pub open spec fn spec_pseudocode(registry: ObjectInfoRegistry) -> Seq<char> {
    spec_concat(registry.elements.entries@.map_values(|e: (String, ObjectInfo)| spec_struct_text(e.1)))
}

/// The pseudocode of a registry is one part per registered type, in
/// registry order, and each part opens with `struct` and the type's name.
pub proof fn lemma_pseudocode_one_struct_per_type(registry: ObjectInfoRegistry)
    ensures
        ({
            let parts = registry.elements.entries@.map_values(
                |e: (String, ObjectInfo)| spec_struct_text(e.1),
            );
            &&& spec_pseudocode(registry) == spec_concat(parts)
            &&& parts.len() == registry.elements.entries@.len()
            &&& forall|i: int|
                0 <= i < parts.len() ==> spec_starts_with(
                    #[trigger] parts[i],
                    "struct "@ + registry.elements.entries@[i].1.name@,
                )
        }),
{
    let parts = registry.elements.entries@.map_values(|e: (String, ObjectInfo)| spec_struct_text(e.1));
    assert forall|i: int| 0 <= i < parts.len() implies spec_starts_with(
        #[trigger] parts[i],
        "struct "@ + registry.elements.entries@[i].1.name@,
    ) by {
        let o = registry.elements.entries@[i].1;
        let head = "struct "@ + o.name@;
        assert(parts[i] == spec_struct_text(o));
        assert(spec_struct_text(o).take(head.len() as int) =~= head);
    }
}

/// The C#-like pseudocode of every reflected type; see `spec_pseudocode`.
pub fn pseudocode(registry: &ObjectInfoRegistry) -> (r: String)
    ensures
        r@ == spec_pseudocode(*registry),
{
    let mut out = String::new();
    let n = registry.elements.entries.len();
    let mut i: usize = 0;
    while i < n
        invariant
            n == registry.elements.entries@.len(),
            i <= n,
            out@ == spec_concat(
                registry.elements.entries@.take(i as int).map_values(
                    |e: (String, ObjectInfo)| spec_struct_text(e.1),
                ),
            ),
        decreases n - i,
    {
        proof {
            assert(registry.elements.entries@.take(i + 1).map_values(
                |e: (String, ObjectInfo)| spec_struct_text(e.1),
            ).drop_last() =~= registry.elements.entries@.take(i as int).map_values(
                |e: (String, ObjectInfo)| spec_struct_text(e.1),
            ));
        }
        let text = struct_text(&registry.elements.entries[i].1);
        out.append(text.as_str());
        i += 1;
    }
    proof {
        assert(registry.elements.entries@.take(n as int) =~= registry.elements.entries@);
    }
    out
}

} // verus!
