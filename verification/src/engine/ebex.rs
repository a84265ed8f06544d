//! The engine's reflection data ("ebex"): types, their properties and
//! functions, read from the game's memory.

use vstd::prelude::*;
use vstd::utf8::encode_utf8;

use crate::engine::name_map::{entry_named, NameMap};
use crate::engine::offsets::EngineOffsets;
use crate::engine::native::ebex::{
    ObjectFunctionTypeData, ObjectInfoProperty, ObjectInfoPropertyContainer, ObjectInfoPropertyPair,
    ObjectType, ObjectTypeXV,
};
use crate::engine::native::array::{known_item, spec_array_valid, LuminousDynamicArray};
use crate::engine::native::layout::NativeLayout;
use crate::engine::native::pointer::{spec_debase, spec_pointer_valid, LuminousCString, LuminousPointer};
use crate::engine::native::string::{
    known_cstring, lemma_known_cstring_same, spec_string_size, spec_utf8_lossy, LuminousString,
};
use crate::hash::{fnv1a64, spec_fnv1a64};
use crate::memory::{
    game_type, same_source, spec_determine_game_type, spec_reader_name, LuminousGame, MemoryCursor,
    MemoryError, MemoryReader,
};

verus! {

/// The `Unknown` bit of [`ObjectFunctionFlag`].
pub const FUNCTION_FLAG_UNKNOWN: u32 = 0u32;

/// The `Static` bit of [`ObjectFunctionFlag`].
pub const FUNCTION_FLAG_STATIC: u32 = 1u32;

/// The `Object` bit of [`ObjectFunctionFlag`].
pub const FUNCTION_FLAG_OBJECT: u32 = 2u32;

/// The `None` bit of [`ObjectFunctionTypeFlag`].
pub const TYPE_FLAG_NONE: u32 = 0u32;

/// The `Const` bit of [`ObjectFunctionTypeFlag`].
pub const TYPE_FLAG_CONST: u32 = 1u32;

/// The `Pointer` bit of [`ObjectFunctionTypeFlag`].
pub const TYPE_FLAG_POINTER: u32 = 2u32;

/// The `Reference` bit of [`ObjectFunctionTypeFlag`].
pub const TYPE_FLAG_REFERENCE: u32 = 4u32;

/// The `Void` bit of [`ObjectFunctionTypeFlag`].
pub const TYPE_FLAG_VOID: u32 = 8u32;

/// The `None` bit of [`ObjectInfoAttributeFlag`].
pub const ATTRIBUTE_FLAG_NONE: u32 = 0u32;

/// The `Pointer` bit of [`ObjectInfoAttributeFlag`].
pub const ATTRIBUTE_FLAG_POINTER: u32 = 1u32;

/// The `Reference` bit of [`ObjectInfoAttributeFlag`].
pub const ATTRIBUTE_FLAG_REFERENCE: u32 = 2u32;

/// The `DynamicArray` bit of [`ObjectInfoAttributeFlag`].
pub const ATTRIBUTE_FLAG_DYNAMIC_ARRAY: u32 = 4u32;

/// How a reflected function is called.
#[derive(Debug, Clone, Copy, PartialEq, Eq, Structural, Hash)]
pub struct ObjectFunctionFlag {
    pub bits: u32,
}

impl ObjectFunctionFlag {
    /// The flags with exactly these bits, unknown bits kept.
    pub fn from_bits_retain(bits: u32) -> (r: ObjectFunctionFlag)
        ensures
            r.bits == bits,
    {
        ObjectFunctionFlag { bits }
    }

    /// The raw bits.
    pub fn bits(&self) -> (r: u32)
        ensures
            r == self.bits,
    {
        self.bits
    }

    /// Whether every bit of `other` is set in `self`.
    pub fn contains(&self, other: ObjectFunctionFlag) -> (r: bool)
        ensures
            r == (self.bits & other.bits == other.bits),
    {
        self.bits & other.bits == other.bits
    }
}

/// Qualifiers of a reflected parameter or return type.
#[derive(Debug, Clone, Copy, PartialEq, Eq, Structural, Hash)]
pub struct ObjectFunctionTypeFlag {
    pub bits: u32,
}

impl ObjectFunctionTypeFlag {
    /// The flags with exactly these bits, unknown bits kept.
    pub fn from_bits_retain(bits: u32) -> (r: ObjectFunctionTypeFlag)
        ensures
            r.bits == bits,
    {
        ObjectFunctionTypeFlag { bits }
    }

    /// The raw bits.
    pub fn bits(&self) -> (r: u32)
        ensures
            r == self.bits,
    {
        self.bits
    }

    /// Whether every bit of `other` is set in `self`.
    pub fn contains(&self, other: ObjectFunctionTypeFlag) -> (r: bool)
        ensures
            r == (self.bits & other.bits == other.bits),
    {
        self.bits & other.bits == other.bits
    }
}

/// Attributes of a reflected property.
#[derive(Debug, Clone, Copy, PartialEq, Eq, Structural, Hash)]
pub struct ObjectInfoAttributeFlag {
    pub bits: u32,
}

impl ObjectInfoAttributeFlag {
    /// The flags with exactly these bits, unknown bits kept.
    pub fn from_bits_retain(bits: u32) -> (r: ObjectInfoAttributeFlag)
        ensures
            r.bits == bits,
    {
        ObjectInfoAttributeFlag { bits }
    }

    /// The raw bits.
    pub fn bits(&self) -> (r: u32)
        ensures
            r == self.bits,
    {
        self.bits
    }

    /// Whether every bit of `other` is set in `self`.
    pub fn contains(&self, other: ObjectInfoAttributeFlag) -> (r: bool)
        ensures
            r == (self.bits & other.bits == other.bits),
    {
        self.bits & other.bits == other.bits
    }
}

/// The primitive kinds of reflected values.
#[derive(Debug, Clone, Copy, PartialEq, Eq, Structural, PartialOrd, Ord)]
pub enum ObjectInfoPrimitiveType {
    Unknown,
    ClassField,
    Int8,
    Int16,
    Int32,
    Int64,
    UInt8,
    UInt16,
    UInt32,
    UInt64,
    SizeT,
    Bool,
    Float,
    Double,
    String,
    Pointer,
    Reference,
    Array,
    PointerArray,
    Fixid,
    Float4,
    Color,
    Buffer,
    Enum,
    IntrusivePointerArray,
    Double4,
}

/// The primitive kinds in the order of the engine's own enumeration, whose
/// codes run from 0x0 (`Unknown`) to 0x19 (`Double4`): the kind at index `c`
/// is the one with code `c`.
pub open spec fn engine_primitive_kinds() -> Seq<ObjectInfoPrimitiveType> {
    seq![
        ObjectInfoPrimitiveType::Unknown,
        ObjectInfoPrimitiveType::ClassField,
        ObjectInfoPrimitiveType::Int8,
        ObjectInfoPrimitiveType::Int16,
        ObjectInfoPrimitiveType::Int32,
        ObjectInfoPrimitiveType::Int64,
        ObjectInfoPrimitiveType::UInt8,
        ObjectInfoPrimitiveType::UInt16,
        ObjectInfoPrimitiveType::UInt32,
        ObjectInfoPrimitiveType::UInt64,
        ObjectInfoPrimitiveType::SizeT,
        ObjectInfoPrimitiveType::Bool,
        ObjectInfoPrimitiveType::Float,
        ObjectInfoPrimitiveType::Double,
        ObjectInfoPrimitiveType::String,
        ObjectInfoPrimitiveType::Pointer,
        ObjectInfoPrimitiveType::Reference,
        ObjectInfoPrimitiveType::Array,
        ObjectInfoPrimitiveType::PointerArray,
        ObjectInfoPrimitiveType::Fixid,
        ObjectInfoPrimitiveType::Float4,
        ObjectInfoPrimitiveType::Color,
        ObjectInfoPrimitiveType::Buffer,
        ObjectInfoPrimitiveType::Enum,
        ObjectInfoPrimitiveType::IntrusivePointerArray,
        ObjectInfoPrimitiveType::Double4,
    ]
}

/// Decoding a primitive type code gives the kind of the engine's enumeration
/// whose code it is, every code past the last giving `Unknown`; encoding a
/// kind gives its position in that enumeration, so the two undo each other
/// and no two kinds share a code.
pub proof fn lemma_primitive_codes_follow_engine_order()
    ensures
        engine_primitive_kinds().len() == 26,
        forall|c: u32| c < 26 ==> spec_primitive_type(c) == #[trigger] engine_primitive_kinds()[c as int],
        forall|c: u32| c >= 26 ==> #[trigger] spec_primitive_type(c) == ObjectInfoPrimitiveType::Unknown,
        forall|i: int, j: int|
            0 <= i < 26 && 0 <= j < 26 && i != j ==> engine_primitive_kinds()[i] != engine_primitive_kinds()[j],
        spec_primitive_type(0xc) == ObjectInfoPrimitiveType::Float,
        spec_primitive_type(0xd) == ObjectInfoPrimitiveType::Double,
{
    let k = engine_primitive_kinds();
    assert forall|c: u32| c < 26 implies spec_primitive_type(c) == #[trigger] k[c as int] by {
        assert(k[0] == ObjectInfoPrimitiveType::Unknown);
    }
}

/// The kind with engine code `v`, `Unknown` for codes without a kind.
pub open spec fn spec_primitive_type(v: u32) -> ObjectInfoPrimitiveType {
    match v {
        1 => ObjectInfoPrimitiveType::ClassField,
        2 => ObjectInfoPrimitiveType::Int8,
        3 => ObjectInfoPrimitiveType::Int16,
        4 => ObjectInfoPrimitiveType::Int32,
        5 => ObjectInfoPrimitiveType::Int64,
        6 => ObjectInfoPrimitiveType::UInt8,
        7 => ObjectInfoPrimitiveType::UInt16,
        8 => ObjectInfoPrimitiveType::UInt32,
        9 => ObjectInfoPrimitiveType::UInt64,
        10 => ObjectInfoPrimitiveType::SizeT,
        11 => ObjectInfoPrimitiveType::Bool,
        12 => ObjectInfoPrimitiveType::Float,
        13 => ObjectInfoPrimitiveType::Double,
        14 => ObjectInfoPrimitiveType::String,
        15 => ObjectInfoPrimitiveType::Pointer,
        16 => ObjectInfoPrimitiveType::Reference,
        17 => ObjectInfoPrimitiveType::Array,
        18 => ObjectInfoPrimitiveType::PointerArray,
        19 => ObjectInfoPrimitiveType::Fixid,
        20 => ObjectInfoPrimitiveType::Float4,
        21 => ObjectInfoPrimitiveType::Color,
        22 => ObjectInfoPrimitiveType::Buffer,
        23 => ObjectInfoPrimitiveType::Enum,
        24 => ObjectInfoPrimitiveType::IntrusivePointerArray,
        25 => ObjectInfoPrimitiveType::Double4,
        _ => ObjectInfoPrimitiveType::Unknown,
    }
}

impl ObjectInfoPrimitiveType {
    /// The kind with engine code `v`, `Unknown` for codes without a kind.
    pub fn from_value(v: u32) -> (r: ObjectInfoPrimitiveType)
        ensures
            r == spec_primitive_type(v),
            v < 26 ==> r == engine_primitive_kinds()[v as int],
            v >= 26 ==> r == ObjectInfoPrimitiveType::Unknown,
    {
        match v {
        1 => ObjectInfoPrimitiveType::ClassField,
        2 => ObjectInfoPrimitiveType::Int8,
        3 => ObjectInfoPrimitiveType::Int16,
        4 => ObjectInfoPrimitiveType::Int32,
        5 => ObjectInfoPrimitiveType::Int64,
        6 => ObjectInfoPrimitiveType::UInt8,
        7 => ObjectInfoPrimitiveType::UInt16,
        8 => ObjectInfoPrimitiveType::UInt32,
        9 => ObjectInfoPrimitiveType::UInt64,
        10 => ObjectInfoPrimitiveType::SizeT,
        11 => ObjectInfoPrimitiveType::Bool,
        12 => ObjectInfoPrimitiveType::Float,
        13 => ObjectInfoPrimitiveType::Double,
        14 => ObjectInfoPrimitiveType::String,
        15 => ObjectInfoPrimitiveType::Pointer,
        16 => ObjectInfoPrimitiveType::Reference,
        17 => ObjectInfoPrimitiveType::Array,
        18 => ObjectInfoPrimitiveType::PointerArray,
        19 => ObjectInfoPrimitiveType::Fixid,
        20 => ObjectInfoPrimitiveType::Float4,
        21 => ObjectInfoPrimitiveType::Color,
        22 => ObjectInfoPrimitiveType::Buffer,
        23 => ObjectInfoPrimitiveType::Enum,
        24 => ObjectInfoPrimitiveType::IntrusivePointerArray,
        25 => ObjectInfoPrimitiveType::Double4,
            _ => ObjectInfoPrimitiveType::Unknown,
        }
    }

    /// The engine code of the kind.
    pub fn value(&self) -> (r: u32)
        ensures
            spec_primitive_type(r) == *self,
            r <= 25,
            *self == ObjectInfoPrimitiveType::Unknown ==> r == 0,
            engine_primitive_kinds()[r as int] == *self,
    {
        match self {
            ObjectInfoPrimitiveType::Unknown => 0,
            ObjectInfoPrimitiveType::ClassField => 1,
            ObjectInfoPrimitiveType::Int8 => 2,
            ObjectInfoPrimitiveType::Int16 => 3,
            ObjectInfoPrimitiveType::Int32 => 4,
            ObjectInfoPrimitiveType::Int64 => 5,
            ObjectInfoPrimitiveType::UInt8 => 6,
            ObjectInfoPrimitiveType::UInt16 => 7,
            ObjectInfoPrimitiveType::UInt32 => 8,
            ObjectInfoPrimitiveType::UInt64 => 9,
            ObjectInfoPrimitiveType::SizeT => 10,
            ObjectInfoPrimitiveType::Bool => 11,
            ObjectInfoPrimitiveType::Float => 12,
            ObjectInfoPrimitiveType::Double => 13,
            ObjectInfoPrimitiveType::String => 14,
            ObjectInfoPrimitiveType::Pointer => 15,
            ObjectInfoPrimitiveType::Reference => 16,
            ObjectInfoPrimitiveType::Array => 17,
            ObjectInfoPrimitiveType::PointerArray => 18,
            ObjectInfoPrimitiveType::Fixid => 19,
            ObjectInfoPrimitiveType::Float4 => 20,
            ObjectInfoPrimitiveType::Color => 21,
            ObjectInfoPrimitiveType::Buffer => 22,
            ObjectInfoPrimitiveType::Enum => 23,
            ObjectInfoPrimitiveType::IntrusivePointerArray => 24,
            ObjectInfoPrimitiveType::Double4 => 25,
        }
    }
}

impl Default for ObjectInfoPrimitiveType {
    fn default() -> (r: ObjectInfoPrimitiveType)
        ensures
            r == ObjectInfoPrimitiveType::Unknown,
    {
        ObjectInfoPrimitiveType::Unknown
    }
}

/// Whether `text` is what reading the engine string `s` can give: empty for
/// an empty string, otherwise empty (when the read failed) or the lossy UTF-8
/// text of as many bytes as the string holds.
pub open spec fn string_text(s: LuminousString, text: Seq<char>) -> bool {
    &&& spec_string_size(s.flags) == 0 ==> text.len() == 0
    &&& text.len() == 0 || exists|b: Seq<u8>|
        b.len() == spec_string_size(s.flags) && text == spec_utf8_lossy(b)
}

/// Whether `text` is the text of engine string `s` wherever `reader` knows
/// its bytes: the lossy UTF-8 text of those bytes.
pub open spec fn known_string_text<R: MemoryReader>(reader: R, s: LuminousString, text: Seq<char>) -> bool {
    spec_string_size(s.flags) > 0 ==> (reader.spec_memory(s.address.inner, spec_string_size(s.flags) as nat)
        matches Some(b) ==> text == spec_utf8_lossy(b))
}

/// Whether `text` is the C string at `address` wherever `reader` knows its
/// bytes up to the NUL: the lossy UTF-8 text of the bytes before the NUL.
pub open spec fn known_cstring_text<R: MemoryReader>(reader: R, address: u64, text: Seq<char>) -> bool {
    spec_pointer_valid(address) ==> forall|steps: nat|
        #[trigger] known_cstring(reader, address, steps) matches Some(bs) ==> text == spec_utf8_lossy(bs)
}

/// Whether `text` is what reading a C string can give: the lossy UTF-8 text
/// of bytes without NUL.
pub open spec fn cstring_text(text: Seq<char>) -> bool {
    exists|b: Seq<u8>| (forall|i: int| 0 <= i < b.len() ==> b[i] != 0) && text == spec_utf8_lossy(b)
}

/// Whether `text` is what reading a C string and defaulting to the empty
/// string can give.
pub open spec fn cstring_text_or_empty(text: Seq<char>) -> bool {
    text.len() == 0 || cstring_text(text)
}

/// Whether a cursor still reads the same process at the same position.
pub open spec fn cursor_kept<R: MemoryReader>(a: MemoryCursor<R>, b: MemoryCursor<R>) -> bool {
    a.pos == b.pos && same_source(a.inner, b.inner)
}

/// Reads a C string and gives the empty string when it cannot be read.
pub(crate) fn cstring_or_empty<R: MemoryReader>(s: LuminousCString, reader: &mut R) -> (r: String)
    ensures
        same_source(*old(reader), *final(reader)),
        cstring_text_or_empty(r@),
        !spec_pointer_valid(s.inner.inner) ==> r@.len() == 0,
        spec_pointer_valid(s.inner.inner) ==> forall|steps: nat|
            #[trigger] known_cstring(*old(reader), s.inner.inner, steps) matches Some(bs) ==> r@
                == spec_utf8_lossy(bs),
{
    match s.read(reader) {
        Some(t) => t,
        None => String::new(),
    }
}

/// The constructors and singleton accessor of a reflected type, as offsets
/// from the module base.
#[derive(Debug, Clone, Copy)]
pub struct ObjectClassFunctions {
    pub construct: u64,
    pub construct_inherited: u64,
    pub singleton: u64,
}

impl ObjectClassFunctions {
    /// The class functions of a type in the Final Fantasy XV layout.
    pub fn new_xv<R: MemoryReader>(reader: &mut MemoryCursor<R>, dto: ObjectTypeXV) -> (r: Self)
        ensures
            cursor_kept(*old(reader), *final(reader)),
            r.construct == spec_debase(dto.func1.inner, old(reader).inner.spec_base_address()),
            r.construct_inherited == spec_debase(dto.func2.inner, old(reader).inner.spec_base_address()),
            r.singleton == spec_debase(dto.func3.inner, old(reader).inner.spec_base_address()),
    {
        let base = reader.inner.get_base_address();
        ObjectClassFunctions {
            construct: dto.func1.debase(base),
            construct_inherited: dto.func2.debase(base),
            singleton: dto.func3.debase(base),
        }
    }

    /// The class functions of a type in the Forspoken layout.
    pub fn new<R: MemoryReader>(reader: &mut MemoryCursor<R>, dto: ObjectType) -> (r: Self)
        ensures
            cursor_kept(*old(reader), *final(reader)),
            r.construct == spec_debase(dto.func1.inner, old(reader).inner.spec_base_address()),
            r.construct_inherited == spec_debase(dto.func2.inner, old(reader).inner.spec_base_address()),
            r.singleton == spec_debase(dto.func3.inner, old(reader).inner.spec_base_address()),
    {
        let base = reader.inner.get_base_address();
        ObjectClassFunctions {
            construct: dto.func1.debase(base),
            construct_inherited: dto.func2.debase(base),
            singleton: dto.func3.debase(base),
        }
    }
}

/// A reflected property of a type.
#[derive(Debug)]
pub struct ObjectProperty {
    pub name: String,
    /// CRC-32 of the name.
    pub hash_code: u32,
    pub type_label: String,
    pub offset: usize,
    pub size: usize,
    pub item_count: usize,
    pub primitive_type: ObjectInfoPrimitiveType,
    pub item_primitive_type: ObjectInfoPrimitiveType,
    pub attributes: ObjectInfoAttributeFlag,
}

/// What a property record gives depends only on the known bytes.
proof fn lemma_property_from_same<R: MemoryReader>(a: R, b: R, dto: ObjectInfoProperty, p: ObjectProperty)
    requires
        same_source(a, b),
    ensures
        property_from(a, dto, p) == property_from(b, dto, p),
{
    assert(a.spec_memory(dto.name.address.inner, spec_string_size(dto.name.flags) as nat) == b.spec_memory(
        dto.name.address.inner,
        spec_string_size(dto.name.flags) as nat,
    ));
    assert(a.spec_memory(dto.type_label.address.inner, spec_string_size(dto.type_label.flags) as nat)
        == b.spec_memory(dto.type_label.address.inner, spec_string_size(dto.type_label.flags) as nat));
}

/// Whether `p` is what a read of the property record `dto` gives: its name
/// and type name where the reader knows their bytes, and the rest from the
/// record itself.
pub open spec fn property_from<R: MemoryReader>(reader: R, dto: ObjectInfoProperty, p: ObjectProperty) -> bool {
    &&& string_text(dto.name, p.name@)
    &&& string_text(dto.type_label, p.type_label@)
    &&& known_string_text(reader, dto.name, p.name@)
    &&& known_string_text(reader, dto.type_label, p.type_label@)
    &&& p.hash_code == dto.hash_code
    &&& p.offset == dto.offset
    &&& p.size == dto.size
    &&& p.item_count == dto.item_count
    &&& p.primitive_type == spec_primitive_type(dto.primitive_type as u32)
    &&& p.item_primitive_type == spec_primitive_type(dto.item_primitive_type as u32)
    &&& p.attributes.bits == dto.attributes as u32
}

/// The properties of `ps` by name, a later property replacing an earlier
/// one of the same name.
pub open spec fn properties_registered(ps: Seq<ObjectProperty>) -> Map<Seq<char>, ObjectProperty>
    decreases ps.len(),
{
    if ps.len() == 0 {
        Map::empty()
    } else {
        properties_registered(ps.drop_last()).insert(ps.last().name@, ps.last())
    }
}

/// Whether `ps` are the properties that the records of the property array
/// `a` give, each from its record where the reader knows it
/// (`property_from`).
pub open spec fn properties_from_items<R: MemoryReader>(
    reader: R,
    a: LuminousDynamicArray<ObjectInfoProperty>,
    ps: Seq<ObjectProperty>,
) -> bool {
    forall|k: int|
        0 <= k < ps.len() ==> (known_item::<R, ObjectInfoProperty>(reader, (a.inner.inner + 8 * k) as u64)
            matches Some(x) ==> property_from(reader, x, #[trigger] ps[k]))
}

impl ObjectProperty {
    /// Reads a property: its name and type name from memory, the rest from
    /// the record itself.
    pub fn new<R: MemoryReader>(reader: &mut MemoryCursor<R>, dto: ObjectInfoProperty) -> (r: Self)
        ensures
            cursor_kept(*old(reader), *final(reader)),
            string_text(dto.name, r.name@),
            string_text(dto.type_label, r.type_label@),
            known_string_text(old(reader).inner, dto.name, r.name@),
            known_string_text(old(reader).inner, dto.type_label, r.type_label@),
            r.hash_code == dto.hash_code,
            r.offset == dto.offset,
            r.size == dto.size,
            r.item_count == dto.item_count,
            r.primitive_type == spec_primitive_type(dto.primitive_type as u32),
            r.item_primitive_type == spec_primitive_type(dto.item_primitive_type as u32),
            r.attributes.bits == dto.attributes as u32,
    {
        let name = dto.name.as_string(&mut reader.inner);
        let type_label = dto.type_label.as_string(&mut reader.inner);
        ObjectProperty {
            name,
            hash_code: dto.hash_code,
            type_label,
            offset: dto.offset as usize,
            size: dto.size as usize,
            item_count: dto.item_count as usize,
            primitive_type: ObjectInfoPrimitiveType::from_value(dto.primitive_type as u32),
            item_primitive_type: ObjectInfoPrimitiveType::from_value(dto.item_primitive_type as u32),
            attributes: ObjectInfoAttributeFlag::from_bits_retain(dto.attributes as u32),
        }
    }
}

/// A parameter or return type of a reflected function.
#[derive(Debug)]
pub struct ObjectFunctionType {
    pub primitive_type: ObjectInfoPrimitiveType,
    pub type_flag: ObjectFunctionTypeFlag,
    /// FNV-1a 32 of the type name.
    pub type_name_hash: u32,
    pub type_label: String,
    pub item_primitive_type: ObjectInfoPrimitiveType,
    pub item_type_flag: ObjectFunctionTypeFlag,
    /// FNV-1a 32 of the item type name.
    pub item_type_name_hash: u32,
    pub item_type_name: Option<String>,
}

impl ObjectFunctionType {
    /// Reads a parameter or return type: its names from memory, the rest from
    /// the record itself. It always succeeds.
    pub fn new<R: MemoryReader>(reader: &mut MemoryCursor<R>, dto: ObjectFunctionTypeData) -> (r:
        Result<Self, MemoryError>)
        ensures
            cursor_kept(*old(reader), *final(reader)),
            r matches Ok(t) && {
                &&& t.primitive_type == spec_primitive_type(dto.primitive_type)
                &&& t.type_flag.bits == dto.type_flag
                &&& t.type_name_hash == dto.type_name_hash
                &&& cstring_text_or_empty(t.type_label@)
                &&& (!spec_pointer_valid(dto.type_label.inner.inner) ==> t.type_label@.len() == 0)
                &&& t.item_primitive_type == spec_primitive_type(dto.item_primitive_type)
                &&& t.item_type_flag.bits == dto.item_type_flag
                &&& t.item_type_name_hash == dto.item_type_name_hash
                &&& (!spec_pointer_valid(dto.item_type_name.inner.inner) ==> t.item_type_name is None)
                &&& (t.item_type_name matches Some(n) ==> cstring_text(n@))
                &&& known_cstring_text(old(reader).inner, dto.type_label.inner.inner, t.type_label@)
                &&& (spec_pointer_valid(dto.item_type_name.inner.inner) ==> forall|steps: nat|
                    #[trigger] known_cstring(old(reader).inner, dto.item_type_name.inner.inner, steps)
                        matches Some(bs) ==> t.item_type_name matches Some(n) && n@ == spec_utf8_lossy(bs))
            },
    {
        let ghost first = reader.inner;
        let type_label = cstring_or_empty(dto.type_label, &mut reader.inner);
        let ghost second = reader.inner;
        let item_type_name = dto.item_type_name.read(&mut reader.inner);
        proof {
            assert forall|steps: nat| #[trigger] known_cstring(first, dto.item_type_name.inner.inner, steps)
                == known_cstring(second, dto.item_type_name.inner.inner, steps) by {
                lemma_known_cstring_same(first, second, dto.item_type_name.inner.inner, steps);
            }
        }
        Ok(ObjectFunctionType {
            primitive_type: ObjectInfoPrimitiveType::from_value(dto.primitive_type),
            type_flag: ObjectFunctionTypeFlag::from_bits_retain(dto.type_flag),
            type_name_hash: dto.type_name_hash,
            type_label,
            item_primitive_type: ObjectInfoPrimitiveType::from_value(dto.item_primitive_type),
            item_type_flag: ObjectFunctionTypeFlag::from_bits_retain(dto.item_type_flag),
            item_type_name_hash: dto.item_type_name_hash,
            item_type_name,
        })
    }
}

/// A reflected function: its name, flags, entry points as offsets from the
/// module base, and signature.
#[derive(Debug)]
pub struct ObjectFunction {
    pub name: String,
    pub flags: ObjectFunctionFlag,
    pub function: LuminousPointer<()>,
    pub function_dynamic: LuminousPointer<()>,
    pub return_type: ObjectFunctionType,
    pub argument_types: Vec<ObjectFunctionType>,
}

/// An offset computed by `debase` stays in the lower half of the address space.
pub proof fn lemma_debase_bounded(address: u64, base: u64)
    ensures
        spec_debase(address, base) <= i64::MAX,
{
}

/// Whether a parameter or return type holds the fields of its record `d`.
pub open spec fn function_type_from(t: ObjectFunctionType, d: ObjectFunctionTypeData) -> bool {
    &&& t.primitive_type == spec_primitive_type(d.primitive_type)
    &&& t.type_flag.bits == d.type_flag
    &&& t.type_name_hash == d.type_name_hash
    &&& t.item_primitive_type == spec_primitive_type(d.item_primitive_type)
    &&& t.item_type_flag.bits == d.item_type_flag
    &&& t.item_type_name_hash == d.item_type_name_hash
}

/// The address of argument record `i` of the array at `start`.
pub open spec fn argument_slot(start: u64, i: int) -> u64 {
    (start + 48 * i) as u64
}

/// Whether `f` is what a read of the function record `dto` gives: its
/// argument count and flags, its entry points relative to the reader's base
/// address, its name where the reader knows the C string, its return type,
/// and each argument type whose record the reader knows.
pub open spec fn function_from<R: MemoryReader>(
    reader: R,
    dto: crate::engine::native::ebex::ObjectFunction,
    f: ObjectFunction,
) -> bool {
    &&& f.argument_types@.len() == dto.argument_count
    &&& f.flags.bits == dto.flags
    &&& f.function.inner == spec_debase(dto.function.inner, reader.spec_base_address())
    &&& f.function_dynamic.inner == spec_debase(dto.function_dynamic.inner, reader.spec_base_address())
    &&& cstring_text_or_empty(f.name@)
    &&& known_cstring_text(reader, dto.name.inner.inner, f.name@)
    &&& function_type_from(f.return_type, dto.return_type)
    &&& forall|i: int|
        0 <= i < dto.argument_count ==> (reader.spec_memory(argument_slot(dto.argument_types.inner, i), 48)
            matches Some(b) ==> function_type_from(
            #[trigger] f.argument_types@[i],
            ObjectFunctionTypeData::from_layout(b),
        ))
}

/// What a function record gives depends only on the reader's base address
/// and known bytes.
proof fn lemma_function_from_same<R: MemoryReader>(
    a: R,
    b: R,
    dto: crate::engine::native::ebex::ObjectFunction,
    f: ObjectFunction,
)
    requires
        same_source(a, b),
    ensures
        function_from(a, dto, f) == function_from(b, dto, f),
{
    assert forall|steps: nat|
        #![trigger known_cstring(a, dto.name.inner.inner, steps)]
        #![trigger known_cstring(b, dto.name.inner.inner, steps)]
        known_cstring(a, dto.name.inner.inner, steps) == known_cstring(b, dto.name.inner.inner, steps) by {
        lemma_known_cstring_same(a, b, dto.name.inner.inner, steps);
    }
    assert forall|i: int|
        #![trigger a.spec_memory(argument_slot(dto.argument_types.inner, i), 48)]
        #![trigger b.spec_memory(argument_slot(dto.argument_types.inner, i), 48)]
        0 <= i < dto.argument_count implies a.spec_memory(argument_slot(dto.argument_types.inner, i), 48)
        == b.spec_memory(argument_slot(dto.argument_types.inner, i), 48) by {}
}

/// The functions of `fs` by name, a later function replacing an earlier one
/// of the same name.
pub open spec fn functions_registered(fs: Seq<ObjectFunction>) -> Map<Seq<char>, ObjectFunction>
    decreases fs.len(),
{
    if fs.len() == 0 {
        Map::empty()
    } else {
        functions_registered(fs.drop_last()).insert(fs.last().name@, fs.last())
    }
}

/// Whether `fs` are the functions that reading the `fs.len()` consecutive
/// function records from `start` gives, each from its record where the
/// reader knows it (`function_from`).
pub open spec fn functions_from_records<R: MemoryReader>(reader: R, start: u64, fs: Seq<ObjectFunction>) -> bool {
    forall|i: int|
        0 <= i < fs.len() ==> (reader.spec_memory((start + 96 * i) as u64, 96) matches Some(b)
            ==> function_from(
            reader,
            crate::engine::native::ebex::ObjectFunction::from_layout(b),
            #[trigger] fs[i],
        ))
}

/// What function records give depends only on the reader's base address
/// and known bytes.
proof fn lemma_functions_from_records_same<R: MemoryReader>(
    a: R,
    b: R,
    start: u64,
    fs: Seq<ObjectFunction>,
)
    requires
        same_source(a, b),
    ensures
        functions_from_records(a, start, fs) == functions_from_records(b, start, fs),
{
    assert forall|i: int| 0 <= i < fs.len() implies (a.spec_memory((start + 96 * i) as u64, 96) matches Some(
        bytes,
    ) ==> function_from(
        a,
        crate::engine::native::ebex::ObjectFunction::from_layout(bytes),
        #[trigger] fs[i],
    )) == (b.spec_memory((start + 96 * i) as u64, 96) matches Some(bytes) ==> function_from(
        b,
        crate::engine::native::ebex::ObjectFunction::from_layout(bytes),
        fs[i],
    )) by {
        assert(a.spec_memory((start + 96 * i) as u64, 96) == b.spec_memory((start + 96 * i) as u64, 96));
        if let Some(bytes) = a.spec_memory((start + 96 * i) as u64, 96) {
            lemma_function_from_same(a, b, crate::engine::native::ebex::ObjectFunction::from_layout(bytes), fs[i]);
        }
    }
}

impl ObjectFunction {
    /// Reads a reflected function: the return type, then each argument type
    /// from the argument array, then the name. Fails when the read of an
    /// argument record fails; where the reader knows every argument record,
    /// each at a valid address, it succeeds and each argument type holds the
    /// fields of its known record.
    pub fn new<R: MemoryReader>(
        reader: &mut MemoryCursor<R>,
        dto: crate::engine::native::ebex::ObjectFunction,
    ) -> (r: Result<Self, MemoryError>)
        ensures
            cursor_kept(*old(reader), *final(reader)),
            dto.argument_count > 0 && !spec_pointer_valid(dto.argument_types.inner) ==> r is Err,
            r matches Ok(f) ==> {
                &&& f.argument_types@.len() == dto.argument_count
                &&& f.flags.bits == dto.flags
                &&& f.function.inner == spec_debase(dto.function.inner, old(reader).inner.spec_base_address())
                &&& f.function_dynamic.inner == spec_debase(
                    dto.function_dynamic.inner,
                    old(reader).inner.spec_base_address(),
                )
                &&& cstring_text_or_empty(f.name@)
                &&& known_cstring_text(old(reader).inner, dto.name.inner.inner, f.name@)
                &&& function_type_from(f.return_type, dto.return_type)
                &&& forall|i: int|
                    0 <= i < dto.argument_count ==> (old(reader).inner.spec_memory(
                        argument_slot(dto.argument_types.inner, i),
                        48,
                    ) matches Some(b) ==> function_type_from(
                        #[trigger] f.argument_types@[i],
                        ObjectFunctionTypeData::from_layout(b),
                    ))
            },
            (forall|i: int|
                0 <= i < dto.argument_count ==> spec_pointer_valid(argument_slot(dto.argument_types.inner, i))
                    && #[trigger] old(reader).inner.spec_memory(argument_slot(dto.argument_types.inner, i), 48)
                    is Some) ==> r is Ok,
            r matches Ok(f) ==> function_from(old(reader).inner, dto, f),
    {
        let ghost first = reader.inner;
        let base = reader.inner.get_base_address();
        let return_type = match ObjectFunctionType::new(reader, dto.return_type) {
            Ok(t) => t,
            Err(e) => {
                return Err(e);
            },
        };
        let mut argument_types_ptr: LuminousPointer<ObjectFunctionTypeData> = LuminousPointer::new(
            dto.argument_types.inner,
        );
        let mut argument_types: Vec<ObjectFunctionType> = Vec::new();
        let mut i: u32 = 0;
        while i < dto.argument_count
            invariant
                cursor_kept(*old(reader), *reader),
                i <= dto.argument_count,
                argument_types@.len() == i,
                i == 0 ==> argument_types_ptr.inner == dto.argument_types.inner,
                i > 0 ==> spec_pointer_valid(dto.argument_types.inner),
                argument_types_ptr.inner == dto.argument_types.inner + 48 * i,
                same_source(first, reader.inner),
                function_type_from(return_type, dto.return_type),
                forall|j: int|
                    0 <= j < i ==> (first.spec_memory(argument_slot(dto.argument_types.inner, j), 48) matches Some(
                        b,
                    ) ==> function_type_from(
                        #[trigger] argument_types@[j],
                        ObjectFunctionTypeData::from_layout(b),
                    )),
            decreases dto.argument_count - i,
        {
            proof {
                assert(argument_slot(dto.argument_types.inner, i as int) == argument_types_ptr.inner);
            }
            let item_dto = match argument_types_ptr.read(&mut reader.inner) {
                Ok(d) => d,
                Err(e) => {
                    proof {
                        assert(!(forall|j: int|
                            0 <= j < dto.argument_count ==> spec_pointer_valid(
                                argument_slot(dto.argument_types.inner, j),
                            ) && #[trigger] first.spec_memory(argument_slot(dto.argument_types.inner, j), 48)
                                is Some)) by {
                            assert(0 <= i < dto.argument_count);
                        }
                    }
                    return Err(e);
                },
            };
            let item = match ObjectFunctionType::new(reader, item_dto) {
                Ok(t) => t,
                Err(e) => {
                    return Err(e);
                },
            };
            let ghost before = argument_types@;
            argument_types.push(item);
            proof {
                assert forall|j: int|
                    0 <= j < i + 1 implies (first.spec_memory(argument_slot(dto.argument_types.inner, j), 48)
                        matches Some(b) ==> function_type_from(
                        #[trigger] argument_types@[j],
                        ObjectFunctionTypeData::from_layout(b),
                    )) by {
                    if j < i {
                        assert(argument_types@[j] == before[j]);
                    }
                }
            }
            argument_types_ptr = argument_types_ptr.offset(48);
            i += 1;
        }
        let ghost last = reader.inner;
        let name = cstring_or_empty(dto.name, &mut reader.inner);
        proof {
            assert forall|steps: nat| #[trigger] known_cstring(first, dto.name.inner.inner, steps)
                == known_cstring(last, dto.name.inner.inner, steps) by {
                lemma_known_cstring_same(first, last, dto.name.inner.inner, steps);
            }
        }
        Ok(ObjectFunction {
            name,
            flags: ObjectFunctionFlag::from_bits_retain(dto.flags),
            function: dto.function.debase_typed(base),
            function_dynamic: dto.function_dynamic.debase_typed(base),
            return_type,
            argument_types,
        })
    }
}

/// The property table of a reflected type.
#[derive(Debug)]
pub struct ObjectInfoProperties {
    pub type_label: String,
    /// FNV-1a 64 of the type name.
    pub type_id: u64,
    pub base_type: Option<String>,
    /// CRC-32 of the name.
    pub hash_code: u32,
    pub version_hash_code: u32,
    pub all_properties_class_field_count: usize,
    pub properties: NameMap<ObjectProperty>,
}

/// The FNV-1a 64 hash of the UTF-8 encoding of `s`.
pub open spec fn text_id(s: Seq<char>) -> u64 {
    spec_fnv1a64(encode_utf8(s))
}

impl ObjectInfoProperties {
    /// A table without properties, names or hashes.
    pub fn empty() -> (r: Self)
        ensures
            r.type_label@.len() == 0,
            r.type_id == 0,
            r.base_type is None,
            r.hash_code == 0,
            r.version_hash_code == 0,
            r.all_properties_class_field_count == 0,
            r.properties.wf(),
            r.properties.entries@.len() == 0,
    {
        ObjectInfoProperties {
            type_label: String::new(),
            type_id: 0,
            base_type: None,
            hash_code: 0,
            version_hash_code: 0,
            all_properties_class_field_count: 0,
            properties: NameMap::new(),
        }
    }

    /// Reads a property table: the type's own properties, keyed by name (a
    /// later property replaces an earlier one of the same name), the type
    /// name and its hash, and the name of the parent table's type. Fails when
    /// the property array cannot be read.
    pub fn new<R: MemoryReader>(reader: &mut MemoryCursor<R>, dto: ObjectInfoPropertyContainer) -> (r:
        Result<Self, MemoryError>)
        requires
            dto.parent_properties.inner + 16 <= u64::MAX,
        ensures
            cursor_kept(*old(reader), *final(reader)),
            dto.my_properties.size == 0 ==> r is Ok,
            property_array_known(old(reader).inner, dto.my_properties) ==> r is Ok,
            r matches Ok(p) ==> exists|ps: Seq<ObjectProperty>|
                {
                    &&& ps.len() == dto.my_properties.size
                    &&& #[trigger] properties_from_items(old(reader).inner, dto.my_properties, ps)
                    &&& p.properties.map_view() == properties_registered(ps)
                },
            r matches Ok(p) ==> {
                &&& p.properties.wf()
                &&& p.properties.entries@.len() <= dto.my_properties.size
                &&& string_text(dto.type_label, p.type_label@)
                &&& p.type_id == text_id(p.type_label@)
                &&& p.hash_code == dto.hash_code
                &&& p.version_hash_code == dto.version_hash_code
                &&& p.all_properties_class_field_count == dto.all_properties_class_field_count
                &&& (!spec_pointer_valid((dto.parent_properties.inner + 16) as u64) ==> p.base_type is None)
            },
    {
        let mut properties: NameMap<ObjectProperty> = NameMap::new();
        let ghost mut ps: Seq<ObjectProperty> = Seq::empty();
        if dto.my_properties.size > 0 {
            let list = match dto.my_properties.read(&mut reader.inner) {
                Ok(l) => l,
                Err(e) => {
                    return Err(e);
                },
            };
            let mut i: usize = 0;
            while i < list.len()
                invariant
                    cursor_kept(*old(reader), *reader),
                    i <= list@.len(),
                    list@.len() == dto.my_properties.size,
                    properties.wf(),
                    properties.entries@.len() <= i,
                    ps.len() == i,
                    forall|k: int|
                        0 <= k < list@.len() ==> (known_item::<R, ObjectInfoProperty>(
                            old(reader).inner,
                            (dto.my_properties.inner.inner + 8 * k) as u64,
                        ) matches Some(x) ==> #[trigger] list@[k] == x),
                    properties_from_items(old(reader).inner, dto.my_properties, ps),
                    properties.map_view() == properties_registered(ps),
                decreases list@.len() - i,
            {
                let item = list[i];
                let ghost before = reader.inner;
                let property = ObjectProperty::new(reader, item);
                proof {
                    lemma_property_from_same(old(reader).inner, before, item, property);
                    let ghost prev = ps;
                    ps = ps.push(property);
                    assert(ps.drop_last() =~= prev);
                    assert forall|k: int| 0 <= k < ps.len() implies (known_item::<R, ObjectInfoProperty>(
                        old(reader).inner,
                        (dto.my_properties.inner.inner + 8 * k) as u64,
                    ) matches Some(x) ==> property_from(old(reader).inner, x, #[trigger] ps[k])) by {
                        if k < prev.len() {
                            assert(ps[k] == prev[k]);
                        } else {
                            assert(list@[k] == item);
                        }
                    }
                }
                let key = property.name.clone();
                properties.insert(key, property);
                i += 1;
            }
        }
        assert(properties_from_items(old(reader).inner, dto.my_properties, ps));
        assert(ps.len() == dto.my_properties.size);
        let type_label = dto.type_label.as_string(&mut reader.inner);
        let type_id = fnv1a64(type_label.as_str().as_bytes());
        let base_type = ObjectInfo::read_base_type(
            reader,
            LuminousPointer::new(dto.parent_properties.inner + 16),
        );
        Ok(ObjectInfoProperties {
            type_label,
            type_id,
            base_type,
            hash_code: dto.hash_code,
            version_hash_code: dto.version_hash_code,
            all_properties_class_field_count: dto.all_properties_class_field_count as usize,
            properties,
        })
    }
}

/// Whether the reader knows the function record at `address`, at a valid
/// address, and every argument record it lists, each at a valid address.
pub open spec fn function_record_known<R: MemoryReader>(reader: R, address: u64) -> bool {
    &&& spec_pointer_valid(address)
    &&& reader.spec_memory(address, 96) matches Some(b)
    &&& {
        let f = crate::engine::native::ebex::ObjectFunction::from_layout(b);
        forall|i: int|
            0 <= i < f.argument_count ==> spec_pointer_valid(argument_slot(f.argument_types.inner, i))
                && #[trigger] reader.spec_memory(argument_slot(f.argument_types.inner, i), 48) is Some
    }
}

/// Whether the reader knows all that reading the `count` consecutive
/// function records from `start` reads (`function_record_known`).
pub open spec fn functions_readable<R: MemoryReader>(reader: R, start: u64, count: nat) -> bool {
    forall|i: int| 0 <= i < count ==> #[trigger] function_record_known(reader, (start + 96 * i) as u64)
}

/// Whether the reader knows every property record of the property array
/// `a`, whose header is usable, each through a valid slot.
pub open spec fn property_array_known<R: MemoryReader>(
    reader: R,
    a: LuminousDynamicArray<ObjectInfoProperty>,
) -> bool {
    &&& spec_array_valid(a.inner.inner, a.size, a.capacity)
    &&& forall|k: int|
        0 <= k < a.size ==> spec_pointer_valid((a.inner.inner + 8 * k) as u64)
            && #[trigger] known_item::<R, ObjectInfoProperty>(reader, (a.inner.inner + 8 * k) as u64) is Some
}

/// Whether the reader knows all that reading the property table at
/// `container` reads, so that the read succeeds: nothing for an invalid
/// address, else the table record, whose parent pointer leaves room for the
/// parent's name, and its own property records.
pub open spec fn properties_readable<R: MemoryReader>(reader: R, container: u64) -> bool {
    spec_pointer_valid(container) ==> {
        &&& reader.spec_memory(container, ObjectInfoPropertyContainer::layout_size()) matches Some(b)
        &&& {
            let c = ObjectInfoPropertyContainer::from_layout(b);
            &&& c.parent_properties.inner + 16 <= u64::MAX
            &&& c.my_properties.size == 0 || property_array_known(reader, c.my_properties)
        }
    }
}

/// Whether the property table `p` carries the hashes and the field count of
/// the table record `c`.
pub open spec fn properties_from_record(p: ObjectInfoProperties, c: ObjectInfoPropertyContainer) -> bool {
    &&& p.hash_code == c.hash_code
    &&& p.version_hash_code == c.version_hash_code
    &&& p.all_properties_class_field_count == c.all_properties_class_field_count
}

/// Whether `p` is what a read of the property table at `container` gives
/// where the reader knows the table record: its hashes and field count.
pub open spec fn properties_at<R: MemoryReader>(reader: R, container: u64, p: ObjectInfoProperties) -> bool {
    spec_pointer_valid(container) ==> (reader.spec_memory(container, ObjectInfoPropertyContainer::layout_size())
        matches Some(b) ==> {
        let c = ObjectInfoPropertyContainer::from_layout(b);
        &&& properties_from_record(p, c)
        &&& exists|ps: Seq<ObjectProperty>|
            {
                &&& ps.len() == c.my_properties.size
                &&& #[trigger] properties_from_items(reader, c.my_properties, ps)
                &&& p.properties.map_view() == properties_registered(ps)
            }
    })
}

/// What property records give depends only on the known bytes.
proof fn lemma_properties_from_items_same<R: MemoryReader>(
    a: R,
    b: R,
    arr: LuminousDynamicArray<ObjectInfoProperty>,
    ps: Seq<ObjectProperty>,
)
    requires
        same_source(a, b),
    ensures
        properties_from_items(a, arr, ps) == properties_from_items(b, arr, ps),
{
    assert forall|k: int| 0 <= k < ps.len() implies (known_item::<R, ObjectInfoProperty>(
        a,
        (arr.inner.inner + 8 * k) as u64,
    ) matches Some(x) ==> property_from(a, x, #[trigger] ps[k])) == (known_item::<R, ObjectInfoProperty>(
        b,
        (arr.inner.inner + 8 * k) as u64,
    ) matches Some(x) ==> property_from(b, x, ps[k])) by {
        let slot = (arr.inner.inner + 8 * k) as u64;
        assert(a.spec_memory(slot, 8) == b.spec_memory(slot, 8));
        if let Some(bytes) = a.spec_memory(slot, 8) {
            let q = LuminousPointer::<ObjectInfoProperty>::from_layout(bytes);
            assert(a.spec_memory(q.inner, ObjectInfoProperty::layout_size()) == b.spec_memory(
                q.inner,
                ObjectInfoProperty::layout_size(),
            ));
        }
        if let Some(x) = known_item::<R, ObjectInfoProperty>(a, slot) {
            lemma_property_from_same(a, b, x, ps[k]);
        }
    }
}

/// What a property table gives depends only on the known bytes.
proof fn lemma_properties_at_same<R: MemoryReader>(a: R, b: R, container: u64, p: ObjectInfoProperties)
    requires
        same_source(a, b),
    ensures
        properties_at(a, container, p) ==> properties_at(b, container, p),
{
    assert(a.spec_memory(container, ObjectInfoPropertyContainer::layout_size()) == b.spec_memory(
        container,
        ObjectInfoPropertyContainer::layout_size(),
    ));
    if properties_at(a, container, p) && spec_pointer_valid(container) {
        if let Some(bytes) = a.spec_memory(container, ObjectInfoPropertyContainer::layout_size()) {
            let c = ObjectInfoPropertyContainer::from_layout(bytes);
            let ps = choose|ps: Seq<ObjectProperty>|
                {
                    &&& ps.len() == c.my_properties.size
                    &&& #[trigger] properties_from_items(a, c.my_properties, ps)
                    &&& p.properties.map_view() == properties_registered(ps)
                };
            lemma_properties_from_items_same(a, b, c.my_properties, ps);
            assert(properties_from_items(b, c.my_properties, ps));
        }
    }
}

/// What a reader knows of a property array depends only on its known bytes.
proof fn lemma_property_array_known_same<R: MemoryReader>(
    a: R,
    b: R,
    arr: LuminousDynamicArray<ObjectInfoProperty>,
)
    requires
        forall|x: u64, n: nat| #[trigger] b.spec_memory(x, n) == a.spec_memory(x, n),
    ensures
        property_array_known(a, arr) == property_array_known(b, arr),
{
    assert forall|k: int|
        #![trigger known_item::<R, ObjectInfoProperty>(a, (arr.inner.inner + 8 * k) as u64)]
        #![trigger known_item::<R, ObjectInfoProperty>(b, (arr.inner.inner + 8 * k) as u64)]
        0 <= k < arr.size implies known_item::<R, ObjectInfoProperty>(
        a,
        (arr.inner.inner + 8 * k) as u64,
    ) == known_item::<R, ObjectInfoProperty>(b, (arr.inner.inner + 8 * k) as u64) by {
        let slot = (arr.inner.inner + 8 * k) as u64;
        assert(a.spec_memory(slot, 8) == b.spec_memory(slot, 8));
        if let Some(bytes) = a.spec_memory(slot, 8) {
            let p = LuminousPointer::<ObjectInfoProperty>::from_layout(bytes);
            assert(a.spec_memory(p.inner, ObjectInfoProperty::layout_size()) == b.spec_memory(
                p.inner,
                ObjectInfoProperty::layout_size(),
            ));
        }
    }
}

/// What a reader can read of a property table depends only on its known
/// bytes.
proof fn lemma_properties_readable_same<R: MemoryReader>(a: R, b: R, container: u64)
    requires
        forall|x: u64, n: nat| #[trigger] b.spec_memory(x, n) == a.spec_memory(x, n),
    ensures
        properties_readable(a, container) == properties_readable(b, container),
{
    assert(a.spec_memory(container, ObjectInfoPropertyContainer::layout_size()) == b.spec_memory(
        container,
        ObjectInfoPropertyContainer::layout_size(),
    ));
    if let Some(bytes) = a.spec_memory(container, ObjectInfoPropertyContainer::layout_size()) {
        lemma_property_array_known_same(a, b, ObjectInfoPropertyContainer::from_layout(bytes).my_properties);
    }
}

/// What a reader can read of function records depends only on its known
/// bytes.
proof fn lemma_functions_readable_same<R: MemoryReader>(a: R, b: R, start: u64, count: nat)
    requires
        forall|x: u64, n: nat| #[trigger] b.spec_memory(x, n) == a.spec_memory(x, n),
    ensures
        functions_readable(a, start, count) == functions_readable(b, start, count),
{
    assert forall|i: int|
        #![trigger function_record_known(a, (start + 96 * i) as u64)]
        #![trigger function_record_known(b, (start + 96 * i) as u64)]
        0 <= i < count implies function_record_known(a, (start + 96 * i) as u64) == function_record_known(
        b,
        (start + 96 * i) as u64,
    ) by {
        let address = (start + 96 * i) as u64;
        assert(a.spec_memory(address, 96) == b.spec_memory(address, 96));
        if let Some(bytes) = a.spec_memory(address, 96) {
            let f = crate::engine::native::ebex::ObjectFunction::from_layout(bytes);
            assert forall|j: int|
                #![trigger a.spec_memory(argument_slot(f.argument_types.inner, j), 48)]
                #![trigger b.spec_memory(argument_slot(f.argument_types.inner, j), 48)]
                0 <= j < f.argument_count implies a.spec_memory(argument_slot(f.argument_types.inner, j), 48)
                == b.spec_memory(argument_slot(f.argument_types.inner, j), 48) by {}
        }
    }
}

/// A reflected type.
#[derive(Debug)]
pub struct ObjectInfo {
    pub name: String,
    /// FNV-1a 64 of the name.
    pub type_id: u64,
    pub base_type: Option<String>,
    /// CRC-32 of the name.
    pub this_id: u32,
    pub class_functions: ObjectClassFunctions,
    pub size: usize,
    pub properties: ObjectInfoProperties,
    pub functions: NameMap<ObjectFunction>,
}

/// Whether every function of `m` has an entry offset in the lower half of
/// the address space, and no name occurs twice.
pub open spec fn functions_wf(m: NameMap<ObjectFunction>) -> bool {
    &&& m.wf()
    &&& forall|i: int| 0 <= i < m.entries@.len() ==> (#[trigger] m.entries@[i]).1.function_dynamic.inner <= i64::MAX
}

/// Whether a reflected type read from memory is well formed: its tables
/// hold no name twice, its function offsets are bounded, and its id hashes
/// its name.
pub open spec fn object_info_wf(o: ObjectInfo) -> bool {
    &&& functions_wf(o.functions)
    &&& o.properties.properties.wf()
    &&& o.type_id == text_id(o.name@)
}

/// Whether `r` is the name that a read of the C string at `address` gives
/// where `reader` knows it: none for an invalid address, else the lossy
/// UTF-8 text of the known bytes before the NUL.
pub open spec fn known_base_type<R: MemoryReader>(reader: R, address: u64, r: Option<String>) -> bool {
    &&& !spec_pointer_valid(address) ==> r is None
    &&& spec_pointer_valid(address) ==> forall|steps: nat|
        #[trigger] known_cstring(reader, address, steps) matches Some(bs) ==> r matches Some(s) && s@
            == spec_utf8_lossy(bs)
}

proof fn lemma_known_base_type_same<R: MemoryReader>(a: R, b: R, address: u64, r: Option<String>)
    requires
        forall|x: u64, n: nat| #[trigger] b.spec_memory(x, n) == a.spec_memory(x, n),
    ensures
        known_base_type(a, address, r) == known_base_type(b, address, r),
{
    assert forall|steps: nat|
        #![trigger known_cstring(a, address, steps)]
        #![trigger known_cstring(b, address, steps)]
        known_cstring(a, address, steps) == known_cstring(b, address, steps) by {
        lemma_known_cstring_same(a, b, address, steps);
    }
}

/// Whether `o` is what reading a type record with these fields gives, as
/// far as the reader knows the bytes it reads: a well-formed type; its name,
/// the text of the C string at `name` (empty for an invalid address); its
/// base type's name through the record at `base_type` (none for an invalid
/// address); its id, size and constructor entry points relative to the
/// reader's base address; its property table as `properties_at` gives it
/// (empty for an invalid address); and its functions, read from the
/// `function_count` records at `functions`, a later one replacing an earlier
/// one of the same name.
pub open spec fn object_info_from<R: MemoryReader>(
    reader: R,
    name: u64,
    base_type: u64,
    this_type: u32,
    size: u32,
    funcs: (u64, u64, u64),
    property_container: u64,
    functions: u64,
    function_count: u32,
    o: ObjectInfo,
) -> bool {
    &&& object_info_wf(o)
    &&& cstring_text_or_empty(o.name@)
    &&& known_cstring_text(reader, name, o.name@)
    &&& (spec_pointer_valid(base_type) ==> (reader.spec_memory(base_type, 8) matches Some(b)
        ==> known_base_type(reader, LuminousCString::from_layout(b).inner.inner, o.base_type)))
    &&& o.this_id == this_type
    &&& o.size == size
    &&& o.functions.entries@.len() <= function_count
    &&& (!spec_pointer_valid(base_type) ==> o.base_type is None)
    &&& o.class_functions.construct == spec_debase(funcs.0, reader.spec_base_address())
    &&& o.class_functions.construct_inherited == spec_debase(funcs.1, reader.spec_base_address())
    &&& o.class_functions.singleton == spec_debase(funcs.2, reader.spec_base_address())
    &&& (!spec_pointer_valid(property_container) ==> o.properties.properties.entries@.len() == 0)
    &&& (!spec_pointer_valid(name) ==> o.name@.len() == 0)
    &&& properties_at(reader, property_container, o.properties)
    &&& exists|fs: Seq<ObjectFunction>|
        {
            &&& fs.len() == function_count
            &&& #[trigger] functions_from_records(reader, functions, fs)
            &&& o.functions.map_view() == functions_registered(fs)
        }
}

/// What reading a type record in the Forspoken layout gives
/// (`object_info_from`).
pub open spec fn object_from_record<R: MemoryReader>(reader: R, dto: ObjectType, o: ObjectInfo) -> bool {
    object_info_from(
        reader,
        dto.name.inner.inner,
        dto.base_type.inner,
        dto.this_type,
        dto.size,
        (dto.func1.inner, dto.func2.inner, dto.func3.inner),
        dto.property_container.inner,
        dto.functions.inner,
        dto.function_count,
        o,
    )
}

/// What reading a type record in the Final Fantasy XV layout gives
/// (`object_info_from`).
pub open spec fn object_from_record_xv<R: MemoryReader>(reader: R, dto: ObjectTypeXV, o: ObjectInfo) -> bool {
    object_info_from(
        reader,
        dto.name.inner.inner,
        dto.base_type.inner,
        dto.this_type,
        dto.size,
        (dto.func1.inner, dto.func2.inner, dto.func3.inner),
        dto.property_container.inner,
        dto.functions.inner,
        dto.function_count,
        o,
    )
}

/// What reading a type record gives depends only on the reader's base
/// address and known bytes.
proof fn lemma_object_info_from_same<R: MemoryReader>(
    a: R,
    b: R,
    name: u64,
    base_type: u64,
    this_type: u32,
    size: u32,
    funcs: (u64, u64, u64),
    property_container: u64,
    functions: u64,
    function_count: u32,
    o: ObjectInfo,
)
    requires
        same_source(a, b),
    ensures
        object_info_from(a, name, base_type, this_type, size, funcs, property_container, functions, function_count, o)
            ==> object_info_from(b, name, base_type, this_type, size, funcs, property_container, functions, function_count, o),
{
    if object_info_from(a, name, base_type, this_type, size, funcs, property_container, functions, function_count, o) {
        assert forall|steps: nat|
            #![trigger known_cstring(a, name, steps)]
            #![trigger known_cstring(b, name, steps)]
            known_cstring(a, name, steps) == known_cstring(b, name, steps) by {
            lemma_known_cstring_same(a, b, name, steps);
        }
        assert(a.spec_memory(base_type, 8) == b.spec_memory(base_type, 8));
        if let Some(bytes) = a.spec_memory(base_type, 8) {
            lemma_known_base_type_same(a, b, LuminousCString::from_layout(bytes).inner.inner, o.base_type);
        }
        lemma_properties_at_same(a, b, property_container, o.properties);
        let fs = choose|fs: Seq<ObjectFunction>|
            {
                &&& fs.len() == function_count
                &&& #[trigger] functions_from_records(a, functions, fs)
                &&& o.functions.map_view() == functions_registered(fs)
            };
        lemma_functions_from_records_same(a, b, functions, fs);
        assert(functions_from_records(b, functions, fs));
    }
}

impl ObjectInfo {
    /// Reads a reflected type in the Forspoken layout. Fails when its
    /// property table or functions cannot be read.
    #[verifier::rlimit(40)]
    pub fn new<R: MemoryReader>(reader: &mut MemoryCursor<R>, dto: ObjectType) -> (r: Result<
        Self,
        MemoryError,
    >)
        ensures
            cursor_kept(*old(reader), *final(reader)),
            r matches Ok(o) ==> object_from_record(old(reader).inner, dto, o),
            !spec_pointer_valid(dto.property_container.inner) && dto.function_count == 0 ==> r is Ok,
            properties_readable(old(reader).inner, dto.property_container.inner) && functions_readable(
                old(reader).inner,
                dto.functions.inner,
                dto.function_count as nat,
            ) ==> r is Ok,
    {
        let ghost first = reader.inner;
        let name = cstring_or_empty(dto.name, &mut reader.inner);
        let type_id = fnv1a64(name.as_str().as_bytes());
        let ghost second = reader.inner;
        let base_type = Self::read_base_type(reader, LuminousPointer::new(dto.base_type.inner));
        proof {
            if let Some(b) = first.spec_memory(dto.base_type.inner, 8) {
                lemma_known_base_type_same(
                    first,
                    second,
                    LuminousCString::from_layout(b).inner.inner,
                    base_type,
                );
            }
        }
        let class_functions = ObjectClassFunctions::new(reader, dto);
        let ghost third = reader.inner;
        proof {
            lemma_properties_readable_same(first, third, dto.property_container.inner);
        }
        let properties = match Self::read_properties(reader, dto.property_container) {
            Ok(p) => p,
            Err(e) => {
                return Err(e);
            },
        };
        proof {
            lemma_properties_at_same(third, first, dto.property_container.inner, properties);
        }
        let ghost fourth = reader.inner;
        proof {
            lemma_functions_readable_same(first, fourth, dto.functions.inner, dto.function_count as nat);
        }
        let functions = match Self::read_object_functions(
            reader,
            dto.functions,
            dto.function_count as usize,
        ) {
            Ok(f) => f,
            Err(e) => {
                return Err(e);
            },
        };
        proof {
            let fs = choose|fs: Seq<ObjectFunction>|
                {
                    &&& fs.len() == dto.function_count as usize
                    &&& #[trigger] functions_from_records(fourth, dto.functions.inner, fs)
                    &&& functions.map_view() == functions_registered(fs)
                };
            lemma_functions_from_records_same(first, fourth, dto.functions.inner, fs);
            assert(functions_from_records(first, dto.functions.inner, fs));
        }
        Ok(ObjectInfo {
            name,
            type_id,
            this_id: dto.this_type,
            base_type,
            class_functions,
            size: dto.size as usize,
            properties,
            functions,
        })
    }

    /// Reads a reflected type in the Final Fantasy XV layout. Fails when its
    /// property table or functions cannot be read.
    #[verifier::rlimit(40)]
    pub fn new_xv<R: MemoryReader>(reader: &mut MemoryCursor<R>, dto: ObjectTypeXV) -> (r: Result<
        Self,
        MemoryError,
    >)
        ensures
            cursor_kept(*old(reader), *final(reader)),
            r matches Ok(o) ==> object_from_record_xv(old(reader).inner, dto, o),
            !spec_pointer_valid(dto.property_container.inner) && dto.function_count == 0 ==> r is Ok,
            properties_readable(old(reader).inner, dto.property_container.inner) && functions_readable(
                old(reader).inner,
                dto.functions.inner,
                dto.function_count as nat,
            ) ==> r is Ok,
    {
        let ghost first = reader.inner;
        let name = cstring_or_empty(dto.name, &mut reader.inner);
        let type_id = fnv1a64(name.as_str().as_bytes());
        let ghost second = reader.inner;
        let base_type = Self::read_base_type(reader, LuminousPointer::new(dto.base_type.inner));
        proof {
            if let Some(b) = first.spec_memory(dto.base_type.inner, 8) {
                lemma_known_base_type_same(
                    first,
                    second,
                    LuminousCString::from_layout(b).inner.inner,
                    base_type,
                );
            }
        }
        let class_functions = ObjectClassFunctions::new_xv(reader, dto);
        let ghost third = reader.inner;
        proof {
            lemma_properties_readable_same(first, third, dto.property_container.inner);
        }
        let properties = match Self::read_properties(reader, dto.property_container) {
            Ok(p) => p,
            Err(e) => {
                return Err(e);
            },
        };
        proof {
            lemma_properties_at_same(third, first, dto.property_container.inner, properties);
        }
        let ghost fourth = reader.inner;
        proof {
            lemma_functions_readable_same(first, fourth, dto.functions.inner, dto.function_count as nat);
        }
        let functions = match Self::read_object_functions(
            reader,
            dto.functions,
            dto.function_count as usize,
        ) {
            Ok(f) => f,
            Err(e) => {
                return Err(e);
            },
        };
        proof {
            let fs = choose|fs: Seq<ObjectFunction>|
                {
                    &&& fs.len() == dto.function_count as usize
                    &&& #[trigger] functions_from_records(fourth, dto.functions.inner, fs)
                    &&& functions.map_view() == functions_registered(fs)
                };
            lemma_functions_from_records_same(first, fourth, dto.functions.inner, fs);
            assert(functions_from_records(first, dto.functions.inner, fs));
        }
        Ok(ObjectInfo {
            name,
            type_id,
            this_id: dto.this_type,
            base_type,
            class_functions,
            size: dto.size as usize,
            properties,
            functions,
        })
    }

    /// Reads the name of the type whose record begins with the C string that
    /// `pointer` targets; none when the pointer is invalid or a read fails.
    pub fn read_base_type<R: MemoryReader>(
        reader: &mut MemoryCursor<R>,
        pointer: LuminousPointer<LuminousCString>,
    ) -> (r: Option<String>)
        ensures
            cursor_kept(*old(reader), *final(reader)),
            !spec_pointer_valid(pointer.inner) ==> r is None,
            r matches Some(s) ==> cstring_text(s@),
            spec_pointer_valid(pointer.inner) ==> (old(reader).inner.spec_memory(pointer.inner, 8) matches Some(
                b,
            ) ==> known_base_type(old(reader).inner, LuminousCString::from_layout(b).inner.inner, r)),
    {
        if !pointer.is_valid() {
            return None;
        }
        let ghost first = reader.inner;
        match pointer.read(&mut reader.inner) {
            Ok(name_pointer) => {
                let ghost second = reader.inner;
                let r = name_pointer.read(&mut reader.inner);
                proof {
                    assert forall|steps: nat| #[trigger] known_cstring(first, name_pointer.inner.inner, steps)
                        == known_cstring(second, name_pointer.inner.inner, steps) by {
                        lemma_known_cstring_same(first, second, name_pointer.inner.inner, steps);
                    }
                }
                r
            },
            Err(_) => None,
        }
    }

    /// Reads `function_count` consecutive function records from
    /// `functions_ptr`, keyed by name (a later function replaces an earlier
    /// one of the same name). Fails when a read fails.
    #[verifier::rlimit(40)]
    pub fn read_object_functions<R: MemoryReader>(
        reader: &mut MemoryCursor<R>,
        functions_ptr: LuminousPointer<crate::engine::native::ebex::ObjectFunction>,
        function_count: usize,
    ) -> (r: Result<NameMap<ObjectFunction>, MemoryError>)
        ensures
            cursor_kept(*old(reader), *final(reader)),
            function_count == 0 ==> (r matches Ok(m) && m.entries@.len() == 0),
            r matches Ok(m) ==> functions_wf(m) && m.entries@.len() <= function_count,
            functions_readable(old(reader).inner, functions_ptr.inner, function_count as nat) ==> r is Ok,
            r matches Ok(m) ==> exists|fs: Seq<ObjectFunction>|
                {
                    &&& fs.len() == function_count
                    &&& #[trigger] functions_from_records(old(reader).inner, functions_ptr.inner, fs)
                    &&& m.map_view() == functions_registered(fs)
                },
    {
        let mut functions: NameMap<ObjectFunction> = NameMap::new();
        let mut ptr: LuminousPointer<crate::engine::native::ebex::ObjectFunction> =
            LuminousPointer::new(functions_ptr.inner);
        let mut i: usize = 0;
        let ghost mut fs: Seq<ObjectFunction> = Seq::empty();
        while i < function_count
            invariant
                cursor_kept(*old(reader), *reader),
                i <= function_count,
                functions_wf(functions),
                functions.entries@.len() <= i,
                ptr.inner == functions_ptr.inner + 96 * i,
                fs.len() == i,
                functions_from_records(old(reader).inner, functions_ptr.inner, fs),
                functions.map_view() == functions_registered(fs),
            decreases function_count - i,
        {
            let ghost readable = functions_readable(old(reader).inner, functions_ptr.inner, function_count as nat);
            proof {
                assert(reader.inner.spec_memory(ptr.inner, 96) == old(reader).inner.spec_memory(ptr.inner, 96));
                if readable {
                    assert(function_record_known(old(reader).inner, (functions_ptr.inner + 96 * i) as u64));
                    assert(reader.inner.spec_memory(ptr.inner, 96) == old(reader).inner.spec_memory(ptr.inner, 96));
                }
            }
            let item_dto = match ptr.read(&mut reader.inner) {
                Ok(d) => d,
                Err(e) => {
                    proof {
                        if readable {
                            assert(false);
                        }
                    }
                    return Err(e);
                },
            };
            let ghost at_item = reader.inner;
            proof {
                if readable {
                    assert forall|j: int| 0 <= j < item_dto.argument_count implies spec_pointer_valid(
                        argument_slot(item_dto.argument_types.inner, j),
                    ) && #[trigger] at_item.spec_memory(argument_slot(item_dto.argument_types.inner, j), 48)
                        is Some by {
                        assert(old(reader).inner.spec_memory(argument_slot(item_dto.argument_types.inner, j), 48)
                            is Some);
                    }
                }
            }
            let item = match ObjectFunction::new(reader, item_dto) {
                Ok(f) => f,
                Err(e) => {
                    proof {
                        if readable {
                            assert(false);
                        }
                    }
                    return Err(e);
                },
            };
            proof {
                lemma_debase_bounded(item_dto.function_dynamic.inner, reader.inner.spec_base_address());
                lemma_function_from_same(old(reader).inner, at_item, item_dto, item);
                let ghost prev_fs = fs;
                fs = fs.push(item);
                assert(fs.drop_last() =~= prev_fs);
                assert forall|j: int|
                    0 <= j < fs.len() implies (old(reader).inner.spec_memory(
                    (functions_ptr.inner + 96 * j) as u64,
                    96,
                ) matches Some(b) ==> function_from(
                    old(reader).inner,
                    crate::engine::native::ebex::ObjectFunction::from_layout(b),
                    #[trigger] fs[j],
                )) by {
                    if j < prev_fs.len() {
                        assert(fs[j] == prev_fs[j]);
                    } else {
                        assert((functions_ptr.inner + 96 * j) as u64 == ptr.inner);
                        assert(reader.inner.spec_memory(ptr.inner, 96) == old(reader).inner.spec_memory(
                            ptr.inner,
                            96,
                        ));
                    }
                }
            }
            let key = item.name.clone();
            let ghost prev = functions;
            let ghost it = item;
            functions.insert(key, item);
            assert forall|k: int| 0 <= k < functions.entries@.len() implies (
            #[trigger] functions.entries@[k]).1.function_dynamic.inner <= i64::MAX by {
                if k < prev.entries@.len() && functions.entries@[k] == prev.entries@[k] {
                } else {
                    assert(functions.entries@[k].1 == it);
                }
            }
            ptr = ptr.offset(96);
            i += 1;
        }
        Ok(functions)
    }

    /// Reads the property table at `property_container`, or an empty one
    /// when the pointer is invalid. Fails when a read fails, or when the
    /// table's parent pointer is so high that the address of its name would
    /// overflow.
    pub fn read_properties<R: MemoryReader>(
        reader: &mut MemoryCursor<R>,
        property_container: LuminousPointer<ObjectInfoPropertyContainer>,
    ) -> (r: Result<ObjectInfoProperties, MemoryError>)
        ensures
            cursor_kept(*old(reader), *final(reader)),
            !spec_pointer_valid(property_container.inner) ==> (r matches Ok(p)
                && p.properties.entries@.len() == 0 && p.properties.wf()),
            r matches Ok(p) ==> p.properties.wf(),
            r matches Ok(p) ==> properties_at(old(reader).inner, property_container.inner, p),
            properties_readable(old(reader).inner, property_container.inner) ==> r is Ok,
    {
        if property_container.is_valid() {
            let dto = match property_container.read(&mut reader.inner) {
                Ok(d) => d,
                Err(e) => {
                    return Err(e);
                },
            };
            if dto.parent_properties.inner > u64::MAX - 16 {
                return Err(MemoryError::Malformed);
            }
            proof {
                lemma_property_array_known_same(old(reader).inner, reader.inner, dto.my_properties);
            }
            let ghost before = reader.inner;
            let r = ObjectInfoProperties::new(reader, dto);
            proof {
                if r is Ok {
                    let ps = choose|ps: Seq<ObjectProperty>|
                        {
                            &&& ps.len() == dto.my_properties.size
                            &&& #[trigger] properties_from_items(before, dto.my_properties, ps)
                            &&& r->Ok_0.properties.map_view() == properties_registered(ps)
                        };
                    lemma_properties_from_items_same(before, old(reader).inner, dto.my_properties, ps);
                    assert(properties_from_items(old(reader).inner, dto.my_properties, ps));
                }
            }
            r
        } else {
            Ok(ObjectInfoProperties::empty())
        }
    }
}

/// Number of blocks of the reflected type table.
pub const EBEX_TABLE_BLOCKS: u32 = 0x20u32;

/// Number of slots in a block of the reflected type table.
pub const EBEX_TABLE_BLOCK_SLOTS: u32 = 0x1000u32;

/// All reflected types, keyed by name.
#[derive(Debug)]
pub struct ObjectInfoRegistry {
    pub elements: NameMap<ObjectInfo>,
}

/// Whether a registry is well formed: no name twice, every type keyed by its
/// own name, and every type well formed.
pub open spec fn registry_wf(elements: NameMap<ObjectInfo>) -> bool {
    &&& elements.wf()
    &&& forall|i: int|
        0 <= i < elements.entries@.len() ==> (#[trigger] elements.entries@[i]).0@
            == elements.entries@[i].1.name@ && object_info_wf(elements.entries@[i].1)
}

/// Where the reflected type table of `game` starts, for a module loaded at
/// `base`.
pub open spec fn ebex_table_start(base: u64, game: LuminousGame, offsets: EngineOffsets) -> int {
    if game == LuminousGame::FORSPOKEN {
        base + offsets.ebex_object_array_forspoken
    } else {
        base + offsets.ebex_object_array_xv
    }
}

/// The address of slot `k` of the reflected type table at `start`.
pub open spec fn type_table_slot(start: u64, k: int) -> u64 {
    (start + 16 * k) as u64
}

/// Whether the reader knows every slot of the reflected type table at
/// `start`, each at a valid address.
pub open spec fn type_table_known<R: MemoryReader>(reader: R, start: u64) -> bool {
    forall|k: int|
        0 <= k < EBEX_TABLE_BLOCKS * EBEX_TABLE_BLOCK_SLOTS ==> spec_pointer_valid(type_table_slot(start, k))
            && #[trigger] reader.spec_memory(type_table_slot(start, k), 16) is Some
}

/// The types of `items` by name, a later type replacing an earlier one of
/// the same name.
pub open spec fn registered(items: Seq<ObjectInfo>) -> Map<Seq<char>, ObjectInfo>
    decreases items.len(),
{
    if items.len() == 0 {
        Map::empty()
    } else {
        registered(items.drop_last()).insert(items.last().name@, items.last())
    }
}

/// Whether slot `k` of the reflected type table at `start` holds a type: a
/// nonzero key and a valid type pointer, where the reader knows the slot.
pub open spec fn type_slot_used<R: MemoryReader>(reader: R, start: u64, k: int) -> bool {
    reader.spec_memory(type_table_slot(start, k), 16) matches Some(b) ==> {
        let p = ObjectInfoPropertyPair::from_layout(b);
        p.key != 0 && spec_pointer_valid(p.value.inner)
    }
}

/// Whether the reader can read the type record at `address` (in the Final
/// Fantasy XV layout where `xv`, else in the Forspoken layout): it knows the
/// record and can read its property table and its function records.
#[verifier::opaque]
pub open spec fn type_record_readable<R: MemoryReader>(reader: R, address: u64, xv: bool) -> bool {
    spec_pointer_valid(address) && if xv {
        &&& reader.spec_memory(address, ObjectTypeXV::layout_size()) matches Some(c)
        &&& properties_readable(reader, ObjectTypeXV::from_layout(c).property_container.inner)
        &&& functions_readable(
            reader,
            ObjectTypeXV::from_layout(c).functions.inner,
            ObjectTypeXV::from_layout(c).function_count as nat,
        )
    } else {
        &&& reader.spec_memory(address, ObjectType::layout_size()) matches Some(c)
        &&& properties_readable(reader, ObjectType::from_layout(c).property_container.inner)
        &&& functions_readable(
            reader,
            ObjectType::from_layout(c).functions.inner,
            ObjectType::from_layout(c).function_count as nat,
        )
    }
}

/// What a reader can read of a type record depends only on its known bytes.
proof fn lemma_type_record_readable_same<R: MemoryReader>(a: R, b: R, address: u64, xv: bool)
    requires
        forall|x: u64, n: nat| #[trigger] b.spec_memory(x, n) == a.spec_memory(x, n),
    ensures
        type_record_readable(a, address, xv) == type_record_readable(b, address, xv),
{
    reveal(type_record_readable);
    assert(a.spec_memory(address, ObjectTypeXV::layout_size()) == b.spec_memory(address, ObjectTypeXV::layout_size()));
    assert(a.spec_memory(address, ObjectType::layout_size()) == b.spec_memory(address, ObjectType::layout_size()));
    if xv {
        if let Some(c) = a.spec_memory(address, ObjectTypeXV::layout_size()) {
            let t = ObjectTypeXV::from_layout(c);
            lemma_properties_readable_same(a, b, t.property_container.inner);
            lemma_functions_readable_same(a, b, t.functions.inner, t.function_count as nat);
        }
    } else {
        if let Some(c) = a.spec_memory(address, ObjectType::layout_size()) {
            let t = ObjectType::from_layout(c);
            lemma_properties_readable_same(a, b, t.property_container.inner);
            lemma_functions_readable_same(a, b, t.functions.inner, t.function_count as nat);
        }
    }
}

/// Whether slot `k` of the reflected type table at `start` holds a type that
/// the reader can read: a used slot whose bytes it knows, pointing to a type
/// record that it can read (`type_record_readable`).
pub open spec fn slot_type_readable<R: MemoryReader>(reader: R, start: u64, k: int, xv: bool) -> bool {
    &&& reader.spec_memory(type_table_slot(start, k), 16) matches Some(b)
    &&& {
        let p = ObjectInfoPropertyPair::from_layout(b);
        &&& p.key != 0
        &&& spec_pointer_valid(p.value.inner)
        &&& type_record_readable(reader, p.value.inner, xv)
    }
}

/// Whether `items` are types read, in table order, from the used slots `ks`
/// among the first `bound` slots of the table at `start`.
pub open spec fn read_from_slots<R: MemoryReader>(
    reader: R,
    start: u64,
    xv: bool,
    items: Seq<ObjectInfo>,
    ks: Seq<int>,
    bound: int,
) -> bool {
    &&& items.len() == ks.len()
    &&& forall|j: int| 0 <= j < ks.len() ==> 0 <= #[trigger] ks[j] < bound
    &&& forall|a: int, b: int| 0 <= a < b < ks.len() ==> ks[a] < ks[b]
    &&& forall|j: int| 0 <= j < ks.len() ==> type_slot_used(reader, start, #[trigger] ks[j])
    &&& forall|j: int| 0 <= j < items.len() ==> object_info_wf(#[trigger] items[j])
    &&& forall|j: int| 0 <= j < items.len() ==> slot_holds(reader, start, ks[j], xv, #[trigger] items[j])
}

/// Whether `game` lays its reflected types out as Final Fantasy XV does:
/// every game but Forspoken.
pub open spec fn uses_xv_layout(game: LuminousGame) -> bool {
    game != LuminousGame::FORSPOKEN
}

/// Whether `o` is what reading the type record at `address` gives (in the
/// Final Fantasy XV layout where `xv`, else in the Forspoken layout), where
/// the reader knows the record (`object_from_record_xv`,
/// `object_from_record`).
#[verifier::opaque]
pub open spec fn type_at<R: MemoryReader>(reader: R, address: u64, xv: bool, o: ObjectInfo) -> bool {
    if xv {
        reader.spec_memory(address, ObjectTypeXV::layout_size()) matches Some(c) ==> object_from_record_xv(
            reader,
            ObjectTypeXV::from_layout(c),
            o,
        )
    } else {
        reader.spec_memory(address, ObjectType::layout_size()) matches Some(c) ==> object_from_record(
            reader,
            ObjectType::from_layout(c),
            o,
        )
    }
}

/// Whether `o` is the type that slot `k` of the table at `start` leads to,
/// where the reader knows the slot (`type_at`).
pub open spec fn slot_holds<R: MemoryReader>(reader: R, start: u64, k: int, xv: bool, o: ObjectInfo) -> bool {
    reader.spec_memory(type_table_slot(start, k), 16) matches Some(b) ==> type_at(
        reader,
        ObjectInfoPropertyPair::from_layout(b).value.inner,
        xv,
        o,
    )
}

/// What reading a type record gives depends only on the reader's base
/// address and known bytes.
proof fn lemma_type_at_same<R: MemoryReader>(a: R, b: R, address: u64, xv: bool, o: ObjectInfo)
    requires
        same_source(a, b),
    ensures
        type_at(a, address, xv, o) ==> type_at(b, address, xv, o),
{
    reveal(type_at);
    assert(a.spec_memory(address, ObjectTypeXV::layout_size()) == b.spec_memory(address, ObjectTypeXV::layout_size()));
    assert(a.spec_memory(address, ObjectType::layout_size()) == b.spec_memory(address, ObjectType::layout_size()));
    if xv {
        if let Some(c) = a.spec_memory(address, ObjectTypeXV::layout_size()) {
            let t = ObjectTypeXV::from_layout(c);
            lemma_object_info_from_same(
                a,
                b,
                t.name.inner.inner,
                t.base_type.inner,
                t.this_type,
                t.size,
                (t.func1.inner, t.func2.inner, t.func3.inner),
                t.property_container.inner,
                t.functions.inner,
                t.function_count,
                o,
            );
        }
    } else {
        if let Some(c) = a.spec_memory(address, ObjectType::layout_size()) {
            let t = ObjectType::from_layout(c);
            lemma_object_info_from_same(
                a,
                b,
                t.name.inner.inner,
                t.base_type.inner,
                t.this_type,
                t.size,
                (t.func1.inner, t.func2.inner, t.func3.inner),
                t.property_container.inner,
                t.functions.inner,
                t.function_count,
                o,
            );
        }
    }
}

/// Reads the type record at `address`, in the Final Fantasy XV layout where
/// `xv`, else in the Forspoken layout. Fails when the record, its property
/// table or its functions cannot be read; succeeds where the reader can read
/// them all (`type_record_readable`).
fn read_slot_type<R: MemoryReader>(reader: &mut MemoryCursor<R>, address: u64, xv: bool) -> (r: Result<
    ObjectInfo,
    MemoryError,
>)
    ensures
        cursor_kept(*old(reader), *final(reader)),
        r matches Ok(o) ==> object_info_wf(o),
        r matches Ok(o) ==> type_at(old(reader).inner, address, xv, o),
        type_record_readable(old(reader).inner, address, xv) ==> r is Ok,
{
    if xv {
        read_type_xv(reader, address)
    } else {
        read_type_forspoken(reader, address)
    }
}

/// Reads the type record at `address` in the Final Fantasy XV layout; see
/// `read_slot_type`.
fn read_type_xv<R: MemoryReader>(reader: &mut MemoryCursor<R>, address: u64) -> (r: Result<
    ObjectInfo,
    MemoryError,
>)
    ensures
        cursor_kept(*old(reader), *final(reader)),
        r matches Ok(o) ==> object_info_wf(o),
        r matches Ok(o) ==> type_at(old(reader).inner, address, true, o),
        type_record_readable(old(reader).inner, address, true) ==> r is Ok,
{
    let record: LuminousPointer<ObjectTypeXV> = LuminousPointer::new(address);
    match record.read(&mut reader.inner) {
        Ok(dto) => {
            proof {
                reveal(type_record_readable);
                lemma_properties_readable_same(old(reader).inner, reader.inner, dto.property_container.inner);
                lemma_functions_readable_same(
                    old(reader).inner,
                    reader.inner,
                    dto.functions.inner,
                    dto.function_count as nat,
                );
            }
            let ghost at_record = reader.inner;
            let r = ObjectInfo::new_xv(reader, dto);
            proof {
                reveal(type_at);
                if r is Ok {
                    lemma_object_info_from_same(
                        at_record,
                        old(reader).inner,
                        dto.name.inner.inner,
                        dto.base_type.inner,
                        dto.this_type,
                        dto.size,
                        (dto.func1.inner, dto.func2.inner, dto.func3.inner),
                        dto.property_container.inner,
                        dto.functions.inner,
                        dto.function_count,
                        r->Ok_0,
                    );
                }
            }
            r
        },
        Err(e) => {
            proof {
                reveal(type_record_readable);
            }
            Err(e)
        },
    }
}

/// Reads the type record at `address` in the Forspoken layout; see
/// `read_slot_type`.
fn read_type_forspoken<R: MemoryReader>(reader: &mut MemoryCursor<R>, address: u64) -> (r: Result<
    ObjectInfo,
    MemoryError,
>)
    ensures
        cursor_kept(*old(reader), *final(reader)),
        r matches Ok(o) ==> object_info_wf(o),
        r matches Ok(o) ==> type_at(old(reader).inner, address, false, o),
        type_record_readable(old(reader).inner, address, false) ==> r is Ok,
{
    let record: LuminousPointer<ObjectType> = LuminousPointer::new(address);
    match record.read(&mut reader.inner) {
        Ok(dto) => {
            proof {
                reveal(type_record_readable);
                lemma_properties_readable_same(old(reader).inner, reader.inner, dto.property_container.inner);
                lemma_functions_readable_same(
                    old(reader).inner,
                    reader.inner,
                    dto.functions.inner,
                    dto.function_count as nat,
                );
            }
            let ghost at_record = reader.inner;
            let r = ObjectInfo::new(reader, dto);
            proof {
                reveal(type_at);
                if r is Ok {
                    lemma_object_info_from_same(
                        at_record,
                        old(reader).inner,
                        dto.name.inner.inner,
                        dto.base_type.inner,
                        dto.this_type,
                        dto.size,
                        (dto.func1.inner, dto.func2.inner, dto.func3.inner),
                        dto.property_container.inner,
                        dto.functions.inner,
                        dto.function_count,
                        r->Ok_0,
                    );
                }
            }
            r
        },
        Err(e) => {
            proof {
                reveal(type_record_readable);
            }
            Err(e)
        },
    }
}

impl ObjectInfoRegistry {
    /// Registers `item` under its name, replacing a type of the same name.
    pub fn register(&mut self, item: ObjectInfo)
        requires
            registry_wf(old(self).elements),
            object_info_wf(item),
        ensures
            registry_wf(final(self).elements),
            final(self).elements.map_view() == old(self).elements.map_view().insert(item.name@, item),
    {
        let key = item.name.clone();
        let ghost prev = self.elements;
        let ghost it = item;
        let ghost key_view = key@;
        self.elements.insert(key, item);
        assert forall|k: int| 0 <= k < self.elements.entries@.len() implies (
        #[trigger] self.elements.entries@[k]).0@ == self.elements.entries@[k].1.name@ && object_info_wf(
            self.elements.entries@[k].1,
        ) by {
            if k < prev.entries@.len() && self.elements.entries@[k] == prev.entries@[k] {
            } else {
                assert(self.elements.entries@[k].1 == it);
                assert(self.elements.entries@[k].0@ == key_view);
            }
        }
    }

    /// Reads every reflected type of the table at the game's table offset
    /// (Forspoken or Final Fantasy XV layout, as the process name tells).
    /// Empty slots are skipped, types that cannot be read are left out, and
    /// a later type replaces an earlier one of the same name. Fails when a
    /// slot of the table cannot be read.
    pub fn new<R: MemoryReader>(reader: &mut MemoryCursor<R>, offsets: &EngineOffsets) -> (r: Result<
        Self,
        MemoryError,
    >)
        requires
            offsets.bounded(),
        ensures
            cursor_kept(*old(reader), *final(reader)),
            r matches Ok(reg) ==> registry_wf(reg.elements),
            !spec_pointer_valid(
                ebex_table_start(
                    old(reader).inner.spec_base_address(),
                    spec_determine_game_type(spec_reader_name(&old(reader).inner)),
                    *offsets,
                ) as u64,
            ) ==> r == Err::<Self, MemoryError>(MemoryError::InvalidPointer),
            type_table_known(
                old(reader).inner,
                ebex_table_start(
                    old(reader).inner.spec_base_address(),
                    spec_determine_game_type(spec_reader_name(&old(reader).inner)),
                    *offsets,
                ) as u64,
            ) ==> r is Ok,
            r is Err ==> r == Err::<Self, MemoryError>(MemoryError::InvalidPointer) || r == Err::<
                Self,
                MemoryError,
            >(MemoryError::ReadFailed),
            r matches Ok(reg) ==> exists|items: Seq<ObjectInfo>, ks: Seq<int>|
                {
                    &&& #[trigger] read_from_slots(
                        old(reader).inner,
                        ebex_table_start(
                            old(reader).inner.spec_base_address(),
                            spec_determine_game_type(spec_reader_name(&old(reader).inner)),
                            *offsets,
                        ) as u64,
                        uses_xv_layout(spec_determine_game_type(spec_reader_name(&old(reader).inner))),
                        items,
                        ks,
                        EBEX_TABLE_BLOCKS * EBEX_TABLE_BLOCK_SLOTS,
                    )
                    &&& reg.elements.map_view() == registered(items)
                    &&& forall|k: int|
                        0 <= k < EBEX_TABLE_BLOCKS * EBEX_TABLE_BLOCK_SLOTS && slot_type_readable(
                            old(reader).inner,
                            ebex_table_start(
                                old(reader).inner.spec_base_address(),
                                spec_determine_game_type(spec_reader_name(&old(reader).inner)),
                                *offsets,
                            ) as u64,
                            k,
                            spec_determine_game_type(spec_reader_name(&old(reader).inner))
                                != LuminousGame::FORSPOKEN,
                        ) ==> #[trigger] ks.contains(k)
                },
    {
        let game = game_type(&reader.inner);
        let is_xv = game != LuminousGame::FORSPOKEN;
        let base = reader.inner.get_base_address();
        let offset = match game {
            LuminousGame::FORSPOKEN => offsets.ebex_object_array_forspoken,
            _ => offsets.ebex_object_array_xv,
        };
        let mut registry_ptr: LuminousPointer<ObjectInfoPropertyPair> = LuminousPointer::new(
            base.inner + offset,
        );
        let ghost start = registry_ptr.inner;
        let mut registry = ObjectInfoRegistry { elements: NameMap::new() };
        let ghost mut items: Seq<ObjectInfo> = Seq::empty();
        let ghost mut ks: Seq<int> = Seq::empty();
        let mut block: u32 = 0;
        while block < EBEX_TABLE_BLOCKS
            invariant
                cursor_kept(*old(reader), *reader),
                block <= EBEX_TABLE_BLOCKS,
                registry_wf(registry.elements),
                read_from_slots(
                    old(reader).inner,
                    start as u64,
                    is_xv,
                    items,
                    ks,
                    block * EBEX_TABLE_BLOCK_SLOTS,
                ),
                registry.elements.map_view() == registered(items),
                is_xv == (spec_determine_game_type(spec_reader_name(&old(reader).inner)) != LuminousGame::FORSPOKEN),
                forall|j: int|
                    0 <= j < block * EBEX_TABLE_BLOCK_SLOTS && slot_type_readable(
                        old(reader).inner,
                        start as u64,
                        j,
                        is_xv,
                    ) ==> #[trigger] ks.contains(j),
                start == ebex_table_start(
                    old(reader).inner.spec_base_address(),
                    spec_determine_game_type(spec_reader_name(&old(reader).inner)),
                    *offsets,
                ),
                !spec_pointer_valid(start) ==> block == 0 && registry_ptr.inner == start,
                registry_ptr.inner == start + 16 * (block * EBEX_TABLE_BLOCK_SLOTS),
            decreases EBEX_TABLE_BLOCKS - block,
        {
            let mut slot: u32 = 0;
            while slot < EBEX_TABLE_BLOCK_SLOTS
                invariant
                    cursor_kept(*old(reader), *reader),
                    slot <= EBEX_TABLE_BLOCK_SLOTS,
                    registry_wf(registry.elements),
                    read_from_slots(
                        old(reader).inner,
                        start as u64,
                        is_xv,
                        items,
                        ks,
                        block * EBEX_TABLE_BLOCK_SLOTS + slot,
                    ),
                    registry.elements.map_view() == registered(items),
                    is_xv == (spec_determine_game_type(spec_reader_name(&old(reader).inner)) != LuminousGame::FORSPOKEN),
                    forall|j: int|
                        0 <= j < block * EBEX_TABLE_BLOCK_SLOTS + slot && slot_type_readable(
                            old(reader).inner,
                            start as u64,
                            j,
                            is_xv,
                        ) ==> #[trigger] ks.contains(j),
                    start == ebex_table_start(
                        old(reader).inner.spec_base_address(),
                        spec_determine_game_type(spec_reader_name(&old(reader).inner)),
                        *offsets,
                    ),
                    !spec_pointer_valid(start) ==> block == 0 && slot == 0 && registry_ptr.inner == start,
                    block < EBEX_TABLE_BLOCKS,
                    registry_ptr.inner == start + 16 * (block * EBEX_TABLE_BLOCK_SLOTS + slot),
                decreases EBEX_TABLE_BLOCK_SLOTS - slot,
            {
                let ghost k = block * EBEX_TABLE_BLOCK_SLOTS + slot;
                let ghost slot_reader = reader.inner;
                slot += 1;
                let item_dto = match registry_ptr.read(&mut reader.inner) {
                    Ok(d) => d,
                    Err(e) => {
                        proof {
                            assert(type_table_slot(start as u64, k) == registry_ptr.inner);
                            assert(!type_table_known(old(reader).inner, start as u64)) by {
                                if type_table_known(old(reader).inner, start as u64) {
                                    assert(old(reader).inner.spec_memory(type_table_slot(start as u64, k), 16)
                                        is Some);
                                }
                            }
                        }
                        return Err(e);
                    },
                };
                let ghost readable = slot_type_readable(old(reader).inner, start as u64, k, is_xv);
                proof {
                    assert(type_table_slot(start as u64, k) == registry_ptr.inner);
                    assert(slot_reader.spec_memory(registry_ptr.inner, 16) == old(reader).inner.spec_memory(
                        registry_ptr.inner,
                        16,
                    ));
                    assert(forall|j: int|
                        0 <= j < k + 1 && slot_type_readable(old(reader).inner, start as u64, j, is_xv)
                            ==> #[trigger] ks.contains(j) || j == k);
                }
                registry_ptr = registry_ptr.offset(16);
                if item_dto.key == 0 || !item_dto.value.is_valid() {
                    proof {
                        assert(!readable);
                    }
                    continue;
                }
                proof {
                    lemma_type_record_readable_same(old(reader).inner, reader.inner, item_dto.value.inner, is_xv);
                }
                let ghost at_type = reader.inner;
                let read = read_slot_type(reader, item_dto.value.inner, is_xv);
                proof {
                    if readable {
                        assert(read is Ok);
                    }
                }
                if let Ok(item) = read {
                    proof {
                        assert(type_table_slot(start as u64, k) == registry_ptr.inner - 16);
                        assert(slot_reader.spec_memory(type_table_slot(start as u64, k), 16)
                            == old(reader).inner.spec_memory(type_table_slot(start as u64, k), 16));
                        assert(type_slot_used(old(reader).inner, start as u64, k));
                        let ghost old_ks = ks;
                        let ghost old_items = items;
                        items = items.push(item);
                        ks = ks.push(k);
                        assert(items.drop_last() =~= old_items);
                        assert forall|j: int| 0 <= j < ks.len() implies type_slot_used(
                            old(reader).inner,
                            start as u64,
                            #[trigger] ks[j],
                        ) by {
                            if j < old_ks.len() {
                                assert(ks[j] == old_ks[j]);
                            }
                        }
                        assert forall|j: int| 0 <= j < items.len() implies object_info_wf(
                            #[trigger] items[j],
                        ) by {
                            if j < old_items.len() {
                                assert(items[j] == old_items[j]);
                            }
                        }
                        lemma_type_at_same(at_type, old(reader).inner, item_dto.value.inner, is_xv, item);
                        assert(slot_holds(old(reader).inner, start as u64, k, is_xv, item));
                        assert forall|j: int| 0 <= j < items.len() implies slot_holds(
                            old(reader).inner,
                            start as u64,
                            ks[j],
                            is_xv,
                            #[trigger] items[j],
                        ) by {
                            if j < old_items.len() {
                                assert(items[j] == old_items[j]);
                                assert(ks[j] == old_ks[j]);
                            }
                        }
                        assert(ks[ks.len() - 1] == k);
                        assert(ks.contains(k));
                        assert forall|j: int| #[trigger] old_ks.contains(j) implies ks.contains(j) by {
                            let w = choose|w: int| 0 <= w < old_ks.len() && old_ks[w] == j;
                            assert(ks[w] == j);
                        }
                        assert forall|x: int, y: int| 0 <= x < y < ks.len() implies ks[x] < ks[y] by {
                            if y < old_ks.len() {
                                assert(ks[x] == old_ks[x] && ks[y] == old_ks[y]);
                            } else {
                                assert(ks[x] == old_ks[x]);
                            }
                        }
                        assert forall|j: int|
                            0 <= j < k + 1 && slot_type_readable(
                                old(reader).inner,
                                start as u64,
                                j,
                                is_xv,
                            ) implies #[trigger] ks.contains(j) by {
                            if j < k {
                                assert(old_ks.contains(j));
                            }
                        }
                    }
                    registry.register(item);
                }
            }
            assert(block * EBEX_TABLE_BLOCK_SLOTS + EBEX_TABLE_BLOCK_SLOTS == (block + 1)
                * EBEX_TABLE_BLOCK_SLOTS);
            block += 1;
        }
        assert(is_xv == uses_xv_layout(spec_determine_game_type(spec_reader_name(&old(reader).inner))));
        assert(read_from_slots(
            old(reader).inner,
            start as u64,
            uses_xv_layout(spec_determine_game_type(spec_reader_name(&old(reader).inner))),
            items,
            ks,
            EBEX_TABLE_BLOCKS * EBEX_TABLE_BLOCK_SLOTS,
        ));
        Ok(registry)
    }
}

/// The entry point of function `function_name` of type `object_name`, as an
/// address: the module base plus the function's offset; none when the
/// registry has no such type or function.
pub fn find_ebex_function<T>(
    base: LuminousPointer<()>,
    ebex: &ObjectInfoRegistry,
    object_name: &str,
    function_name: &str,
) -> (r: Option<LuminousPointer<T>>)
    requires
        base.inner <= i64::MAX,
        registry_wf(ebex.elements),
    ensures
        match ebex.elements.spec_get(object_name@) {
            None => r is None,
            Some(o) => match o.functions.spec_get(function_name@) {
                None => r is None,
                Some(f) => r matches Some(p) && p.inner == base.inner + f.function_dynamic.inner,
            },
        },
{
    let obj = match ebex.elements.get(object_name) {
        Some(o) => o,
        None => {
            return None;
        },
    };
    proof {
        let i = choose|j: int| entry_named(ebex.elements.entries@, j, object_name@);
        assert(object_info_wf(ebex.elements.entries@[i].1));
    }
    let func = match obj.functions.get(function_name) {
        Some(f) => f,
        None => {
            return None;
        },
    };
    proof {
        let j = choose|j: int| entry_named(obj.functions.entries@, j, function_name@);
        assert(obj.functions.entries@[j].1.function_dynamic.inner <= i64::MAX);
    }
    Some(LuminousPointer::new(base.inner + func.function_dynamic.inner))
}

} // verus!
