//! Layouts of the engine's reflection data (the "ebex" object system).

use vstd::prelude::*;

use crate::engine::native::array::LuminousDynamicArray;
use crate::engine::native::layout::{decode_at, field, le_u16, le_u32, le_u64, lemma_le_in_part, NativeLayout};
use crate::engine::native::pointer::{LuminousCString, LuminousIntrusivePointer, LuminousPointer};
use crate::engine::native::string::LuminousString;

verus! {

/// An entry of the type table: a type id and its type.
#[derive(Debug, Clone, Copy)]
pub struct ObjectTypeElement {
    pub type_id: u64,
    pub object_type: LuminousPointer<ObjectType>,
}

impl NativeLayout for ObjectTypeElement {
    open spec fn layout_size() -> nat {
        16
    }

    open spec fn layout_align() -> nat {
        8
    }

    open spec fn from_layout(b: Seq<u8>) -> ObjectTypeElement {
        ObjectTypeElement {
            type_id: field(b, 0),
            object_type: field(b, 8),
        }
    }

    fn size() -> (r: usize) {
        16
    }

    fn align() -> (r: usize) {
        8
    }

    fn decode(b: &[u8]) -> (r: ObjectTypeElement) {
        ObjectTypeElement {
            type_id: decode_at(b, 0),
            object_type: decode_at(b, 8),
        }
    }
}

/// A reflected type (Forspoken layout); `base_type` is the address of the base type's record.
#[derive(Debug, Clone, Copy)]
pub struct ObjectType {
    pub name: LuminousCString,
    pub this_type: u32,
    pub padding: u32,
    pub base_type: LuminousPointer<()>,
    pub unknown: u64,
    pub func1: LuminousPointer<()>,
    pub func2: LuminousPointer<()>,
    pub func3: LuminousPointer<()>,
    pub property_container: LuminousPointer<ObjectInfoPropertyContainer>,
    pub functions: LuminousPointer<ObjectFunction>,
    pub function_count: u32,
    pub size: u32,
}

impl NativeLayout for ObjectType {
    open spec fn layout_size() -> nat {
        80
    }

    open spec fn layout_align() -> nat {
        8
    }

    open spec fn from_layout(b: Seq<u8>) -> ObjectType {
        ObjectType {
            name: field(b, 0),
            this_type: field(b, 8),
            padding: field(b, 12),
            base_type: field(b, 16),
            unknown: field(b, 24),
            func1: field(b, 32),
            func2: field(b, 40),
            func3: field(b, 48),
            property_container: field(b, 56),
            functions: field(b, 64),
            function_count: field(b, 72),
            size: field(b, 76),
        }
    }

    fn size() -> (r: usize) {
        80
    }

    fn align() -> (r: usize) {
        8
    }

    fn decode(b: &[u8]) -> (r: ObjectType) {
        ObjectType {
            name: decode_at(b, 0),
            this_type: decode_at(b, 8),
            padding: decode_at(b, 12),
            base_type: decode_at(b, 16),
            unknown: decode_at(b, 24),
            func1: decode_at(b, 32),
            func2: decode_at(b, 40),
            func3: decode_at(b, 48),
            property_container: decode_at(b, 56),
            functions: decode_at(b, 64),
            function_count: decode_at(b, 72),
            size: decode_at(b, 76),
        }
    }
}

/// A reflected type (Final Fantasy XV layout); `base_type` is the address of the base type's record.
#[derive(Debug, Clone, Copy)]
pub struct ObjectTypeXV {
    pub name: LuminousCString,
    pub this_type: u32,
    pub padding1: u32,
    pub base_type: LuminousPointer<()>,
    pub func1: LuminousPointer<()>,
    pub func2: LuminousPointer<()>,
    pub func3: LuminousPointer<()>,
    pub property_container: LuminousPointer<ObjectInfoPropertyContainer>,
    pub functions: LuminousPointer<ObjectFunction>,
    pub function_count: u32,
    pub size: u32,
}

impl NativeLayout for ObjectTypeXV {
    open spec fn layout_size() -> nat {
        72
    }

    open spec fn layout_align() -> nat {
        8
    }

    open spec fn from_layout(b: Seq<u8>) -> ObjectTypeXV {
        ObjectTypeXV {
            name: field(b, 0),
            this_type: field(b, 8),
            padding1: field(b, 12),
            base_type: field(b, 16),
            func1: field(b, 24),
            func2: field(b, 32),
            func3: field(b, 40),
            property_container: field(b, 48),
            functions: field(b, 56),
            function_count: field(b, 64),
            size: field(b, 68),
        }
    }

    fn size() -> (r: usize) {
        72
    }

    fn align() -> (r: usize) {
        8
    }

    fn decode(b: &[u8]) -> (r: ObjectTypeXV) {
        ObjectTypeXV {
            name: decode_at(b, 0),
            this_type: decode_at(b, 8),
            padding1: decode_at(b, 12),
            base_type: decode_at(b, 16),
            func1: decode_at(b, 24),
            func2: decode_at(b, 32),
            func3: decode_at(b, 40),
            property_container: decode_at(b, 48),
            functions: decode_at(b, 56),
            function_count: decode_at(b, 64),
            size: decode_at(b, 68),
        }
    }
}

/// A reflected function: name, flags, entry points and signature.
#[derive(Debug, Clone, Copy)]
pub struct ObjectFunction {
    pub name: LuminousCString,
    pub name_hash: u32,
    pub flags: u32,
    pub function: LuminousPointer<()>,
    pub function_dynamic: LuminousPointer<()>,
    pub return_type: ObjectFunctionTypeData,
    pub argument_types: LuminousPointer<ObjectFunctionTypeData>,
    pub argument_count: u32,
    pub padding2: u32,
}

impl NativeLayout for ObjectFunction {
    open spec fn layout_size() -> nat {
        96
    }

    open spec fn layout_align() -> nat {
        8
    }

    open spec fn from_layout(b: Seq<u8>) -> ObjectFunction {
        ObjectFunction {
            name: field(b, 0),
            name_hash: field(b, 8),
            flags: field(b, 12),
            function: field(b, 16),
            function_dynamic: field(b, 24),
            return_type: field(b, 32),
            argument_types: field(b, 80),
            argument_count: field(b, 88),
            padding2: field(b, 92),
        }
    }

    fn size() -> (r: usize) {
        96
    }

    fn align() -> (r: usize) {
        8
    }

    fn decode(b: &[u8]) -> (r: ObjectFunction) {
        ObjectFunction {
            name: decode_at(b, 0),
            name_hash: decode_at(b, 8),
            flags: decode_at(b, 12),
            function: decode_at(b, 16),
            function_dynamic: decode_at(b, 24),
            return_type: decode_at(b, 32),
            argument_types: decode_at(b, 80),
            argument_count: decode_at(b, 88),
            padding2: decode_at(b, 92),
        }
    }
}

/// A parameter or return type of a reflected function.
#[derive(Debug, Clone, Copy)]
pub struct ObjectFunctionTypeData {
    pub primitive_type: u32,
    pub type_flag: u32,
    pub type_name_hash: u32,
    pub padding0: u32,
    pub type_label: LuminousCString,
    pub item_primitive_type: u32,
    pub item_type_flag: u32,
    pub item_type_name_hash: u32,
    pub padding1: u32,
    pub item_type_name: LuminousCString,
}

impl NativeLayout for ObjectFunctionTypeData {
    open spec fn layout_size() -> nat {
        48
    }

    open spec fn layout_align() -> nat {
        8
    }

    open spec fn from_layout(b: Seq<u8>) -> ObjectFunctionTypeData {
        ObjectFunctionTypeData {
            primitive_type: field(b, 0),
            type_flag: field(b, 4),
            type_name_hash: field(b, 8),
            padding0: field(b, 12),
            type_label: field(b, 16),
            item_primitive_type: field(b, 24),
            item_type_flag: field(b, 28),
            item_type_name_hash: field(b, 32),
            padding1: field(b, 36),
            item_type_name: field(b, 40),
        }
    }

    fn size() -> (r: usize) {
        48
    }

    fn align() -> (r: usize) {
        8
    }

    fn decode(b: &[u8]) -> (r: ObjectFunctionTypeData) {
        ObjectFunctionTypeData {
            primitive_type: decode_at(b, 0),
            type_flag: decode_at(b, 4),
            type_name_hash: decode_at(b, 8),
            padding0: decode_at(b, 12),
            type_label: decode_at(b, 16),
            item_primitive_type: decode_at(b, 24),
            item_type_flag: decode_at(b, 28),
            item_type_name_hash: decode_at(b, 32),
            padding1: decode_at(b, 36),
            item_type_name: decode_at(b, 40),
        }
    }
}

/// The property table of a reflected type.
#[derive(Debug, Clone, Copy)]
pub struct ObjectInfoPropertyContainer {
    pub base: LuminousIntrusivePointer,
    pub type_label: LuminousString,
    pub hash_code: u32,
    pub version_hash_code: u32,
    pub all_properties_class_field_count: u16,
    pub padding1: u16,
    pub padding2: u32,
    pub parent_properties: LuminousPointer<()>,
    pub my_properties: LuminousDynamicArray<ObjectInfoProperty>,
    pub all_properties: LuminousDynamicArray<ObjectInfoProperty>,
    pub my_properties_lookup: LuminousDynamicArray<ObjectInfoProperty>,
    pub all_properties_lookup: LuminousDynamicArray<ObjectInfoProperty>,
}

impl NativeLayout for ObjectInfoPropertyContainer {
    open spec fn layout_size() -> nat {
        120
    }

    open spec fn layout_align() -> nat {
        8
    }

    open spec fn from_layout(b: Seq<u8>) -> ObjectInfoPropertyContainer {
        ObjectInfoPropertyContainer {
            base: field(b, 0),
            type_label: field(b, 16),
            hash_code: field(b, 32),
            version_hash_code: field(b, 36),
            all_properties_class_field_count: field(b, 40),
            padding1: field(b, 42),
            padding2: field(b, 44),
            parent_properties: field(b, 48),
            my_properties: field(b, 56),
            all_properties: field(b, 72),
            my_properties_lookup: field(b, 88),
            all_properties_lookup: field(b, 104),
        }
    }

    fn size() -> (r: usize) {
        120
    }

    fn align() -> (r: usize) {
        8
    }

    fn decode(b: &[u8]) -> (r: ObjectInfoPropertyContainer) {
        ObjectInfoPropertyContainer {
            base: decode_at(b, 0),
            type_label: decode_at(b, 16),
            hash_code: decode_at(b, 32),
            version_hash_code: decode_at(b, 36),
            all_properties_class_field_count: decode_at(b, 40),
            padding1: decode_at(b, 42),
            padding2: decode_at(b, 44),
            parent_properties: decode_at(b, 48),
            my_properties: decode_at(b, 56),
            all_properties: decode_at(b, 72),
            my_properties_lookup: decode_at(b, 88),
            all_properties_lookup: decode_at(b, 104),
        }
    }
}

/// A reflected property.
#[derive(Debug, Clone, Copy)]
pub struct ObjectInfoProperty {
    pub base: LuminousIntrusivePointer,
    pub name: LuminousString,
    pub hash_code: u32,
    pub padding1: u32,
    pub type_label: LuminousString,
    pub offset: u32,
    pub size: u32,
    pub item_count: u16,
    pub primitive_type: u8,
    pub item_primitive_type: u8,
    pub attributes: u8,
    pub padding2: u8,
    pub padding3: u16,
}

impl NativeLayout for ObjectInfoProperty {
    open spec fn layout_size() -> nat {
        72
    }

    open spec fn layout_align() -> nat {
        8
    }

    open spec fn from_layout(b: Seq<u8>) -> ObjectInfoProperty {
        ObjectInfoProperty {
            base: field(b, 0),
            name: field(b, 16),
            hash_code: field(b, 32),
            padding1: field(b, 36),
            type_label: field(b, 40),
            offset: field(b, 56),
            size: field(b, 60),
            item_count: field(b, 64),
            primitive_type: field(b, 66),
            item_primitive_type: field(b, 67),
            attributes: field(b, 68),
            padding2: field(b, 69),
            padding3: field(b, 70),
        }
    }

    fn size() -> (r: usize) {
        72
    }

    fn align() -> (r: usize) {
        8
    }

    fn decode(b: &[u8]) -> (r: ObjectInfoProperty) {
        ObjectInfoProperty {
            base: decode_at(b, 0),
            name: decode_at(b, 16),
            hash_code: decode_at(b, 32),
            padding1: decode_at(b, 36),
            type_label: decode_at(b, 40),
            offset: decode_at(b, 56),
            size: decode_at(b, 60),
            item_count: decode_at(b, 64),
            primitive_type: decode_at(b, 66),
            item_primitive_type: decode_at(b, 67),
            attributes: decode_at(b, 68),
            padding2: decode_at(b, 69),
            padding3: decode_at(b, 70),
        }
    }
}

/// A slot of the reflected type table: a key and the type's record.
#[derive(Debug, Clone, Copy)]
pub struct ObjectInfoPropertyPair {
    pub key: u64,
    pub value: LuminousPointer<ObjectType>,
}

impl NativeLayout for ObjectInfoPropertyPair {
    open spec fn layout_size() -> nat {
        16
    }

    open spec fn layout_align() -> nat {
        8
    }

    open spec fn from_layout(b: Seq<u8>) -> ObjectInfoPropertyPair {
        ObjectInfoPropertyPair {
            key: field(b, 0),
            value: field(b, 8),
        }
    }

    fn size() -> (r: usize) {
        16
    }

    fn align() -> (r: usize) {
        8
    }

    fn decode(b: &[u8]) -> (r: ObjectInfoPropertyPair) {
        ObjectInfoPropertyPair {
            key: decode_at(b, 0),
            value: decode_at(b, 8),
        }
    }
}

/// The native layout of a type table entry: the type id at byte 0 and the
/// type's address at byte 8.
pub proof fn lemma_object_type_element_layout(b: Seq<u8>)
    requires
        b.len() >= 16,
    ensures
        ObjectTypeElement::from_layout(b).type_id == le_u64(b, 0),
        ObjectTypeElement::from_layout(b).object_type.inner == le_u64(b, 8),
{
    lemma_le_in_part(b, 0, 8, 0);
    lemma_le_in_part(b, 8, 8, 0);
}

/// The native layout of a reflected type record: the name's address at
/// byte 0, the type id at byte 8, the base type at byte 16, a word at byte
/// 24, three entry points at bytes 32, 40 and 48, the property table at
/// byte 56, the function table at byte 64, then the function count and the
/// instance size at bytes 72 and 76.
pub proof fn lemma_object_type_layout(b: Seq<u8>)
    requires
        b.len() >= 80,
    ensures
        ({
            let t = ObjectType::from_layout(b);
            &&& t.name.inner.inner == le_u64(b, 0)
            &&& t.this_type == le_u32(b, 8)
            &&& t.base_type.inner == le_u64(b, 16)
            &&& t.unknown == le_u64(b, 24)
            &&& t.func1.inner == le_u64(b, 32)
            &&& t.func2.inner == le_u64(b, 40)
            &&& t.func3.inner == le_u64(b, 48)
            &&& t.property_container.inner == le_u64(b, 56)
            &&& t.functions.inner == le_u64(b, 64)
            &&& t.function_count == le_u32(b, 72)
            &&& t.size == le_u32(b, 76)
        }),
{
    lemma_le_in_part(b, 0, 8, 0);
    lemma_le_in_part(b, 8, 4, 0);
    lemma_le_in_part(b, 16, 8, 0);
    lemma_le_in_part(b, 24, 8, 0);
    lemma_le_in_part(b, 32, 8, 0);
    lemma_le_in_part(b, 40, 8, 0);
    lemma_le_in_part(b, 48, 8, 0);
    lemma_le_in_part(b, 56, 8, 0);
    lemma_le_in_part(b, 64, 8, 0);
    lemma_le_in_part(b, 72, 4, 0);
    lemma_le_in_part(b, 76, 4, 0);
}

/// The native layout of a reflected type record of the older engine, which
/// has no word after the base type: the name at byte 0, the type id at byte
/// 8, the base type at byte 16, three entry points at bytes 24, 32 and 40,
/// the property table at byte 48, the function table at byte 56, then the
/// function count and the instance size at bytes 64 and 68.
pub proof fn lemma_object_type_xv_layout(b: Seq<u8>)
    requires
        b.len() >= 72,
    ensures
        ({
            let t = ObjectTypeXV::from_layout(b);
            &&& t.name.inner.inner == le_u64(b, 0)
            &&& t.this_type == le_u32(b, 8)
            &&& t.base_type.inner == le_u64(b, 16)
            &&& t.func1.inner == le_u64(b, 24)
            &&& t.func2.inner == le_u64(b, 32)
            &&& t.func3.inner == le_u64(b, 40)
            &&& t.property_container.inner == le_u64(b, 48)
            &&& t.functions.inner == le_u64(b, 56)
            &&& t.function_count == le_u32(b, 64)
            &&& t.size == le_u32(b, 68)
        }),
{
    lemma_le_in_part(b, 0, 8, 0);
    lemma_le_in_part(b, 8, 4, 0);
    lemma_le_in_part(b, 16, 8, 0);
    lemma_le_in_part(b, 24, 8, 0);
    lemma_le_in_part(b, 32, 8, 0);
    lemma_le_in_part(b, 40, 8, 0);
    lemma_le_in_part(b, 48, 8, 0);
    lemma_le_in_part(b, 56, 8, 0);
    lemma_le_in_part(b, 64, 4, 0);
    lemma_le_in_part(b, 68, 4, 0);
}

/// The native layout of a parameter or return type: kind, flags and name
/// hash at bytes 0, 4 and 8, the type name's address at byte 16, then the
/// item's kind, flags and name hash at bytes 24, 28 and 32 and the item
/// type name's address at byte 40.
pub proof fn lemma_object_function_type_data_layout(b: Seq<u8>)
    requires
        b.len() >= 48,
    ensures
        ({
            let t = ObjectFunctionTypeData::from_layout(b);
            &&& t.primitive_type == le_u32(b, 0)
            &&& t.type_flag == le_u32(b, 4)
            &&& t.type_name_hash == le_u32(b, 8)
            &&& t.type_label.inner.inner == le_u64(b, 16)
            &&& t.item_primitive_type == le_u32(b, 24)
            &&& t.item_type_flag == le_u32(b, 28)
            &&& t.item_type_name_hash == le_u32(b, 32)
            &&& t.item_type_name.inner.inner == le_u64(b, 40)
        }),
{
    lemma_le_in_part(b, 0, 4, 0);
    lemma_le_in_part(b, 4, 4, 0);
    lemma_le_in_part(b, 8, 4, 0);
    lemma_le_in_part(b, 16, 8, 0);
    lemma_le_in_part(b, 24, 4, 0);
    lemma_le_in_part(b, 28, 4, 0);
    lemma_le_in_part(b, 32, 4, 0);
    lemma_le_in_part(b, 40, 8, 0);
}

/// The native layout of a reflected function: the name's address at byte 0,
/// the name hash and flags at bytes 8 and 12, the entry points at bytes 16
/// and 24, the return type inline from byte 32 to byte 80, then the
/// parameter table at byte 80 and the parameter count at byte 88.
pub proof fn lemma_object_function_layout(b: Seq<u8>)
    requires
        b.len() >= 96,
    ensures
        ({
            let f = ObjectFunction::from_layout(b);
            &&& f.name.inner.inner == le_u64(b, 0)
            &&& f.name_hash == le_u32(b, 8)
            &&& f.flags == le_u32(b, 12)
            &&& f.function.inner == le_u64(b, 16)
            &&& f.function_dynamic.inner == le_u64(b, 24)
            &&& f.return_type.primitive_type == le_u32(b, 32)
            &&& f.return_type.type_flag == le_u32(b, 36)
            &&& f.return_type.type_name_hash == le_u32(b, 40)
            &&& f.return_type.type_label.inner.inner == le_u64(b, 48)
            &&& f.return_type.item_primitive_type == le_u32(b, 56)
            &&& f.return_type.item_type_flag == le_u32(b, 60)
            &&& f.return_type.item_type_name_hash == le_u32(b, 64)
            &&& f.return_type.item_type_name.inner.inner == le_u64(b, 72)
            &&& f.argument_types.inner == le_u64(b, 80)
            &&& f.argument_count == le_u32(b, 88)
        }),
{
    lemma_le_in_part(b, 0, 8, 0);
    lemma_le_in_part(b, 8, 4, 0);
    lemma_le_in_part(b, 12, 4, 0);
    lemma_le_in_part(b, 16, 8, 0);
    lemma_le_in_part(b, 24, 8, 0);
    lemma_le_in_part(b, 32, 48, 0);
    lemma_le_in_part(b, 32, 48, 4);
    lemma_le_in_part(b, 32, 48, 8);
    lemma_le_in_part(b, 32, 48, 16);
    lemma_le_in_part(b, 32, 48, 24);
    lemma_le_in_part(b, 32, 48, 28);
    lemma_le_in_part(b, 32, 48, 32);
    lemma_le_in_part(b, 32, 48, 40);
    lemma_le_in_part(b, 80, 8, 0);
    lemma_le_in_part(b, 88, 4, 0);
    lemma_object_function_type_data_layout(b.subrange(32, 80));
}

/// The native layout of a property table: the object header at byte 0, the
/// type name at byte 16 (address, allocated size, flags), the hash codes at
/// bytes 32 and 36, the class field count at byte 40, the parent table at
/// byte 48, and the four property arrays (own, all, own lookup, all lookup)
/// at bytes 56, 72, 88 and 104, each an address, a size and a capacity.
pub proof fn lemma_object_info_property_container_layout(b: Seq<u8>)
    requires
        b.len() >= 120,
    ensures
        ({
            let c = ObjectInfoPropertyContainer::from_layout(b);
            &&& c.base.vtable.inner == le_u64(b, 0)
            &&& c.base.ref_count == le_u32(b, 8)
            &&& c.type_label.address.inner == le_u64(b, 16)
            &&& c.type_label.memory_size == le_u32(b, 24)
            &&& c.type_label.flags == le_u32(b, 28)
            &&& c.hash_code == le_u32(b, 32)
            &&& c.version_hash_code == le_u32(b, 36)
            &&& c.all_properties_class_field_count == le_u16(b, 40)
            &&& c.parent_properties.inner == le_u64(b, 48)
            &&& c.my_properties.inner.inner == le_u64(b, 56)
            &&& c.my_properties.size == le_u32(b, 64)
            &&& c.my_properties.capacity == le_u32(b, 68)
            &&& c.all_properties.inner.inner == le_u64(b, 72)
            &&& c.all_properties.size == le_u32(b, 80)
            &&& c.all_properties.capacity == le_u32(b, 84)
            &&& c.my_properties_lookup.inner.inner == le_u64(b, 88)
            &&& c.my_properties_lookup.size == le_u32(b, 96)
            &&& c.my_properties_lookup.capacity == le_u32(b, 100)
            &&& c.all_properties_lookup.inner.inner == le_u64(b, 104)
            &&& c.all_properties_lookup.size == le_u32(b, 112)
            &&& c.all_properties_lookup.capacity == le_u32(b, 116)
        }),
{
    lemma_le_in_part(b, 0, 16, 0);
    lemma_le_in_part(b, 0, 16, 8);
    lemma_le_in_part(b, 16, 16, 0);
    lemma_le_in_part(b, 16, 16, 8);
    lemma_le_in_part(b, 16, 16, 12);
    lemma_le_in_part(b, 32, 4, 0);
    lemma_le_in_part(b, 36, 4, 0);
    lemma_le_in_part(b, 40, 2, 0);
    lemma_le_in_part(b, 48, 8, 0);
    lemma_le_in_part(b, 56, 16, 0);
    lemma_le_in_part(b, 56, 16, 8);
    lemma_le_in_part(b, 56, 16, 12);
    lemma_le_in_part(b, 72, 16, 0);
    lemma_le_in_part(b, 72, 16, 8);
    lemma_le_in_part(b, 72, 16, 12);
    lemma_le_in_part(b, 88, 16, 0);
    lemma_le_in_part(b, 88, 16, 8);
    lemma_le_in_part(b, 88, 16, 12);
    lemma_le_in_part(b, 104, 16, 0);
    lemma_le_in_part(b, 104, 16, 8);
    lemma_le_in_part(b, 104, 16, 12);
}

/// The native layout of a reflected property: the object header at byte 0,
/// the name at byte 16, the name hash at byte 32, the type name at byte 40,
/// the offset and size at bytes 56 and 60, the item count at byte 64, and
/// one byte each for the kind, the item kind and the attributes at bytes
/// 66, 67 and 68.
pub proof fn lemma_object_info_property_layout(b: Seq<u8>)
    requires
        b.len() >= 72,
    ensures
        ({
            let p = ObjectInfoProperty::from_layout(b);
            &&& p.base.vtable.inner == le_u64(b, 0)
            &&& p.base.ref_count == le_u32(b, 8)
            &&& p.name.address.inner == le_u64(b, 16)
            &&& p.name.memory_size == le_u32(b, 24)
            &&& p.name.flags == le_u32(b, 28)
            &&& p.hash_code == le_u32(b, 32)
            &&& p.type_label.address.inner == le_u64(b, 40)
            &&& p.type_label.memory_size == le_u32(b, 48)
            &&& p.type_label.flags == le_u32(b, 52)
            &&& p.offset == le_u32(b, 56)
            &&& p.size == le_u32(b, 60)
            &&& p.item_count == le_u16(b, 64)
            &&& p.primitive_type == b[66]
            &&& p.item_primitive_type == b[67]
            &&& p.attributes == b[68]
        }),
{
    lemma_le_in_part(b, 0, 16, 0);
    lemma_le_in_part(b, 0, 16, 8);
    lemma_le_in_part(b, 16, 16, 0);
    lemma_le_in_part(b, 16, 16, 8);
    lemma_le_in_part(b, 16, 16, 12);
    lemma_le_in_part(b, 32, 4, 0);
    lemma_le_in_part(b, 40, 16, 0);
    lemma_le_in_part(b, 40, 16, 8);
    lemma_le_in_part(b, 40, 16, 12);
    lemma_le_in_part(b, 56, 4, 0);
    lemma_le_in_part(b, 60, 4, 0);
    lemma_le_in_part(b, 64, 2, 0);
    lemma_le_in_part(b, 66, 1, 0);
    lemma_le_in_part(b, 67, 1, 0);
    lemma_le_in_part(b, 68, 1, 0);
}

/// The native layout of a slot of the reflected type table: the key at byte
/// 0 and the type's address at byte 8.
pub proof fn lemma_object_info_property_pair_layout(b: Seq<u8>)
    requires
        b.len() >= 16,
    ensures
        ObjectInfoPropertyPair::from_layout(b).key == le_u64(b, 0),
        ObjectInfoPropertyPair::from_layout(b).value.inner == le_u64(b, 8),
{
    lemma_le_in_part(b, 0, 8, 0);
    lemma_le_in_part(b, 8, 8, 0);
}

} // verus!
