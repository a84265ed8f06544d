//! The game's live objects as the injected module sees them: entity
//! packages, entity groups, game objects and other reflected objects.

use vstd::prelude::*;

use crate::engine::ebex::{find_ebex_function, registry_wf, ObjectInfo, ObjectInfoRegistry};
use crate::engine::name_map::NameMap;
use crate::engine::native::array::{spec_array_valid, LuminousDynamicArray};
use crate::engine::native::layout::{decode_at, field, le_u32, le_u64, lemma_le_in_part, NativeLayout};
use crate::engine::native::map::LuminousStaticMap;
use crate::engine::native::mutex::LuminousMutexCriticalSection;
use crate::engine::native::pointer::{spec_pointer_valid, LuminousPointer};
use crate::engine::native::string::{spec_string_size, spec_utf8_lossy, LuminousString};
use crate::memory::{same_source, MemoryCursor, MemoryError, MemoryReader};
use crate::text::{chars_equal, chars_of, opt_view};

verus! {

/// The engine's component table of a game object.
#[derive(Debug, Clone, Copy)]
pub struct ScarletGameComponentDto {
    pub map: LuminousStaticMap<u32, LuminousPointer<()>>,
    pub components: LuminousDynamicArray<()>,
    pub owner: LuminousPointer<()>,
}

impl NativeLayout for ScarletGameComponentDto {
    open spec fn layout_size() -> nat {
        40
    }

    open spec fn layout_align() -> nat {
        8
    }

    open spec fn from_layout(b: Seq<u8>) -> ScarletGameComponentDto {
        ScarletGameComponentDto { map: field(b, 0), components: field(b, 16), owner: field(b, 32) }
    }

    fn size() -> (r: usize) {
        40
    }

    fn align() -> (r: usize) {
        8
    }

    fn decode(b: &[u8]) -> (r: ScarletGameComponentDto) {
        ScarletGameComponentDto {
            map: decode_at(b, 0),
            components: decode_at(b, 16),
            owner: decode_at(b, 32),
        }
    }
}

/// The head of a game object in memory.
#[derive(Debug, Clone, Copy)]
pub struct ScarletGameObjectDto {
    pub vtable: LuminousPointer<()>,
    pub flags: u32,
    pub class_flags: u32,
    pub object_flags: u64,
    pub components: LuminousPointer<ScarletGameComponentDto>,
}

impl NativeLayout for ScarletGameObjectDto {
    open spec fn layout_size() -> nat {
        32
    }

    open spec fn layout_align() -> nat {
        8
    }

    open spec fn from_layout(b: Seq<u8>) -> ScarletGameObjectDto {
        ScarletGameObjectDto {
            vtable: field(b, 0),
            flags: field(b, 8),
            class_flags: field(b, 12),
            object_flags: field(b, 16),
            components: field(b, 24),
        }
    }

    fn size() -> (r: usize) {
        32
    }

    fn align() -> (r: usize) {
        8
    }

    fn decode(b: &[u8]) -> (r: ScarletGameObjectDto) {
        ScarletGameObjectDto {
            vtable: decode_at(b, 0),
            flags: decode_at(b, 8),
            class_flags: decode_at(b, 12),
            object_flags: decode_at(b, 16),
            components: decode_at(b, 24),
        }
    }
}

/// Any reflected object: where it is, its type and its name.
#[derive(Debug)]
pub struct ScarletBaseObject {
    pub address: LuminousPointer<()>,
    pub object_type: ObjectInfo,
    pub name: Option<String>,
}

/// A game object: a reflected object with flags and components.
#[derive(Debug)]
pub struct ScarletGameObject {
    pub inner: ScarletBaseObject,
    pub flags: u32,
    pub class_flags: u32,
    pub object_flags: u64,
    pub components: LuminousPointer<ScarletGameComponentDto>,
}

/// An entity group: a game object holding entities, with names.
#[derive(Debug)]
pub struct ScarletEntityGroup {
    pub inner: ScarletGameObject,
    pub name: Option<String>,
    pub source_name: Option<String>,
    pub entities: LuminousPointer<LuminousDynamicArray<()>>,
}

/// An entity package: an entity group holding objects.
#[derive(Debug)]
pub struct ScarletEntityPackage {
    pub inner: ScarletEntityGroup,
    pub objects: LuminousPointer<LuminousDynamicArray<()>>,
}

/// A live object, by the most specific kind that its type derives from.
#[derive(Debug)]
pub enum ScarletObject {
    Package(ScarletEntityPackage),
    Group(ScarletEntityGroup),
    GameObject(ScarletGameObject),
    BaseObject(ScarletBaseObject),
}

/// The kinds of live objects.
#[derive(Debug, Clone, Copy, PartialEq, Eq, Structural)]
pub enum ScarletObjectType {
    Package,
    Group,
    GameObject,
    BaseObject,
}

/// The base object of any live object.
pub open spec fn spec_base_object(o: ScarletObject) -> ScarletBaseObject {
    match o {
        ScarletObject::Package(p) => p.inner.inner.inner,
        ScarletObject::Group(g) => g.inner.inner,
        ScarletObject::GameObject(g) => g.inner,
        ScarletObject::BaseObject(b) => b,
    }
}

impl ScarletObject {
    /// The object's name, where it has one.
    pub fn name(&self) -> (r: Option<String>)
        ensures
            match r {
                Some(s) => spec_base_object(*self).name == Some(s),
                None => spec_base_object(*self).name is None,
            },
    {
        let base = self.object();
        match &base.name {
            Some(n) => Some(n.clone()),
            None => None,
        }
    }

    /// The object's reflected type.
    pub fn type_info(&self) -> (r: &ObjectInfo)
        ensures
            *r == spec_base_object(*self).object_type,
    {
        &self.object().object_type
    }

    /// The object as an entity package, if it is one.
    pub fn package(&self) -> (r: Option<&ScarletEntityPackage>)
        ensures
            match *self {
                ScarletObject::Package(p) => r == Some(&p),
                _ => r is None,
            },
    {
        match self {
            ScarletObject::Package(package) => Some(package),
            _ => None,
        }
    }

    /// The object as an entity group: packages are groups too.
    pub fn group(&self) -> (r: Option<&ScarletEntityGroup>)
        ensures
            match *self {
                ScarletObject::Package(p) => r == Some(&p.inner),
                ScarletObject::Group(g) => r == Some(&g),
                _ => r is None,
            },
    {
        match self {
            ScarletObject::Package(package) => Some(&package.inner),
            ScarletObject::Group(group) => Some(group),
            _ => None,
        }
    }

    /// The object as a game object: packages and groups are game objects
    /// too.
    pub fn game_object(&self) -> (r: Option<&ScarletGameObject>)
        ensures
            match *self {
                ScarletObject::Package(p) => r == Some(&p.inner.inner),
                ScarletObject::Group(g) => r == Some(&g.inner),
                ScarletObject::GameObject(g) => r == Some(&g),
                ScarletObject::BaseObject(_) => r is None,
            },
    {
        match self {
            ScarletObject::Package(package) => Some(&package.inner.inner),
            ScarletObject::Group(group) => Some(&group.inner),
            ScarletObject::GameObject(game_object) => Some(game_object),
            _ => None,
        }
    }

    /// The object as a reflected object, which every object is.
    pub fn object(&self) -> (r: &ScarletBaseObject)
        ensures
            *r == spec_base_object(*self),
    {
        match self {
            ScarletObject::Package(package) => &package.inner.inner.inner,
            ScarletObject::Group(group) => &group.inner.inner,
            ScarletObject::GameObject(game_object) => &game_object.inner,
            ScarletObject::BaseObject(object) => object,
        }
    }
}

/// The kind that a type of this exact name has, if it is one of the engine's
/// package, group or game object types.
pub open spec fn kind_of_type_name(name: Seq<char>) -> Option<ScarletObjectType> {
    if name == "Luminous.EntitySystem.EntityPackage"@ {
        Some(ScarletObjectType::Package)
    } else if name == "Luminous.EntitySystem.EntityGroup"@ {
        Some(ScarletObjectType::Group)
    } else if name == "Luminous.GameFramework.GameObject"@ {
        Some(ScarletObjectType::GameObject)
    } else {
        None
    }
}

/// The kind of a type named `name` with base type `base`: its own kind if it
/// is one of the engine's kinds, else its base type's, walking up the
/// registered base types; a plain object when the walk reaches a type
/// without a registered base, or after `fuel` steps up.
pub open spec fn spec_object_kind(
    types: NameMap<ObjectInfo>,
    name: Seq<char>,
    base: Option<Seq<char>>,
    fuel: nat,
) -> ScarletObjectType
    decreases fuel,
{
    match kind_of_type_name(name) {
        Some(k) => k,
        None => match base {
            None => ScarletObjectType::BaseObject,
            Some(b) => match types.spec_get(b) {
                None => ScarletObjectType::BaseObject,
                Some(o) => if fuel == 0 {
                    ScarletObjectType::BaseObject
                } else {
                    spec_object_kind(types, o.name@, opt_view(o.base_type), (fuel - 1) as nat)
                },
            },
        },
    }
}

/// The kind of a type of this name, if it is one of the engine's kinds.
fn kind_of_name(name: &str) -> (r: Option<ScarletObjectType>)
    ensures
        r == kind_of_type_name(name@),
{
    let chars = chars_of(name);
    let package = chars_of("Luminous.EntitySystem.EntityPackage");
    if chars_equal(chars.as_slice(), package.as_slice()) {
        return Some(ScarletObjectType::Package);
    }
    let group = chars_of("Luminous.EntitySystem.EntityGroup");
    if chars_equal(chars.as_slice(), group.as_slice()) {
        return Some(ScarletObjectType::Group);
    }
    let game_object = chars_of("Luminous.GameFramework.GameObject");
    if chars_equal(chars.as_slice(), game_object.as_slice()) {
        return Some(ScarletObjectType::GameObject);
    }
    None
}

/// The kind of an object of type `type_info`: the walk of
/// `spec_object_kind` with one step up per registered type. A walk that
/// takes more steps goes round a loop of base types and would not end.
pub fn classify_object(type_info: &ObjectInfo, ebex: &ObjectInfoRegistry) -> (r: ScarletObjectType)
    requires
        ebex.elements.wf(),
    ensures
        r == spec_object_kind(
            ebex.elements,
            type_info.name@,
            opt_view(type_info.base_type),
            ebex.elements.entries@.len(),
        ),
{
    let mut name: &str = type_info.name.as_str();
    let mut base: Option<&str> = match &type_info.base_type {
        Some(b) => Some(b.as_str()),
        None => None,
    };
    let mut fuel: usize = ebex.elements.entries.len();
    loop
        invariant
            ebex.elements.wf(),
            spec_object_kind(
                ebex.elements,
                type_info.name@,
                opt_view(type_info.base_type),
                ebex.elements.entries@.len(),
            ) == spec_object_kind(
                ebex.elements,
                name@,
                match base {
                    Some(b) => Some(b@),
                    None => None,
                },
                fuel as nat,
            ),
        decreases fuel,
    {
        match kind_of_name(name) {
            Some(k) => {
                return k;
            },
            None => {},
        }
        let b = match base {
            None => {
                return ScarletObjectType::BaseObject;
            },
            Some(b) => b,
        };
        let o = match ebex.elements.get(b) {
            None => {
                return ScarletObjectType::BaseObject;
            },
            Some(o) => o,
        };
        if fuel == 0 {
            return ScarletObjectType::BaseObject;
        }
        name = o.name.as_str();
        base = match &o.base_type {
            Some(t) => Some(t.as_str()),
            None => None,
        };
        fuel = fuel - 1;
    }
}

/// Offset of an entity group's entity array.
pub const GROUP_ENTITIES_OFFSET: u64 = 0x70;

/// Offset of an entity group's source name.
pub const GROUP_SOURCE_NAME_OFFSET: u64 = 0xe0;

/// Offset of an entity group's name.
pub const GROUP_NAME_OFFSET: u64 = 0x118;

/// Offset of an entity package's object array.
pub const PACKAGE_OBJECTS_OFFSET: u64 = 0x148;

/// Whether `text` is what reading an engine string that is not empty can
/// give: the lossy UTF-8 text of as many bytes as the string's size.
pub open spec fn read_string_text(s: LuminousString, text: Option<String>) -> bool {
    &&& spec_string_size(s.flags) == 0 ==> text is None
    &&& text matches Some(t) ==> exists|b: Seq<u8>| b.len() == spec_string_size(s.flags) && t@ == spec_utf8_lossy(b)
}

/// Whether the game object `g` holds the fields of the object head `d`.
pub open spec fn game_object_from(g: ScarletGameObject, d: ScarletGameObjectDto) -> bool {
    &&& g.flags == d.flags
    &&& g.class_flags == d.class_flags
    &&& g.object_flags == d.object_flags
    &&& g.components == d.components
}

/// Whether the reader knows the head of the object at `address`, which is
/// valid.
pub open spec fn head_known<R: MemoryReader>(reader: R, address: u64) -> bool {
    &&& spec_pointer_valid(address)
    &&& reader.spec_memory(address, ScarletGameObjectDto::layout_size()) is Some
}

/// Whether `g` is what reading the game object of `inner` gives: that
/// reflected object, at a valid address, and, where the reader knows the
/// object's head, the head's fields.
pub open spec fn game_object_read<R: MemoryReader>(reader: R, inner: ScarletBaseObject, g: ScarletGameObject) -> bool {
    &&& g.inner == inner
    &&& spec_pointer_valid(inner.address.inner)
    &&& reader.spec_memory(inner.address.inner, ScarletGameObjectDto::layout_size()) matches Some(b)
        ==> game_object_from(g, ScarletGameObjectDto::from_layout(b))
}

/// Reads the game object whose reflected object is `inner`: its flags and
/// components from the object's head. Fails when the object's address is
/// not valid or its head cannot be read; succeeds where the reader knows the
/// head.
pub fn read_game_object<R: MemoryReader>(reader: &mut MemoryCursor<R>, inner: ScarletBaseObject) -> (r: Result<ScarletGameObject, MemoryError>)
    ensures
        old(reader).pos == final(reader).pos,
        same_source(old(reader).inner, final(reader).inner),
        !spec_pointer_valid(inner.address.inner) ==> r == Err::<ScarletGameObject, MemoryError>(MemoryError::InvalidPointer),
        r matches Ok(g) ==> game_object_read(old(reader).inner, inner, g),
        head_known(old(reader).inner, inner.address.inner) ==> r is Ok,
{
    let head: LuminousPointer<ScarletGameObjectDto> = inner.address.cast();
    let dto = match head.read(&mut reader.inner) {
        Ok(d) => d,
        Err(e) => {
            return Err(e);
        },
    };
    Ok(ScarletGameObject {
        inner,
        flags: dto.flags,
        class_flags: dto.class_flags,
        object_flags: dto.object_flags,
        components: dto.components,
    })
}

/// Whether `t` is what reading the engine string `s` gives: nothing for an
/// empty string, and, where the reader knows the string's bytes, their
/// lossy UTF-8 text.
pub open spec fn string_read<R: MemoryReader>(reader: R, s: LuminousString, t: Option<String>) -> bool {
    &&& read_string_text(s, t)
    &&& spec_string_size(s.flags) > 0 ==> (reader.spec_memory(
        s.address.inner,
        spec_string_size(s.flags) as nat,
    ) matches Some(b) ==> t matches Some(x) && x@ == spec_utf8_lossy(b))
}

/// Whether `t` is what reading the engine string at `address` gives, where
/// the reader knows the string there (`string_read`).
pub open spec fn string_at<R: MemoryReader>(reader: R, address: u64, t: Option<String>) -> bool {
    reader.spec_memory(address, LuminousString::layout_size()) matches Some(b) ==> string_read(
        reader,
        LuminousString::from_layout(b),
        t,
    )
}

/// Whether the reader knows the engine string at `address`, which is valid.
pub open spec fn string_known<R: MemoryReader>(reader: R, address: u64) -> bool {
    &&& spec_pointer_valid(address)
    &&& reader.spec_memory(address, LuminousString::layout_size()) is Some
}

/// What reading a string gives depends only on the known bytes.
proof fn lemma_string_at_same<R: MemoryReader>(a: R, b: R, address: u64, t: Option<String>)
    requires
        same_source(a, b),
    ensures
        string_at(a, address, t) == string_at(b, address, t),
{
    assert(a.spec_memory(address, LuminousString::layout_size()) == b.spec_memory(
        address,
        LuminousString::layout_size(),
    ));
    if let Some(bytes) = a.spec_memory(address, LuminousString::layout_size()) {
        let s = LuminousString::from_layout(bytes);
        assert(a.spec_memory(s.address.inner, spec_string_size(s.flags) as nat) == b.spec_memory(
            s.address.inner,
            spec_string_size(s.flags) as nat,
        ));
    }
}

/// Whether a string is known depends only on the known bytes.
proof fn lemma_string_known_same<R: MemoryReader>(a: R, b: R, address: u64)
    requires
        same_source(a, b),
    ensures
        string_known(a, address) == string_known(b, address),
{
    assert(a.spec_memory(address, LuminousString::layout_size()) == b.spec_memory(
        address,
        LuminousString::layout_size(),
    ));
}

/// What reading a game object gives depends only on the known bytes.
proof fn lemma_game_object_read_same<R: MemoryReader>(a: R, b: R, inner: ScarletBaseObject, g: ScarletGameObject)
    requires
        same_source(a, b),
    ensures
        game_object_read(a, inner, g) == game_object_read(b, inner, g),
        head_known(a, inner.address.inner) == head_known(b, inner.address.inner),
{
    assert(a.spec_memory(inner.address.inner, ScarletGameObjectDto::layout_size()) == b.spec_memory(
        inner.address.inner,
        ScarletGameObjectDto::layout_size(),
    ));
}

/// Reads the engine string at `address`, as text when it is not empty.
fn read_string_at<R: MemoryReader>(reader: &mut R, address: u64) -> (r: Result<Option<String>, MemoryError>)
    ensures
        same_source(*old(reader), *final(reader)),
        !spec_pointer_valid(address) ==> r == Err::<Option<String>, MemoryError>(MemoryError::InvalidPointer),
        r matches Ok(t) ==> exists|s: LuminousString| read_string_text(s, t),
        r matches Ok(t) ==> string_at(*old(reader), address, t),
        string_known(*old(reader), address) ==> r is Ok,
{
    let ptr: LuminousPointer<LuminousString> = LuminousPointer::new(address);
    let s = match ptr.read(reader) {
        Ok(s) => s,
        Err(e) => {
            return Err(e);
        },
    };
    proof {
        assert(reader.spec_memory(s.address.inner, spec_string_size(s.flags) as nat) == old(reader).spec_memory(
            s.address.inner,
            spec_string_size(s.flags) as nat,
        ));
    }
    let t = s.as_some_string(reader);
    assert(read_string_text(s, t));
    Ok(t)
}

/// The address of the name of the entity group at `base`.
pub open spec fn group_name_address(base: u64) -> u64 {
    (base + GROUP_NAME_OFFSET) as u64
}

/// The address of the source name of the entity group at `base`.
pub open spec fn group_source_name_address(base: u64) -> u64 {
    (base + GROUP_SOURCE_NAME_OFFSET) as u64
}

/// Whether `g` is what reading the entity group of `inner` gives: its game
/// object (`game_object_read`), where its entity array is, and its name and
/// source name, the engine strings at their offsets (`string_at`).
pub open spec fn group_read<R: MemoryReader>(reader: R, inner: ScarletBaseObject, g: ScarletEntityGroup) -> bool {
    &&& game_object_read(reader, inner, g.inner)
    &&& g.entities.inner == inner.address.inner + GROUP_ENTITIES_OFFSET
    &&& string_at(reader, group_name_address(inner.address.inner), g.name)
    &&& string_at(reader, group_source_name_address(inner.address.inner), g.source_name)
    &&& exists|s: LuminousString| read_string_text(s, g.name)
    &&& exists|s: LuminousString| read_string_text(s, g.source_name)
}

/// Whether the reader knows all that reading the entity group of `inner`
/// reads: the object's head and its two strings.
pub open spec fn group_known<R: MemoryReader>(reader: R, inner: ScarletBaseObject) -> bool {
    &&& head_known(reader, inner.address.inner)
    &&& string_known(reader, group_source_name_address(inner.address.inner))
    &&& string_known(reader, group_name_address(inner.address.inner))
}

/// Reads the entity group whose reflected object is `inner`: the game
/// object, its source name and name (engine strings at fixed offsets), and
/// where its entity array is. Fails as `read_game_object` does and when a
/// name cannot be read; succeeds where the reader knows all three
/// (`group_known`).
pub fn read_entity_group<R: MemoryReader>(reader: &mut MemoryCursor<R>, inner: ScarletBaseObject) -> (r: Result<ScarletEntityGroup, MemoryError>)
    ensures
        old(reader).pos == final(reader).pos,
        same_source(old(reader).inner, final(reader).inner),
        !spec_pointer_valid(inner.address.inner) ==> r == Err::<ScarletEntityGroup, MemoryError>(MemoryError::InvalidPointer),
        r matches Ok(g) ==> g.inner.inner == inner && group_read(old(reader).inner, inner, g),
        group_known(old(reader).inner, inner) ==> r is Ok,
{
    let base = inner.address.inner;
    let game_object = match read_game_object(reader, inner) {
        Ok(g) => g,
        Err(e) => {
            return Err(e);
        },
    };
    let ghost second = reader.inner;
    proof {
        lemma_string_known_same(old(reader).inner, second, group_source_name_address(base));
    }
    let source_name = match read_string_at(&mut reader.inner, base + GROUP_SOURCE_NAME_OFFSET) {
        Ok(t) => t,
        Err(e) => {
            return Err(e);
        },
    };
    let ghost third = reader.inner;
    proof {
        lemma_string_at_same(old(reader).inner, second, group_source_name_address(base), source_name);
        lemma_string_known_same(old(reader).inner, third, group_name_address(base));
    }
    let name = match read_string_at(&mut reader.inner, base + GROUP_NAME_OFFSET) {
        Ok(t) => t,
        Err(e) => {
            return Err(e);
        },
    };
    proof {
        lemma_string_at_same(old(reader).inner, third, group_name_address(base), name);
    }
    Ok(ScarletEntityGroup {
        inner: game_object,
        name,
        source_name,
        entities: LuminousPointer::new(base + GROUP_ENTITIES_OFFSET),
    })
}

/// Whether `p` is what reading the entity package of `inner` gives: its
/// entity group (`group_read`) and where its object array is.
pub open spec fn package_read<R: MemoryReader>(reader: R, inner: ScarletBaseObject, p: ScarletEntityPackage) -> bool {
    &&& group_read(reader, inner, p.inner)
    &&& p.objects.inner == inner.address.inner + PACKAGE_OBJECTS_OFFSET
}

/// Reads the entity package whose reflected object is `inner`: the entity
/// group and where its object array is. Fails exactly where
/// `read_entity_group` does, and succeeds where the reader knows the group
/// (`group_known`).
pub fn read_entity_package<R: MemoryReader>(reader: &mut MemoryCursor<R>, inner: ScarletBaseObject) -> (r: Result<ScarletEntityPackage, MemoryError>)
    ensures
        old(reader).pos == final(reader).pos,
        same_source(old(reader).inner, final(reader).inner),
        !spec_pointer_valid(inner.address.inner) ==> r == Err::<ScarletEntityPackage, MemoryError>(MemoryError::InvalidPointer),
        r matches Ok(p) ==> {
            &&& p.inner.inner.inner == inner
            &&& p.inner.entities.inner == inner.address.inner + GROUP_ENTITIES_OFFSET
            &&& p.objects.inner == inner.address.inner + PACKAGE_OBJECTS_OFFSET
            &&& package_read(old(reader).inner, inner, p)
        },
        group_known(old(reader).inner, inner) ==> r is Ok,
{
    let base = inner.address.inner;
    let group = match read_entity_group(reader, inner) {
        Ok(g) => g,
        Err(e) => {
            return Err(e);
        },
    };
    Ok(ScarletEntityPackage { inner: group, objects: LuminousPointer::new(base + PACKAGE_OBJECTS_OFFSET) })
}

/// Whether `o` is what reading the live object of `object` gives, by its
/// kind: a package's or group's fields (`package_read`, `group_read`), a
/// game object's head fields (`game_object_read`), or the reflected object
/// itself.
pub open spec fn object_read<R: MemoryReader>(reader: R, object: ScarletBaseObject, o: ScarletObject) -> bool {
    match o {
        ScarletObject::Package(p) => package_read(reader, object, p),
        ScarletObject::Group(g) => group_read(reader, object, g),
        ScarletObject::GameObject(g) => game_object_read(reader, object, g),
        ScarletObject::BaseObject(b) => b == object,
    }
}

/// Whether the reader knows all that reading a live object of `kind` at
/// `object` reads: a group's or package's head and strings, a game object's
/// head, and nothing for a plain object.
pub open spec fn object_known<R: MemoryReader>(reader: R, object: ScarletBaseObject, kind: ScarletObjectType) -> bool {
    match kind {
        ScarletObjectType::Package => group_known(reader, object),
        ScarletObjectType::Group => group_known(reader, object),
        ScarletObjectType::GameObject => head_known(reader, object.address.inner),
        ScarletObjectType::BaseObject => true,
    }
}

/// Reads the live object whose reflected object is `object` (its address,
/// type and name, which the game itself reports): classifies its type
/// (`classify_object`) and reads the fields of that kind. Fails as the
/// reads of `read_game_object`, `read_entity_group` and
/// `read_entity_package` do; a plain object needs no read.
pub fn read_object<R: MemoryReader>(
    reader: &mut MemoryCursor<R>,
    object: ScarletBaseObject,
    ebex: &ObjectInfoRegistry,
) -> (r: Result<ScarletObject, MemoryError>)
    requires
        ebex.elements.wf(),
    ensures
        old(reader).pos == final(reader).pos,
        same_source(old(reader).inner, final(reader).inner),
        r matches Ok(o) ==> {
            &&& spec_base_object(o) == object
            &&& match spec_object_kind(
                ebex.elements,
                object.object_type.name@,
                opt_view(object.object_type.base_type),
                ebex.elements.entries@.len(),
            ) {
                ScarletObjectType::Package => o is Package,
                ScarletObjectType::Group => o is Group,
                ScarletObjectType::GameObject => o is GameObject,
                ScarletObjectType::BaseObject => o is BaseObject,
            }
        },
        r matches Ok(o) ==> object_read(old(reader).inner, object, o),
        object_known(
            old(reader).inner,
            object,
            spec_object_kind(
                ebex.elements,
                object.object_type.name@,
                opt_view(object.object_type.base_type),
                ebex.elements.entries@.len(),
            ),
        ) ==> r is Ok,
{
    match classify_object(&object.object_type, ebex) {
        ScarletObjectType::Package => match read_entity_package(reader, object) {
            Ok(p) => Ok(ScarletObject::Package(p)),
            Err(e) => Err(e),
        },
        ScarletObjectType::Group => match read_entity_group(reader, object) {
            Ok(g) => Ok(ScarletObject::Group(g)),
            Err(e) => Err(e),
        },
        ScarletObjectType::GameObject => match read_game_object(reader, object) {
            Ok(g) => Ok(ScarletObject::GameObject(g)),
            Err(e) => Err(e),
        },
        ScarletObjectType::BaseObject => Ok(ScarletObject::BaseObject(object)),
    }
}

/// Offset from the entity manager of its package list: a lock, then the
/// array of packages.
pub const ENTITY_MANAGER_PACKAGES_OFFSET: u64 = 0x48;

/// Offset from the package list of its lock.
pub const PACKAGES_LOCK_OFFSET: u64 = 0x8;

/// Offset from the package list of its array of packages.
pub const PACKAGES_ARRAY_OFFSET: u64 = 0x30;

/// The spin count of an initialized package lock.
pub const PACKAGES_LOCK_SPIN_COUNT: u64 = 0x64;

/// Whether the lock of the package list at `list` may be taken: fails with
/// `InvalidPointer` when the lock's address is not valid, with `ReadFailed`
/// when it cannot be read, and with `Malformed` when its spin count is not
/// that of an initialized lock.
pub fn package_lock_ready<R: MemoryReader>(reader: &mut R, list: LuminousPointer<()>) -> (r: Result<
    (),
    MemoryError,
>)
    requires
        list.inner + PACKAGES_LOCK_OFFSET <= u64::MAX,
    ensures
        same_source(*old(reader), *final(reader)),
        !spec_pointer_valid((list.inner + PACKAGES_LOCK_OFFSET) as u64) ==> r == Err::<(), MemoryError>(
            MemoryError::InvalidPointer,
        ),
        r is Err ==> r == Err::<(), MemoryError>(MemoryError::InvalidPointer) || r == Err::<
            (),
            MemoryError,
        >(MemoryError::ReadFailed) || r == Err::<(), MemoryError>(MemoryError::Malformed),
        spec_pointer_valid((list.inner + PACKAGES_LOCK_OFFSET) as u64) ==> (old(reader).spec_memory(
            (list.inner + PACKAGES_LOCK_OFFSET) as u64,
            LuminousMutexCriticalSection::layout_size(),
        ) matches Some(b) ==> if LuminousMutexCriticalSection::from_layout(b).spin_cont
            == PACKAGES_LOCK_SPIN_COUNT {
            r is Ok
        } else {
            r == Err::<(), MemoryError>(MemoryError::Malformed)
        }),
{
    let lock: LuminousPointer<LuminousMutexCriticalSection> = LuminousPointer::new(
        list.inner + PACKAGES_LOCK_OFFSET,
    );
    if !lock.is_valid() {
        return Err(MemoryError::InvalidPointer);
    }
    let state = match lock.read(reader) {
        Ok(s) => s,
        Err(e) => {
            return Err(e);
        },
    };
    if state.spin_cont != PACKAGES_LOCK_SPIN_COUNT {
        return Err(MemoryError::Malformed);
    }
    Ok(())
}

/// Whether the reader knows every item slot of the array `h`, each at a
/// valid address.
pub open spec fn slots_known<R: MemoryReader>(reader: R, h: LuminousDynamicArray<()>) -> bool {
    forall|i: int|
        0 <= i < h.size ==> spec_pointer_valid((h.inner.inner + 8 * i) as u64)
            && #[trigger] reader.spec_memory((h.inner.inner + 8 * i) as u64, 8) is Some
}

/// The item pointers of the array `h`, as the bytes that the reader knows at
/// its slots give them.
pub open spec fn known_slots<R: MemoryReader>(reader: R, h: LuminousDynamicArray<()>) -> Seq<LuminousPointer<()>> {
    Seq::new(
        h.size as nat,
        |i: int| LuminousPointer::<()>::from_layout(reader.spec_memory((h.inner.inner + 8 * i) as u64, 8)->0),
    )
}

/// The valid pointers of `s`, in order.
pub open spec fn valid_pointers(s: Seq<LuminousPointer<()>>) -> Seq<LuminousPointer<()>>
    decreases s.len(),
{
    if s.len() == 0 {
        Seq::empty()
    } else if spec_pointer_valid(s.last().inner) {
        valid_pointers(s.drop_last()).push(s.last())
    } else {
        valid_pointers(s.drop_last())
    }
}

/// The valid object pointers of the array that `array` targets, in order:
/// fails with `InvalidPointer` when `array` is not valid, with `Malformed`
/// when the array's header is not usable, and with the reader's error when
/// a read fails; invalid item pointers are left out.
pub fn entity_pointers<R: MemoryReader>(
    reader: &mut R,
    array: LuminousPointer<LuminousDynamicArray<()>>,
) -> (r: Result<Vec<LuminousPointer<()>>, MemoryError>)
    ensures
        same_source(*old(reader), *final(reader)),
        !spec_pointer_valid(array.inner) ==> r == Err::<Vec<LuminousPointer<()>>, MemoryError>(
            MemoryError::InvalidPointer,
        ),
        r matches Ok(v) ==> forall|i: int| 0 <= i < v@.len() ==> spec_pointer_valid(#[trigger] v@[i].inner),
        spec_pointer_valid(array.inner) ==> (old(reader).spec_memory(
            array.inner,
            LuminousDynamicArray::<()>::layout_size(),
        ) matches Some(b) ==> {
            let h = LuminousDynamicArray::<()>::from_layout(b);
            &&& !spec_array_valid(h.inner.inner, h.size, h.capacity) ==> r == Err::<
                Vec<LuminousPointer<()>>,
                MemoryError,
            >(MemoryError::Malformed)
            &&& spec_array_valid(h.inner.inner, h.size, h.capacity) && slots_known(*old(reader), h) ==> (r matches Ok(
                v,
            ) && v@ == valid_pointers(known_slots(*old(reader), h)))
        }),
{
    if !array.is_valid() {
        return Err(MemoryError::InvalidPointer);
    }
    let header = match array.read(reader) {
        Ok(h) => h,
        Err(e) => {
            return Err(e);
        },
    };
    if !header.is_valid() {
        return Err(MemoryError::Malformed);
    }
    let items = match header.read_ptrs(reader) {
        Ok(v) => v,
        Err(e) => {
            return Err(e);
        },
    };
    let mut valid: Vec<LuminousPointer<()>> = Vec::new();
    let mut i: usize = 0;
    while i < items.len()
        invariant
            i <= items@.len(),
            forall|j: int| 0 <= j < valid@.len() ==> spec_pointer_valid(#[trigger] valid@[j].inner),
            valid@ == valid_pointers(items@.take(i as int)),
        decreases items@.len() - i,
    {
        let p = items[i];
        proof {
            assert(items@.take(i + 1).drop_last() =~= items@.take(i as int));
            assert(items@.take(i + 1).last() == p);
        }
        if p.is_valid() {
            valid.push(p);
        }
        i += 1;
    }
    proof {
        assert(items@.take(items@.len() as int) =~= items@);
        if slots_known(*old(reader), header) {
            assert(items@ =~= known_slots(*old(reader), header));
        }
    }
    Ok(valid)
}

/// The game functions that the object tools call, as entry addresses.
#[derive(Debug, Clone, Copy)]
pub struct ScarletObjects {
    pub get_entity_manager_module: LuminousPointer<()>,
    pub get_entity_manager: LuminousPointer<()>,
    pub activate_gameobj_impl: LuminousPointer<()>,
    pub deactivate_gameobj_impl: LuminousPointer<()>,
    pub is_active_gameobj_impl: LuminousPointer<()>,
}

/// The address of function `function` of type `object` in the registry,
/// relative to `base`; see `find_ebex_function`.
pub open spec fn spec_ebex_function(
    base: u64,
    ebex: ObjectInfoRegistry,
    object: Seq<char>,
    function: Seq<char>,
) -> Option<u64> {
    match ebex.elements.spec_get(object) {
        None => None,
        Some(o) => match o.functions.spec_get(function) {
            None => None,
            Some(f) => Some((base + f.function_dynamic.inner) as u64),
        },
    }
}

/// Whether `r` is what a lookup of `spec_ebex_function` gives.
pub open spec fn found_as(r: Option<LuminousPointer<()>>, expected: Option<u64>) -> bool {
    match expected {
        None => r is None,
        Some(a) => r matches Some(p) && p.inner == a,
    }
}

impl ScarletObjects {
    /// Looks up the entity manager and game object functions (the module
    /// accessor's name is spelled `GetInsntance` in the game); none when one
    /// of them is missing.
    pub fn new(base: LuminousPointer<()>, ebex: &ObjectInfoRegistry) -> (r: Option<ScarletObjects>)
        requires
            base.inner <= i64::MAX,
            registry_wf(ebex.elements),
        ensures
            r is Some <==> {
                &&& spec_ebex_function(base.inner, *ebex, "Luminous.EntitySystem.EntityManagerModule"@, "GetInsntance"@) is Some
                &&& spec_ebex_function(base.inner, *ebex, "Luminous.EntitySystem.EntityManagerModule"@, "GetEntityManager"@) is Some
                &&& spec_ebex_function(base.inner, *ebex, "Luminous.GameFramework.GameObject"@, "Activate"@) is Some
                &&& spec_ebex_function(base.inner, *ebex, "Luminous.GameFramework.GameObject"@, "Inactivate"@) is Some
                &&& spec_ebex_function(base.inner, *ebex, "Luminous.GameFramework.GameObject"@, "IsActive"@) is Some
            },
            r matches Some(o) ==> {
                &&& found_as(Some(o.get_entity_manager_module), spec_ebex_function(base.inner, *ebex, "Luminous.EntitySystem.EntityManagerModule"@, "GetInsntance"@))
                &&& found_as(Some(o.get_entity_manager), spec_ebex_function(base.inner, *ebex, "Luminous.EntitySystem.EntityManagerModule"@, "GetEntityManager"@))
                &&& found_as(Some(o.activate_gameobj_impl), spec_ebex_function(base.inner, *ebex, "Luminous.GameFramework.GameObject"@, "Activate"@))
                &&& found_as(Some(o.deactivate_gameobj_impl), spec_ebex_function(base.inner, *ebex, "Luminous.GameFramework.GameObject"@, "Inactivate"@))
                &&& found_as(Some(o.is_active_gameobj_impl), spec_ebex_function(base.inner, *ebex, "Luminous.GameFramework.GameObject"@, "IsActive"@))
            },
    {
        let get_entity_manager_module = match find_ebex_function(base, ebex, "Luminous.EntitySystem.EntityManagerModule", "GetInsntance") {
            Some(p) => p,
            None => {
                return None;
            },
        };
        let get_entity_manager = match find_ebex_function(base, ebex, "Luminous.EntitySystem.EntityManagerModule", "GetEntityManager") {
            Some(p) => p,
            None => {
                return None;
            },
        };
        let activate_gameobj_impl = match find_ebex_function(base, ebex, "Luminous.GameFramework.GameObject", "Activate") {
            Some(p) => p,
            None => {
                return None;
            },
        };
        let deactivate_gameobj_impl = match find_ebex_function(base, ebex, "Luminous.GameFramework.GameObject", "Inactivate") {
            Some(p) => p,
            None => {
                return None;
            },
        };
        let is_active_gameobj_impl = match find_ebex_function(base, ebex, "Luminous.GameFramework.GameObject", "IsActive") {
            Some(p) => p,
            None => {
                return None;
            },
        };
        Some(ScarletObjects {
            get_entity_manager_module,
            get_entity_manager,
            activate_gameobj_impl,
            deactivate_gameobj_impl,
            is_active_gameobj_impl,
        })
    }
}

/// The game functions that the injected module calls.
#[derive(Debug, Clone, Copy)]
pub struct ScarletFunctions {
    pub set_world_time_impl: Option<LuminousPointer<()>>,
    pub objects: Option<ScarletObjects>,
}

impl ScarletFunctions {
    /// Looks up the world time setter and the object functions; each is
    /// none where the registry lacks it.
    pub fn new(base: LuminousPointer<()>, ebex: &ObjectInfoRegistry) -> (r: ScarletFunctions)
        requires
            base.inner <= i64::MAX,
            registry_wf(ebex.elements),
        ensures
            found_as(
                r.set_world_time_impl,
                spec_ebex_function(base.inner, *ebex, "Luminous.GameFramework.Debug.MapScreenshotUtility"@, "SetWorldTime"@),
            ),
            r.objects is Some <==> {
                &&& spec_ebex_function(base.inner, *ebex, "Luminous.EntitySystem.EntityManagerModule"@, "GetInsntance"@) is Some
                &&& spec_ebex_function(base.inner, *ebex, "Luminous.EntitySystem.EntityManagerModule"@, "GetEntityManager"@) is Some
                &&& spec_ebex_function(base.inner, *ebex, "Luminous.GameFramework.GameObject"@, "Activate"@) is Some
                &&& spec_ebex_function(base.inner, *ebex, "Luminous.GameFramework.GameObject"@, "Inactivate"@) is Some
                &&& spec_ebex_function(base.inner, *ebex, "Luminous.GameFramework.GameObject"@, "IsActive"@) is Some
            },
    {
        ScarletFunctions {
            set_world_time_impl: find_ebex_function(base, ebex, "Luminous.GameFramework.Debug.MapScreenshotUtility", "SetWorldTime"),
            objects: ScarletObjects::new(base, ebex),
        }
    }
}

/// The native layout of a game object's component table: the component map
/// at byte 0 (pairs, size, capacity), the component list at byte 16
/// (items, size, capacity) and the owner at byte 32.
pub proof fn lemma_game_component_dto_layout(b: Seq<u8>)
    requires
        b.len() >= 40,
    ensures
        ({
            let c = ScarletGameComponentDto::from_layout(b);
            &&& c.map.data.inner == le_u64(b, 0)
            &&& c.map.size == le_u32(b, 8)
            &&& c.map.capacity == le_u32(b, 12)
            &&& c.components.inner.inner == le_u64(b, 16)
            &&& c.components.size == le_u32(b, 24)
            &&& c.components.capacity == le_u32(b, 28)
            &&& c.owner.inner == le_u64(b, 32)
        }),
{
    lemma_le_in_part(b, 0, 16, 0);
    lemma_le_in_part(b, 0, 16, 8);
    lemma_le_in_part(b, 0, 16, 12);
    lemma_le_in_part(b, 16, 16, 0);
    lemma_le_in_part(b, 16, 16, 8);
    lemma_le_in_part(b, 16, 16, 12);
    lemma_le_in_part(b, 32, 8, 0);
}

/// The native layout of a game object's head: the virtual table at byte 0,
/// the flags and class flags at bytes 8 and 12, the object flags at byte 16
/// and the component table at byte 24.
pub proof fn lemma_game_object_dto_layout(b: Seq<u8>)
    requires
        b.len() >= 32,
    ensures
        ({
            let o = ScarletGameObjectDto::from_layout(b);
            &&& o.vtable.inner == le_u64(b, 0)
            &&& o.flags == le_u32(b, 8)
            &&& o.class_flags == le_u32(b, 12)
            &&& o.object_flags == le_u64(b, 16)
            &&& o.components.inner == le_u64(b, 24)
        }),
{
    lemma_le_in_part(b, 0, 8, 0);
    lemma_le_in_part(b, 8, 4, 0);
    lemma_le_in_part(b, 12, 4, 0);
    lemma_le_in_part(b, 16, 8, 0);
    lemma_le_in_part(b, 24, 8, 0);
}

} // verus!
