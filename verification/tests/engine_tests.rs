use witch_common::engine::ebex::{
    find_ebex_function, ObjectClassFunctions, ObjectProperty, ObjectFunction, ObjectFunctionFlag, ObjectFunctionType,
    ObjectFunctionTypeFlag, ObjectInfo, ObjectInfoAttributeFlag, ObjectInfoPrimitiveType, ObjectInfoProperties,
    ObjectInfoRegistry, TYPE_FLAG_CONST, TYPE_FLAG_POINTER, TYPE_FLAG_REFERENCE, TYPE_FLAG_VOID,
};
use witch_common::engine::game_module::{lea_ret_step, GameModuleInfo};
use witch_common::memory::MemoryError;
use witch_common::engine::name_map::NameMap;
use witch_common::engine::native::pointer::LuminousPointer;
use witch_common::engine::native::string::LuminousString;
use witch_common::engine::pseudocode::{
    attribute_text, format_type, function_line, primitive_type_label, primitive_type_to_string, property_line,
    pseudocode, struct_text,
};
use witch_common::engine::x86::{ScannedInstruction, X86Mnemonic};
use witch_common::scarlet::objects::{
    classify_object, ScarletBaseObject, ScarletGameObject, ScarletObject, ScarletObjectType, ScarletObjects,
};
use witch_common::text::{c_string, decimal_string, hex_string};

fn object(name: &str, base: Option<&str>) -> ObjectInfo {
    ObjectInfo {
        name: name.to_string(),
        type_id: 0,
        base_type: base.map(|b| b.to_string()),
        this_id: 0,
        class_functions: ObjectClassFunctions { construct: 0, construct_inherited: 0, singleton: 0 },
        size: 0,
        properties: ObjectInfoProperties {
            type_label: String::new(),
            type_id: 0,
            base_type: None,
            hash_code: 0,
            version_hash_code: 0,
            all_properties_class_field_count: 0,
            properties: NameMap::new(),
        },
        functions: NameMap::new(),
    }
}

fn function_type(flags: u32, primitive_type: ObjectInfoPrimitiveType, name: &str) -> ObjectFunctionType {
    ObjectFunctionType {
        primitive_type,
        type_flag: ObjectFunctionTypeFlag::from_bits_retain(flags),
        type_name_hash: 0,
        type_label: name.to_string(),
        item_primitive_type: ObjectInfoPrimitiveType::Unknown,
        item_type_flag: ObjectFunctionTypeFlag::from_bits_retain(0),
        item_type_name_hash: 0,
        item_type_name: None,
    }
}

fn function(name: &str, dynamic: u64) -> ObjectFunction {
    ObjectFunction {
        name: name.to_string(),
        flags: ObjectFunctionFlag::from_bits_retain(0),
        function: LuminousPointer::new(0),
        function_dynamic: LuminousPointer::new(dynamic),
        return_type: function_type(TYPE_FLAG_VOID, ObjectInfoPrimitiveType::Unknown, ""),
        argument_types: Vec::new(),
    }
}

fn registry(objects: Vec<ObjectInfo>) -> ObjectInfoRegistry {
    let mut elements = NameMap::new();
    for o in objects {
        elements.insert(o.name.clone(), o);
    }
    ObjectInfoRegistry { elements }
}

#[test]
fn pointer_validity_bounds() {
    assert!(!LuminousPointer::<()>::new(0).is_valid());
    assert!(!LuminousPointer::<()>::new(0x1000).is_valid());
    assert!(LuminousPointer::<()>::new(0x1001).is_valid());
    assert!(LuminousPointer::<()>::new(0x7ffffffffffffffe).is_valid());
    assert!(!LuminousPointer::<()>::new(0x7fffffffffffffff).is_valid());
    assert!(!LuminousPointer::<()>::new(u64::MAX).is_valid());
}

#[test]
fn debase_gives_offsets_from_the_base() {
    let base = LuminousPointer::<()>::new(0x140000000);
    assert_eq!(LuminousPointer::<()>::new(0x140001234).debase(base), 0x1234);
    assert_eq!(LuminousPointer::<()>::new(0x140000000).debase(base), 0);
    assert_eq!(LuminousPointer::<()>::new(0x13fffffff).debase(base), 0);
    assert_eq!(LuminousPointer::<()>::new(0x10).debase(base), 0);
    assert_eq!(LuminousPointer::<()>::new(0x150000000).debase_typed(base).inner, 0x10000000);
}

#[test]
fn debase_then_rebase_gives_the_address() {
    let base = 0x140000000u64;
    for a in [0x140000000u64, 0x140000001, 0x7ffffffffffffffe] {
        assert_eq!(LuminousPointer::<()>::new(a).debase(LuminousPointer::new(base)) + base, a);
    }
}

#[test]
fn pointer_offsets_and_casts() {
    let p = LuminousPointer::<u64>::new(0x2000);
    assert_eq!(p.offset(8).inner, 0x2008);
    assert_eq!(p.offset_back(8).inner, 0x1ff8);
    assert_eq!(p.offset_by(LuminousPointer::<u8>::new(0x10)).inner, 0x2010);
    assert_eq!(p.offset_back_by(LuminousPointer::<u8>::new(0x10)).inner, 0x1ff0);
    let q: LuminousPointer<u8> = p.cast();
    assert_eq!(q.inner, 0x2000);
}

#[test]
fn string_flags() {
    let s = LuminousString { address: LuminousPointer::new(0x2000), memory_size: 16, flags: 0xc000_0005 };
    assert_eq!(s.size(), 5);
    assert!(s.is_read_only());
    assert!(s.is_allocated());
    let t = LuminousString { address: LuminousPointer::new(0x2000), memory_size: 16, flags: 0x3fff_ffff };
    assert_eq!(t.size(), 0xffffff);
    assert!(!t.is_read_only());
    assert!(!t.is_allocated());
}

#[test]
fn primitive_type_codes() {
    assert_eq!(ObjectInfoPrimitiveType::from_value(2), ObjectInfoPrimitiveType::Int8);
    assert_eq!(ObjectInfoPrimitiveType::from_value(0x19), ObjectInfoPrimitiveType::Double4);
    assert_eq!(ObjectInfoPrimitiveType::from_value(0), ObjectInfoPrimitiveType::Unknown);
    assert_eq!(ObjectInfoPrimitiveType::from_value(26), ObjectInfoPrimitiveType::Unknown);
    assert_eq!(ObjectInfoPrimitiveType::Fixid.value(), 0x13);
}

#[test]
fn flags_contain_their_bits() {
    let f = ObjectFunctionTypeFlag::from_bits_retain(TYPE_FLAG_CONST | TYPE_FLAG_POINTER);
    assert!(f.contains(ObjectFunctionTypeFlag::from_bits_retain(TYPE_FLAG_CONST)));
    assert!(!f.contains(ObjectFunctionTypeFlag::from_bits_retain(TYPE_FLAG_VOID)));
    assert_eq!(f.bits(), 3);
    let a = ObjectInfoAttributeFlag::from_bits_retain(4);
    assert!(a.contains(ObjectInfoAttributeFlag::from_bits_retain(0)));
}

#[test]
fn primitive_type_names() {
    assert_eq!(primitive_type_to_string(ObjectInfoPrimitiveType::Int8), Some("int8"));
    assert_eq!(primitive_type_to_string(ObjectInfoPrimitiveType::SizeT), Some("usize"));
    assert_eq!(primitive_type_to_string(ObjectInfoPrimitiveType::Double4), Some("Vec4D"));
    assert_eq!(primitive_type_to_string(ObjectInfoPrimitiveType::Pointer), None);
    assert_eq!(primitive_type_to_string(ObjectInfoPrimitiveType::Unknown), None);
}

#[test]
fn function_types_spelled() {
    assert_eq!(format_type(&function_type(TYPE_FLAG_VOID, ObjectInfoPrimitiveType::Int32, "x")), "void");
    assert_eq!(format_type(&function_type(0, ObjectInfoPrimitiveType::Int32, "x")), "int32");
    assert_eq!(format_type(&function_type(0, ObjectInfoPrimitiveType::Pointer, "Entity")), "Entity");
    assert_eq!(
        format_type(&function_type(TYPE_FLAG_CONST | TYPE_FLAG_REFERENCE, ObjectInfoPrimitiveType::String, "x")),
        "const string*"
    );
    assert_eq!(format_type(&function_type(TYPE_FLAG_POINTER | TYPE_FLAG_VOID, ObjectInfoPrimitiveType::Int8, "x")), "void*");
    assert_eq!(format_type(&function_type(TYPE_FLAG_CONST, ObjectInfoPrimitiveType::Bool, "x")), "const bool");
}

#[test]
fn c_string_appends_nul() {
    assert_eq!(c_string("LoadLibraryW"), b"LoadLibraryW\0".to_vec());
    assert_eq!(c_string(""), vec![0u8]);
}

#[test]
fn name_map_read_after_write() {
    let mut m: NameMap<u32> = NameMap::new();
    assert!(m.is_empty());
    m.insert("a".to_string(), 1);
    m.insert("b".to_string(), 2);
    assert_eq!(m.get("a"), Some(&1));
    m.insert("a".to_string(), 3);
    assert_eq!(m.get("a"), Some(&3));
    assert_eq!(m.get("b"), Some(&2));
    assert_eq!(m.get("c"), None);
    assert_eq!(m.len(), 2);
    assert!(m.contains_key("b"));
}

#[test]
fn lea_then_ret_scan() {
    let lea = ScannedInstruction { mnemonic: X86Mnemonic::Lea, op1_memory: true, displacement: 0x1234 };
    let lea_reg = ScannedInstruction { mnemonic: X86Mnemonic::Lea, op1_memory: false, displacement: 0x99 };
    let ret = ScannedInstruction { mnemonic: X86Mnemonic::Ret, op1_memory: false, displacement: 0 };
    let other = ScannedInstruction { mnemonic: X86Mnemonic::Other, op1_memory: true, displacement: 7 };
    assert_eq!(lea_ret_step(0, lea), (0x1234, false));
    assert_eq!(lea_ret_step(5, lea_reg), (5, false));
    assert_eq!(lea_ret_step(5, ret), (5, true));
    assert_eq!(lea_ret_step(5, other), (5, false));
}

#[test]
fn objects_classified_by_type_hierarchy() {
    let reg = registry(vec![
        object("Luminous.EntitySystem.EntityGroup", Some("Luminous.GameFramework.GameObject")),
        object("Game.Town", Some("Luminous.EntitySystem.EntityGroup")),
        object("Game.Prop", Some("Game.Unknown")),
        object("Luminous.GameFramework.GameObject", None),
    ]);
    let town = object("Game.Tile", Some("Game.Town"));
    assert_eq!(classify_object(&town, &reg), ScarletObjectType::Group);
    assert_eq!(classify_object(&object("Game.Prop", Some("Game.Unknown")), &reg), ScarletObjectType::BaseObject);
    assert_eq!(classify_object(&object("Luminous.EntitySystem.EntityPackage", Some("Game.Town")), &reg), ScarletObjectType::Package);
    assert_eq!(classify_object(&object("Game.Actor", Some("Luminous.GameFramework.GameObject")), &reg), ScarletObjectType::GameObject);
    assert_eq!(classify_object(&object("Game.Free", None), &reg), ScarletObjectType::BaseObject);
}

#[test]
fn object_hierarchy_loop_ends() {
    let reg = registry(vec![object("A", Some("B")), object("B", Some("A"))]);
    assert_eq!(classify_object(&object("A", Some("B")), &reg), ScarletObjectType::BaseObject);
}

#[test]
fn object_accessors() {
    let base = ScarletBaseObject { address: LuminousPointer::new(0x5000), object_type: object("T", None), name: Some("n".into()) };
    let game = ScarletObject::GameObject(ScarletGameObject {
        inner: base,
        flags: 1,
        class_flags: 2,
        object_flags: 3,
        components: LuminousPointer::new(0),
    });
    assert_eq!(game.name(), Some("n".to_string()));
    assert_eq!(game.type_info().name, "T");
    assert!(game.package().is_none());
    assert!(game.group().is_none());
    assert_eq!(game.game_object().map(|g| g.flags), Some(1));
    assert_eq!(game.object().address.inner, 0x5000);
    let plain = ScarletObject::BaseObject(ScarletBaseObject {
        address: LuminousPointer::new(0x6000),
        object_type: object("U", None),
        name: None,
    });
    assert!(plain.game_object().is_none());
    assert_eq!(plain.name(), None);
}

#[test]
fn ebex_functions_found_relative_to_base() {
    let mut module = object("Luminous.EntitySystem.EntityManagerModule", None);
    module.functions.insert("GetInsntance".into(), function("GetInsntance", 0x100));
    module.functions.insert("GetEntityManager".into(), function("GetEntityManager", 0x200));
    let mut game_object = object("Luminous.GameFramework.GameObject", None);
    game_object.functions.insert("Activate".into(), function("Activate", 0x300));
    game_object.functions.insert("Inactivate".into(), function("Inactivate", 0x400));
    let reg = registry(vec![module, game_object]);
    let base = LuminousPointer::new(0x140000000);
    let f: Option<LuminousPointer<()>> = find_ebex_function(base, &reg, "Luminous.EntitySystem.EntityManagerModule", "GetEntityManager");
    assert_eq!(f.map(|p| p.inner), Some(0x140000200));
    let missing: Option<LuminousPointer<()>> = find_ebex_function(base, &reg, "Luminous.GameFramework.GameObject", "IsActive");
    assert!(missing.is_none());
    // IsActive is missing, so the object functions are not all there
    assert!(ScarletObjects::new(base, &reg).is_none());
}

#[test]
fn ebex_object_functions_all_found() {
    let mut module = object("Luminous.EntitySystem.EntityManagerModule", None);
    module.functions.insert("GetInsntance".into(), function("GetInsntance", 0x100));
    module.functions.insert("GetEntityManager".into(), function("GetEntityManager", 0x200));
    let mut game_object = object("Luminous.GameFramework.GameObject", None);
    for (n, o) in [("Activate", 0x300), ("Inactivate", 0x400), ("IsActive", 0x500)] {
        game_object.functions.insert(n.into(), function(n, o));
    }
    let reg = registry(vec![module, game_object]);
    let objects = ScarletObjects::new(LuminousPointer::new(0x140000000), &reg).unwrap();
    assert_eq!(objects.get_entity_manager_module.inner, 0x140000100);
    assert_eq!(objects.is_active_gameobj_impl.inner, 0x140000500);
}

#[test]
fn hex_strings_match_std_formatting() {
    for (v, w) in [(0u64, 0usize), (0, 16), (0xabc, 11), (u64::MAX, 16), (0x10, 2), (0xfffff, 3)] {
        assert_eq!(hex_string(v, w), format!("{:#0w$x}", v, w = w));
    }
}

#[test]
fn decimal_strings_match_std_formatting() {
    for v in [0u64, 7, 10, 99, 100, 12345, u64::MAX] {
        assert_eq!(decimal_string(v), format!("{}", v));
    }
}

fn property(name: &str, primitive_type: ObjectInfoPrimitiveType, item_count: usize, attributes: u32) -> ObjectProperty {
    ObjectProperty {
        name: name.to_string(),
        hash_code: 0,
        type_label: "SomeType".to_string(),
        offset: 0x18,
        size: 0x40,
        item_count,
        primitive_type,
        item_primitive_type: ObjectInfoPrimitiveType::Float,
        attributes: ObjectInfoAttributeFlag::from_bits_retain(attributes),
    }
}

#[test]
fn attribute_sets_in_debug_form() {
    assert_eq!(attribute_text(ObjectInfoAttributeFlag::from_bits_retain(0)), "ObjectInfoAttributeFlag(0x0)");
    assert_eq!(attribute_text(ObjectInfoAttributeFlag::from_bits_retain(1)), "ObjectInfoAttributeFlag(Pointer)");
    assert_eq!(
        attribute_text(ObjectInfoAttributeFlag::from_bits_retain(6)),
        "ObjectInfoAttributeFlag(Reference | DynamicArray)"
    );
    assert_eq!(
        attribute_text(ObjectInfoAttributeFlag::from_bits_retain(0x105)),
        "ObjectInfoAttributeFlag(Pointer | DynamicArray | 0x100)"
    );
    assert_eq!(attribute_text(ObjectInfoAttributeFlag::from_bits_retain(0x30)), "ObjectInfoAttributeFlag(0x30)");
    assert_eq!(primitive_type_label(ObjectInfoPrimitiveType::IntrusivePointerArray), "IntrusivePointerArray");
}

#[test]
fn property_lines() {
    assert_eq!(
        property_line(&property("speed", ObjectInfoPrimitiveType::Float, 1, 0)),
        "\tfloat speed; // Item Type: Float, Item: ObjectInfoAttributeFlag(0x0), Offset: 0x18, Size: 0x40\n"
    );
    assert_eq!(
        property_line(&property("slots", ObjectInfoPrimitiveType::Array, 12, 1)),
        "\tSomeType[12] slots; // Item Type: Float, Item: ObjectInfoAttributeFlag(Pointer), Offset: 0x18, Size: 0x40\n"
    );
}

#[test]
fn function_lines() {
    let mut f = function("Spawn", 0);
    f.flags = ObjectFunctionFlag::from_bits_retain(1);
    f.return_type = function_type(TYPE_FLAG_POINTER, ObjectInfoPrimitiveType::Unknown, "Entity");
    f.argument_types = vec![
        function_type(0, ObjectInfoPrimitiveType::Int32, ""),
        function_type(TYPE_FLAG_CONST | TYPE_FLAG_REFERENCE, ObjectInfoPrimitiveType::String, ""),
    ];
    assert_eq!(function_line(&f), "\tstatic Entity* Spawn(int32, const string*);\n");
    assert_eq!(function_line(&function("Tick", 0)), "\tvoid Tick();\n");
}

#[test]
fn struct_pseudocode() {
    assert_eq!(struct_text(&object("Empty", None)), "struct Empty { }\n\n");

    let mut o = object("Player", Some("Actor"));
    o.properties.properties.insert("hp".to_string(), property("hp", ObjectInfoPrimitiveType::Int32, 1, 0));
    o.functions.insert("Tick".to_string(), function("Tick", 0));
    let expected = "struct Player : Actor {\n\
        \tint32 hp; // Item Type: Float, Item: ObjectInfoAttributeFlag(0x0), Offset: 0x18, Size: 0x40\n\
        \n\
        \tvoid Tick();\n\
        };\n\n";
    assert_eq!(struct_text(&o), expected);

    let mut only_functions = object("Tool", None);
    only_functions.functions.insert("Use".to_string(), function("Use", 0));
    assert_eq!(struct_text(&only_functions), "struct Tool {\n\tvoid Use();\n};\n\n");

    let reg = registry(vec![object("A", None), object("B", Some("A"))]);
    assert_eq!(pseudocode(&reg), "struct A { }\n\nstruct B : A { }\n\n");
}

#[test]
fn flag_sets_as_names() {
    assert_eq!(ObjectFunctionFlag::from_bits_retain(3).names_text(), "Static | Object");
    assert_eq!(ObjectFunctionFlag::from_bits_retain(0).names_text(), "");
    assert_eq!(ObjectFunctionTypeFlag::from_bits_retain(0x12).names_text(), "Pointer | 0x10");
    assert_eq!(ObjectFunctionTypeFlag::from_bits_retain(9).names_text(), "Const | Void");
    assert_eq!(ObjectInfoAttributeFlag::from_bits_retain(4).names_text(), "DynamicArray");
    assert_eq!(ObjectInfoAttributeFlag::from_bits_retain(0x40).names_text(), "0x40");
}

#[test]
fn accessor_code_scanned_for_rax() {
    // lea rax, [rip + 0x10]; ret
    let code = [0x48, 0x8d, 0x05, 0x10, 0x00, 0x00, 0x00, 0xc3];
    assert_eq!(GameModuleInfo::sim_lea_ret(0x1000, &code).map(|p| p.inner), Ok(0x1017));
    // lea rax, [rip + 0x10]; lea rax, [rip + 0x20]; ret; lea rax, [rip + 0x30]
    let code = [
        0x48, 0x8d, 0x05, 0x10, 0x00, 0x00, 0x00, 0x48, 0x8d, 0x05, 0x20, 0x00, 0x00, 0x00, 0xc3, 0x48, 0x8d, 0x05,
        0x30, 0x00, 0x00, 0x00,
    ];
    assert_eq!(GameModuleInfo::sim_lea_ret(0x1000, &code).map(|p| p.inner), Ok(0x102e));
    // ret
    assert_eq!(GameModuleInfo::sim_lea_ret(0x1000, &[0xc3]).map(|p| p.inner), Err(MemoryError::Malformed));
    // nop; nop, without a ret: the last address loaded counts
    let code = [0x90, 0x48, 0x8d, 0x05, 0x00, 0x01, 0x00, 0x00, 0x90];
    assert_eq!(GameModuleInfo::sim_lea_ret(0x2000, &code).map(|p| p.inner), Ok(0x2108));
}

#[test]
fn registering_a_type_of_a_known_name_replaces_it() {
    let mut reg = registry(vec![]);
    reg.register(object("A", Some("First")));
    reg.register(object("B", None));
    reg.register(object("A", Some("Second")));
    assert_eq!(reg.elements.len(), 2);
    assert_eq!(reg.elements.get("A").unwrap().base_type.as_deref(), Some("Second"));
    assert!(reg.elements.get("B").unwrap().base_type.is_none());
}

#[test]
fn pseudocode_holds_one_struct_per_type() {
    let reg = registry(vec![object("Alpha", None), object("Beta", Some("Alpha")), object("Gamma", None)]);
    let text = pseudocode(&reg);
    assert_eq!(text.matches("struct ").count(), 3);
    assert!(text.starts_with("struct Alpha"));
    assert!(text.contains("struct Beta : Alpha"));
}
