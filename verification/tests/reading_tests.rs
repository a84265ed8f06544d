use witch_common::asset_id::AssetId;
use witch_common::engine::asset_factory::{AssetFactory, AssetFactoryHolder};
use witch_common::engine::ebex::ObjectInfoRegistry;
use witch_common::engine::game_module::{GameModuleInfo, GameModules};
use witch_common::engine::native::asset_factory::{
    AssetFactoryStatistics as StatisticsDto, AssetFactoryStatisticsHolder,
};
use witch_common::engine::native::game_module::GameModuleKey;
use witch_common::engine::native::map::{LuminousDynamicMap, LuminousStaticMap};
use witch_common::engine::native::pointer::{LuminousCString, LuminousPointer};
use witch_common::engine::native::string::LuminousString;
use witch_common::memory::{MemoryCursor, MemoryError, MemoryReader, MemoryReaderType, SeekOrigin};
use witch_common::scarlet::objects::{
    entity_pointers, package_lock_ready, read_entity_group, read_entity_package, read_game_object, ScarletBaseObject,
    PACKAGES_LOCK_OFFSET,
};
use witch_common::engine::ebex::{ObjectClassFunctions, ObjectInfo, ObjectInfoProperties};
use witch_common::engine::name_map::NameMap;
use witch_common::scarlet::environment::{
    DetectedEnvironment, FORSPOKEN_DECK_FLAG_OFFSET, FORSPOKEN_DXVK_VERSION_OFFSET, FORSPOKEN_WINE_FLAG_OFFSET,
};

const BASE: u64 = 0x140000000;

/// A process image mapped at `BASE`.
struct ImageReader {
    image: Vec<u8>,
    name: Option<String>,
}

impl ImageReader {
    fn new(size: usize) -> Self {
        ImageReader { image: vec![0u8; size], name: Some("forspoken.exe".to_string()) }
    }

    fn put(&mut self, address: u64, bytes: &[u8]) {
        let at = (address - BASE) as usize;
        self.image[at..at + bytes.len()].copy_from_slice(bytes);
    }

    fn put_u64(&mut self, address: u64, v: u64) {
        self.put(address, &v.to_le_bytes());
    }
}

impl MemoryReader for ImageReader {
    fn spec_base_address(&self) -> u64 {
        BASE
    }

    fn spec_process_name(&self) -> Option<String> {
        self.name.clone()
    }

    fn read(&mut self, address: LuminousPointer<()>, buf: &mut [u8]) -> Result<(), MemoryError> {
        if address.inner < BASE {
            return Err(MemoryError::ReadFailed);
        }
        let at = (address.inner - BASE) as usize;
        if at + buf.len() > self.image.len() {
            return Err(MemoryError::ReadFailed);
        }
        buf.copy_from_slice(&self.image[at..at + buf.len()]);
        Ok(())
    }

    fn get_base_address(&self) -> LuminousPointer<()> {
        LuminousPointer::new(BASE)
    }

    fn get_process_name(&self) -> Option<String> {
        self.name.clone()
    }
}

#[test]
fn pointer_read_outcomes() {
    let mut r = ImageReader::new(0x100);
    r.put_u64(BASE + 8, 0xdead_beef);
    let p = LuminousPointer::<u64>::new(BASE + 8);
    assert_eq!(p.read(&mut r), Ok(0xdead_beef));
    assert_eq!(LuminousPointer::<u64>::new(0x10).read(&mut r), Err(MemoryError::InvalidPointer));
    assert_eq!(LuminousPointer::<u64>::new(BASE + 0xfc).read(&mut r), Err(MemoryError::ReadFailed));
}

#[test]
fn c_string_read_up_to_nul() {
    let mut r = ImageReader::new(0x100);
    r.put(BASE + 0x10, b"abc\0def");
    assert_eq!(LuminousCString::new(LuminousPointer::new(BASE + 0x10)).read(&mut r), Some("abc".to_string()));
    assert_eq!(LuminousCString::new(LuminousPointer::new(0x20)).read(&mut r), None);
    assert!(!LuminousCString::new(LuminousPointer::new(0x20)).is_valid());
}

#[test]
fn engine_string_read_by_size() {
    let mut r = ImageReader::new(0x100);
    r.put(BASE + 0x40, b"hello world");
    let s = LuminousString { address: LuminousPointer::new(BASE + 0x40), memory_size: 16, flags: 5 };
    assert_eq!(s.as_some_string(&mut r), Some("hello".to_string()));
    assert_eq!(s.as_string(&mut r), "hello");
    let empty = LuminousString { address: LuminousPointer::new(BASE + 0x40), memory_size: 16, flags: 0x8000_0000 };
    assert_eq!(empty.as_some_string(&mut r), None);
    assert_eq!(empty.as_string(&mut r), "");
    let lossy = LuminousString { address: LuminousPointer::new(BASE + 0x80), memory_size: 2, flags: 2 };
    r.put(BASE + 0x80, &[0xff, b'a']);
    assert_eq!(lossy.as_some_string(&mut r), Some("\u{fffd}a".to_string()));
}

#[test]
fn asset_factory_holder_read() {
    let mut r = ImageReader::new(0x1000);
    // the factory: four slots, each holding a function address
    let factory = BASE + 0x100;
    for (i, f) in [0x1000u64, 0x2000, 0x3000, 0].iter().enumerate() {
        let slot = BASE + 0x200 + 8 * i as u64;
        r.put_u64(factory + 8 * i as u64, slot);
        r.put_u64(slot, if *f == 0 { 0 } else { BASE + f });
    }
    let mut name = [0u8; 16];
    name[..5].copy_from_slice(b"model");
    let dto = AssetFactoryStatisticsHolder {
        factory: LuminousPointer::new(factory),
        statistics: StatisticsDto { current_size: 1, peak_size: 2, current_count: 3, peak_count: 4 },
        name,
    };
    let key = AssetId::from_pathlike("a.gmdl");
    let mut cursor = MemoryCursor::new(r);
    let holder = AssetFactoryHolder::new(&mut cursor, dto, key).unwrap();
    assert_eq!(holder.name, "model");
    assert_eq!(holder.asset_id, key);
    assert_eq!((holder.functions.load, holder.functions.alloc, holder.functions.init, holder.functions.from_fs), (0x1000, 0x2000, 0x3000, 0));
    assert_eq!((holder.stats.current_size, holder.stats.peak_size, holder.stats.current_count, holder.stats.peak_count), (1, 2, 3, 4));
    assert_eq!(cursor.position(), BASE as usize);
}

#[test]
fn asset_factory_holder_needs_its_factory() {
    let r = ImageReader::new(0x100);
    let dto = AssetFactoryStatisticsHolder {
        factory: LuminousPointer::new(0),
        statistics: StatisticsDto { current_size: 0, peak_size: 0, current_count: 0, peak_count: 0 },
        name: [0u8; 16],
    };
    let mut cursor = MemoryCursor::new(r);
    assert_eq!(AssetFactoryHolder::new(&mut cursor, dto, AssetId(1)).err(), Some(MemoryError::InvalidPointer));
}

/// `lea rax, [rip + (target - next)]` then `ret`, placed at `at`.
fn lea_ret(r: &mut ImageReader, at: u64, target: u64) {
    let disp = (target - (at + 7)) as u32;
    let mut code = vec![0x48, 0x8d, 0x05];
    code.extend_from_slice(&disp.to_le_bytes());
    code.push(0xc3);
    r.put(at, &code);
}

fn module_image() -> ImageReader {
    let mut r = ImageReader::new(0x1000);
    let instance = BASE + 0x100;
    let vtable = BASE + 0x180;
    r.put_u64(instance, vtable);
    for (i, f) in [BASE + 0x10, BASE + 0x300, BASE + 0x400, BASE + 0x20, 0x30].iter().enumerate() {
        r.put_u64(vtable + 8 * i as u64, *f);
    }
    lea_ret(&mut r, BASE + 0x300, BASE + 0x600);
    lea_ret(&mut r, BASE + 0x400, BASE + 0x700);
    r.put(BASE + 0x600, b"Physics\0");
    r.put_u64(BASE + 0x700, BASE + 0x800);
    r.put_u64(BASE + 0x708, BASE + 0x810);
    r.put_u64(BASE + 0x710, 0);
    r.put(BASE + 0x800, b"Render\0");
    r.put(BASE + 0x810, b"Audio\0");
    r
}

#[test]
fn game_module_read_through_its_accessors() {
    let mut cursor = MemoryCursor::new(module_image());
    let info = GameModuleInfo::new(&mut cursor, LuminousPointer::new(BASE + 0x100)).unwrap();
    assert_eq!(info.name, "Physics");
    assert_eq!(info.dependencies, vec!["Render".to_string(), "Audio".to_string()]);
    assert_eq!(info.stable_ptr.inner, BASE + 0x100);
    assert_eq!(
        (info.vtable.alloc, info.vtable.get_name, info.vtable.get_dependencies, info.vtable.init, info.vtable.tick),
        (0x10, 0x300, 0x400, 0x20, 0)
    );
}

#[test]
fn game_module_without_name_accessor_result() {
    let mut r = module_image();
    // the name accessor only returns
    r.put(BASE + 0x300, &[0xc3, 0, 0, 0, 0, 0, 0, 0]);
    let mut cursor = MemoryCursor::new(r);
    assert_eq!(GameModuleInfo::new(&mut cursor, LuminousPointer::new(BASE + 0x100)).err(), Some(MemoryError::Malformed));
    assert_eq!(GameModuleInfo::new(&mut cursor, LuminousPointer::new(0x20)).err(), Some(MemoryError::InvalidPointer));
}

#[test]
fn game_modules_keyed_by_id_first_kept() {
    let mut cursor = MemoryCursor::new(module_image());
    let entries = [
        (GameModuleKey { key: 7, unknown: 0 }, LuminousPointer::new(BASE + 0x100)),
        (GameModuleKey { key: 7, unknown: 1 }, LuminousPointer::new(0x10)),
    ];
    let map = GameModules::convert_entries(&mut cursor, &entries).unwrap();
    assert_eq!(map.len(), 1);
    assert_eq!(map[&7].name, "Physics");
    let bad = [(GameModuleKey { key: 8, unknown: 0 }, LuminousPointer::new(0x10))];
    assert_eq!(GameModules::convert_entries(&mut cursor, &bad).err(), Some(MemoryError::InvalidPointer));
}

fn offsets_all(v: u64) -> witch_common::engine::offsets::EngineOffsets {
    witch_common::engine::offsets::EngineOffsets {
        ebex_object_array_forspoken: v,
        ebex_object_array_xv: v,
        asset_factory_container_addr_forspoken: v,
        asset_factory_container_offs_forspoken: v,
        asset_factory_container_addr_xv: v,
        asset_factory_container_offs_xv: v,
        game_framework_module_map_addr_forspoken: v,
    }
}

/// A reader whose module base is zero and which reads nothing.
struct NullReader;

impl MemoryReader for NullReader {
    fn spec_base_address(&self) -> u64 {
        0
    }

    fn spec_process_name(&self) -> Option<String> {
        None
    }

    fn read(&mut self, _address: LuminousPointer<()>, _buf: &mut [u8]) -> Result<(), MemoryError> {
        Err(MemoryError::ReadFailed)
    }

    fn get_base_address(&self) -> LuminousPointer<()> {
        LuminousPointer::new(0)
    }

    fn get_process_name(&self) -> Option<String> {
        None
    }
}

#[test]
fn game_modules_only_on_forspoken() {
    let mut r = ImageReader::new(0x100);
    r.name = Some("ffxv_s.exe".to_string());
    let mut cursor = MemoryCursor::new(r);
    assert_eq!(GameModules::new(&mut cursor, &offsets_all(0)).err(), Some(MemoryError::UnsupportedGame));
}

#[test]
fn registries_at_invalid_addresses() {
    let mut cursor = MemoryCursor::new(NullReader);
    assert_eq!(ObjectInfoRegistry::new(&mut cursor, &offsets_all(0)).err(), Some(MemoryError::InvalidPointer));
    assert_eq!(AssetFactory::new(&mut cursor, &offsets_all(0)).err(), Some(MemoryError::InvalidPointer));
}

#[test]
fn empty_type_table_reads_as_empty_registry() {
    let mut r = ImageReader::new(0x20 * 0x1000 * 16 + 0x100);
    r.name = Some("ffxv_s.exe".to_string());
    let mut cursor = MemoryCursor::new(r);
    let reg = ObjectInfoRegistry::new(&mut cursor, &offsets_all(0x10)).unwrap();
    assert!(reg.elements.is_empty());
}

fn put_u32(r: &mut ImageReader, address: u64, v: u32) {
    r.put(address, &v.to_le_bytes());
}

#[test]
fn type_table_entry_read_in_xv_layout() {
    let table = BASE + 0x10;
    let data = BASE + 0x201000;
    let mut r = ImageReader::new(0x203000);
    r.name = Some("ffxv_s.exe".to_string());
    // strings
    r.put(data + 0x800, b"Game.Type\0");
    r.put(data + 0x820, b"Base.Type\0");
    r.put(data + 0x840, b"Run\0");
    // the base type's record starts with its name pointer
    r.put_u64(data + 0x900, data + 0x820);
    // the type record (Final Fantasy XV layout)
    let rec = data;
    r.put_u64(rec, data + 0x800);
    put_u32(&mut r, rec + 8, 0x1234);
    r.put_u64(rec + 16, data + 0x900);
    r.put_u64(rec + 24, BASE + 0x1000);
    r.put_u64(rec + 32, BASE + 0x1100);
    r.put_u64(rec + 40, BASE + 0x1200);
    r.put_u64(rec + 48, 0);
    r.put_u64(rec + 56, data + 0x100);
    put_u32(&mut r, rec + 64, 1);
    put_u32(&mut r, rec + 68, 0x40);
    // one function
    let f = data + 0x100;
    r.put_u64(f, data + 0x840);
    put_u32(&mut r, f + 12, 1);
    r.put_u64(f + 16, BASE + 0x2000);
    r.put_u64(f + 24, BASE + 0x3000);
    put_u32(&mut r, f + 32, 4);
    r.put_u64(f + 80, data + 0x200);
    put_u32(&mut r, f + 88, 1);
    // its one argument
    put_u32(&mut r, data + 0x200, 11);
    // the table's first slot
    r.put_u64(table, 1);
    r.put_u64(table + 8, rec);

    let mut cursor = MemoryCursor::new(r);
    let reg = ObjectInfoRegistry::new(&mut cursor, &offsets_all(0x10)).unwrap();
    assert_eq!(reg.elements.len(), 1);
    let o = reg.elements.get("Game.Type").unwrap();
    assert_eq!(o.type_id, witch_common::hash::fnv1a64(b"Game.Type"));
    assert_eq!(o.base_type.as_deref(), Some("Base.Type"));
    assert_eq!(o.this_id, 0x1234);
    assert_eq!((o.class_functions.construct, o.class_functions.construct_inherited, o.class_functions.singleton), (0x1000, 0x1100, 0x1200));
    assert_eq!(o.size, 0x40);
    assert!(o.properties.properties.is_empty());
    let run = o.functions.get("Run").unwrap();
    assert_eq!(run.flags.bits, 1);
    assert_eq!(run.function.inner, 0x2000);
    assert_eq!(run.function_dynamic.inner, 0x3000);
    assert_eq!(run.return_type.primitive_type, witch_common::engine::ebex::ObjectInfoPrimitiveType::Int32);
    assert_eq!(run.argument_types.len(), 1);
    assert_eq!(run.argument_types[0].primitive_type, witch_common::engine::ebex::ObjectInfoPrimitiveType::Bool);
    assert_eq!(run.return_type.type_label, "");
    assert_eq!(run.return_type.item_type_name, None);
}

#[test]
fn asset_factory_registry_read_in_xv_layout() {
    let mut r = ImageReader::new(0x2000);
    r.name = Some("ffxv_s.exe".to_string());
    let mut offsets = offsets_all(0);
    offsets.asset_factory_container_addr_xv = 0x20;
    offsets.asset_factory_container_offs_xv = 0x10;
    r.put_u64(BASE + 0x20, BASE + 0x400);
    let registry = BASE + 0x410;
    // the factory map: one bucket holding one pair, no chain in use
    let map = registry + 48;
    r.put_u64(map, BASE + 0x800);
    r.put_u64(map + 8, BASE + 0x900);
    put_u32(&mut r, map + 24, 1);
    put_u32(&mut r, map + 36, 0);
    r.put_u64(BASE + 0x800, 0);
    r.put_u64(BASE + 0x808, BASE + 0xa00);
    r.put_u64(BASE + 0x810, 0x55);
    // the registered factory's record: factory, statistics, name
    r.put_u64(BASE + 0xa00, BASE + 0xb00);
    r.put_u64(BASE + 0xa08, 10);
    r.put_u64(BASE + 0xa10, 20);
    put_u32(&mut r, BASE + 0xa18, 3);
    put_u32(&mut r, BASE + 0xa1c, 4);
    r.put(BASE + 0xa20, b"texture\0");
    // its entry slots
    for i in 0..4u64 {
        r.put_u64(BASE + 0xb00 + 8 * i, BASE + 0xc00 + 8 * i);
        r.put_u64(BASE + 0xc00 + 8 * i, BASE + 0x1000 + 0x10 * i);
    }
    // the default factory's entry slots
    for i in 0..4u64 {
        r.put_u64(registry + 104 + 8 * i, BASE + 0xd00 + 8 * i);
        r.put_u64(BASE + 0xd00 + 8 * i, BASE + 0x1800 + 0x10 * i);
    }

    let mut cursor = MemoryCursor::new(r);
    let factories = AssetFactory::new(&mut cursor, &offsets).unwrap();
    assert_eq!(factories.factories.len(), 2);
    let (id, texture) = &factories.factories[0];
    assert_eq!(id.0, 0x55);
    assert_eq!(texture.name, "texture");
    assert_eq!(texture.asset_id.0, 0x55);
    assert_eq!((texture.functions.load, texture.functions.from_fs), (0x1000, 0x1030));
    assert_eq!((texture.stats.current_size, texture.stats.peak_count), (10, 4));
    let (null, default) = &factories.factories[1];
    assert!(null.is_null());
    assert_eq!(default.name, "default");
    assert_eq!(default.functions.load, 0x1800);
    assert_eq!(factories.default_factory.init, 0x1820);
}

/// A process whose memory holds only the bytes that were put in it.
struct SparseReader {
    bytes: std::collections::BTreeMap<u64, u8>,
    name: Option<String>,
}

impl SparseReader {
    fn new(name: &str) -> Self {
        SparseReader { bytes: std::collections::BTreeMap::new(), name: Some(name.to_string()) }
    }

    fn put(&mut self, address: u64, bytes: &[u8]) {
        for (i, b) in bytes.iter().enumerate() {
            self.bytes.insert(address + i as u64, *b);
        }
    }
}

impl MemoryReader for SparseReader {
    fn spec_base_address(&self) -> u64 {
        BASE
    }

    fn spec_process_name(&self) -> Option<String> {
        self.name.clone()
    }

    fn read(&mut self, address: LuminousPointer<()>, buf: &mut [u8]) -> Result<(), MemoryError> {
        for (i, b) in buf.iter_mut().enumerate() {
            match self.bytes.get(&(address.inner + i as u64)) {
                Some(v) => *b = *v,
                None => return Err(MemoryError::ReadFailed),
            }
        }
        Ok(())
    }

    fn get_base_address(&self) -> LuminousPointer<()> {
        LuminousPointer::new(BASE)
    }

    fn get_process_name(&self) -> Option<String> {
        self.name.clone()
    }
}

#[test]
fn detected_environment_of_forspoken() {
    let mut r = SparseReader::new("forspoken.exe");
    r.put(BASE + FORSPOKEN_WINE_FLAG_OFFSET, &[1]);
    r.put(BASE + FORSPOKEN_DECK_FLAG_OFFSET, &[0]);
    r.put(BASE + FORSPOKEN_DXVK_VERSION_OFFSET, &(BASE + 0x100).to_le_bytes());
    r.put(BASE + 0x100, b"2.3\0");
    let env = DetectedEnvironment::read(&mut r);
    assert!(env.is_wine);
    assert!(!env.is_deck);
    assert_eq!(env.dxvk_version, Some("2.3".to_string()));

    let mut empty_version = SparseReader::new("scarlet-FORSPOKEN.exe");
    empty_version.put(BASE + FORSPOKEN_DXVK_VERSION_OFFSET, &(BASE + 0x100).to_le_bytes());
    empty_version.put(BASE + 0x100, b"\0");
    let env = DetectedEnvironment::read(&mut empty_version);
    assert!(!env.is_wine);
    assert!(!env.is_deck);
    assert_eq!(env.dxvk_version, None);
}

#[test]
fn detected_environment_of_other_games() {
    let mut r = SparseReader::new("ffxv_s.exe");
    r.put(BASE + FORSPOKEN_WINE_FLAG_OFFSET, &[1]);
    r.put(BASE + FORSPOKEN_DECK_FLAG_OFFSET, &[1]);
    let env = DetectedEnvironment::read(&mut r);
    assert!(!env.is_wine);
    assert!(!env.is_deck);
    assert_eq!(env.dxvk_version, None);
}

#[test]
fn package_lock_and_entity_pointers() {
    let mut r = SparseReader::new("forspoken.exe");
    let list = BASE + 0x1000;
    let mut lock = [0u8; 40];
    lock[32..40].copy_from_slice(&0x64u64.to_le_bytes());
    r.put(list + PACKAGES_LOCK_OFFSET, &lock);
    assert_eq!(package_lock_ready(&mut r, LuminousPointer::new(list)), Ok(()));
    assert_eq!(package_lock_ready(&mut r, LuminousPointer::new(0)), Err(MemoryError::InvalidPointer));
    let mut other = SparseReader::new("forspoken.exe");
    other.put(list + PACKAGES_LOCK_OFFSET, &[0u8; 40]);
    assert_eq!(package_lock_ready(&mut other, LuminousPointer::new(list)), Err(MemoryError::Malformed));
    assert_eq!(package_lock_ready(&mut other, LuminousPointer::new(BASE)), Err(MemoryError::ReadFailed));

    let array = BASE + 0x2000;
    let items = BASE + 0x3000;
    let mut header = Vec::new();
    header.extend_from_slice(&items.to_le_bytes());
    header.extend_from_slice(&3u32.to_le_bytes());
    header.extend_from_slice(&4u32.to_le_bytes());
    r.put(array, &header);
    r.put(items, &(BASE + 0x10).to_le_bytes());
    r.put(items + 8, &0u64.to_le_bytes());
    r.put(items + 16, &(BASE + 0x20).to_le_bytes());
    let ptrs = entity_pointers(&mut r, LuminousPointer::new(array)).unwrap();
    assert_eq!(ptrs.iter().map(|p| p.inner).collect::<Vec<_>>(), vec![BASE + 0x10, BASE + 0x20]);
    assert_eq!(entity_pointers(&mut r, LuminousPointer::new(0)).err(), Some(MemoryError::InvalidPointer));

    let bad = BASE + 0x4000;
    let mut bad_header = Vec::new();
    bad_header.extend_from_slice(&items.to_le_bytes());
    bad_header.extend_from_slice(&5u32.to_le_bytes());
    bad_header.extend_from_slice(&4u32.to_le_bytes());
    r.put(bad, &bad_header);
    assert_eq!(entity_pointers(&mut r, LuminousPointer::new(bad)).err(), Some(MemoryError::Malformed));
}

#[test]
fn typed_reads_through_a_reader_type() {
    let mut image = ImageReader::new(0x100);
    image.put_u64(BASE + 8, 0x1122_3344_5566_7788);
    let mut r: MemoryReaderType<ImageReader, ImageReader, ImageReader> = MemoryReaderType::Process(image);
    assert_eq!(r.read_type(LuminousPointer::<u64>::new(BASE + 8)), Ok(0x1122_3344_5566_7788));
    assert_eq!(r.read_type(LuminousPointer::<u32>::new(BASE + 8)), Ok(0x5566_7788));
    assert_eq!(r.read_type(LuminousPointer::<u64>::new(BASE + 0xfc)), Err(MemoryError::ReadFailed));
    assert!(r.is_same_address_space());
}

#[test]
fn cursor_seeks() {
    let mut cursor = MemoryCursor::new(ImageReader::new(0x100));
    assert_eq!(cursor.position(), BASE as usize);
    assert_eq!(cursor.seek(SeekOrigin::Start(BASE + 0x10)), Some(BASE + 0x10));
    assert_eq!(cursor.seek(SeekOrigin::Current(8)), Some(BASE + 0x18));
    assert_eq!(cursor.seek(SeekOrigin::Current(-0x18)), Some(BASE));
    assert_eq!(cursor.seek(SeekOrigin::End(0)), None);
    assert_eq!(cursor.position(), BASE as usize);
    let mut buf = [0u8; 4];
    assert_eq!(cursor.read(&mut buf), Ok(4));
    assert_eq!(cursor.position(), BASE as usize + 4);
}

#[test]
fn engine_offsets_bounded() {
    assert!(offsets_all(0).is_bounded());
    assert!(offsets_all(witch_common::engine::offsets::MAX_ENGINE_OFFSET).is_bounded());
    let mut o = offsets_all(0x1000);
    o.game_framework_module_map_addr_forspoken = witch_common::engine::offsets::MAX_ENGINE_OFFSET + 1;
    assert!(!o.is_bounded());
}

#[test]
fn static_map_keeps_the_first_value_of_each_key() {
    let mut r = ImageReader::new(0x200);
    let data = BASE + 0x40;
    for (i, (k, v)) in [(1u64, 10u64), (2, 20), (1, 30)].iter().enumerate() {
        r.put_u64(data + 16 * i as u64, *k);
        r.put_u64(data + 16 * i as u64 + 8, *v);
    }
    let map: LuminousStaticMap<u64, u64> = LuminousStaticMap { data: LuminousPointer::new(data), size: 3, capacity: 3 };
    assert_eq!(map.read(&mut r), Ok(vec![(1, 10), (2, 20)]));
    let none: LuminousStaticMap<u64, u64> = LuminousStaticMap { data: LuminousPointer::new(data), size: 0, capacity: 0 };
    assert_eq!(none.read(&mut r), Ok(vec![]));
    let bad: LuminousStaticMap<u64, u64> = LuminousStaticMap { data: LuminousPointer::new(0x10), size: 3, capacity: 3 };
    assert_eq!(bad.read(&mut r), Err(MemoryError::InvalidPointer));
}

#[test]
fn dynamic_map_walks_buckets_then_chain_first_value_kept() {
    let mut r = ImageReader::new(0x400);
    let (n0, n1, c0) = (BASE + 0x100, BASE + 0x140, BASE + 0x180);
    let (v0, v1, v2) = (BASE + 0x200, BASE + 0x208, BASE + 0x210);
    r.put_u64(v0, 100);
    r.put_u64(v1, 200);
    r.put_u64(v2, 300);
    // bucket node: key 5, then the next node: key 6
    r.put_u64(n0, n1);
    r.put_u64(n0 + 8, v0);
    r.put_u64(n0 + 16, 5);
    r.put_u64(n1, 0);
    r.put_u64(n1 + 8, v1);
    r.put_u64(n1 + 16, 6);
    // overflow chain node: key 5 again, which is already present
    r.put_u64(c0, 0);
    r.put_u64(c0 + 8, v2);
    r.put_u64(c0 + 16, 5);
    let map: LuminousDynamicMap<u64, u64> = LuminousDynamicMap {
        buckets: LuminousPointer::new(n0),
        chain: LuminousPointer::new(c0),
        free_chain: LuminousPointer::new(0),
        bucket_count: 1,
        chain_count: 1,
        occupancy: 2,
        chain_used: 1,
        expand_rate_bits: 0,
        chain_to_bucket_ratio_bits: 0,
        hasher: 0,
    };
    assert_eq!(map.read(&mut r), Ok(vec![(5, 100), (6, 200)]));
    let mut no_chain = map;
    no_chain.chain = LuminousPointer::new(0);
    assert_eq!(no_chain.read(&mut r), Err(MemoryError::InvalidPointer));
}

#[test]
fn factories_from_no_registration_hold_only_the_default() {
    let mut cursor = MemoryCursor::new(ImageReader::new(0x100));
    let dto = witch_common::engine::native::asset_factory::AssetFactory {
        loader: LuminousPointer::new(0),
        alloc: LuminousPointer::new(0),
        init: LuminousPointer::new(0),
        fs: LuminousPointer::new(0),
    };
    let f = AssetFactory::from_entries(&mut cursor, &Vec::new(), dto).unwrap();
    assert_eq!(f.factories.len(), 1);
    let (id, default) = &f.factories[0];
    assert!(id.is_null());
    assert_eq!(default.name, "default");
    assert_eq!(
        (default.stats.current_size, default.stats.peak_size, default.stats.current_count, default.stats.peak_count),
        (0, 0, 0, 0)
    );
    assert_eq!((f.default_factory.load, f.default_factory.alloc, f.default_factory.init, f.default_factory.from_fs), (0, 0, 0, 0));
}

#[test]
fn factory_registration_that_cannot_be_read_fails() {
    let mut cursor = MemoryCursor::new(ImageReader::new(0x100));
    let dto = witch_common::engine::native::asset_factory::AssetFactory {
        loader: LuminousPointer::new(0),
        alloc: LuminousPointer::new(0),
        init: LuminousPointer::new(0),
        fs: LuminousPointer::new(0),
    };
    let registration = AssetFactoryStatisticsHolder {
        factory: LuminousPointer::new(0x10),
        statistics: StatisticsDto { current_size: 0, peak_size: 0, current_count: 0, peak_count: 0 },
        name: [0u8; 16],
    };
    assert_eq!(
        AssetFactory::from_entries(&mut cursor, &vec![(AssetId(3), registration)], dto).err(),
        Some(MemoryError::InvalidPointer)
    );
}

fn plain_type(name: &str) -> ObjectInfo {
    ObjectInfo {
        name: name.to_string(),
        type_id: 0,
        base_type: None,
        this_id: 0,
        class_functions: ObjectClassFunctions { construct: 0, construct_inherited: 0, singleton: 0 },
        size: 0,
        properties: ObjectInfoProperties {
            type_label: String::new(),
            type_id: 0,
            base_type: None,
            hash_code: 0,
            version_hash_code: 0,
            all_properties_class_field_count: 0,
            properties: NameMap::new(),
        },
        functions: NameMap::new(),
    }
}

/// An entity group at `BASE + 0x100`: its head, then its source name and
/// name strings at their offsets.
fn group_image() -> ImageReader {
    let mut r = ImageReader::new(0x400);
    let at = BASE + 0x100;
    r.put_u64(at, 0);
    put_u32(&mut r, at + 8, 1);
    put_u32(&mut r, at + 12, 2);
    r.put_u64(at + 16, 3);
    r.put_u64(at + 24, 0);
    r.put_u64(at + 0xe0, BASE + 0x300);
    put_u32(&mut r, at + 0xe0 + 12, 4);
    r.put_u64(at + 0x118, BASE + 0x320);
    put_u32(&mut r, at + 0x118 + 12, 5);
    r.put(BASE + 0x300, b"src!");
    r.put(BASE + 0x320, b"group");
    r
}

#[test]
fn entity_group_fields_and_names_at_their_offsets() {
    let mut cursor = MemoryCursor::new(group_image());
    let object = ScarletBaseObject { address: LuminousPointer::new(BASE + 0x100), object_type: plain_type("Group"), name: None };
    let g = read_entity_group(&mut cursor, object).unwrap();
    assert_eq!((g.inner.flags, g.inner.class_flags, g.inner.object_flags), (1, 2, 3));
    assert_eq!(g.name.as_deref(), Some("group"));
    assert_eq!(g.source_name.as_deref(), Some("src!"));
    assert_eq!(g.entities.inner, BASE + 0x100 + 0x70);
    let object = ScarletBaseObject { address: LuminousPointer::new(BASE + 0x100), object_type: plain_type("Package"), name: None };
    let p = read_entity_package(&mut cursor, object).unwrap();
    assert_eq!(p.inner.name.as_deref(), Some("group"));
    assert_eq!(p.objects.inner, BASE + 0x100 + 0x148);
}

#[test]
fn game_object_head_read_or_refused() {
    let mut cursor = MemoryCursor::new(group_image());
    let object = ScarletBaseObject { address: LuminousPointer::new(BASE + 0x100), object_type: plain_type("Obj"), name: None };
    let g = read_game_object(&mut cursor, object).unwrap();
    assert_eq!((g.flags, g.class_flags, g.object_flags, g.components.inner), (1, 2, 3, 0));
    let bad = ScarletBaseObject { address: LuminousPointer::new(0x10), object_type: plain_type("Obj"), name: None };
    assert!(matches!(read_game_object(&mut cursor, bad), Err(MemoryError::InvalidPointer)));
}
