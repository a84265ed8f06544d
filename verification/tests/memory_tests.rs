use witch_common::engine::native::array::LuminousDynamicArray;
use witch_common::engine::native::pointer::{LuminousCString, LuminousPointer};
use witch_common::engine::native::string::LuminousString;
use witch_common::memory::dump::{plan_virtual_read, read_from_virtual, DumpMemory, DumpRead};
use witch_common::memory::neptuwunium_dump::Np93DumpReader;
use witch_common::memory::proc_maps::{get_process_base, parse_mappings, MemoryMapping};
use witch_common::memory::windows_local_mem::select_module;
use witch_common::memory::windows_minidump::{parse_memory64_list, path_file_name, DumpModule, Win32DumpReader};
use witch_common::memory::{determine_game_type, LuminousGame, MemoryCursor, MemoryError, MemoryReader, MemoryReaderType};

/// A reader over a byte image mapped at a fixed address.
struct ImageReader {
    base: u64,
    image: Vec<u8>,
    name: Option<String>,
}

impl MemoryReader for ImageReader {
    fn spec_base_address(&self) -> u64 {
        self.base
    }

    fn spec_process_name(&self) -> Option<String> {
        self.name.clone()
    }

    fn read(&mut self, address: LuminousPointer<()>, buf: &mut [u8]) -> Result<(), MemoryError> {
        if address.inner < self.base {
            return Err(MemoryError::ReadFailed);
        }
        let start = (address.inner - self.base) as usize;
        if start + buf.len() > self.image.len() {
            return Err(MemoryError::ReadFailed);
        }
        buf.copy_from_slice(&self.image[start..start + buf.len()]);
        Ok(())
    }

    fn get_base_address(&self) -> LuminousPointer<()> {
        LuminousPointer::new(self.base)
    }

    fn get_process_name(&self) -> Option<String> {
        self.name.clone()
    }
}

fn np93_dump(version: u64, proc: &str, comm: Option<&str>, regions: &[(u64, u64, u64)], payload: &[u8]) -> Vec<u8> {
    let mut data = b"NP93DUMP".to_vec();
    data.extend_from_slice(&version.to_le_bytes());
    data.extend_from_slice(proc.as_bytes());
    data.push(0);
    if let Some(c) = comm {
        data.extend_from_slice(c.as_bytes());
        data.push(0);
    }
    data.extend_from_slice(payload);
    for (offset, length, rva) in regions {
        data.extend_from_slice(&offset.to_le_bytes());
        data.extend_from_slice(&length.to_le_bytes());
        data.extend_from_slice(&rva.to_le_bytes());
    }
    data.extend_from_slice(&(regions.len() as u64).to_le_bytes());
    data.extend_from_slice(b"DUMPFOOT");
    data
}

#[test]
fn game_type_from_process_name() {
    assert_eq!(determine_game_type("forspoken.exe"), LuminousGame::FORSPOKEN);
    // without the prefix the name is looked up as given, not lowercased
    assert_eq!(determine_game_type("FORSPOKEN.EXE"), LuminousGame::LuminousEngine);
    assert_eq!(determine_game_type("scarlet-FORSPOKEN.exe"), LuminousGame::FORSPOKEN);
    assert_eq!(determine_game_type("ffxv_s.exe"), LuminousGame::FinalFantasyXV);
    assert_eq!(determine_game_type("notepad.exe"), LuminousGame::LuminousEngine);
    assert_eq!(determine_game_type(""), LuminousGame::LuminousEngine);
}

#[test]
fn mapping_line_parsed() {
    let m = MemoryMapping::new("140000000-140001000 r-xp 00000000 08:01 1234 /games/FORSPOKEN.exe").unwrap();
    assert_eq!(m.start, 0x140000000);
    assert_eq!(m.end, 0x140001000);
    assert_eq!(m.permissions, "r-xp");
    assert_eq!(m.name, "/games/FORSPOKEN.exe");
}

#[test]
fn mapping_line_name_joined_by_single_spaces() {
    let m = MemoryMapping::new("1000-2000 rw-p 0 0:0 0   C:\\Program   Files\\game.exe").unwrap();
    assert_eq!(m.name, "C:\\Program Files\\game.exe");
}

#[test]
fn mapping_line_rejected() {
    assert!(MemoryMapping::new("").is_none());
    assert!(MemoryMapping::new("2000-1000 r-xp 0 0:0 0").is_none());
    assert!(MemoryMapping::new("1000-2000 r-xp 0 0:0").is_none());
    assert!(MemoryMapping::new("1000-2000-3000 r-xp 0 0:0 0").is_none());
    assert!(MemoryMapping::new("10g0-2000 r-xp 0 0:0 0").is_none());
}

#[test]
fn mappings_of_map_text() {
    let maps = parse_mappings("1000-2000 r-xp 0 0:0 0 a.dll\nbad line\n3000-4000 r-xp 0 0:0 0 b.exe\n");
    assert_eq!(maps.len(), 2);
    assert_eq!(maps[0].name, "a.dll");
    assert_eq!(maps[1].start, 0x3000);
}

#[test]
fn process_base_found_by_suffix() {
    let maps = parse_mappings("1000-2000 r-xp 0 0:0 0 a.dll\n3000-4000 r-xp 0 0:0 0 /x/b.exe\n");
    assert_eq!(get_process_base(Some("b.exe".to_string()), &maps).inner, 0x3000);
    assert_eq!(get_process_base(None, &maps).inner, 0x3000);
    assert_eq!(get_process_base(Some("c.exe".to_string()), &maps).inner, 0x140000000);
}

#[test]
fn virtual_read_plan_single_region() {
    let memory = [DumpMemory { offset: 100, length: 16, rva: 0x2000 }];
    let plan = plan_virtual_read(&memory, 0x2004, 4).unwrap();
    assert_eq!(plan, vec![DumpRead { file_offset: 104, buf_start: 0, size: 4 }]);
    assert_eq!(plan_virtual_read(&memory, 0x1000, 4), Err(MemoryError::ReadFailed));
}

#[test]
fn virtual_read_from_dump_bytes() {
    let dump: Vec<u8> = (0u8..32).collect();
    let memory = [DumpMemory { offset: 8, length: 8, rva: 0x5000 }];
    let mut buf = [0u8; 4];
    read_from_virtual(&dump, &memory, 0x5002, &mut buf).unwrap();
    assert_eq!(buf, [10, 11, 12, 13]);
    let mut big = [0u8; 64];
    assert_eq!(read_from_virtual(&dump, &memory, 0x5000, &mut big), Err(MemoryError::ReadFailed));
}

#[test]
fn np93_dump_read() {
    let payload: Vec<u8> = (0u8..16).collect();
    let proc = "140000000-140010000 r-xp 0 0:0 0 /g/forspoken.exe";
    let probe = np93_dump(2, proc, Some("forspoken.exe"), &[(0, 16, 0x140000000)], &payload);
    let payload_at = (probe.len() - 40 - 16) as u64;
    let data = np93_dump(2, proc, Some("forspoken.exe"), &[(payload_at, 16, 0x140000000)], &payload);
    let mut reader = Np93DumpReader::new(data).unwrap();
    assert_eq!(reader.get_process_name(), Some("forspoken.exe".to_string()));
    assert_eq!(reader.get_base_address().inner, 0x140000000);
    let mut buf = [0u8; 4];
    reader.read(LuminousPointer::new(0x140000004), &mut buf).unwrap();
    assert_eq!(buf, [4, 5, 6, 7]);
}

#[test]
fn np93_dump_name_from_map() {
    let proc = "1000-2000 r-xp 0 0:0 0 lib.so\n140000000-140010000 r-xp 0 0:0 0 ffxv_s.exe";
    let data = np93_dump(1, proc, None, &[], &[0u8; 16]);
    let reader = Np93DumpReader::new(data).unwrap();
    assert_eq!(reader.get_process_name(), Some("ffxv_s.exe".to_string()));
}

#[test]
fn np93_dump_rejected() {
    let good = np93_dump(1, "", None, &[], &[0u8; 16]);
    assert!(Np93DumpReader::new(good.clone()).is_ok());
    let mut bad_magic = good.clone();
    bad_magic[0] = b'X';
    assert_eq!(Np93DumpReader::new(bad_magic).err(), Some(MemoryError::Malformed));
    let mut bad_footer = good.clone();
    let n = bad_footer.len();
    bad_footer[n - 1] = b'X';
    assert_eq!(Np93DumpReader::new(bad_footer).err(), Some(MemoryError::Malformed));
    assert_eq!(Np93DumpReader::new(b"NP93DUMP".to_vec()).err(), Some(MemoryError::Malformed));
}

#[test]
fn memory64_list_offsets_accumulate() {
    let mut stream = Vec::new();
    stream.extend_from_slice(&2u64.to_le_bytes());
    stream.extend_from_slice(&1000u64.to_le_bytes());
    for (rva, len) in [(0x1000u64, 0x10u64), (0x8000, 0x20)] {
        stream.extend_from_slice(&rva.to_le_bytes());
        stream.extend_from_slice(&len.to_le_bytes());
    }
    let regions = parse_memory64_list(&stream).unwrap();
    assert_eq!(regions, vec![
        DumpMemory { offset: 1000, length: 0x10, rva: 0x1000 },
        DumpMemory { offset: 1016, length: 0x20, rva: 0x8000 },
    ]);
    assert_eq!(parse_memory64_list(&stream[..20]), Err(MemoryError::Malformed));
}

#[test]
fn minidump_process_and_base() {
    assert_eq!(path_file_name("C:\\games\\ffxv_s.exe"), "ffxv_s.exe");
    assert_eq!(path_file_name("/a/b"), "b");
    assert_eq!(path_file_name("plain"), "plain");
    let mut stream = Vec::new();
    stream.extend_from_slice(&0u64.to_le_bytes());
    stream.extend_from_slice(&0u64.to_le_bytes());
    let modules = vec![
        DumpModule { name: "C:\\games\\ffxv_s.exe".to_string(), base_address: 0x140000000 },
        DumpModule { name: "ffxv_s.exe".to_string(), base_address: 0x150000000 },
    ];
    let reader = Win32DumpReader::new(Vec::new(), &stream, modules).unwrap();
    assert_eq!(reader.get_process_name(), Some("ffxv_s.exe".to_string()));
    assert_eq!(reader.get_base_address().inner, 0x140000000);
}

#[test]
fn minidump_base_is_that_of_the_main_module_named_by_its_path() {
    let mut stream = Vec::new();
    stream.extend_from_slice(&0u64.to_le_bytes());
    stream.extend_from_slice(&0u64.to_le_bytes());
    let modules = vec![
        DumpModule { name: "C:/Windows/System32/ntdll.dll".to_string(), base_address: 0x7ff800000000 },
        DumpModule { name: "C:/Games/FORSPOKEN.exe".to_string(), base_address: 0x140000000 },
    ];
    let reader = Win32DumpReader::new(Vec::new(), &stream, modules).unwrap();
    assert_eq!(reader.get_process_name(), Some("FORSPOKEN.exe".to_string()));
    assert_eq!(reader.get_base_address().inner, 0x140000000);
}

#[test]
fn cursor_starts_at_base() {
    let reader = ImageReader { base: 0x140000000, image: vec![1, 2, 3, 4], name: None };
    let mut cursor = MemoryCursor::new(reader);
    assert_eq!(cursor.position(), 0x140000000);
    let mut buf = [0u8; 2];
    assert_eq!(cursor.read(&mut buf), Ok(2));
    assert_eq!(buf, [1, 2]);
    assert_eq!(cursor.position(), 0x140000002);
}

#[test]
fn reader_type_dispatch() {
    let reader: MemoryReaderType<ImageReader, ImageReader, ImageReader> =
        MemoryReaderType::Windows(ImageReader { base: 0x140000000, image: vec![], name: Some("ffxv_s.exe".into()) });
    assert!(!reader.is_same_address_space());
    assert_eq!(reader.game_type(), LuminousGame::FinalFantasyXV);
    assert_eq!(reader.get_base_address().inner, 0x140000000);
    let linux: MemoryReaderType<ImageReader, ImageReader, ImageReader> =
        MemoryReaderType::Linux(ImageReader { base: 0x1000, image: vec![], name: None });
    assert!(!linux.is_same_address_space());
}

#[test]
fn values_read_back_from_a_dump() {
    // the region holds a pointer to a C string, an engine string header
    // and its text, and a one-slot array pointing back at the text
    let base = 0x140000000u64;
    let mut payload = Vec::new();
    payload.extend_from_slice(&(base + 0x20).to_le_bytes()); // 0x00: pointer to the C string
    payload.extend_from_slice(&(base + 0x20).to_le_bytes()); // 0x08: string address
    payload.extend_from_slice(&4u32.to_le_bytes()); // 0x10: memory size
    payload.extend_from_slice(&4u32.to_le_bytes()); // 0x14: flags (size 4)
    payload.extend_from_slice(&[0u8; 8]); // 0x18
    payload.extend_from_slice(b"Abc!\0\0\0\0"); // 0x20: text
    let proc = "140000000-140010000 r-xp 0 0:0 0 /g/forspoken.exe";
    let probe = np93_dump(2, proc, Some("forspoken.exe"), &[(0, 0x28, base)], &payload);
    let payload_at = (probe.len() - 40 - payload.len()) as u64;
    let data = np93_dump(2, proc, Some("forspoken.exe"), &[(payload_at, 0x28, base)], &payload);
    let mut reader = Np93DumpReader::new(data).unwrap();

    let target = LuminousPointer::<u64>::new(base).read(&mut reader).unwrap();
    assert_eq!(target, base + 0x20);
    let text = LuminousCString::new(LuminousPointer::new(target)).read(&mut reader);
    assert_eq!(text, Some("Abc!".to_string()));
    let header = LuminousPointer::<LuminousString>::new(base + 8).read(&mut reader).unwrap();
    assert_eq!(header.as_some_string(&mut reader), Some("Abc!".to_string()));
    let array = LuminousDynamicArray::<u8> { inner: LuminousPointer::new(base), size: 1, capacity: 1 };
    assert_eq!(array.read(&mut reader), Ok(vec![b'A']));
    assert_eq!(array.read_ptrs(&mut reader).unwrap()[0].inner, base + 0x20);
    // past the region nothing is known, and the read fails
    assert!(LuminousPointer::<u64>::new(base + 0x40).read(&mut reader).is_err());
}

#[test]
fn read_at_the_start_of_the_second_of_two_adjacent_regions() {
    let dump: Vec<u8> = (0u8..32).collect();
    let memory = [DumpMemory { offset: 0, length: 8, rva: 0x5000 }, DumpMemory { offset: 16, length: 8, rva: 0x5008 }];
    let mut buf = [0u8; 4];
    read_from_virtual(&dump, &memory, 0x5008, &mut buf).unwrap();
    assert_eq!(buf, [16, 17, 18, 19]);
    // the end of a region is not part of it
    let mut past = [0u8; 1];
    assert_eq!(read_from_virtual(&dump, &memory, 0x5010, &mut past), Err(MemoryError::ReadFailed));
}

/// A minidump with one module, named `name` and loaded at `base`, and one
/// dumped region of four bytes at `base`.
fn small_minidump(name: &str, base: u64) -> Vec<u8> {
    let mut d: Vec<u8> = Vec::new();
    let push32 = |d: &mut Vec<u8>, v: u32| d.extend_from_slice(&v.to_le_bytes());
    let push64 = |d: &mut Vec<u8>, v: u64| d.extend_from_slice(&v.to_le_bytes());
    // header
    push32(&mut d, 0x504d444d);
    push32(&mut d, 42899);
    push32(&mut d, 2);
    push32(&mut d, 32);
    push32(&mut d, 0);
    push32(&mut d, 0);
    push64(&mut d, 0);
    // directory: module list at 56, full-memory list at 168
    push32(&mut d, 4);
    push32(&mut d, 112);
    push32(&mut d, 56);
    push32(&mut d, 9);
    push32(&mut d, 32);
    push32(&mut d, 168);
    // module list
    push32(&mut d, 1);
    push64(&mut d, base);
    push32(&mut d, 0x1000);
    push32(&mut d, 0);
    push32(&mut d, 0);
    push32(&mut d, 200);
    d.extend_from_slice(&[0u8; 52 + 8 + 8 + 16]);
    assert_eq!(d.len(), 168);
    // full-memory list: one region of four bytes stored at 512
    push64(&mut d, 1);
    push64(&mut d, 512);
    push64(&mut d, base);
    push64(&mut d, 4);
    assert_eq!(d.len(), 200);
    // the module's name, in UTF-16
    let units: Vec<u16> = name.encode_utf16().collect();
    push32(&mut d, (units.len() * 2) as u32);
    for u in units {
        d.extend_from_slice(&u.to_le_bytes());
    }
    d.resize(512, 0);
    d.extend_from_slice(&[9, 8, 7, 6]);
    d
}

#[test]
fn minidump_from_bytes_gives_name_base_and_memory() {
    let data = small_minidump("C:\\Games\\ffxv_s.exe", 0x140000000);
    let mut reader = Win32DumpReader::from_dump(data).unwrap();
    assert_eq!(reader.get_process_name(), Some("ffxv_s.exe".to_string()));
    assert_eq!(reader.get_base_address().inner, 0x140000000);
    let mut buf = [0u8; 4];
    reader.read(LuminousPointer::new(0x140000000), &mut buf).unwrap();
    assert_eq!(buf, [9, 8, 7, 6]);
}

#[test]
fn minidump_from_bytes_refuses_what_is_no_minidump() {
    assert!(matches!(Win32DumpReader::from_dump(vec![0u8; 64]), Err(MemoryError::Malformed)));
    assert!(matches!(Win32DumpReader::from_dump(Vec::new()), Err(MemoryError::Malformed)));
}

#[test]
fn main_module_is_the_first_whose_path_ends_with_the_process_path() {
    let paths = vec![
        None,
        Some("C:\\Windows\\System32\\ntdll.dll".to_string()),
        Some("C:\\Games\\FORSPOKEN.exe".to_string()),
        Some("D:\\FORSPOKEN.exe".to_string()),
    ];
    assert_eq!(select_module(&paths, "FORSPOKEN.exe"), Some(2));
    assert_eq!(select_module(&paths, "ffxv_s.exe"), None);
    assert_eq!(select_module(&Vec::new(), "FORSPOKEN.exe"), None);
}
