use witch_common::asset_id::AssetId;
use witch_common::hash::{crc32, fnv1a32, fnv1a64};

#[test]
fn fnv1a64_uses_the_engine_basis() {
    assert_eq!(fnv1a64(b""), 0x14650fb0739d0383);
    assert_eq!(fnv1a64(b"a"), 0x44bd8ad473cd9906);
    assert_eq!(fnv1a64(b"test"), 0x975819681a395537);
    assert_eq!(fnv1a64(b"Luminous.GameFramework.GameObject"), 0xf6b781806a9ee820);
}

#[test]
fn fnv1a32_known_values() {
    assert_eq!(fnv1a32(b""), 0x811c9dc5);
    assert_eq!(fnv1a32(b"a"), 0xe40c292c);
    assert_eq!(fnv1a32(b"test"), 0xafd071e5);
}

#[test]
fn crc32_known_values() {
    assert_eq!(crc32(b""), 0);
    assert_eq!(crc32(b"a"), 0xf9b2971a);
    assert_eq!(crc32(b"test"), 0xfe52feaf);
    assert_eq!(crc32(b"Luminous.GameFramework.GameObject"), 0xfad1a610);
}

#[test]
fn asset_id_from_path_with_extension() {
    let id = AssetId::from_pathlike("data://Asset/File.BTEX@");
    assert_eq!(id.0, 0xf9d08992e91780b6);
    // the path part is hashed lowercased, the extension without its `@`s
    assert_eq!(id.path_hash(), fnv1a64(b"data://asset/file") & 0xfffffffffff);
    assert_eq!(id.type_hash(), (fnv1a64(b"BTEX") << 44) & 0xfffff00000000000);
    assert_eq!(AssetId::from_pathlike("x.gmdl").0, 0xef4db3d473cdc381);
}

#[test]
fn asset_id_from_path_without_extension() {
    let id = AssetId::from_pathlike("data://a/b");
    assert_eq!(id.0, 0xca6a5c746fd);
    assert_eq!(id.type_hash(), 0);
}

#[test]
fn asset_id_from_empty_path_is_null() {
    let id = AssetId::from_pathlike("");
    assert!(id.is_null());
    assert_eq!(id.0, 0);
    assert!(!AssetId::from_pathlike("a").is_null());
}

#[test]
fn asset_id_parts_partition_the_id() {
    for v in [0u64, 1, 0xf9d08992e91780b6, u64::MAX, 0x0000_1000_0000_0000] {
        let id = AssetId(v);
        assert_eq!(id.path_hash() | id.type_hash(), v);
        assert_eq!(id.path_hash() & id.type_hash(), 0);
    }
}

#[test]
fn asset_id_conversions() {
    assert_eq!(AssetId::from(42u64).0, 42);
    assert_eq!(AssetId::from("data://foo.btex").0, 0xa212b49504b2090c);
    assert_eq!(AssetId::from("data://foo.btex").0, fnv1a64(b"data://foo.btex"));
}

#[test]
fn asset_id_shown_in_hex() {
    assert_eq!(AssetId(0).to_display_string(), "null");
    assert_eq!(AssetId(0x1234).to_display_string(), "0x00000000001234");
    assert_eq!(AssetId(0xf9d08992e91780b6).to_display_string(), "0xf9d08992e91780b6");
    assert_eq!(AssetId(0xf9d08992e91780b6).to_display_string(), format!("{:#016x}", 0xf9d08992e91780b6u64));
    assert_eq!(AssetId(0xa).to_display_string(), format!("{:#016x}", 0xau64));
}
