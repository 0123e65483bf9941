//! End-to-end tests of manifest parsing and serialization.
use manifest_codec::manifest::chunk_info::FChunkInfo;
use manifest_codec::manifest::chunk_list::FChunkList;
use manifest_codec::manifest::chunk_part::FChunkPart;
use manifest_codec::manifest::chunks::chunk_header::FChunkHeader;
use manifest_codec::manifest::custom_fields::FCustomFields;
use manifest_codec::manifest::file_manifest::FFileManifest;
use manifest_codec::manifest::file_manifest_list::FFileManifestList;
use manifest_codec::manifest::header::FManifestHeader;
use manifest_codec::manifest::meta::FManifestMeta;
use manifest_codec::manifest::{FManifest, FManifestParser};
use manifest_codec::reader::ByteReader;
use manifest_codec::shared::{
    EChunkStorageFlags, EFeatureLevel, EManifestStorageFlags, FGuid, FSHAHash, UnknownHash,
};
use manifest_codec::writer::ByteWriter;
use manifest_codec::ParseError;
use flate2::write::ZlibEncoder;
use flate2::Compression;
use sha1::{Digest, Sha1};
use std::io::Write;

fn empty_meta(data_version: u8) -> FManifestMeta {
    FManifestMeta {
        data_version,
        feature_level: EFeatureLevel::Original,
        b_is_file_data: false,
        app_id: 0,
        app_name: String::new(),
        build_version: String::new(),
        launch_exe: String::new(),
        launch_command: String::new(),
        prerequisites: Vec::new(),
        prereq_name: String::new(),
        prereq_path: String::new(),
        prereq_args: String::new(),
        build_id: if data_version >= 1 { Some(String::new()) } else { None },
        prereq_ids: Vec::new(),
        uninstall_action_path: if data_version >= 2 { Some(String::new()) } else { None },
        uninstall_action_args: if data_version >= 2 { Some(String::new()) } else { None },
    }
}

fn empty_manifest(storage: EManifestStorageFlags) -> FManifest {
    FManifest {
        header: FManifestHeader::new(
            0x44BEC00C,
            41,
            0,
            0,
            FSHAHash::new([0u8; 20]),
            storage,
            EFeatureLevel::Original,
        ),
        meta: empty_meta(0),
        chunk_list: FChunkList::new(EFeatureLevel::Original, 0, Vec::new()),
        file_list: FFileManifestList::new(0, Vec::new()),
        custom_fields: FCustomFields::new(0, Vec::new()),
        data: Vec::new(),
    }
}

fn sample_chunk(a: u32) -> FChunkInfo {
    FChunkInfo::new(
        FGuid { a, b: a.wrapping_add(1), c: a.wrapping_add(2), d: a.wrapping_add(3) },
        0x1122334455667788,
        FSHAHash::new([a as u8; 20]),
        7,
        1024,
        -1,
    )
}

fn sample_manifest() -> FManifest {
    let mut m = empty_manifest(EManifestStorageFlags::Plain);
    m.meta = FManifestMeta {
        data_version: 2,
        feature_level: EFeatureLevel::StoresChunkFileSizes,
        b_is_file_data: true,
        app_id: 42,
        app_name: "App".to_string(),
        build_version: "1.2.3".to_string(),
        launch_exe: "run.exe".to_string(),
        launch_command: "-flag".to_string(),
        prerequisites: Vec::new(),
        prereq_name: "prereq".to_string(),
        prereq_path: "p".to_string(),
        prereq_args: String::new(),
        build_id: Some("build-id".to_string()),
        prereq_ids: vec!["a".to_string(), "b".to_string()],
        uninstall_action_path: Some("u.exe".to_string()),
        uninstall_action_args: Some(String::new()),
    };
    m.header = FManifestHeader::new(
        0x44BEC00C,
        41,
        0,
        0,
        FSHAHash::new([0u8; 20]),
        EManifestStorageFlags::Plain,
        EFeatureLevel::StoresChunkFileSizes,
    );
    m.chunk_list = FChunkList::new(
        EFeatureLevel::StoresChunkFileSizes,
        0,
        vec![sample_chunk(0x10), sample_chunk(0x20)],
    );
    let entry = FFileManifest {
        filename: "h\u{e9}llo.txt".to_string(),
        syslink_target: String::new(),
        hash: FSHAHash::new([3u8; 20]),
        flags: 0b101,
        install_tags: vec!["tag".to_string()],
        chunk_parts: vec![
            FChunkPart::new(
                FGuid { a: 0x10, b: 0x11, c: 0x12, d: 0x13 },
                0,
                10,
                0,
            ),
            FChunkPart::new(
                FGuid { a: 0x99, b: 0x98, c: 0x97, d: 0x96 },
                4,
                20,
                10,
            ),
        ],
        mime_type: Some("text/plain".to_string()),
        hash_md5: Some(UnknownHash::new([0x5Au8; 16])),
        hash_sha256: Some(UnknownHash::new([0xABu8; 32])),
        file_size: 30,
    };
    m.file_list = FFileManifestList::new(2, vec![entry]);
    m.custom_fields = FCustomFields::new(
        0,
        vec![
            ("k1".to_string(), "v1".to_string()),
            ("k2".to_string(), "v2".to_string()),
        ],
    );
    m
}

fn assert_same_content(x: &FManifest, y: &FManifest) {
    assert_eq!(x.meta.data_version, y.meta.data_version);
    assert!(x.meta.feature_level == y.meta.feature_level);
    assert_eq!(x.meta.b_is_file_data, y.meta.b_is_file_data);
    assert_eq!(x.meta.app_id, y.meta.app_id);
    assert_eq!(x.meta.app_name, y.meta.app_name);
    assert_eq!(x.meta.build_version, y.meta.build_version);
    assert_eq!(x.meta.launch_exe, y.meta.launch_exe);
    assert_eq!(x.meta.launch_command, y.meta.launch_command);
    assert_eq!(x.meta.prereq_ids, y.meta.prereq_ids);
    assert_eq!(x.meta.prereq_name, y.meta.prereq_name);
    assert_eq!(x.meta.prereq_path, y.meta.prereq_path);
    assert_eq!(x.meta.prereq_args, y.meta.prereq_args);
    assert_eq!(x.meta.build_id, y.meta.build_id);
    assert_eq!(x.meta.uninstall_action_path, y.meta.uninstall_action_path);
    assert_eq!(x.meta.uninstall_action_args, y.meta.uninstall_action_args);
    assert_eq!(x.chunk_list.chunks().len(), y.chunk_list.chunks().len());
    for (c1, c2) in x.chunk_list.chunks().iter().zip(y.chunk_list.chunks().iter()) {
        assert_eq!(c1.guid(), c2.guid());
        assert_eq!(c1.hash(), c2.hash());
        assert_eq!(c1.sha_hash().data(), c2.sha_hash().data());
        assert_eq!(c1.group_num(), c2.group_num());
        assert_eq!(c1.uncompressed_size(), c2.uncompressed_size());
        assert_eq!(c1.compressed_size(), c2.compressed_size());
    }
    assert_eq!(x.file_list.entries().len(), y.file_list.entries().len());
    for (f1, f2) in x.file_list.entries().iter().zip(y.file_list.entries().iter()) {
        assert_eq!(f1.filename(), f2.filename());
        assert_eq!(f1.syslink_target(), f2.syslink_target());
        assert_eq!(f1.hash().data(), f2.hash().data());
        assert_eq!(f1.raw_flags(), f2.raw_flags());
        assert_eq!(f1.install_tags(), f2.install_tags());
        assert_eq!(f1.chunk_parts().len(), f2.chunk_parts().len());
        for (p1, p2) in f1.chunk_parts().iter().zip(f2.chunk_parts().iter()) {
            assert_eq!(p1.guid(), p2.guid());
            assert_eq!(p1.offset(), p2.offset());
            assert_eq!(p1.size(), p2.size());
            assert_eq!(p1.file_offset(), p2.file_offset());
        }
        assert_eq!(f1.mime_type(), f2.mime_type());
        assert_eq!(f1.md5_hash().map(|h| h.data()), f2.md5_hash().map(|h| h.data()));
        assert_eq!(f1.sha256_hash().map(|h| h.data()), f2.sha256_hash().map(|h| h.data()));
        assert_eq!(f1.file_size(), f2.file_size());
    }
    assert_eq!(x.custom_fields.fields, y.custom_fields.fields);
}

#[test]
fn empty_manifest_layout() {
    let m = empty_manifest(EManifestStorageFlags::Plain);
    let bytes = m.serialize().unwrap();
    assert_eq!(&bytes[0..4], &[0x0C, 0xC0, 0xBE, 0x44]);
    assert_eq!(&bytes[4..8], &[41, 0, 0, 0]);
    // The payload is meta + chunk list + file list + custom fields.
    let dsu = u32::from_le_bytes(bytes[8..12].try_into().unwrap());
    assert_eq!(dsu as usize, bytes.len() - 41);
    assert_eq!(dsu, 46 + 9 + 9 + 9);
    let expected_sha = Sha1::digest(&bytes[41..]);
    assert_eq!(&bytes[16..36], expected_sha.as_slice());
    assert_eq!(bytes[36], 0);
}

#[test]
fn round_trip_plain() {
    let m = sample_manifest();
    let bytes = m.serialize().unwrap();
    let parsed = FManifestParser::new(&bytes).parse().unwrap();
    assert_same_content(&m, &parsed);
    assert!(parsed.header.stored_as() == EManifestStorageFlags::Plain);
    assert!(parsed.header.version() == EFeatureLevel::StoresChunkFileSizes);
    assert_eq!(parsed.header.magic(), 0x44BEC00C);
}

#[test]
fn round_trip_compressed() {
    let mut m = sample_manifest();
    m.header = FManifestHeader::new(
        0x44BEC00C,
        41,
        0,
        0,
        FSHAHash::new([0u8; 20]),
        EManifestStorageFlags::Compressed,
        EFeatureLevel::StoresChunkFileSizes,
    );
    let bytes = m.serialize().unwrap();
    assert_eq!(bytes[36], 1);
    let parsed = FManifestParser::new(&bytes).parse().unwrap();
    assert_same_content(&m, &parsed);
    assert!(parsed.header.stored_as() == EManifestStorageFlags::Compressed);
}

#[test]
fn reserialize_agrees_with_first_parse() {
    let bytes = sample_manifest().serialize().unwrap();
    let first = FManifestParser::new(&bytes).parse().unwrap();
    let bytes2 = first.serialize().unwrap();
    let second = FManifestParser::new(&bytes2).parse().unwrap();
    assert_same_content(&first, &second);
    // The emitted header's SHA-1 covers the emitted plain payload.
    let expected_sha = Sha1::digest(&bytes2[41..]);
    assert_eq!(&bytes2[16..36], expected_sha.as_slice());
}

#[test]
fn plain_storage_sizes_agree() {
    let bytes = sample_manifest().serialize().unwrap();
    let dsu = u32::from_le_bytes(bytes[8..12].try_into().unwrap());
    let dsc = u32::from_le_bytes(bytes[12..16].try_into().unwrap());
    assert_eq!(dsu, dsc);
}

#[test]
fn version_gating_absent_fields() {
    let m = empty_manifest(EManifestStorageFlags::Plain);
    let bytes = m.serialize().unwrap();
    let parsed = FManifestParser::new(&bytes).parse().unwrap();
    assert!(parsed.meta.build_id().is_none());
    assert!(parsed.meta.uninstall_action_path().is_none());
    assert!(parsed.meta.uninstall_action_args().is_none());
    for e in parsed.file_list.entries() {
        assert!(e.mime_type().is_none());
        assert!(e.md5_hash().is_none());
        assert!(e.sha256_hash().is_none());
    }
}

#[test]
fn version_gating_present_fields() {
    let bytes = sample_manifest().serialize().unwrap();
    let parsed = FManifestParser::new(&bytes).parse().unwrap();
    assert_eq!(parsed.meta.build_id().unwrap(), "build-id");
    let e = &parsed.file_list.entries()[0];
    assert_eq!(e.mime_type().unwrap(), "text/plain");
    assert_eq!(e.md5_hash().unwrap().data(), [0x5Au8; 16]);
    assert_eq!(e.sha256_hash().unwrap().data(), [0xABu8; 32]);
}

#[test]
fn derived_file_sizes_and_offsets() {
    let bytes = sample_manifest().serialize().unwrap();
    let parsed = FManifestParser::new(&bytes).parse().unwrap();
    let e = &parsed.file_list.entries()[0];
    assert_eq!(e.file_size(), 30);
    assert_eq!(e.chunk_parts()[0].file_offset(), 0);
    assert_eq!(e.chunk_parts()[1].file_offset(), 10);
}

#[test]
fn find_by_guid_present_and_absent() {
    let bytes = sample_manifest().serialize().unwrap();
    let parsed = FManifestParser::new(&bytes).parse().unwrap();
    let hit = parsed.chunk_list.find_by_guid(&FGuid { a: 0x10, b: 0x11, c: 0x12, d: 0x13 });
    assert!(hit.is_some());
    assert_eq!(hit.unwrap().group_num(), 7);
    let miss = parsed.chunk_list.find_by_guid(&FGuid { a: 9, b: 9, c: 9, d: 9 });
    assert!(miss.is_none());
    // A part GUID absent from the chunk list does not fail the parse.
    let part_guid = parsed.file_list.entries()[0].chunk_parts()[1].guid();
    assert!(parsed.chunk_list.find_by_guid(part_guid).is_none());
}

#[test]
fn empty_collections_parse() {
    let bytes = empty_manifest(EManifestStorageFlags::Plain).serialize().unwrap();
    let parsed = FManifestParser::new(&bytes).parse().unwrap();
    assert!(parsed.chunk_list.chunks().is_empty());
    assert!(parsed.file_list.entries().is_empty());
    assert!(parsed.custom_fields.fields.is_empty());
    assert!(parsed.meta.prereq_ids().is_empty());
}

#[test]
fn hash_mismatch_is_fatal() {
    let mut m = sample_manifest();
    m.header = FManifestHeader::new(
        0x44BEC00C,
        41,
        0,
        0,
        FSHAHash::new([0u8; 20]),
        EManifestStorageFlags::Compressed,
        EFeatureLevel::StoresChunkFileSizes,
    );
    let mut bytes = m.serialize().unwrap();
    bytes[20] ^= 0xFF;
    let r = FManifestParser::new(&bytes).parse();
    assert!(matches!(r, Err(ParseError::HashMismatch)));
}

#[test]
fn encrypted_storage_is_rejected() {
    let mut bytes = sample_manifest().serialize().unwrap();
    bytes[36] = 2;
    let r = FManifestParser::new(&bytes).parse();
    assert!(matches!(r, Err(ParseError::InvalidStorageFlag)));
    bytes[36] = 9;
    let r2 = FManifestParser::new(&bytes).parse();
    assert!(matches!(r2, Err(ParseError::InvalidStorageFlag)));
}

#[test]
fn bad_magic_is_rejected() {
    let mut bytes = sample_manifest().serialize().unwrap();
    bytes[0] = 0x0D;
    assert!(matches!(
        FManifestParser::new(&bytes).parse(),
        Err(ParseError::InvalidMagic)
    ));
}

#[test]
fn wrong_header_size_is_offset_mismatch() {
    let mut bytes = sample_manifest().serialize().unwrap();
    bytes[4] = 40;
    assert!(matches!(
        FManifestParser::new(&bytes).parse(),
        Err(ParseError::OffsetMismatch)
    ));
}

#[test]
fn truncated_input_overflows() {
    let bytes = sample_manifest().serialize().unwrap();
    assert!(matches!(
        FManifestParser::new(&bytes[0..20]).parse(),
        Err(ParseError::Overflow)
    ));
}

#[test]
fn alias_feature_level_is_rejected_on_read() {
    let mut bytes = sample_manifest().serialize().unwrap();
    bytes[37] = 20;
    assert!(matches!(
        FManifestParser::new(&bytes).parse(),
        Err(ParseError::InvalidData)
    ));
}

#[test]
fn corrupt_compressed_payload_fails_decompression() {
    let mut m = empty_manifest(EManifestStorageFlags::Compressed);
    m.header = FManifestHeader::new(
        0x44BEC00C,
        41,
        0,
        0,
        FSHAHash::new([0u8; 20]),
        EManifestStorageFlags::Compressed,
        EFeatureLevel::Original,
    );
    let mut bytes = m.serialize().unwrap();
    for b in bytes.iter_mut().skip(41) {
        *b = 0x00;
    }
    assert!(matches!(
        FManifestParser::new(&bytes).parse(),
        Err(ParseError::DecompressionError)
    ));
}

#[test]
fn meta_v1_stores_only_build_id() {
    let mut m = empty_manifest(EManifestStorageFlags::Plain);
    m.meta = empty_meta(1);
    m.meta.build_id = Some("bid".to_string());
    let bytes = m.serialize().unwrap();
    let parsed = FManifestParser::new(&bytes).parse().unwrap();
    assert_eq!(parsed.meta.data_version(), 1);
    assert_eq!(parsed.meta.build_id().unwrap(), "bid");
    assert!(parsed.meta.uninstall_action_path().is_none());
    assert!(parsed.meta.uninstall_action_args().is_none());
}

#[test]
fn file_list_v1_stores_md5_and_mime_only() {
    let entry = FFileManifest {
        filename: "f".to_string(),
        syslink_target: String::new(),
        hash: FSHAHash::new([1u8; 20]),
        flags: 0,
        install_tags: Vec::new(),
        chunk_parts: Vec::new(),
        mime_type: Some(String::new()),
        hash_md5: Some(UnknownHash::new([9u8; 16])),
        hash_sha256: None,
        file_size: 0,
    };
    let fl = FFileManifestList::new(1, vec![entry]);
    let mut w = ByteWriter::new();
    fl.write(&mut w).unwrap();
    let mut r = ByteReader::new(w.into_bytes());
    let parsed = FFileManifestList::parse(&mut r).unwrap();
    let e = &parsed.entries()[0];
    assert_eq!(e.md5_hash().unwrap().data(), [9u8; 16]);
    assert_eq!(e.mime_type().unwrap(), "");
    assert!(e.sha256_hash().is_none());
}

#[test]
fn utf16_interior_nul_is_rejected() {
    let mut bytes = vec![0xFD, 0xFF, 0xFF, 0xFF];
    bytes.extend_from_slice(&[0x41, 0x00, 0x00, 0x00, 0x00, 0x00]);
    let mut r = ByteReader::new(bytes);
    assert!(matches!(r.read_string(), Err(ParseError::InvalidData)));
}

#[test]
fn chunk_file_plain_payload_passes_through() {
    let mut w = ByteWriter::new();
    w.write_u32(0xB1FE3AA2);
    w.write_i32(1);
    w.write_u32(41);
    w.write_u32(3);
    FGuid::default().write(&mut w);
    w.write_u64(0);
    w.write_u8(0);
    let mut bytes = w.into_bytes();
    bytes.extend_from_slice(&[10, 20, 30]);
    let mut r = ByteReader::new(bytes);
    let h = FChunkHeader::parse(&mut r).unwrap();
    assert!(!h.is_compressed());
    assert!(h.sha_hash().is_none());
    assert!(h.hash_type().is_none());
    assert!(h.data_size_uncompressed().is_none());
    assert_eq!(h.get_data(&mut r).unwrap(), vec![10, 20, 30]);
}

#[test]
fn file_list_v2_sha256_column_is_last() {
    let entry = FFileManifest {
        filename: "a".to_string(),
        syslink_target: String::new(),
        hash: FSHAHash::new([0u8; 20]),
        flags: 0,
        install_tags: Vec::new(),
        chunk_parts: Vec::new(),
        mime_type: Some("t".to_string()),
        hash_md5: None,
        hash_sha256: Some(UnknownHash::new([0xABu8; 32])),
        file_size: 0,
    };
    let fl = FFileManifestList::new(2, vec![entry]);
    let mut w = ByteWriter::new();
    fl.write(&mut w).unwrap();
    let bytes = w.into_bytes();
    let tail = &bytes[bytes.len() - 32..];
    assert!(tail.iter().all(|&b| b == 0xAB));
}

#[test]
fn custom_fields_lookup_and_duplicates() {
    let bytes = sample_manifest().serialize().unwrap();
    let parsed = FManifestParser::new(&bytes).parse().unwrap();
    assert_eq!(parsed.custom_fields.get("k1").unwrap(), "v1");
    assert_eq!(parsed.custom_fields.get("k2").unwrap(), "v2");
    assert!(parsed.custom_fields.get("k3").is_none());
    // A section carrying a duplicate key is rejected.
    let dup = FCustomFields::new(
        0,
        vec![
            ("k".to_string(), "v1".to_string()),
            ("k".to_string(), "v2".to_string()),
        ],
    );
    let mut w = ByteWriter::new();
    dup.write(&mut w).unwrap();
    let mut r = ByteReader::new(w.into_bytes());
    assert!(matches!(
        FCustomFields::parse(&mut r),
        Err(ParseError::InvalidData)
    ));
}

#[test]
fn file_flag_bits() {
    let bytes = sample_manifest().serialize().unwrap();
    let parsed = FManifestParser::new(&bytes).parse().unwrap();
    let e = &parsed.file_list.entries()[0];
    assert!(e.read_only());
    assert!(!e.compressed());
    assert!(e.executable());
}

#[test]
fn chunk_rendering_helpers() {
    let c = sample_chunk(0x10);
    assert_eq!(c.hash_str(), "1122334455667788");
    assert_eq!(c.group_num_str(), "07");
    let c2 = FChunkInfo::new(FGuid::default(), 0xAB, FSHAHash::new([0u8; 20]), 123, 0, 0);
    assert_eq!(c2.hash_str(), "00000000000000AB");
    assert_eq!(c2.group_num_str(), "123");
}

#[test]
fn chunk_file_header_plain_and_compressed() {
    // Version 3 header: magic, version, header size, compressed size, GUID,
    // rolling hash, storage flag, SHA-1, hash type, uncompressed size.
    let payload = b"chunk payload bytes".to_vec();
    let mut enc = ZlibEncoder::new(Vec::new(), Compression::default());
    enc.write_all(&payload).unwrap();
    let compressed = enc.finish().unwrap();

    let mut w = ByteWriter::new();
    w.write_u32(0xB1FE3AA2);
    w.write_i32(3);
    w.write_u32(66);
    w.write_u32(compressed.len() as u32);
    FGuid { a: 1, b: 2, c: 3, d: 4 }.write(&mut w);
    w.write_u64(0x55);
    w.write_u8(1);
    FSHAHash::new([9u8; 20]).write(&mut w);
    w.write_u8(3);
    w.write_u32(payload.len() as u32);
    let mut bytes = w.into_bytes();
    assert_eq!(bytes.len(), 66);
    bytes.extend_from_slice(&compressed);

    let mut r = ByteReader::new(bytes);
    let h = FChunkHeader::parse(&mut r).unwrap();
    assert_eq!(h.magic(), 0xB1FE3AA2);
    assert_eq!(h.version().to_i32(), 3);
    assert_eq!(h.guid(), FGuid { a: 1, b: 2, c: 3, d: 4 });
    assert_eq!(h.rolling_hash(), 0x55);
    assert!(h.stored_as() == EChunkStorageFlags::Compressed);
    assert!(h.is_compressed());
    assert_eq!(h.data_size_uncompressed(), Some(payload.len() as u32));
    assert_eq!(h.sha_hash().unwrap().data(), [9u8; 20]);
    let data = h.get_data(&mut r).unwrap();
    assert_eq!(data, payload);
}

#[test]
fn chunk_file_header_bad_magic() {
    let mut w = ByteWriter::new();
    w.write_u32(0xDEADBEEF);
    w.write_i32(1);
    w.write_u32(37);
    w.write_u32(0);
    FGuid::default().write(&mut w);
    w.write_u64(0);
    w.write_u8(0);
    let mut r = ByteReader::new(w.into_bytes());
    assert!(matches!(
        FChunkHeader::parse(&mut r),
        Err(ParseError::InvalidMagic)
    ));
}

#[test]
fn serialize_rejects_unwritable_strings() {
    let mut m = empty_manifest(EManifestStorageFlags::Plain);
    m.meta.app_name = "bad\u{0}name".to_string();
    assert!(matches!(m.serialize(), Err(ParseError::InvalidData)));
}

#[test]
fn error_descriptions_are_stable() {
    assert_eq!(ParseError::InvalidMagic.describe(), "Invalid magic");
    assert_eq!(ParseError::HashMismatch.describe(), "Hash does not match");
    assert_eq!(ParseError::Overflow.describe(), "Overflow");
}
