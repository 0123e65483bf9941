//! Tests of the byte reader, writer and rendering helpers of
//! manifest_codec.
use manifest_codec::helper::to_hex;
use manifest_codec::reader::ByteReader;
use manifest_codec::shared::{FGuid, FSHAHash};
use manifest_codec::writer::{ByteWritable, ByteWriter};
use manifest_codec::ParseError;
use sha1::{Digest, Sha1};

#[test]
fn read_integers_present_succeed() {
    let mut r = ByteReader::new(vec![0x78, 0x56, 0x34, 0x12, 0xFF, 0xFF, 0xFF, 0xFF]);
    assert_eq!(r.read_u32().unwrap(), 0x12345678);
    assert_eq!(r.read_i32().unwrap(), -1);
    assert_eq!(r.tell(), 8);
}

#[test]
fn read_integer_past_end_overflows() {
    let mut r = ByteReader::new(vec![1, 2, 3]);
    assert!(matches!(r.read_u32(), Err(ParseError::Overflow)));
    assert_eq!(r.tell(), 0);
    assert_eq!(r.read_u16().unwrap(), 0x0201);
    assert!(matches!(r.read_u16(), Err(ParseError::Overflow)));
    let mut r64 = ByteReader::new(vec![0; 7]);
    assert!(matches!(r64.read_u64(), Err(ParseError::Overflow)));
    assert!(matches!(r64.read_i64(), Err(ParseError::Overflow)));
}

#[test]
fn narrow_signed_integers_read() {
    let mut r = ByteReader::new(vec![0x80, 0xFF, 0xFF, 0x7F]);
    assert_eq!(r.read_i8().unwrap(), -128);
    assert_eq!(r.read_i8().unwrap(), -1);
    assert_eq!(r.read_i16().unwrap(), 0x7FFF);
    assert!(matches!(r.read_i16(), Err(ParseError::Overflow)));
    let mut r2 = ByteReader::new(vec![0x34, 0x12]);
    assert_eq!(r2.read_i16().unwrap(), 0x1234);
}

#[test]
fn signed_integers_round_trip() {
    let mut w = ByteWriter::new();
    w.write_i32(-123456);
    w.write_i64(-98765432100);
    w.write_i32(i32::MIN);
    w.write_i64(i64::MAX);
    let mut r = ByteReader::new(w.into_bytes());
    assert_eq!(r.read_i32().unwrap(), -123456);
    assert_eq!(r.read_i64().unwrap(), -98765432100);
    assert_eq!(r.read_i32().unwrap(), i32::MIN);
    assert_eq!(r.read_i64().unwrap(), i64::MAX);
}

#[test]
fn generic_writes_match_typed_writes() {
    let g = FGuid { a: 1, b: 2, c: 3, d: 4 };
    let mut w1 = ByteWriter::new();
    w1.write(&0xABu8);
    w1.write(&0x1234u16);
    w1.write(&0x89ABCDEFu32);
    w1.write(&(-5i64));
    w1.write(&g);
    let mut w2 = ByteWriter::new();
    w2.write_u8(0xAB);
    w2.write_u16(0x1234);
    w2.write_u32(0x89ABCDEF);
    w2.write_i64(-5);
    g.write(&mut w2);
    assert_eq!(w1.as_bytes(), w2.as_bytes());
}

#[test]
fn empty_string_writes_four_zero_bytes() {
    let mut w = ByteWriter::new();
    w.write_string("").unwrap();
    assert_eq!(w.as_bytes(), &[0u8, 0, 0, 0]);
    let mut r = ByteReader::new(vec![0, 0, 0, 0]);
    assert_eq!(r.read_string().unwrap(), "");
}

#[test]
fn ascii_string_length_prefix_counts_nul() {
    let mut w = ByteWriter::new();
    w.write_string("hello.txt").unwrap();
    let bytes = w.into_bytes();
    assert_eq!(&bytes[0..4], &[0x0A, 0x00, 0x00, 0x00]);
    assert_eq!(bytes.len(), 14);
    assert_eq!(*bytes.last().unwrap(), 0);
}

#[test]
fn non_ascii_string_round_trips_byte_exactly() {
    let mut w = ByteWriter::new();
    w.write_string("h\u{e9}llo.txt").unwrap();
    let bytes = w.into_bytes();
    // Nine characters, ten UTF-8 bytes, one terminator.
    assert_eq!(&bytes[0..4], &[0x0B, 0x00, 0x00, 0x00]);
    let mut r = ByteReader::new(bytes.clone());
    assert_eq!(r.read_string().unwrap(), "h\u{e9}llo.txt");
    let mut w2 = ByteWriter::new();
    w2.write_string("h\u{e9}llo.txt").unwrap();
    assert_eq!(w2.into_bytes(), bytes);
}

#[test]
fn utf16_string_reads_and_reemits_as_utf8() {
    // Length -3: two UTF-16LE code units of text plus a NUL terminator unit.
    let mut bytes = vec![0xFD, 0xFF, 0xFF, 0xFF];
    bytes.extend_from_slice(&[0x41, 0x00, 0xE9, 0x00, 0x00, 0x00]);
    let mut r = ByteReader::new(bytes);
    let s = r.read_string().unwrap();
    assert_eq!(s, "A\u{e9}");
    let mut w = ByteWriter::new();
    w.write_string(&s).unwrap();
    let out = w.into_bytes();
    assert_eq!(&out[0..4], &[0x04, 0x00, 0x00, 0x00]);
    let mut r2 = ByteReader::new(out);
    assert_eq!(r2.read_string().unwrap(), "A\u{e9}");
}

#[test]
fn invalid_utf8_is_rejected() {
    let mut bytes = vec![0x03, 0x00, 0x00, 0x00];
    bytes.extend_from_slice(&[0xFF, 0xFE, 0x00]);
    let mut r = ByteReader::new(bytes);
    assert!(matches!(r.read_string(), Err(ParseError::InvalidData)));
}

#[test]
fn string_without_terminator_is_rejected() {
    let mut bytes = vec![0x03, 0x00, 0x00, 0x00];
    bytes.extend_from_slice(&[0x61, 0x62, 0x63]);
    let mut r = ByteReader::new(bytes);
    assert!(matches!(r.read_string(), Err(ParseError::InvalidData)));
}

#[test]
fn string_array_count_zero_is_empty() {
    let mut r = ByteReader::new(vec![0, 0, 0, 0]);
    let v = r.read_string_array().unwrap();
    assert!(v.is_empty());
}

#[test]
fn interior_nul_is_not_writable() {
    let mut w = ByteWriter::new();
    assert!(matches!(w.write_string("a\u{0}b"), Err(ParseError::InvalidData)));
    assert_eq!(w.as_bytes().len(), 0);
}

#[test]
fn reader_cursor_operations() {
    let mut r = ByteReader::new(vec![1, 2, 3, 4, 5]);
    assert_eq!(r.length(), 5);
    assert_eq!(r.read_bytes(2).unwrap(), vec![1, 2]);
    assert_eq!(r.tell(), 2);
    assert_eq!(r.read_remaining(), vec![3, 4, 5]);
    assert_eq!(r.tell(), 5);
    r.seek(1);
    assert_eq!(r.read_bytes(1).unwrap(), vec![2]);
    assert!(matches!(r.read_bytes(4), Err(ParseError::Overflow)));
}

#[test]
fn to_hex_renders_even_width_uppercase() {
    assert_eq!(to_hex(0), "0");
    assert_eq!(to_hex(0xFF), "FF");
    assert_eq!(to_hex(0x1A), "1A");
    assert_eq!(to_hex(0x123), "0123");
    assert_eq!(to_hex(0xDEADBEEF), "DEADBEEF");
}

#[test]
fn guid_renders_as_32_hex_digits() {
    let g = FGuid { a: 0x11111111, b: 0x22222222, c: 0x33333333, d: 0x44444444 };
    assert_eq!(g.to_string(), "11111111222222223333333344444444");
    let small = FGuid { a: 1, b: 0, c: 0xAB, d: 0xFFFFFFFF };
    assert_eq!(small.to_string(), "0000000100000000000000ABFFFFFFFF");
}

#[test]
fn guid_serializes_limbs_little_endian() {
    let g = FGuid { a: 0x11111111, b: 0x22222222, c: 0x33333333, d: 0x44444444 };
    let mut w = ByteWriter::new();
    g.write(&mut w);
    assert_eq!(
        w.as_bytes(),
        &[
            0x11, 0x11, 0x11, 0x11, 0x22, 0x22, 0x22, 0x22, 0x33, 0x33, 0x33, 0x33, 0x44, 0x44,
            0x44, 0x44,
        ],
    );
}

#[test]
fn sha_hash_matches_reference_digest() {
    let h = FSHAHash::new_from_hashable(b"abc");
    let expected = Sha1::digest(b"abc");
    assert_eq!(h.data().to_vec(), expected.to_vec());
    assert_eq!(h.to_hex_string(), "a9993e364706816aba3e25717850c26c9cd0d89d");
    assert_eq!(h.to_string(), "a9993e364706816aba3e25717850c26c9cd0d89d");
}

#[test]
fn sha_hash_fingerprint_is_deterministic() {
    let h1 = FSHAHash::new([7u8; 20]);
    let h2 = FSHAHash::new([7u8; 20]);
    assert_eq!(h1.to_hash(), h2.to_hash());
    let h3 = FSHAHash::new([8u8; 20]);
    assert_ne!(h1.to_hash(), h3.to_hash());
}
