//! The IRD sidecar key file: parsing and the gzip-compressed reader.

use ps3bdtool::error::DiscError;
use ps3bdtool::ird::{parse_ird, read_ird};
use std::io::Write;

/// A minimal structurally complete IRD record.
fn build_ird_record() -> Vec<u8> {
    let mut b: Vec<u8> = Vec::new();
    b.extend_from_slice(b"3IRD");
    b.push(9); // version
    b.extend_from_slice(b"BCUS12345"); // game id, 9 bytes
    let name = b"Example Game";
    b.push(name.len() as u8);
    b.extend_from_slice(name);
    b.extend_from_slice(b"0001"); // update version, 4 bytes
    b.extend_from_slice(b"01.00"); // game version, 5 bytes
    b.extend_from_slice(b"01.00"); // app version, 5 bytes
    let header_comp = [0xaau8; 10];
    b.extend_from_slice(&(header_comp.len() as u32).to_le_bytes());
    b.extend_from_slice(&header_comp);
    let footer_comp = [0xbbu8; 6];
    b.extend_from_slice(&(footer_comp.len() as u32).to_le_bytes());
    b.extend_from_slice(&footer_comp);
    b.push(2); // two region hashes
    b.extend_from_slice(&[0x11u8; 16]);
    b.extend_from_slice(&[0x22u8; 16]);
    b.extend_from_slice(&1u32.to_le_bytes()); // one file hash entry
    b.extend_from_slice(&[0u8; 24]); // the entry, skipped
    b.extend_from_slice(&[0u8; 4]); // two spare fields
    b.extend_from_slice(&[0x33u8; 0x73]); // pic data
    b.extend_from_slice(&[0x44u8; 16]); // data1
    b.extend_from_slice(&[0x55u8; 16]); // data2
    b.extend_from_slice(&0xdeadbeefu32.to_le_bytes()); // unique id
    b.extend_from_slice(&[1, 2, 3, 4]); // crc32
    b
}

fn gzip(data: &[u8]) -> Vec<u8> {
    let mut enc =
        flate2::write::GzEncoder::new(Vec::new(), flate2::Compression::default());
    enc.write_all(data).unwrap();
    enc.finish().unwrap()
}

#[test]
fn parses_complete_record() {
    let f = parse_ird(&build_ird_record()).unwrap();
    assert_eq!(f.version, 9);
    assert_eq!(f.game_id, "BCUS12345");
    assert_eq!(f.game_name, "Example Game");
    assert_eq!(f.update_ver, "0001");
    assert_eq!(f.game_ver, "01.00");
    assert_eq!(f.app_ver, "01.00");
    assert_eq!(f.header_comp, vec![0xaa; 10]);
    assert_eq!(f.footer_comp, vec![0xbb; 6]);
    assert_eq!(f.region_hashes.len(), 2);
    assert_eq!(f.region_hashes[0], vec![0x11; 16]);
    assert_eq!(f.region_hashes[1], vec![0x22; 16]);
    assert_eq!(f.pic_data, vec![0x33; 0x73]);
    assert_eq!(f.data1, vec![0x44; 16]);
    assert_eq!(f.data2, vec![0x55; 16]);
    assert_eq!(f.unique_identifier, 0xdeadbeef);
    assert_eq!(f.crc32, vec![1, 2, 3, 4]);
}

#[test]
fn rejects_bad_tag_and_truncation() {
    let good = build_ird_record();
    let mut bad = good.clone();
    bad[0] = b'4';
    assert_eq!(parse_ird(&bad).unwrap_err(), DiscError::Format);
    // Every truncation is an error, never a panic.
    for cut in 0..good.len() {
        assert_eq!(parse_ird(&good[..cut]).unwrap_err(), DiscError::Format);
    }
}

#[test]
fn tolerates_trailing_bytes() {
    let mut record = build_ird_record();
    record.extend_from_slice(&[0xee; 32]);
    let f = parse_ird(&record).unwrap();
    assert_eq!(f.game_id, "BCUS12345");
    assert_eq!(f.crc32, vec![1, 2, 3, 4]);
}

#[test]
fn reads_gzip_compressed_record() {
    let record = build_ird_record();
    let f = read_ird(&gzip(&record)).unwrap();
    assert_eq!(f.game_id, "BCUS12345");
    assert_eq!(f.data1, vec![0x44; 16]);
}

#[test]
fn rejects_uncompressed_and_corrupt_streams() {
    // A raw record is not a gzip stream.
    assert_eq!(read_ird(&build_ird_record()).unwrap_err(), DiscError::Format);
    // A gzip stream of a record with a bad tag decompresses but fails parsing.
    let mut bad = build_ird_record();
    bad[0] = b'X';
    assert_eq!(read_ird(&gzip(&bad)).unwrap_err(), DiscError::Format);
}

#[test]
fn ird_d1_feeds_key_import() {
    let record = build_ird_record();
    let f = read_ird(&gzip(&record)).unwrap();
    let mut h = vec![0u8; 4096];
    h[0..4].copy_from_slice(&2u32.to_be_bytes());
    h[12..16].copy_from_slice(&2u32.to_be_bytes());
    h[16..20].copy_from_slice(&7u32.to_be_bytes());
    h[20..24].copy_from_slice(&9u32.to_be_bytes());
    h[2048..2060].copy_from_slice(b"PlayStation3");
    let mut disc = ps3bdtool::disc::PS3Disc::new(&h).unwrap();
    assert!(!disc.can_decrypt());
    assert!(disc.import_key(None, None, Some(&f.data1)).unwrap());
    assert!(disc.can_decrypt());
    assert_eq!(disc.d1.as_deref(), Some(&f.data1[..]));
}
