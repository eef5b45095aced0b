//! The decrypt pipeline: cursor claims, and byte-identical output across
//! worker counts and completion orders.

use ps3bdtool::disc::{PS3Disc, PS3DiscDecryptor};
use ps3bdtool::pipeline::{decrypt_image, decrypt_image_unordered, SectorCursor};

fn build_header(markers: &[u32], d1: Option<[u8; 16]>, tagline: Option<[u8; 16]>) -> Vec<u8> {
    let mut h = vec![0u8; 4096];
    let r = ((markers.len() + 1) / 2) as u32;
    h[0..4].copy_from_slice(&r.to_be_bytes());
    for (i, m) in markers.iter().enumerate() {
        h[12 + 4 * i..16 + 4 * i].copy_from_slice(&m.to_be_bytes());
    }
    h[2048..2060].copy_from_slice(b"PlayStation3");
    h[2064..2074].copy_from_slice(b"BCUS-12345");
    for i in 2074..2084 {
        h[i] = b' ';
    }
    if let Some(t) = tagline {
        h[0xF70..0xF80].copy_from_slice(&t);
    }
    if let Some(d) = d1 {
        h[3968..3984].copy_from_slice(&d);
    }
    h
}

const D1: [u8; 16] = [
    0x10, 0x21, 0x32, 0x43, 0x54, 0x65, 0x76, 0x87, 0x98, 0xa9, 0xba, 0xcb, 0xdc, 0xed, 0xfe,
    0x0f,
];

/// A synthetic disc of `total` sectors with regions
/// [0..=3999 unencrypted, 4000..=4199 encrypted, 4200.. unencrypted]:
/// its ciphertext image, its decryptor, and the expected plaintext image.
fn synthetic_disc(total: u32) -> (Vec<u8>, PS3DiscDecryptor, Vec<u8>) {
    assert!(total >= 8192);
    let header = build_header(
        &[3999, 4200, total - 1],
        Some(D1),
        Some(*b"Encrypted 3K BLD"),
    );
    let disc = PS3Disc::new(&header).unwrap();
    let dec = disc.get_decryptor().unwrap();

    // The plaintext image: the header in sectors 0-1, then a pattern.
    let mut plain = vec![0u8; total as usize * 2048];
    plain[0..4096].copy_from_slice(&header);
    for i in 4096..plain.len() {
        plain[i] = ((i * 31 + i / 2048) % 256) as u8;
    }

    // The ciphertext image, sector by sector through the codec's inverse.
    let mut cipher = vec![0u8; plain.len()];
    for s in 0..total {
        let range = s as usize * 2048..(s as usize + 1) * 2048;
        let block = dec.encrypt_sector(&plain[range.clone()], s).unwrap();
        cipher[range].copy_from_slice(&block);
    }

    // What decryption must produce: the plaintext, with sector 1 tagline-patched.
    let mut expected = plain;
    expected[2048 + 1904] = b'D';
    expected[2048 + 1905] = b'e';
    (cipher, dec, expected)
}

/// The completion order of a pool of `workers` workers that all run at the
/// same pace: claims are handed out in order, and each worker finishes its
/// claims in the order it took them, interleaved across the pool.
fn completion_order(total: u32, workers: u32) -> Vec<u32> {
    let mut order = Vec::with_capacity(total as usize);
    for chunk in (0..total).collect::<Vec<_>>().chunks(workers as usize) {
        let mut c: Vec<u32> = chunk.to_vec();
        c.reverse();
        order.extend(c);
    }
    order
}

#[test]
fn single_worker_decrypts_synthetic_disc() {
    let (cipher, dec, expected) = synthetic_disc(8192);
    let out = decrypt_image(&dec, &cipher);
    assert_eq!(out, expected);
}

#[test]
fn two_worker_completion_order_gives_identical_bytes() {
    let (cipher, dec, expected) = synthetic_disc(8192);
    let single = decrypt_image(&dec, &cipher);
    let two = decrypt_image_unordered(&dec, &cipher, &completion_order(8192, 2));
    assert_eq!(two, expected);
    assert_eq!(two, single);
}

#[test]
fn eight_worker_completion_order_gives_identical_bytes() {
    let (cipher, dec, expected) = synthetic_disc(8192);
    let eight = decrypt_image_unordered(&dec, &cipher, &completion_order(8192, 8));
    assert_eq!(eight, expected);
    // Even a fully reversed completion order writes the same bytes.
    let mut reversed: Vec<u32> = (0..8192).collect();
    reversed.reverse();
    let rev = decrypt_image_unordered(&dec, &cipher, &reversed);
    assert_eq!(rev, eight);
}

#[test]
fn cursor_claims_each_sector_exactly_once() {
    let mut cursor = SectorCursor::new(1000);
    let claims = cursor.claim_all();
    assert_eq!(claims.len(), 1000);
    for (i, c) in claims.iter().enumerate() {
        assert_eq!(*c, i as u32);
    }
    // The drained cursor only signals exhaustion.
    assert_eq!(cursor.claim(), None);
}

#[test]
fn cursor_claims_are_strictly_increasing() {
    let mut cursor = SectorCursor::new(5);
    assert_eq!(cursor.claim(), Some(0));
    assert_eq!(cursor.claim(), Some(1));
    assert_eq!(cursor.claim(), Some(2));
    assert_eq!(cursor.claim(), Some(3));
    assert_eq!(cursor.claim(), Some(4));
    assert_eq!(cursor.claim(), None);
    assert_eq!(cursor.claim(), None);
}

#[test]
fn zero_sector_cursor_claims_nothing() {
    let mut cursor = SectorCursor::new(0);
    assert_eq!(cursor.claim(), None);
    let mut cursor = SectorCursor::new(0);
    assert_eq!(cursor.claim_all().len(), 0);
}
