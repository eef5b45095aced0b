//! Key derivation and the sector codec: determinism, round trips, the
//! tagline patch, and agreement with the AES crate called directly.

use crypto::symmetriccipher::Encryptor;
use ps3bdtool::decrypt::{aes_decrypt, aes_encrypt, disc_key};
use ps3bdtool::disc::{PS3Disc, PS3DiscDecryptor};
use ps3bdtool::error::DiscError;

fn build_header(markers: &[u32], d1: Option<[u8; 16]>, tagline: Option<[u8; 16]>) -> Vec<u8> {
    let mut h = vec![0u8; 4096];
    let r = ((markers.len() + 1) / 2) as u32;
    h[0..4].copy_from_slice(&r.to_be_bytes());
    for (i, m) in markers.iter().enumerate() {
        h[12 + 4 * i..16 + 4 * i].copy_from_slice(&m.to_be_bytes());
    }
    h[2048..2060].copy_from_slice(b"PlayStation3");
    h[2064..2074].copy_from_slice(b"BCUS-12345");
    for i in 2074..2084 {
        h[i] = b' ';
    }
    if let Some(t) = tagline {
        h[0xF70..0xF80].copy_from_slice(&t);
    }
    if let Some(d) = d1 {
        h[3968..3984].copy_from_slice(&d);
    }
    h
}

const D1: [u8; 16] = [
    0x00, 0x01, 0x02, 0x03, 0x04, 0x05, 0x06, 0x07, 0x08, 0x09, 0x0a, 0x0b, 0x0c, 0x0d, 0x0e,
    0x0f,
];

fn decryptor(tagline: bool) -> PS3DiscDecryptor {
    let t = if tagline { Some(*b"Encrypted 3K BLD") } else { None };
    let h = build_header(&[2, 7, 9], Some(D1), t);
    PS3Disc::new(&h).unwrap().get_decryptor().unwrap()
}

fn sector_iv(sector: u32) -> [u8; 16] {
    let mut iv = [0u8; 16];
    iv[12..16].copy_from_slice(&sector.to_be_bytes());
    iv
}

/// AES-128-CBC encrypt via the crate directly, bypassing the library.
fn crate_cbc_encrypt(data: &[u8], key: &[u8], iv: &[u8]) -> Vec<u8> {
    let mut enc = crypto::aes::cbc_encryptor(
        crypto::aes::KeySize::KeySize128,
        key,
        iv,
        crypto::blockmodes::NoPadding,
    );
    let mut out = vec![0u8; data.len()];
    let mut rb = crypto::buffer::RefReadBuffer::new(data);
    let mut wb = crypto::buffer::RefWriteBuffer::new(&mut out);
    loop {
        match enc.encrypt(&mut rb, &mut wb, true).unwrap() {
            crypto::buffer::BufferResult::BufferUnderflow => break,
            crypto::buffer::BufferResult::BufferOverflow => {}
        }
    }
    out
}

#[test]
fn derive_is_deterministic() {
    let k1 = disc_key(&D1).unwrap();
    let k2 = disc_key(&D1).unwrap();
    assert_eq!(k1, k2);
    assert_eq!(k1.len(), 16);
}

#[test]
fn distinct_seeds_derive_distinct_keys() {
    let d1a = [0u8; 16];
    let d1b = [1u8; 16];
    let d1c = D1;
    let ka = disc_key(&d1a).unwrap();
    let kb = disc_key(&d1b).unwrap();
    let kc = disc_key(&d1c).unwrap();
    assert_ne!(ka, kb);
    assert_ne!(ka, kc);
    assert_ne!(kb, kc);
    // The derivation really transforms its input.
    assert_ne!(&ka[..], &d1a[..]);
    assert_ne!(&kc[..], &d1c[..]);
}

#[test]
fn library_aes_matches_crate_aes() {
    let key = [0x11u8; 16];
    let iv = [0x22u8; 16];
    let data: Vec<u8> = (0..2048u32).map(|i| (i * 7 % 251) as u8).collect();
    let lib = aes_encrypt(&data, &key, &iv).unwrap();
    let direct = crate_cbc_encrypt(&data, &key, &iv);
    assert_eq!(lib, direct);
    assert_ne!(lib, data);
    let back = aes_decrypt(&lib, &key, &iv).unwrap();
    assert_eq!(back, data);
}

#[test]
fn codec_round_trip_encrypted_region() {
    let dec = decryptor(false);
    let plain: Vec<u8> = (0..2048u32).map(|i| (i % 256) as u8).collect();
    // Sector 4 lies in the encrypted region [3, 6].
    let cipher = dec.encrypt_sector(&plain, 4).unwrap();
    assert_ne!(cipher, plain);
    // Cross-check the ciphertext against the crate called directly.
    assert_eq!(
        cipher,
        crate_cbc_encrypt(&plain, &dec.disc_key, &sector_iv(4))
    );
    let back = dec.decrypt_sector(&cipher, 4).unwrap();
    assert_eq!(back, plain);
}

#[test]
fn codec_round_trip_unencrypted_region() {
    let dec = decryptor(false);
    let plain: Vec<u8> = (0..2048u32).map(|i| (i % 256) as u8).collect();
    // Sector 8 lies in the unencrypted region [7, 9]: pure passthrough.
    let cipher = dec.encrypt_sector(&plain, 8).unwrap();
    assert_eq!(cipher, plain);
    let back = dec.decrypt_sector(&plain, 8).unwrap();
    assert_eq!(back, plain);
}

#[test]
fn per_sector_iv_distinguishes_sectors() {
    let dec = decryptor(false);
    let plain: Vec<u8> = vec![0xabu8; 2048];
    let c4 = dec.encrypt_sector(&plain, 4).unwrap();
    let c5 = dec.encrypt_sector(&plain, 5).unwrap();
    assert_ne!(c4, c5);
}

#[test]
fn tagline_patch_applies_exactly_on_sector_one() {
    let mut plain = vec![0u8; 2048];
    plain[1904..1920].copy_from_slice(b"Encrypted 3K BLD");

    // Tagline present, sector 1: patched to "Decrypted ...".
    let with = decryptor(true);
    let out = with.decrypt_sector(&plain, 1).unwrap();
    assert_eq!(&out[1904..1920], b"Decrypted 3K BLD");
    for i in 0..2048 {
        if i != 1904 && i != 1905 {
            assert_eq!(out[i], plain[i]);
        }
    }

    // Tagline present, other unencrypted sectors: unchanged.
    assert_eq!(with.decrypt_sector(&plain, 0).unwrap(), plain);
    assert_eq!(with.decrypt_sector(&plain, 2).unwrap(), plain);
    assert_eq!(with.decrypt_sector(&plain, 9).unwrap(), plain);

    // No tagline: sector 1 unchanged too.
    let without = decryptor(false);
    assert_eq!(without.decrypt_sector(&plain, 1).unwrap(), plain);
}

#[test]
fn tagline_patch_is_idempotent() {
    let mut plain = vec![0u8; 2048];
    plain[1904..1920].copy_from_slice(b"Encrypted 3K BLD");
    let dec = decryptor(true);
    let once = dec.decrypt_sector(&plain, 1).unwrap();
    let twice = dec.decrypt_sector(&once, 1).unwrap();
    assert_eq!(once, twice);
}

#[test]
fn codec_rejects_bad_input() {
    let dec = decryptor(false);
    // Wrong buffer length.
    assert_eq!(
        dec.decrypt_sector(&[0u8; 100], 0).unwrap_err(),
        DiscError::Validation
    );
    assert_eq!(
        dec.encrypt_sector(&[0u8; 2047], 0).unwrap_err(),
        DiscError::Validation
    );
    // Sector outside every region.
    assert_eq!(
        dec.decrypt_sector(&[0u8; 2048], 10).unwrap_err(),
        DiscError::Internal
    );
    assert_eq!(
        dec.decrypt_sector(&[0u8; 2048], u32::MAX).unwrap_err(),
        DiscError::Internal
    );
}

#[test]
fn be_u32_reads_big_endian() {
    assert_eq!(ps3bdtool::disc::be_u32(&[0, 0, 0, 1]), 1);
    assert_eq!(ps3bdtool::disc::be_u32(&[0x12, 0x34, 0x56, 0x78]), 0x12345678);
    assert_eq!(ps3bdtool::disc::be_u32(&[0xff, 0xff, 0xff, 0xff]), u32::MAX);
}

#[test]
fn covering_sectors_matches_range_arithmetic() {
    assert_eq!(ps3bdtool::sector::covering_sectors(0, 1), (0, 1));
    assert_eq!(ps3bdtool::sector::covering_sectors(0, 2048), (0, 1));
    assert_eq!(ps3bdtool::sector::covering_sectors(1, 2048), (0, 2));
    assert_eq!(ps3bdtool::sector::covering_sectors(2048, 2049), (1, 3));
    assert_eq!(ps3bdtool::sector::covering_sectors(4096, 0), (2, 2));
}
