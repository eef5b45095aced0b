//! AES-128-CBC wrappers and the derivation of the disc key from `d1`.

use crate::error::DiscError;
use vstd::prelude::*;

verus! {

/// What `crypto`'s AES-128-CBC encryption with `NoPadding` returns for the
/// given data, key and IV. The result depends on the arguments alone.
pub uninterp spec fn aes_cbc_enc(data: Seq<u8>, key: Seq<u8>, iv: Seq<u8>) -> Seq<u8>;

/// What `crypto`'s AES-128-CBC decryption with `NoPadding` returns for the
/// given data, key and IV. The result depends on the arguments alone.
pub uninterp spec fn aes_cbc_dec(data: Seq<u8>, key: Seq<u8>, iv: Seq<u8>) -> Seq<u8>;

/// High-level, simple function to do an AES128 CBC encrypt.
///
/// Relies on `crypto::aes::cbc_encryptor` with `NoPadding`: with a 16-byte
/// key, a 16-byte IV and input a multiple of 16 bytes long, a single
/// `encrypt` call with an output buffer of the input's size consumes all
/// input without error, and the ciphertext is as long as the plaintext.
/// CBC decryption with the same key and IV inverts it block by block.
#[verifier::external_body]
pub fn aes_encrypt(data: &[u8], key: &[u8], iv: &[u8]) -> (r: Result<Vec<u8>, DiscError>)
    requires
        key@.len() == 16,
        iv@.len() == 16,
        data@.len() % 16 == 0,
    ensures
        r is Ok,
        r matches Ok(v) ==> v@ == aes_cbc_enc(data@, key@, iv@) && v@.len() == data@.len()
            && aes_cbc_dec(v@, key@, iv@) == data@,
{
    let mut enc = crypto::aes::cbc_encryptor(
        crypto::aes::KeySize::KeySize128,
        key,
        iv,
        crypto::blockmodes::NoPadding,
    );
    let mut out = vec![0u8; data.len()];
    let mut rb = crypto::buffer::RefReadBuffer::new(data);
    let mut wb = crypto::buffer::RefWriteBuffer::new(out.as_mut_slice());
    match enc.encrypt(&mut rb, &mut wb, true) {
        Ok(_) => Ok(out),
        Err(_) => Err(DiscError::Internal),
    }
}

/// High-level, simple function to do an AES128 CBC decrypt.
///
/// Relies on `crypto::aes::cbc_decryptor` with `NoPadding`, under the same
/// conditions as `aes_encrypt`: one `decrypt` call consumes everything
/// without error and keeps the length.
#[verifier::external_body]
pub fn aes_decrypt(encrypted_data: &[u8], key: &[u8], iv: &[u8]) -> (r: Result<
    Vec<u8>,
    DiscError,
>)
    requires
        key@.len() == 16,
        iv@.len() == 16,
        encrypted_data@.len() % 16 == 0,
    ensures
        r is Ok,
        r matches Ok(v) ==> v@ == aes_cbc_dec(encrypted_data@, key@, iv@) && v@.len()
            == encrypted_data@.len(),
{
    let mut dec = crypto::aes::cbc_decryptor(
        crypto::aes::KeySize::KeySize128,
        key,
        iv,
        crypto::blockmodes::NoPadding,
    );
    let mut out = vec![0u8; encrypted_data.len()];
    let mut rb = crypto::buffer::RefReadBuffer::new(encrypted_data);
    let mut wb = crypto::buffer::RefWriteBuffer::new(out.as_mut_slice());
    match dec.decrypt(&mut rb, &mut wb, true) {
        Ok(_) => Ok(out),
        Err(_) => Err(DiscError::Internal),
    }
}

/// The fixed 16-byte AES key of the disc-key derivation.
pub open spec fn derivation_key() -> Seq<u8> {
    seq![
        0x38u8, 0x0b, 0xcf, 0x0b, 0x53, 0x45, 0x5b, 0x3c, 0x78, 0x17, 0xab, 0x4f, 0xa3, 0xba,
        0x90, 0xed,
    ]
}

/// The fixed 16-byte IV of the disc-key derivation.
pub open spec fn derivation_iv() -> Seq<u8> {
    seq![
        0x69u8, 0x47, 0x47, 0x72, 0xaf, 0x6f, 0xda, 0xb3, 0x42, 0x74, 0x3a, 0xef, 0xaa, 0x18,
        0x62, 0x87,
    ]
}

/// The disc key that a given 16-byte `d1` seed derives: a single-block
/// AES-128-CBC *encryption* of `d1` under the two fixed constants.
pub open spec fn derive_disc_key(d1: Seq<u8>) -> Seq<u8> {
    aes_cbc_enc(d1, derivation_key(), derivation_iv())
}

/// The derivation is a function of `d1` alone: equal seeds always derive
/// equal disc keys.
pub proof fn lemma_derive_deterministic(d1a: Seq<u8>, d1b: Seq<u8>)
    requires
        d1a == d1b,
    ensures
        derive_disc_key(d1a) == derive_disc_key(d1b),
{
}

fn push_derivation_constants(key: &mut Vec<u8>, iv: &mut Vec<u8>)
    requires
        old(key)@.len() == 0,
        old(iv)@.len() == 0,
    ensures
        final(key)@ == derivation_key(),
        final(iv)@ == derivation_iv(),
{
    key.push(0x38u8);
    key.push(0x0b);
    key.push(0xcf);
    key.push(0x0b);
    key.push(0x53);
    key.push(0x45);
    key.push(0x5b);
    key.push(0x3c);
    key.push(0x78);
    key.push(0x17);
    key.push(0xab);
    key.push(0x4f);
    key.push(0xa3);
    key.push(0xba);
    key.push(0x90);
    key.push(0xed);
    iv.push(0x69u8);
    iv.push(0x47);
    iv.push(0x47);
    iv.push(0x72);
    iv.push(0xaf);
    iv.push(0x6f);
    iv.push(0xda);
    iv.push(0xb3);
    iv.push(0x42);
    iv.push(0x74);
    iv.push(0x3a);
    iv.push(0xef);
    iv.push(0xaa);
    iv.push(0x18);
    iv.push(0x62);
    iv.push(0x87);
    proof {
        assert(key@ =~= derivation_key());
        assert(iv@ =~= derivation_iv());
    }
}

/// Calculate a disc encryption key, given the disc's `d1`.
pub fn disc_key(d1: &[u8]) -> (r: Result<Vec<u8>, DiscError>)
    requires
        d1@.len() == 16,
    ensures
        r is Ok,
        r matches Ok(v) ==> v@ == derive_disc_key(d1@) && v@.len() == 16,
{
    let mut key: Vec<u8> = Vec::new();
    let mut iv: Vec<u8> = Vec::new();
    push_derivation_constants(&mut key, &mut iv);
    aes_encrypt(d1, key.as_slice(), iv.as_slice())
}

} // verus!
