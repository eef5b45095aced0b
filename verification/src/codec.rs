//! The sector codec: what the plaintext of one 2048-byte sector is, given
//! its index, the region table, the disc key and the tagline flag.

use crate::decrypt::aes_cbc_dec;
use crate::sector::{spec_region_for, Region};
use vstd::prelude::*;

verus! {

/// The IV of a sector: all zero except the last four bytes, which hold the
/// sector index big-endian.
pub open spec fn iv_for_sector(sector: u32) -> Seq<u8> {
    seq![
        0u8,
        0u8,
        0u8,
        0u8,
        0u8,
        0u8,
        0u8,
        0u8,
        0u8,
        0u8,
        0u8,
        0u8,
        ((sector >> 24) & 0xff) as u8,
        ((sector >> 16) & 0xff) as u8,
        ((sector >> 8) & 0xff) as u8,
        (sector & 0xff) as u8,
    ]
}

/// Build the per-sector IV.
pub fn sector_iv(sector: u32) -> (r: Vec<u8>)
    ensures
        r@ == iv_for_sector(sector),
        r@.len() == 16,
{
    let mut iv: Vec<u8> = Vec::new();
    let mut i: usize = 0;
    while i < 12
        invariant
            iv@.len() == i,
            i <= 12,
            forall|k: int| 0 <= k < i ==> iv@[k] == 0u8,
        decreases 12 - i,
    {
        iv.push(0u8);
        i = i + 1;
    }
    iv.push(((sector >> 24) & 0xff) as u8);
    iv.push(((sector >> 16) & 0xff) as u8);
    iv.push(((sector >> 8) & 0xff) as u8);
    iv.push((sector & 0xff) as u8);
    proof {
        assert(iv@ =~= iv_for_sector(sector));
    }
    iv
}

/// The tagline patch: the two bytes at offset 1904 become ASCII `De` (68,
/// 101), so a marker that read `Encrypted ...` reads `Decrypted ...`.
pub open spec fn tagline_patch(buf: Seq<u8>) -> Seq<u8> {
    buf.update(1904, 68u8).update(1905, 101u8)
}

/// The plaintext of one sector. In an encrypted region the 2048-byte block
/// is AES-128-CBC-decrypted under the disc key and the per-sector IV; in an
/// unencrypted region it passes through unchanged, except that sector 1 of a
/// disc with a tagline gets the tagline patch.
pub open spec fn decrypt_sector_spec(
    buf: Seq<u8>,
    sector: u32,
    regions: Seq<Region>,
    key: Seq<u8>,
    has_tagline: bool,
) -> Seq<u8> {
    match spec_region_for(regions, sector) {
        Some(reg) => if reg.encrypted {
            aes_cbc_dec(buf, key, iv_for_sector(sector))
        } else if sector == 1 && has_tagline {
            tagline_patch(buf)
        } else {
            buf
        },
        None => buf,
    }
}

/// Applying the tagline patch twice is a no-op beyond the first application.
pub proof fn lemma_tagline_patch_idempotent(buf: Seq<u8>)
    requires
        buf.len() == 2048,
    ensures
        tagline_patch(tagline_patch(buf)) == tagline_patch(buf),
{
    assert(tagline_patch(tagline_patch(buf)) =~= tagline_patch(buf));
}

/// The tagline patch changes only the two bytes at offset 1904.
pub proof fn lemma_tagline_patch_touches_two_bytes(buf: Seq<u8>)
    requires
        buf.len() == 2048,
    ensures
        tagline_patch(buf).len() == 2048,
        forall|i: int| 0 <= i < 2048 && i != 1904 && i != 1905 ==> tagline_patch(buf)[i] == buf[i],
        tagline_patch(buf)[1904] == 68u8,
        tagline_patch(buf)[1905] == 101u8,
{
}

/// On a sector of an unencrypted region the codec applies the tagline patch
/// exactly when the sector index is 1 and the disc has a tagline; for every
/// other combination the block passes through unchanged.
pub proof fn lemma_tagline_patch_applies_iff(
    buf: Seq<u8>,
    sector: u32,
    regions: Seq<Region>,
    key: Seq<u8>,
    has_tagline: bool,
)
    requires
        spec_region_for(regions, sector) matches Some(reg) && !reg.encrypted,
    ensures
        decrypt_sector_spec(buf, sector, regions, key, has_tagline) == if sector == 1
            && has_tagline {
            tagline_patch(buf)
        } else {
            buf
        },
{
}

} // verus!
