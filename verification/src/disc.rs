//! The disc container: parsing the fixed 4096-byte header into a region
//! table, game id, tagline and keys; key imports; and the standalone
//! per-sector decryptor snapshot.

use crate::codec::{decrypt_sector_spec, iv_for_sector, sector_iv, tagline_patch};
use crate::decrypt::{aes_cbc_enc, aes_decrypt, aes_encrypt, derive_disc_key, disc_key};
use crate::error::DiscError;
use crate::sector::{spec_region_for, wf_regions, Region, VecRegion};
use crate::text::{trim_trailing, trim_trailing_spaces, utf8_lossy, utf8_lossy_of};
use vstd::prelude::*;

verus! {

/// The big-endian u32 that four bytes represent.
pub open spec fn be_u32_spec(b: Seq<u8>) -> u32 {
    (b[0] * 0x1000000 + b[1] * 0x10000 + b[2] * 0x100 + b[3]) as u32
}

/// Given a four-element `&[u8]`, calculate the big-endian u32 that they
/// represent.
pub fn be_u32(i: &[u8]) -> (r: u32)
    requires
        i@.len() == 4,
    ensures
        r == be_u32_spec(i@),
{
    (i[0] as u32) * 0x1000000 + (i[1] as u32) * 0x10000 + (i[2] as u32) * 0x100 + (i[3] as u32)
}

/// The fixed 12-byte magic value at header offset 2048: ASCII
/// `PlayStation3`.
pub open spec fn magic_bytes() -> Seq<u8> {
    seq![80u8, 108, 97, 121, 83, 116, 97, 116, 105, 111, 110, 51]
}

/// The big-endian region count R at header offset 0.
pub open spec fn spec_region_count(h: Seq<u8>) -> u32 {
    be_u32_spec(h.subrange(0, 4))
}

/// Total number of regions: 2R - 1.
pub open spec fn spec_num_regions(h: Seq<u8>) -> int {
    2 * spec_region_count(h) - 1
}

/// Boundary marker `k` of the region table. Marker 0 sits at offset 8;
/// markers 1 and up follow from offset 12.
pub open spec fn spec_boundary(h: Seq<u8>, k: int) -> u32 {
    if k == 0 {
        be_u32_spec(h.subrange(8, 12))
    } else {
        be_u32_spec(h.subrange(12 + 4 * (k - 1), 12 + 4 * (k - 1) + 4))
    }
}

/// Markers must not decrease, and the markers around an encrypted region
/// must leave room for at least one sector after the +1/-1 adjustment.
pub open spec fn spec_boundary_step_ok(h: Seq<u8>, k: int) -> bool {
    spec_boundary(h, k) >= spec_boundary(h, k - 1) + (if (k - 1) % 2 == 0 {
        0int
    } else {
        2int
    })
}

/// A structurally valid header: magic present, a usable region count whose
/// markers all fit inside the 4096-byte header, marker 0 at sector 0,
/// markers spaced so that every region is non-empty, and a last marker that
/// leaves `total_sectors` representable.
pub open spec fn spec_header_valid(h: Seq<u8>) -> bool {
    &&& h.subrange(2048, 2060) == magic_bytes()
    &&& 1 <= spec_region_count(h) <= 511
    &&& spec_boundary(h, 0) == 0
    &&& (forall|k: int| 1 <= k <= spec_num_regions(h) ==> #[trigger] spec_boundary_step_ok(h, k))
    &&& spec_boundary(h, spec_num_regions(h)) < 0xffffffffu32
}

/// Region `k` of a valid header. Markers delimit unencrypted stretches, so
/// the bounds of the encrypted regions in between need a +1/-1 adjustment.
pub open spec fn spec_region(h: Seq<u8>, k: int) -> Region {
    Region {
        id: k as u32,
        start: if k % 2 == 0 {
            spec_boundary(h, k)
        } else {
            (spec_boundary(h, k) + 1) as u32
        },
        end: if k % 2 == 0 {
            spec_boundary(h, k + 1)
        } else {
            (spec_boundary(h, k + 1) - 1) as u32
        },
        encrypted: k % 2 == 1,
    }
}

/// The full region table of a valid header.
pub open spec fn spec_regions(h: Seq<u8>) -> Seq<Region> {
    Seq::new(spec_num_regions(h) as nat, |k: int| spec_region(h, k))
}

/// One past the last sector: last boundary marker plus one.
pub open spec fn spec_total_sectors(h: Seq<u8>) -> u32 {
    (spec_boundary(h, spec_num_regions(h)) + 1) as u32
}

/// The 20-byte game-id field at offset 2064.
pub open spec fn spec_gameid_field(h: Seq<u8>) -> Seq<u8> {
    h.subrange(2064, 2084)
}

/// The 16-byte tagline field at offset 0xF70; all-zero means absent.
pub open spec fn spec_tagline_field(h: Seq<u8>) -> Seq<u8> {
    h.subrange(0xf70, 0xf80)
}

/// The 16-byte d1 candidate at offset 3968; all-zero means absent.
pub open spec fn spec_d1_field(h: Seq<u8>) -> Seq<u8> {
    h.subrange(3968, 3984)
}

/// Whether every byte of `b` is zero.
pub open spec fn all_zero(b: Seq<u8>) -> bool {
    forall|i: int| 0 <= i < b.len() ==> b[i] == 0u8
}

fn is_all_zero(b: &[u8]) -> (r: bool)
    ensures
        r == all_zero(b@),
{
    let n = b.len();
    for i in 0..n
        invariant
            n == b@.len(),
            forall|k: int| 0 <= k < i ==> b@[k] == 0u8,
    {
        if b[i] != 0 {
            return false;
        }
    }
    true
}

/// A valid header yields a well-formed region table.
pub proof fn lemma_header_wf(h: Seq<u8>)
    requires
        spec_header_valid(h),
    ensures
        wf_regions(spec_regions(h), spec_total_sectors(h)),
{
    let regions = spec_regions(h);
    let n = spec_num_regions(h);
    assert(n % 2 == 1);
    assert forall|j: int| 0 <= j < n implies (#[trigger] regions[j].start) <= regions[j].end by {
        assert(spec_boundary_step_ok(h, j + 1));
    }
    assert forall|j: int| 1 <= j < n implies (#[trigger] regions[j].start) == regions[j - 1].end
        + 1 by {
        assert(spec_boundary_step_ok(h, j));
        assert(spec_boundary_step_ok(h, j + 1));
    }
    assert((n - 1) % 2 == 0);
    assert(regions[n - 1].end == spec_boundary(h, n));
}

/// Wrapped PS3 disc: the parsed header facts and the current keys. Reading
/// the disc's bytes happens outside the library; sectors are decrypted with
/// the standalone decryptor that `get_decryptor` snapshots.
#[derive(Debug)]
pub struct PS3Disc {
    /// Encrypted and unencrypted areas of the disc, specified by sectors.
    pub regions: Vec<Region>,
    /// Total number of sectors on the disc.
    pub total_sectors: u32,
    /// The disc's d1 key, if present. This is used to generate the disc key.
    pub d1: Option<Vec<u8>>,
    /// 128-bit AES key used to decrypt the sectors, along with a per-sector
    /// IV.
    pub disc_key: Option<Vec<u8>>,
    /// PlayStation game ID, e.g. BCUS-12345.
    pub gameid: String,
    /// 3k3y tagline, which may or may not be present.
    pub tagline_3k3y: Option<String>,
}

/// Standalone struct to decrypt PS3 disc sectors.
///
/// This is an immutable snapshot: it needs only a sector's ciphertext and
/// index, so it can be duplicated freely across decrypt workers.
#[derive(Debug, Clone)]
pub struct PS3DiscDecryptor {
    /// Disc's regions.
    pub regions: Vec<Region>,
    /// Disc key.
    pub disc_key: Vec<u8>,
    /// Whether the 3k3y tagline needs to be patched or not.
    pub has_3k3y_tagline: bool,
}

impl PS3DiscDecryptor {
    /// One past the last sector of the region table.
    pub open spec fn total_sectors_spec(self) -> int {
        self.regions@.last().end + 1
    }

    /// A usable decryptor: well-formed regions and a 16-byte key.
    pub open spec fn wf(self) -> bool {
        &&& self.regions@.len() >= 1
        &&& self.regions@.last().end < 0xffffffffu32
        &&& wf_regions(self.regions@, (self.regions@.last().end + 1) as u32)
        &&& self.disc_key@.len() == 16
    }

    /// Standalone sector decryption function.
    ///
    /// Returns exactly the sector codec's output: AES-CBC decryption under
    /// the per-sector IV in encrypted regions, passthrough (with the tagline
    /// patch on sector 1 of tagline discs) in unencrypted ones.
    pub fn decrypt_sector(&self, buf: &[u8], sector: u32) -> (r: Result<Vec<u8>, DiscError>)
        requires
            self.wf(),
        ensures
            (r is Ok) <==> (buf@.len() == 2048 && spec_region_for(self.regions@, sector) is Some),
            buf@.len() != 2048 ==> r == Err::<Vec<u8>, DiscError>(DiscError::Validation),
            buf@.len() == 2048 && spec_region_for(self.regions@, sector) is None ==> r == Err::<
                Vec<u8>,
                DiscError,
            >(DiscError::Internal),
            r matches Ok(v) ==> v@ == decrypt_sector_spec(
                buf@,
                sector,
                self.regions@,
                self.disc_key@,
                self.has_3k3y_tagline,
            ) && v@.len() == 2048,
    {
        if buf.len() != 2048 {
            return Err(DiscError::Validation);
        }
        match self.regions.region_for_sector(sector) {
            None => Err(DiscError::Internal),
            Some(reg) => {
                if reg.encrypted {
                    let iv = sector_iv(sector);
                    aes_decrypt(buf, self.disc_key.as_slice(), iv.as_slice())
                } else {
                    let mut v = vstd::slice::slice_to_vec(buf);
                    if sector == 1 && self.has_3k3y_tagline {
                        v[1904] = 68u8;
                        v[1905] = 101u8;
                        proof {
                            assert(v@ =~= tagline_patch(buf@));
                        }
                    }
                    Ok(v)
                }
            },
        }
    }

    /// Build the ciphertext whose codec output is `plain`: the inverse
    /// fixture of `decrypt_sector`.
    ///
    /// Law (codec round trip): AES-CBC-encrypting a 2048-byte block with the
    /// disc key and the per-sector IV and then decoding it with the sector
    /// codec reproduces the block; in unencrypted regions the codec is pure
    /// passthrough, except that sector 1 of a tagline disc decodes to the
    /// tagline-patched block.
    pub fn encrypt_sector(&self, plain: &[u8], sector: u32) -> (r: Result<Vec<u8>, DiscError>)
        requires
            self.wf(),
        ensures
            (r is Ok) <==> (plain@.len() == 2048 && spec_region_for(self.regions@, sector)
                is Some),
            r matches Ok(v) ==> {
                &&& v@.len() == 2048
                &&& spec_region_for(self.regions@, sector) matches Some(reg)
                &&& (reg.encrypted ==> v@ == aes_cbc_enc(
                    plain@,
                    self.disc_key@,
                    iv_for_sector(sector),
                ))
                &&& (!reg.encrypted ==> v@ == plain@)
                &&& decrypt_sector_spec(
                    v@,
                    sector,
                    self.regions@,
                    self.disc_key@,
                    self.has_3k3y_tagline,
                ) == (if !reg.encrypted && sector == 1 && self.has_3k3y_tagline {
                    tagline_patch(plain@)
                } else {
                    plain@
                })
            },
    {
        if plain.len() != 2048 {
            return Err(DiscError::Validation);
        }
        match self.regions.region_for_sector(sector) {
            None => Err(DiscError::Internal),
            Some(reg) => {
                if reg.encrypted {
                    let iv = sector_iv(sector);
                    aes_encrypt(plain, self.disc_key.as_slice(), iv.as_slice())
                } else {
                    Ok(vstd::slice::slice_to_vec(plain))
                }
            },
        }
    }
}

/// The fields of `b` are those of `a` with the d1 seed set to `d1` and the
/// disc key derived from it.
pub open spec fn keys_set_from_d1(a: PS3Disc, b: PS3Disc, d1: Seq<u8>) -> bool {
    &&& b.regions == a.regions
    &&& b.total_sectors == a.total_sectors
    &&& b.gameid == a.gameid
    &&& b.tagline_3k3y == a.tagline_3k3y
    &&& b.d1 matches Some(v) && v@ == d1
    &&& b.disc_key matches Some(k) && k@ == derive_disc_key(d1)
}

/// The fields of `b` are those of `a` with the disc key set directly to
/// `key`, leaving d1 untouched.
pub open spec fn key_set_directly(a: PS3Disc, b: PS3Disc, key: Seq<u8>) -> bool {
    &&& b.regions == a.regions
    &&& b.total_sectors == a.total_sectors
    &&& b.gameid == a.gameid
    &&& b.tagline_3k3y == a.tagline_3k3y
    &&& b.d1 == a.d1
    &&& b.disc_key matches Some(k) && k@ == key
}

impl PS3Disc {
    /// A well-formed container: a well-formed region table and 16-byte keys
    /// where present.
    pub open spec fn wf(self) -> bool {
        &&& wf_regions(self.regions@, self.total_sectors)
        &&& (self.d1 matches Some(v) ==> v@.len() == 16)
        &&& (self.disc_key matches Some(k) ==> k@.len() == 16)
    }

    /// Create a new PS3Disc from the first 4096 header bytes of the image.
    ///
    /// Fails with `Io` on fewer than 4096 bytes and with `Format` on a bad
    /// magic value or an inconsistent region table; it never panics,
    /// whatever the header holds. On success every field is exactly what the
    /// header layout prescribes, and an all-zero d1 field leaves both keys
    /// unset.
    pub fn new(header: &[u8]) -> (r: Result<PS3Disc, DiscError>)
        ensures
            (r is Ok) <==> (header@.len() >= 4096 && spec_header_valid(header@)),
            header@.len() < 4096 ==> r == Err::<PS3Disc, DiscError>(DiscError::Io),
            header@.len() >= 4096 && !spec_header_valid(header@) ==> r == Err::<
                PS3Disc,
                DiscError,
            >(DiscError::Format),
            r matches Ok(d) ==> {
                &&& d.wf()
                &&& d.regions@ == spec_regions(header@)
                &&& d.total_sectors == spec_total_sectors(header@)
                &&& d.gameid@ == utf8_lossy_of(trim_trailing_spaces(spec_gameid_field(header@)))
                &&& (all_zero(spec_tagline_field(header@)) ==> d.tagline_3k3y is None)
                &&& (!all_zero(spec_tagline_field(header@)) ==> (d.tagline_3k3y matches Some(t)
                    && t@ == utf8_lossy_of(spec_tagline_field(header@))))
                &&& (all_zero(spec_d1_field(header@)) ==> d.d1 is None && d.disc_key is None)
                &&& (!all_zero(spec_d1_field(header@)) ==> (d.d1 matches Some(v) && v@
                    == spec_d1_field(header@)) && (d.disc_key matches Some(k) && k@
                    == derive_disc_key(spec_d1_field(header@))))
            },
    {
        if header.len() < 4096 {
            return Err(DiscError::Io);
        }
        // Check for the magic value, and bail if it's not present.
        let magic: [u8; 12] = [80u8, 108, 97, 121, 83, 116, 97, 116, 105, 111, 110, 51];
        for i in 0..12usize
            invariant
                header@.len() >= 4096,
                magic@ == magic_bytes(),
                forall|k: int| 0 <= k < i ==> header@[2048 + k] == magic_bytes()[k],
        {
            if header[2048 + i] != magic[i] {
                proof {
                    assert(header@.subrange(2048, 2060)[i as int] != magic_bytes()[i as int]);
                }
                return Err(DiscError::Format);
            }
        }
        proof {
            assert(header@.subrange(2048, 2060) =~= magic_bytes());
        }
        // Number of unencrypted regions according to the disc; total regions
        // is one less than twice that.
        let region_count = be_u32(vstd::slice::slice_subrange(header, 0, 4));
        if region_count == 0 || region_count > 511 {
            return Err(DiscError::Format);
        }
        let num_regions = 2 * region_count - 1;
        // Marker 0 must place the first region at sector 0.
        let first_marker = be_u32(vstd::slice::slice_subrange(header, 8, 12));
        if first_marker != 0 {
            return Err(DiscError::Format);
        }
        let mut regions: Vec<Region> = Vec::new();
        let mut prev: u32 = first_marker;
        let mut k: u32 = 0;
        while k < num_regions
            invariant
                header@.len() >= 4096,
                1 <= region_count <= 511,
                num_regions == 2 * region_count - 1,
                num_regions == spec_num_regions(header@),
                k <= num_regions,
                prev == spec_boundary(header@, k as int),
                regions@.len() == k,
                forall|j: int| 0 <= j < k ==> (#[trigger] regions@[j]) == spec_region(header@, j),
                forall|j: int| 1 <= j <= k ==> #[trigger] spec_boundary_step_ok(header@, j),
            decreases num_regions - k,
        {
            let off: usize = 12 + 4 * (k as usize);
            let marker = be_u32(vstd::slice::slice_subrange(header, off, off + 4));
            proof {
                assert(header@.subrange(off as int, off as int + 4) =~= header@.subrange(
                    12 + 4 * (k as int + 1 - 1),
                    12 + 4 * (k as int + 1 - 1) + 4,
                ));
                assert(marker == spec_boundary(header@, k as int + 1));
            }
            if k % 2 == 0 {
                if marker < prev {
                    proof {
                        assert(!spec_boundary_step_ok(header@, k as int + 1));
                    }
                    return Err(DiscError::Format);
                }
            } else {
                if marker < prev || marker - prev < 2 {
                    proof {
                        assert(!spec_boundary_step_ok(header@, k as int + 1));
                    }
                    return Err(DiscError::Format);
                }
            }
            proof {
                assert(spec_boundary_step_ok(header@, k as int + 1));
            }
            regions.push(
                Region {
                    id: k,
                    start: if k % 2 == 0 {
                        prev
                    } else {
                        prev + 1
                    },
                    end: if k % 2 == 0 {
                        marker
                    } else {
                        marker - 1
                    },
                    encrypted: k % 2 == 1,
                },
            );
            proof {
                assert(regions@[k as int] == spec_region(header@, k as int));
            }
            prev = marker;
            k = k + 1;
        }
        if prev == 0xffffffffu32 {
            return Err(DiscError::Format);
        }
        let total_sectors = prev + 1;
        proof {
            assert(spec_header_valid(header@));
            lemma_header_wf(header@);
            assert(regions@ =~= spec_regions(header@));
        }
        // Game ID, without its space padding.
        let gameid_bytes = trim_trailing(vstd::slice::slice_subrange(header, 2064, 2084));
        let gameid = utf8_lossy(gameid_bytes.as_slice());
        // The 3k3y tagline, if it exists.
        let tagline_field = vstd::slice::slice_subrange(header, 0xf70, 0xf80);
        let tagline_3k3y = if is_all_zero(tagline_field) {
            None
        } else {
            Some(utf8_lossy(tagline_field))
        };
        // The d1 seed, if present, and the disc key derived from it.
        let d1_field = vstd::slice::slice_subrange(header, 3968, 3984);
        let (d1, disc_key_v) = if is_all_zero(d1_field) {
            (None, None)
        } else {
            match disc_key(d1_field) {
                Ok(dk) => (Some(vstd::slice::slice_to_vec(d1_field)), Some(dk)),
                Err(_) => {
                    return Err(DiscError::Internal);
                },
            }
        };
        Ok(
            PS3Disc {
                regions,
                total_sectors,
                d1,
                disc_key: disc_key_v,
                gameid,
                tagline_3k3y,
            },
        )
    }

    /// Whether decryption is possible: exactly when a disc key is present.
    pub fn can_decrypt(&self) -> (r: bool)
        ensures
            r == (self.disc_key is Some),
    {
        self.disc_key.is_some()
    }

    /// Returns a standalone struct that can be used to decrypt individual
    /// sectors; it does not observe later key changes to the container.
    /// Fails with `KeyRequired` exactly when no disc key is set.
    pub fn get_decryptor(&self) -> (r: Result<PS3DiscDecryptor, DiscError>)
        ensures
            (r is Ok) <==> (self.disc_key is Some),
            self.disc_key is None ==> r == Err::<PS3DiscDecryptor, DiscError>(
                DiscError::KeyRequired,
            ),
            r matches Ok(dec) ==> {
                &&& dec.regions@ == self.regions@
                &&& self.disc_key matches Some(k) && dec.disc_key@ == k@
                &&& dec.has_3k3y_tagline == (self.tagline_3k3y is Some)
                &&& (self.wf() ==> dec.wf())
            },
    {
        match &self.disc_key {
            None => Err(DiscError::KeyRequired),
            Some(key) => Ok(
                PS3DiscDecryptor {
                    regions: vstd::slice::slice_to_vec(self.regions.as_slice()),
                    disc_key: vstd::slice::slice_to_vec(key.as_slice()),
                    has_3k3y_tagline: self.tagline_3k3y.is_some(),
                },
            ),
        }
    }

    /// Safely set the d1 decryption key, used to compute the disc key.
    ///
    /// Validates the length, then computes and stores the disc key; any
    /// prior keys are overwritten.
    pub fn set_d1(&mut self, d1: &[u8]) -> (r: Result<(), DiscError>)
        ensures
            (r is Ok) <==> d1@.len() == 16,
            d1@.len() != 16 ==> r == Err::<(), DiscError>(DiscError::Validation) && *final(self)
                == *old(self),
            d1@.len() == 16 ==> keys_set_from_d1(*old(self), *final(self), d1@),
    {
        if d1.len() != 16 {
            return Err(DiscError::Validation);
        }
        match disc_key(d1) {
            Ok(dk) => {
                self.d1 = Some(vstd::slice::slice_to_vec(d1));
                self.disc_key = Some(dk);
                Ok(())
            },
            Err(_) => Err(DiscError::Internal),
        }
    }

    /// Safely set the disc decryption key directly (this is *not* the d1
    /// seed used to compute the disc key); d1 is left untouched.
    pub fn set_disc_key(&mut self, disc_key: &[u8]) -> (r: Result<(), DiscError>)
        ensures
            (r is Ok) <==> disc_key@.len() == 16,
            disc_key@.len() != 16 ==> r == Err::<(), DiscError>(DiscError::Validation)
                && *final(self) == *old(self),
            disc_key@.len() == 16 ==> key_set_directly(*old(self), *final(self), disc_key@),
    {
        if disc_key.len() != 16 {
            return Err(DiscError::Validation);
        }
        self.disc_key = Some(vstd::slice::slice_to_vec(disc_key));
        Ok(())
    }

    /// Apply supplied key material by precedence: an explicit disc key wins
    /// over an explicit d1, which wins over a sidecar-file d1; with nothing
    /// supplied, nothing changes. Returns whether anything was applied.
    pub fn import_key(
        &mut self,
        disc_key: Option<&Vec<u8>>,
        d1: Option<&Vec<u8>>,
        sidecar_d1: Option<&Vec<u8>>,
    ) -> (r: Result<bool, DiscError>)
        ensures
            match disc_key {
                Some(k) => (k@.len() == 16 ==> r == Ok::<bool, DiscError>(true) && key_set_directly(
                    *old(self),
                    *final(self),
                    k@,
                )) && (k@.len() != 16 ==> r == Err::<bool, DiscError>(DiscError::Validation)
                    && *final(self) == *old(self)),
                None => match (d1, sidecar_d1) {
                    (Some(d), _) | (None, Some(d)) => (d@.len() == 16 ==> r == Ok::<
                        bool,
                        DiscError,
                    >(true) && keys_set_from_d1(*old(self), *final(self), d@)) && (d@.len() != 16
                        ==> r == Err::<bool, DiscError>(DiscError::Validation) && *final(self)
                        == *old(self)),
                    (None, None) => r == Ok::<bool, DiscError>(false) && *final(self) == *old(
                        self,
                    ),
                },
            },
    {
        match disc_key {
            Some(k) => {
                match self.set_disc_key(k.as_slice()) {
                    Ok(_) => Ok(true),
                    Err(e) => Err(e),
                }
            },
            None => {
                let seed = match (d1, sidecar_d1) {
                    (Some(d), _) => d,
                    (None, Some(d)) => d,
                    (None, None) => {
                        return Ok(false);
                    },
                };
                match self.set_d1(seed.as_slice()) {
                    Ok(_) => Ok(true),
                    Err(e) => Err(e),
                }
            },
        }
    }
}

} // verus!
