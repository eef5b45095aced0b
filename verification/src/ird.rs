//! The IRD sidecar key file: a gzip-compressed binary record that supplies
//! the disc's d1 seed (`data1`) and metadata. Decompression is delegated to
//! `flate2`; the record itself is parsed here, byte by byte.

use crate::error::DiscError;
use crate::text::{utf8_lossy, utf8_lossy_of};
use vstd::prelude::*;

verus! {

/// The little-endian u32 that four bytes represent.
pub open spec fn le_u32_spec(b: Seq<u8>) -> u32 {
    (b[0] + b[1] * 0x100 + b[2] * 0x10000 + b[3] * 0x1000000) as u32
}

/// Given a four-element `&[u8]`, calculate the little-endian u32 that they
/// represent.
fn le_u32(i: &[u8]) -> (r: u32)
    requires
        i@.len() == 4,
    ensures
        r == le_u32_spec(i@),
{
    (i[0] as u32) + (i[1] as u32) * 0x100 + (i[2] as u32) * 0x10000 + (i[3] as u32) * 0x1000000
}

/// The little-endian u32 at offset `p`.
pub open spec fn le32_at(b: Seq<u8>, p: int) -> u32 {
    le_u32_spec(b.subrange(p, p + 4))
}

/// The 4-byte tag that opens every IRD file: ASCII `3IRD`.
pub open spec fn ird_tag() -> Seq<u8> {
    seq![51u8, 73, 82, 68]
}

/// The fields of an IRD record, as the byte ranges of the decompressed file
/// they are read from.
pub struct IrdSpec {
    /// Format version byte.
    pub version: u8,
    /// 9 bytes of game id.
    pub game_id: Seq<u8>,
    /// Length-prefixed game name.
    pub game_name: Seq<u8>,
    /// 4 bytes of update version.
    pub update_ver: Seq<u8>,
    /// 5 bytes of game version.
    pub game_ver: Seq<u8>,
    /// 5 bytes of app version.
    pub app_ver: Seq<u8>,
    /// Length-prefixed compressed disc header.
    pub header_comp: Seq<u8>,
    /// Length-prefixed compressed disc footer.
    pub footer_comp: Seq<u8>,
    /// Count-prefixed 16-byte region hashes.
    pub region_hashes: Seq<Seq<u8>>,
    /// 0x73 bytes of PIC data.
    pub pic_data: Seq<u8>,
    /// 16-byte data1: the disc's d1 seed.
    pub data1: Seq<u8>,
    /// 16-byte data2.
    pub data2: Seq<u8>,
    /// Little-endian unique identifier.
    pub unique_identifier: u32,
    /// 4-byte checksum field.
    pub crc32: Seq<u8>,
}

/// Parse of a decompressed IRD record: `None` exactly when the bytes do not
/// carry the tag or are too short for the lengths and counts they declare.
/// Fields between the ones kept (the file hash list and two spare bytes) are
/// skipped but still bounds-checked.
pub open spec fn parse_ird_spec(b: Seq<u8>) -> Option<IrdSpec> {
    if b.len() < 15 {
        None
    } else if b.subrange(0, 4) != ird_tag() {
        None
    } else {
        let namelen = b[14] as int;
        let p1 = 15 + namelen;  // version strings
        let p2 = p1 + 14;  // header length field
        if b.len() < p2 + 4 {
            None
        } else {
            let hl = le32_at(b, p2) as int;
            let p3 = p2 + 4 + hl;  // footer length field
            if b.len() < p3 + 4 {
                None
            } else {
                let fl = le32_at(b, p3) as int;
                let p4 = p3 + 4 + fl;  // region hash count
                if b.len() < p4 + 1 {
                    None
                } else {
                    let hc = b[p4] as int;
                    let p5 = p4 + 1 + 16 * hc;  // file hash count
                    if b.len() < p5 + 4 {
                        None
                    } else {
                        let fc = le32_at(b, p5) as int;
                        let p6 = p5 + 4 + 24 * fc;  // two spare fields
                        let p7 = p6 + 4 + 0x73;  // data1
                        if b.len() < p7 + 40 {
                            None
                        } else {
                            Some(
                                IrdSpec {
                                    version: b[4],
                                    game_id: b.subrange(5, 14),
                                    game_name: b.subrange(15, p1),
                                    update_ver: b.subrange(p1, p1 + 4),
                                    game_ver: b.subrange(p1 + 4, p1 + 9),
                                    app_ver: b.subrange(p1 + 9, p1 + 14),
                                    header_comp: b.subrange(p2 + 4, p2 + 4 + hl),
                                    footer_comp: b.subrange(p3 + 4, p3 + 4 + fl),
                                    region_hashes: Seq::new(
                                        hc as nat,
                                        |i: int| b.subrange(p4 + 1 + 16 * i, p4 + 1 + 16 * i + 16),
                                    ),
                                    pic_data: b.subrange(p6 + 4, p6 + 4 + 0x73),
                                    data1: b.subrange(p7, p7 + 16),
                                    data2: b.subrange(p7 + 16, p7 + 32),
                                    unique_identifier: le32_at(b, p7 + 32),
                                    crc32: b.subrange(p7 + 36, p7 + 40),
                                },
                            )
                        }
                    }
                }
            }
        }
    }
}

/// A parsed IRD sidecar key file.
#[derive(Debug, Clone)]
pub struct IRDFile {
    /// Format version byte.
    pub version: u8,
    /// Game id, e.g. BCUS12345.
    pub game_id: String,
    /// Game name.
    pub game_name: String,
    /// Update version.
    pub update_ver: String,
    /// Game version.
    pub game_ver: String,
    /// App version.
    pub app_ver: String,
    /// Compressed disc header.
    pub header_comp: Vec<u8>,
    /// Compressed disc footer.
    pub footer_comp: Vec<u8>,
    /// 16-byte MD5 hashes, one per region.
    pub region_hashes: Vec<Vec<u8>>,
    /// PIC data.
    pub pic_data: Vec<u8>,
    /// data1: the disc's d1 seed, input to the disc-key derivation.
    pub data1: Vec<u8>,
    /// data2.
    pub data2: Vec<u8>,
    /// Unique identifier.
    pub unique_identifier: u32,
    /// Checksum field.
    pub crc32: Vec<u8>,
}

impl IRDFile {
    /// The file carries exactly the fields of `s`, its texts decoded as
    /// lossy UTF-8.
    pub open spec fn matches_spec(self, s: IrdSpec) -> bool {
        &&& self.version == s.version
        &&& self.game_id@ == utf8_lossy_of(s.game_id)
        &&& self.game_name@ == utf8_lossy_of(s.game_name)
        &&& self.update_ver@ == utf8_lossy_of(s.update_ver)
        &&& self.game_ver@ == utf8_lossy_of(s.game_ver)
        &&& self.app_ver@ == utf8_lossy_of(s.app_ver)
        &&& self.header_comp@ == s.header_comp
        &&& self.footer_comp@ == s.footer_comp
        &&& self.region_hashes@.len() == s.region_hashes.len()
        &&& (forall|i: int|
            0 <= i < s.region_hashes.len() ==> (#[trigger] self.region_hashes@[i])@
                == s.region_hashes[i])
        &&& self.pic_data@ == s.pic_data
        &&& self.data1@ == s.data1
        &&& self.data2@ == s.data2
        &&& self.unique_identifier == s.unique_identifier
        &&& self.crc32@ == s.crc32
    }
}

/// Parse a decompressed IRD record. Returns `Format` exactly when the bytes
/// are not a structurally complete record.
pub fn parse_ird(b: &[u8]) -> (r: Result<IRDFile, DiscError>)
    ensures
        (r is Ok) <==> parse_ird_spec(b@) is Some,
        r matches Err(e) ==> e == DiscError::Format && parse_ird_spec(b@) is None,
        r matches Ok(f) ==> (parse_ird_spec(b@) matches Some(s) && f.matches_spec(s)),
{
    let blen = b.len();
    if blen < 15 {
        return Err(DiscError::Format);
    }
    if b[0] != 51 || b[1] != 73 || b[2] != 82 || b[3] != 68 {
        proof {
            assert(b@.subrange(0, 4) != ird_tag());
        }
        return Err(DiscError::Format);
    }
    proof {
        assert(b@.subrange(0, 4) =~= ird_tag());
    }
    let version = b[4];
    let namelen = b[14] as usize;
    let p1 = 15 + namelen;
    let p2 = p1 + 14;
    if (blen as u64) < p2 as u64 + 4 {
        return Err(DiscError::Format);
    }
    let hl = le_u32(vstd::slice::slice_subrange(b, p2, p2 + 4));
    if (blen as u64) < p2 as u64 + 8 + hl as u64 {
        return Err(DiscError::Format);
    }
    let p3 = p2 + 4 + (hl as usize);
    let fl = le_u32(vstd::slice::slice_subrange(b, p3, p3 + 4));
    if (blen as u64) < p3 as u64 + 5 + fl as u64 {
        return Err(DiscError::Format);
    }
    let p4 = p3 + 4 + (fl as usize);
    let hc = b[p4] as usize;
    if (blen as u64) < p4 as u64 + 5 + 16 * (hc as u64) {
        return Err(DiscError::Format);
    }
    let p5 = p4 + 1 + 16 * hc;
    let fc = le_u32(vstd::slice::slice_subrange(b, p5, p5 + 4));
    if (blen as u64) < p5 as u64 + 4 + 24 * (fc as u64) + 4 + 0x73 + 40 {
        return Err(DiscError::Format);
    }
    let p6 = p5 + 4 + 24 * (fc as usize);
    let p7 = p6 + 4 + 0x73;
    let mut region_hashes: Vec<Vec<u8>> = Vec::new();
    let mut i: usize = 0;
    while i < hc
        invariant
            i <= hc,
            p4 + 1 + 16 * hc <= blen,
            blen == b@.len(),
            region_hashes@.len() == i,
            forall|k: int|
                0 <= k < i ==> (#[trigger] region_hashes@[k])@ == b@.subrange(
                    p4 + 1 + 16 * k,
                    p4 + 1 + 16 * k + 16,
                ),
        decreases hc - i,
    {
        let start = p4 + 1 + 16 * i;
        region_hashes.push(
            vstd::slice::slice_to_vec(vstd::slice::slice_subrange(b, start, start + 16)),
        );
        i = i + 1;
    }
    let file = IRDFile {
        version,
        game_id: utf8_lossy(vstd::slice::slice_subrange(b, 5, 14)),
        game_name: utf8_lossy(vstd::slice::slice_subrange(b, 15, p1)),
        update_ver: utf8_lossy(vstd::slice::slice_subrange(b, p1, p1 + 4)),
        game_ver: utf8_lossy(vstd::slice::slice_subrange(b, p1 + 4, p1 + 9)),
        app_ver: utf8_lossy(vstd::slice::slice_subrange(b, p1 + 9, p1 + 14)),
        header_comp: vstd::slice::slice_to_vec(
            vstd::slice::slice_subrange(b, p2 + 4, p2 + 4 + hl as usize),
        ),
        footer_comp: vstd::slice::slice_to_vec(
            vstd::slice::slice_subrange(b, p3 + 4, p3 + 4 + fl as usize),
        ),
        region_hashes,
        pic_data: vstd::slice::slice_to_vec(vstd::slice::slice_subrange(b, p6 + 4, p6 + 4 + 0x73)),
        data1: vstd::slice::slice_to_vec(vstd::slice::slice_subrange(b, p7, p7 + 16)),
        data2: vstd::slice::slice_to_vec(vstd::slice::slice_subrange(b, p7 + 16, p7 + 32)),
        unique_identifier: le_u32(vstd::slice::slice_subrange(b, p7 + 32, p7 + 36)),
        crc32: vstd::slice::slice_to_vec(vstd::slice::slice_subrange(b, p7 + 36, p7 + 40)),
    };
    Ok(file)
}

/// What `flate2`'s gzip decoding returns for the given bytes — the
/// decompressed bytes, or nothing where they are not a well-formed gzip
/// stream. The outcome depends on the bytes alone.
pub uninterp spec fn gunzip_of(b: Seq<u8>) -> Option<Seq<u8>>;

/// Relies on `flate2::bufread::GzDecoder` reading to the end: decompression
/// of a byte slice is a function of the bytes alone, failing exactly on
/// malformed streams.
#[verifier::external_body]
fn gunzip(data: &[u8]) -> (r: Option<Vec<u8>>)
    ensures
        match r {
            Some(v) => gunzip_of(data@) == Some(v@),
            None => gunzip_of(data@) is None,
        },
{
    let mut decoder = flate2::bufread::GzDecoder::new(data);
    let mut out: Vec<u8> = Vec::new();
    match std::io::Read::read_to_end(&mut decoder, &mut out) {
        Ok(_) => Some(out),
        Err(_) => None,
    }
}

/// Read an IRD sidecar key file from its gzip-compressed bytes: decompress,
/// then parse. Both a malformed gzip stream and a malformed record inside it
/// give `Format`.
pub fn read_ird(compressed: &[u8]) -> (r: Result<IRDFile, DiscError>)
    ensures
        gunzip_of(compressed@) is None ==> r == Err::<IRDFile, DiscError>(DiscError::Format),
        gunzip_of(compressed@) matches Some(plain) ==> {
            &&& ((r is Ok) <==> parse_ird_spec(plain) is Some)
            &&& (r matches Ok(f) ==> (parse_ird_spec(plain) matches Some(s) && f.matches_spec(s)))
            &&& (r matches Err(e) ==> e == DiscError::Format)
        },
{
    match gunzip(compressed) {
        None => Err(DiscError::Format),
        Some(plain) => parse_ird(plain.as_slice()),
    }
}

} // verus!
