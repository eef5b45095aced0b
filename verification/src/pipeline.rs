//! The decrypt pipeline: a shared sector cursor whose claims are strictly
//! ordered, a verified sequential decryption pass, and a model of the
//! multi-worker pass in which decrypted sectors are written back in any
//! completion order. Both passes produce the same bytes.

use crate::codec::decrypt_sector_spec;
use crate::disc::PS3DiscDecryptor;
use crate::sector::lemma_regions_partition;
use vstd::arithmetic::div_mod::lemma_fundamental_div_mod;
use vstd::prelude::*;

verus! {

/// The codec output for sector `s` of a flat image.
pub open spec fn spec_sector_plain(image: Seq<u8>, dec: PS3DiscDecryptor, s: int) -> Seq<u8> {
    decrypt_sector_spec(
        image.subrange(s * 2048, (s + 1) * 2048),
        s as u32,
        dec.regions@,
        dec.disc_key@,
        dec.has_3k3y_tagline,
    )
}

/// `out` is the decrypted image of `image`: as long as the input, with the
/// codec output for sector `s` at byte offset `s * 2048`.
pub open spec fn is_decrypted_image(image: Seq<u8>, dec: PS3DiscDecryptor, out: Seq<u8>) -> bool {
    &&& out.len() == image.len()
    &&& forall|s: int|
        0 <= s < dec.total_sectors_spec() ==> #[trigger] out.subrange(s * 2048, (s + 1) * 2048)
            == spec_sector_plain(image, dec, s)
}

/// The decrypted image is unique: any two outputs that place every sector's
/// codec output at that sector's offset are byte-identical — in particular
/// the single-worker and multi-worker passes agree, whatever order sectors
/// were decrypted and written in.
pub proof fn lemma_decrypted_image_unique(
    image: Seq<u8>,
    dec: PS3DiscDecryptor,
    out1: Seq<u8>,
    out2: Seq<u8>,
)
    requires
        image.len() == dec.total_sectors_spec() * 2048,
        is_decrypted_image(image, dec, out1),
        is_decrypted_image(image, dec, out2),
    ensures
        out1 == out2,
{
    let total = dec.total_sectors_spec();
    assert forall|i: int| 0 <= i < out1.len() implies out1[i] == out2[i] by {
        let s = i / 2048;
        lemma_fundamental_div_mod(i, 2048);
        assert(0 <= i % 2048 < 2048) by (nonlinear_arith)
            requires i >= 0;
        assert(s < total) by (nonlinear_arith)
            requires i < total * 2048 && s == i / 2048 && i >= 0;
        assert(out1.subrange(s * 2048, (s + 1) * 2048) == spec_sector_plain(image, dec, s));
        assert(out2.subrange(s * 2048, (s + 1) * 2048) == spec_sector_plain(image, dec, s));
        assert(out1[i] == out1.subrange(s * 2048, (s + 1) * 2048)[i - s * 2048]);
        assert(out2[i] == out2.subrange(s * 2048, (s + 1) * 2048)[i - s * 2048]);
    }
    assert(out1 =~= out2);
}

impl PS3DiscDecryptor {
    /// Total number of sectors of the region table: one past the last
    /// region's end.
    pub fn total_sectors(&self) -> (r: u32)
        requires
            self.wf(),
        ensures
            r == self.total_sectors_spec(),
    {
        let last = self.regions[self.regions.len() - 1];
        last.end + 1
    }
}

/// Decrypt a whole flat image sequentially: sector 0 up to the last, each
/// through the sector codec. This is the single-worker pipeline and the
/// correctness oracle of the multi-worker one.
pub fn decrypt_image(dec: &PS3DiscDecryptor, image: &[u8]) -> (r: Vec<u8>)
    requires
        dec.wf(),
        image@.len() == dec.total_sectors_spec() * 2048,
    ensures
        is_decrypted_image(image@, *dec, r@),
{
    let total = dec.total_sectors();
    let image_len = image.len();
    proof {
        lemma_regions_partition(
            dec.regions@,
            (dec.regions@.last().end + 1) as u32,
        );
    }
    let mut out: Vec<u8> = Vec::new();
    let mut s: u32 = 0;
    while s < total
        invariant
            dec.wf(),
            total == dec.total_sectors_spec(),
            image@.len() == total * 2048,
            image_len == image@.len(),
            s <= total,
            out@.len() == s * 2048,
            forall|t: int|
                0 <= t < s ==> #[trigger] out@.subrange(t * 2048, (t + 1) * 2048)
                    == spec_sector_plain(image@, *dec, t),
            forall|v: u32| v < total ==> crate::sector::spec_region_for(dec.regions@, v) is Some,
        decreases total - s,
    {
        proof {
            assert((s as int) * 2048 + 2048 <= image_len);
        }
        let start = (s as usize) * 2048;
        let raw = vstd::slice::slice_subrange(image, start, start + 2048);
        let ghost old_out = out@;
        let mut plain = match dec.decrypt_sector(raw, s) {
            Ok(p) => p,
            Err(_) => vstd::pervasive::unreached(),
        };
        out.append(&mut plain);
        proof {
            assert forall|t: int| 0 <= t < s + 1 implies #[trigger] out@.subrange(
                t * 2048,
                (t + 1) * 2048,
            ) == spec_sector_plain(image@, *dec, t) by {
                if t < s {
                    assert(out@.subrange(t * 2048, (t + 1) * 2048) =~= old_out.subrange(
                        t * 2048,
                        (t + 1) * 2048,
                    ));
                } else {
                    assert(out@.subrange(t * 2048, (t + 1) * 2048) =~= spec_sector_plain(
                        image@,
                        *dec,
                        t,
                    ));
                }
            }
        }
        s = s + 1;
    }
    out
}

/// A vector of `n` zero bytes.
fn zero_vec(n: usize) -> (r: Vec<u8>)
    ensures
        r@.len() == n,
        forall|i: int| 0 <= i < n ==> r@[i] == 0u8,
{
    let mut v: Vec<u8> = Vec::new();
    let mut i: usize = 0;
    while i < n
        invariant
            i <= n,
            v@.len() == i,
            forall|k: int| 0 <= k < i ==> v@[k] == 0u8,
        decreases n - i,
    {
        v.push(0u8);
        i = i + 1;
    }
    v
}

/// Overwrite `out[pos .. pos + data.len())` with `data`, leaving every other
/// byte unchanged.
fn write_block(out: &mut Vec<u8>, pos: usize, data: &Vec<u8>)
    requires
        pos + data@.len() <= old(out)@.len(),
    ensures
        final(out)@.len() == old(out)@.len(),
        forall|i: int|
            0 <= i < old(out)@.len() ==> #[trigger] final(out)@[i] == (if pos <= i < pos
                + data@.len() {
                data@[i - pos]
            } else {
                old(out)@[i]
            }),
{
    let n = data.len();
    let out_len = out.len();
    let mut j: usize = 0;
    while j < n
        invariant
            n == data@.len(),
            out@.len() == out_len,
            pos + n <= out@.len(),
            out@.len() == old(out)@.len(),
            j <= n,
            forall|i: int|
                0 <= i < out@.len() ==> #[trigger] out@[i] == (if pos <= i < pos + j {
                    data@[i - pos]
                } else {
                    old(out)@[i]
                }),
        decreases n - j,
    {
        proof {
            assert(pos + j < out@.len());
        }
        out[pos + j] = data[j];
        j = j + 1;
    }
}

/// Decrypt a whole flat image as the multi-worker pipeline does: sector
/// claims are strictly ordered, decryption finishes in an arbitrary order,
/// and every write seeks to the claiming sector's own offset first.
/// `write_order` lists the sectors in the order their workers finished; any
/// order that covers every sector yields the same bytes as `decrypt_image`.
pub fn decrypt_image_unordered(dec: &PS3DiscDecryptor, image: &[u8], write_order: &Vec<u32>) -> (r:
    Vec<u8>)
    requires
        dec.wf(),
        image@.len() == dec.total_sectors_spec() * 2048,
        forall|k: int| 0 <= k < write_order@.len() ==> write_order@[k] < dec.total_sectors_spec(),
        forall|v: u32| v < dec.total_sectors_spec() ==> write_order@.contains(v),
    ensures
        is_decrypted_image(image@, *dec, r@),
{
    let ghost total = dec.total_sectors_spec();
    proof {
        lemma_regions_partition(
            dec.regions@,
            (dec.regions@.last().end + 1) as u32,
        );
    }
    let image_len = image.len();
    let mut out = zero_vec(image_len);
    let n = write_order.len();
    for k in 0..n
        invariant
            dec.wf(),
            total == dec.total_sectors_spec(),
            image@.len() == total * 2048,
            image_len == image@.len(),
            n == write_order@.len(),
            out@.len() == image@.len(),
            forall|j: int| 0 <= j < n ==> write_order@[j] < total,
            forall|t: u32|
                write_order@.subrange(0, k as int).contains(t) ==> #[trigger] out@.subrange(
                    t * 2048,
                    (t as int + 1) * 2048,
                ) == spec_sector_plain(image@, *dec, t as int),
            forall|v: u32| v < total ==> crate::sector::spec_region_for(dec.regions@, v) is Some,
    {
        let s = write_order[k];
        proof {
            assert((s as int) * 2048 + 2048 <= image_len);
        }
        let start = (s as usize) * 2048;
        let raw = vstd::slice::slice_subrange(image, start, start + 2048);
        let ghost old_out = out@;
        let plain = match dec.decrypt_sector(raw, s) {
            Ok(p) => p,
            Err(_) => vstd::pervasive::unreached(),
        };
        write_block(&mut out, start, &plain);
        proof {
            assert forall|t: u32|
                write_order@.subrange(0, k as int + 1).contains(t) implies #[trigger] out@.subrange(
                t * 2048,
                (t as int + 1) * 2048,
            ) == spec_sector_plain(image@, *dec, t as int) by {
                if t == s {
                    assert(out@.subrange(t * 2048, (t as int + 1) * 2048) =~= spec_sector_plain(
                        image@,
                        *dec,
                        t as int,
                    ));
                } else {
                    let j = choose|j: int|
                        0 <= j < k + 1 && #[trigger] write_order@.subrange(0, k as int + 1)[j]
                            == t;
                    assert(write_order@.subrange(0, k as int)[j] == t);
                    assert(out@.subrange(t * 2048, (t as int + 1) * 2048) =~= old_out.subrange(
                        t * 2048,
                        (t as int + 1) * 2048,
                    ));
                }
            }
        }
    }
    proof {
        assert forall|s: int| 0 <= s < total implies #[trigger] out@.subrange(
            s * 2048,
            (s + 1) * 2048,
        ) == spec_sector_plain(image@, *dec, s) by {
            let v = s as u32;
            assert(write_order@.contains(v));
            assert(write_order@.subrange(0, n as int) =~= write_order@);
            assert(write_order@.subrange(0, n as int).contains(v));
        }
    }
    out
}

/// The shared sector cursor of the multi-worker pipeline: the next unclaimed
/// sector index, bounded by the total sector count.
pub struct SectorCursor {
    /// Next unclaimed sector index.
    pub next: u32,
    /// One past the last claimable sector index.
    pub limit: u32,
}

/// The claims a cursor hands out from `start` up to `limit`: each index once,
/// in increasing order.
pub open spec fn claim_sequence(start: u32, limit: u32) -> Seq<u32> {
    Seq::new(
        if start <= limit {
            (limit - start) as nat
        } else {
            0
        },
        |i: int| (start + i) as u32,
    )
}

/// With a cursor bound of `limit`, exactly `limit` claims occur, no sector
/// index is claimed twice, and every index below the bound is claimed.
pub proof fn lemma_claims_unique(limit: u32)
    ensures
        claim_sequence(0, limit).len() == limit,
        forall|i: int, j: int|
            0 <= i < j < limit ==> claim_sequence(0, limit)[i] != claim_sequence(0, limit)[j],
        forall|v: u32| v < limit ==> claim_sequence(0, limit).contains(v),
{
    assert forall|v: u32| v < limit implies claim_sequence(0, limit).contains(v) by {
        assert(claim_sequence(0, limit)[v as int] == v);
    }
}

impl SectorCursor {
    /// A fresh cursor over sectors `0 .. limit`.
    pub fn new(limit: u32) -> (r: SectorCursor)
        ensures
            r.next == 0,
            r.limit == limit,
    {
        SectorCursor { next: 0, limit }
    }

    /// Claim the next sector: returns the cursor value and advances it, or
    /// `None` once the cursor has reached its bound. Claims are therefore
    /// strictly increasing, with no index duplicated or skipped.
    pub fn claim(&mut self) -> (r: Option<u32>)
        ensures
            old(self).next < old(self).limit ==> r == Some(old(self).next) && final(self).next
                == old(self).next + 1 && final(self).limit == old(self).limit,
            old(self).next >= old(self).limit ==> r is None && *final(self) == *old(self),
    {
        if self.next < self.limit {
            let c = self.next;
            self.next = c + 1;
            Some(c)
        } else {
            None
        }
    }

    /// Drain the cursor: the claims of a worker pool that runs the cursor
    /// dry, in claim order.
    pub fn claim_all(&mut self) -> (r: Vec<u32>)
        ensures
            r@ == claim_sequence(old(self).next, old(self).limit),
            final(self).limit == old(self).limit,
            final(self).next >= final(self).limit,
    {
        let mut claims: Vec<u32> = Vec::new();
        loop
            invariant
                self.limit == old(self).limit,
                self.next >= old(self).next,
                self.next <= self.limit || self.next == old(self).next,
                claims@ =~= claim_sequence(old(self).next, self.next),
            ensures
                self.next >= self.limit,
                self.next <= self.limit || self.next == old(self).next,
                self.limit == old(self).limit,
                claims@ =~= claim_sequence(old(self).next, self.next),
            decreases self.limit - self.next,
        {
            match self.claim() {
                Some(c) => {
                    claims.push(c);
                    proof {
                        assert(claims@ =~= claim_sequence(old(self).next, self.next));
                    }
                },
                None => {
                    break ;
                },
            }
        }
        proof {
            assert(claim_sequence(old(self).next, self.next) =~= claim_sequence(
                old(self).next,
                old(self).limit,
            ));
        }
        claims
    }
}

} // verus!
