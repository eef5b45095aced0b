//! Regions: contiguous inclusive ranges of sector indices that share one
//! encryption state, and the lookup from a sector index to its region.

use vstd::prelude::*;

verus! {

/// A contiguous inclusive range of sector indices that is either wholly
/// encrypted or wholly unencrypted.
#[derive(Clone, Copy, Debug, PartialEq, Eq, Structural)]
pub struct Region {
    /// Number of the region, starting from 0.
    pub id: u32,
    /// First sector of the region (inclusive).
    pub start: u32,
    /// Last sector of the region (inclusive).
    pub end: u32,
    /// Whether the sectors of this region are encrypted.
    pub encrypted: bool,
}

impl Region {
    /// Whether `sector` lies in this region.
    pub open spec fn contains_spec(self, sector: u32) -> bool {
        self.start <= sector <= self.end
    }

    /// Whether a given sector number falls within this region or not.
    pub fn within_region(&self, sector: u32) -> (r: bool)
        ensures
            r == self.contains_spec(sector),
    {
        (self.start <= sector) && (sector <= self.end)
    }
}

/// A well-formed region table: the regions partition `[0, total)` into
/// contiguous inclusive ranges, numbered from 0, with the encryption flag
/// alternating and the first region unencrypted.
pub open spec fn wf_regions(regions: Seq<Region>, total: u32) -> bool {
    &&& regions.len() >= 1
    &&& regions[0].start == 0
    &&& regions[regions.len() - 1].end + 1 == total
    &&& (forall|j: int|
        0 <= j < regions.len() ==> (#[trigger] regions[j].start) <= regions[j].end)
    &&& (forall|j: int| 0 <= j < regions.len() ==> (#[trigger] regions[j].id) == j)
    &&& (forall|j: int|
        0 <= j < regions.len() ==> (#[trigger] regions[j].encrypted) == (j % 2 == 1))
    &&& (forall|j: int|
        1 <= j < regions.len() ==> (#[trigger] regions[j].start) == regions[j - 1].end + 1)
}

/// The first region of `regions` that contains `sector`, if any.
pub open spec fn spec_region_for(regions: Seq<Region>, sector: u32) -> Option<Region>
    decreases regions.len(),
{
    if regions.len() == 0 {
        None
    } else if regions[0].contains_spec(sector) {
        Some(regions[0])
    } else {
        spec_region_for(regions.subrange(1, regions.len() as int), sector)
    }
}

/// `spec_region_for` returns `Some` exactly when some region contains the
/// sector, and what it returns is one of the containing regions.
pub proof fn lemma_region_for_characterisation(regions: Seq<Region>, sector: u32)
    ensures
        (spec_region_for(regions, sector) is Some) <==> (exists|j: int|
            0 <= j < regions.len() && (#[trigger] regions[j]).contains_spec(sector)),
        spec_region_for(regions, sector) matches Some(reg) ==> reg.contains_spec(sector)
            && (exists|j: int| 0 <= j < regions.len() && (#[trigger] regions[j]) == reg),
    decreases regions.len(),
{
    if regions.len() == 0 {
    } else if regions[0].contains_spec(sector) {
        assert(regions[0] == regions[0]);
    } else {
        let rest = regions.subrange(1, regions.len() as int);
        lemma_region_for_characterisation(rest, sector);
        assert forall|j: int|
            0 <= j < regions.len() && (#[trigger] regions[j]).contains_spec(sector) implies (
        spec_region_for(regions, sector) is Some) by {
            if j >= 1 {
                assert(rest[j - 1] == regions[j]);
            }
        }
        match spec_region_for(rest, sector) {
            Some(reg) => {
                let j = choose|j: int| 0 <= j < rest.len() && (#[trigger] rest[j]) == reg;
                assert(regions[j + 1] == reg);
            },
            None => {},
        }
    }
}

/// In a well-formed table, region starts are monotone and earlier regions
/// end strictly before later regions start.
proof fn lemma_region_order(regions: Seq<Region>, total: u32, j: int, k: int)
    requires
        wf_regions(regions, total),
        0 <= j <= k < regions.len(),
    ensures
        regions[j].start <= regions[k].start,
        j < k ==> regions[j].end < regions[k].start,
    decreases k - j,
{
    if j < k {
        lemma_region_order(regions, total, j, k - 1);
    }
}

/// Every sector at or below the end of region `j` is covered by a region
/// with index at most `j`.
proof fn lemma_coverage_below(regions: Seq<Region>, total: u32, j: int, s: u32)
    requires
        wf_regions(regions, total),
        0 <= j < regions.len(),
        s <= regions[j].end,
    ensures
        exists|k: int| 0 <= k <= j && (#[trigger] regions[k]).contains_spec(s),
    decreases j,
{
    if s >= regions[j].start {
        assert(regions[j].contains_spec(s));
    } else {
        lemma_coverage_below(regions, total, j - 1, s);
    }
}

/// For all well-formed region tables, the regions partition `[0, total)`:
/// every sector index below `total` lies in some region (so the lookup
/// succeeds), no index at or above `total` lies in any, no two regions share
/// a sector, and the encryption flag strictly alternates starting unencrypted.
pub proof fn lemma_regions_partition(regions: Seq<Region>, total: u32)
    requires
        wf_regions(regions, total),
    ensures
        forall|s: u32| s < total ==> spec_region_for(regions, s) is Some,
        forall|s: u32| s >= total ==> spec_region_for(regions, s) is None,
        forall|j: int, k: int, s: u32|
            0 <= j < k < regions.len() ==> !((#[trigger] regions[j].contains_spec(s))
                && (#[trigger] regions[k].contains_spec(s))),
        forall|j: int|
            0 <= j < regions.len() ==> (#[trigger] regions[j].encrypted) == (j % 2 == 1),
        regions[0].encrypted == false,
{
    let last = regions.len() - 1;
    assert forall|s: u32| s < total implies spec_region_for(regions, s) is Some by {
        lemma_coverage_below(regions, total, last, s);
        lemma_region_for_characterisation(regions, s);
    }
    assert forall|s: u32| s >= total implies spec_region_for(regions, s) is None by {
        assert forall|j: int| 0 <= j < regions.len() implies !(#[trigger] regions[j]).contains_spec(
            s,
        ) by {
            lemma_region_order(regions, total, j, last);
        }
        lemma_region_for_characterisation(regions, s);
    }
    assert forall|j: int, k: int, s: u32| 0 <= j < k < regions.len() implies !((
    #[trigger] regions[j].contains_spec(s)) && (#[trigger] regions[k].contains_spec(s))) by {
        lemma_region_order(regions, total, j, k);
    }
}

/// The sector range that covers the byte range `[offset, offset + length)`
/// of a disc of 2048-byte sectors: first sector `offset / 2048` (inclusive),
/// up to `ceil((offset + length) / 2048)` (exclusive). A byte-range reader
/// reads these sectors, concatenates them and slices the requested range out.
pub fn covering_sectors(offset: u64, length: u32) -> (r: (u64, u64))
    requires
        offset + length + 2047 <= u64::MAX,
    ensures
        r.0 == offset / 2048,
        r.1 == (offset as int + length as int + 2047) / 2048,
        r.0 * 2048 <= offset,
        offset + length <= r.1 * 2048,
        r.0 <= r.1,
{
    let first = offset / 2048;
    let end = (offset + (length as u64) + 2047) / 2048;
    proof {
        vstd::arithmetic::div_mod::lemma_fundamental_div_mod(offset as int, 2048);
        vstd::arithmetic::div_mod::lemma_fundamental_div_mod(
            offset as int + length as int + 2047,
            2048,
        );
        assert(0 <= (offset as int) % 2048 < 2048) by (nonlinear_arith);
        assert(0 <= (offset as int + length as int + 2047) % 2048 < 2048) by (nonlinear_arith);
        assert(first * 2048 <= offset);
        assert(offset + length <= end * 2048);
    }
    (first, end)
}

/// Lookup from a sector index to the region that contains it.
pub trait VecRegion {
    /// The table of regions that the lookup searches.
    spec fn regions_seq(&self) -> Seq<Region>;

    /// Given a sector number, find the region that it falls within, or
    /// `None` if it doesn't fall within any.
    fn region_for_sector(&self, sector: u32) -> (r: Option<Region>)
        ensures
            r == spec_region_for(self.regions_seq(), sector),
    ;
}

impl VecRegion for Vec<Region> {
    open spec fn regions_seq(&self) -> Seq<Region> {
        self@
    }

    fn region_for_sector(&self, sector: u32) -> (r: Option<Region>)
        ensures
            r == spec_region_for(self@, sector),
    {
        let n = self.len();
        proof {
            assert(self@.subrange(0, n as int) =~= self@);
        }
        for i in 0..n
            invariant
                n == self@.len(),
                forall|k: int| 0 <= k < i ==> !(#[trigger] self@[k]).contains_spec(sector),
                spec_region_for(self@, sector) == spec_region_for(
                    self@.subrange(i as int, n as int),
                    sector,
                ),
        {
            let reg = self[i];
            proof {
                let tail = self@.subrange(i as int, n as int);
                assert(tail[0] == self@[i as int]);
                assert(tail.subrange(1, tail.len() as int) =~= self@.subrange(
                    i as int + 1,
                    n as int,
                ));
            }
            if reg.within_region(sector) {
                return Some(reg);
            }
        }
        proof {
            assert(self@.subrange(n as int, n as int) =~= Seq::<Region>::empty());
        }
        None
    }
}

} // verus!
