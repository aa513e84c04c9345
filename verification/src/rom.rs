//! ROM manifests: which chips make up a region, where each goes, and the
//! checksums it is known by.

use vstd::prelude::*;

verus! {

/// One chip of a region.
pub struct RomEntry {
    pub name: &'static str,
    pub size: usize,
    pub offset: usize,
    pub crc32: Vec<u32>,
}

/// A region assembled from chips.
pub struct RomRegion {
    pub size: usize,
    pub entries: Vec<RomEntry>,
}

/// A chip as a value: name, size, offset, checksums.
pub type RomTable = (&'static str, int, int, Seq<u32>);

impl RomEntry {
    pub open spec fn table(&self) -> RomTable {
        (self.name, self.size as int, self.offset as int, self.crc32@)
    }
}

impl RomRegion {
    pub open spec fn table(&self) -> Seq<RomTable> {
        Seq::new(self.entries@.len(), |i: int| self.entries@[i].table())
    }
}

/// Every chip lies inside the region, and no two chips overlap.
pub open spec fn chips_fit(region: int, chips: Seq<RomTable>) -> bool {
    &&& forall|i: int|
        0 <= i < chips.len() ==> 0 <= (#[trigger] chips[i]).2 && 0 < chips[i].1 && chips[i].2
            + chips[i].1 <= region
    &&& forall|i: int, j: int|
        0 <= i < j < chips.len() ==> (#[trigger] chips[i]).2 + chips[i].1 <= (#[trigger] chips[j]).2
            || chips[j].2 + chips[j].1 <= chips[i].2
}

/// One chip.
pub fn chip(name: &'static str, size: usize, offset: usize, crc32: Vec<u32>) -> (e: RomEntry)
    ensures
        e.table() == (name, size as int, offset as int, crc32@),
{
    RomEntry { name, size, offset, crc32 }
}

} // verus!
