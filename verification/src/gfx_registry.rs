//! ROM regions that hold graphics.

use vstd::prelude::*;

use crate::congo_bongo::{cell_column, cell_layout, cell_row, plane_starts};
use crate::gfx::GfxLayout;
use crate::registry::same;

verus! {

/// A graphics region: its tiles, how their planes lie in the ROM, and whether a
/// palette goes with it.
#[derive(Clone, Copy, Debug)]
pub struct GfxRegion {
    pub machine: &'static str,
    pub region: &'static str,
    pub count: u32,
    pub width: u32,
    pub height: u32,
    pub planes: u32,
    /// Bytes from one plane to the next.
    pub plane_bytes: u32,
    pub palette: bool,
}

/// Every graphics region, by machine and name.
pub open spec fn region_table() -> Seq<GfxRegion> {
    seq![
        GfxRegion {
            machine: "congobongo",
            region: "bg",
            count: 1024,
            width: 8,
            height: 8,
            planes: 3,
            plane_bytes: 0x2000,
            palette: true,
        },
        GfxRegion {
            machine: "congobongo",
            region: "fg",
            count: 256,
            width: 8,
            height: 8,
            planes: 2,
            plane_bytes: 0x0800,
            palette: true,
        },
        GfxRegion {
            machine: "congobongo",
            region: "sprites",
            count: 128,
            width: 32,
            height: 32,
            planes: 3,
            plane_bytes: 0x4000,
            palette: true,
        },
    ]
}

/// Every region.
pub fn regions() -> (v: Vec<GfxRegion>)
    ensures
        v@ == region_table(),
{
    let v: Vec<GfxRegion> = vec![
        GfxRegion {
            machine: "congobongo",
            region: "bg",
            count: 1024,
            width: 8,
            height: 8,
            planes: 3,
            plane_bytes: 0x2000,
            palette: true,
        },
        GfxRegion {
            machine: "congobongo",
            region: "fg",
            count: 256,
            width: 8,
            height: 8,
            planes: 2,
            plane_bytes: 0x0800,
            palette: true,
        },
        GfxRegion {
            machine: "congobongo",
            region: "sprites",
            count: 128,
            width: 32,
            height: 32,
            planes: 3,
            plane_bytes: 0x4000,
            palette: true,
        },
    ];
    assert(v@ =~= region_table());
    v
}

/// The regions of a machine among the first `n` of the table.
pub open spec fn regions_among(table: Seq<GfxRegion>, machine: Seq<char>, n: nat) -> Seq<GfxRegion>
    decreases n,
{
    if n == 0 {
        Seq::empty()
    } else if table[n - 1].machine@ == machine {
        regions_among(table, machine, (n - 1) as nat).push(table[n - 1])
    } else {
        regions_among(table, machine, (n - 1) as nat)
    }
}

/// The first region from number `from` on with those names.
pub open spec fn region_from(
    table: Seq<GfxRegion>,
    from: int,
    machine: Seq<char>,
    region: Seq<char>,
) -> Option<GfxRegion>
    decreases table.len() - from,
{
    if from < 0 || from >= table.len() {
        None
    } else if table[from].machine@ == machine && table[from].region@ == region {
        Some(table[from])
    } else {
        region_from(table, from + 1, machine, region)
    }
}

/// A machine's regions, in the order of their names.
pub fn regions_for(machine: &str) -> (v: Vec<GfxRegion>)
    ensures
        v@ == regions_among(region_table(), machine@, region_table().len()),
{
    let all: Vec<GfxRegion> = regions();
    let mut v: Vec<GfxRegion> = Vec::new();
    let mut i: usize = 0;
    while i < all.len()
        invariant
            i <= all@.len(),
            all@ == region_table(),
            v@ == regions_among(region_table(), machine@, i as nat),
        decreases all@.len() - i,
    {
        if same(all[i].machine, machine) {
            v.push(all[i]);
        }
        i += 1;
    }
    v
}

/// Look a region up by its machine and its name.
pub fn find(machine: &str, region: &str) -> (r: Option<GfxRegion>)
    ensures
        r == region_from(region_table(), 0, machine@, region@),
{
    let all: Vec<GfxRegion> = regions();
    let mut i: usize = 0;
    while i < all.len()
        invariant
            i <= all@.len(),
            all@ == region_table(),
            region_from(region_table(), 0, machine@, region@) == region_from(
                region_table(),
                i as int,
                machine@,
                region@,
            ),
        decreases all@.len() - i,
    {
        if same(all[i].machine, machine) && same(all[i].region, region) {
            return Some(all[i]);
        }
        i += 1;
    }
    None
}

/// A region found has the names it was looked up by.
pub proof fn law_found_by_its_names(
    table: Seq<GfxRegion>,
    from: int,
    machine: Seq<char>,
    region: Seq<char>,
)
    ensures
        region_from(table, from, machine, region) matches Some(r) ==> r.machine@ == machine
            && r.region@ == region,
    decreases table.len() - from,
{
    if 0 <= from < table.len() && !(table[from].machine@ == machine && table[from].region@
        == region) {
        law_found_by_its_names(table, from + 1, machine, region);
    }
}

impl GfxRegion {
    /// A square tile of eight-pixel cells, as the decoder can lay out.
    pub open spec fn wf(&self) -> bool {
        &&& 1 <= self.planes <= 3
        &&& self.plane_bytes <= 0x4000
        &&& self.width == self.height
        &&& self.width == 8 || self.width == 32
    }

    /// Where each pixel's bits lie.
    pub fn layout(&self) -> (l: GfxLayout)
        requires
            self.wf(),
        ensures
            l.plane_offsets@ == plane_starts(self.planes as nat, self.plane_bytes as int),
            l.x_offsets@ == Seq::new(self.width as nat, |x: int| cell_column(x) as usize),
            l.y_offsets@ == Seq::new(
                self.width as nat,
                |y: int| cell_row(y, self.width as int / 8) as usize,
            ),
            l.char_increment == self.width * self.height,
    {
        cell_layout(self.planes as usize, self.plane_bytes as usize, self.width as usize)
    }
}

/// Every region in the table can be laid out.
pub proof fn law_registered_regions_can_be_decoded(i: int)
    requires
        0 <= i < region_table().len(),
    ensures
        region_table()[i].wf(),
        region_table()[i].count * region_table()[i].width * region_table()[i].height == 8
            * region_table()[i].plane_bytes,
{
    let r = region_table()[i];
    if i == 0 {
        assert(r.count * r.width * r.height == 8 * r.plane_bytes) by (nonlinear_arith)
            requires
                r.count == 1024,
                r.width == 8,
                r.height == 8,
                r.plane_bytes == 0x2000,
        ;
    } else if i == 1 {
        assert(r.count * r.width * r.height == 8 * r.plane_bytes) by (nonlinear_arith)
            requires
                r.count == 256,
                r.width == 8,
                r.height == 8,
                r.plane_bytes == 0x0800,
        ;
    } else {
        assert(r.count * r.width * r.height == 8 * r.plane_bytes) by (nonlinear_arith)
            requires
                r.count == 128,
                r.width == 32,
                r.height == 32,
                r.plane_bytes == 0x4000,
        ;
    }
}

} // verus!
