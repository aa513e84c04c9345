//! ROM regions that can be disassembled.

use vstd::prelude::*;

use crate::registry::same;

verus! {

/// A CPU whose code can be disassembled.
#[derive(Clone, Copy, Debug, PartialEq, Eq, Structural)]
pub enum DisasmCpu {
    M6502,
    Z80,
}

/// A program region: which CPU runs it, and where it sees it.
#[derive(Clone, Copy, Debug)]
pub struct DisasmRegion {
    pub machine: &'static str,
    pub region: &'static str,
    pub cpu: DisasmCpu,
    pub org: u32,
    pub size: u32,
}

/// Every program region, by machine and name.
pub open spec fn region_table() -> Seq<DisasmRegion> {
    seq![
        DisasmRegion { machine: "ccastles", region: "bank0", cpu: DisasmCpu::M6502, org: 0xA000, size: 0x4000 },
        DisasmRegion { machine: "ccastles", region: "bank1", cpu: DisasmCpu::M6502, org: 0xA000, size: 0x4000 },
        DisasmRegion { machine: "ccastles", region: "fixed", cpu: DisasmCpu::M6502, org: 0xE000, size: 0x2000 },
        DisasmRegion { machine: "congobongo", region: "main", cpu: DisasmCpu::Z80, org: 0x0000, size: 0x8000 },
        DisasmRegion { machine: "congobongo", region: "sound", cpu: DisasmCpu::Z80, org: 0x0000, size: 0x2000 },
    ]
}

/// Every region.
pub fn regions() -> (v: Vec<DisasmRegion>)
    ensures
        v@ == region_table(),
{
    let v: Vec<DisasmRegion> = vec![
        DisasmRegion { machine: "ccastles", region: "bank0", cpu: DisasmCpu::M6502, org: 0xA000, size: 0x4000 },
        DisasmRegion { machine: "ccastles", region: "bank1", cpu: DisasmCpu::M6502, org: 0xA000, size: 0x4000 },
        DisasmRegion { machine: "ccastles", region: "fixed", cpu: DisasmCpu::M6502, org: 0xE000, size: 0x2000 },
        DisasmRegion { machine: "congobongo", region: "main", cpu: DisasmCpu::Z80, org: 0x0000, size: 0x8000 },
        DisasmRegion { machine: "congobongo", region: "sound", cpu: DisasmCpu::Z80, org: 0x0000, size: 0x2000 },
    ];
    assert(v@ =~= region_table());
    v
}

/// The regions of a machine among the first `n` of the table.
pub open spec fn regions_among(table: Seq<DisasmRegion>, machine: Seq<char>, n: nat) -> Seq<DisasmRegion>
    decreases n,
{
    if n == 0 {
        Seq::empty()
    } else if table[n - 1].machine@ == machine {
        regions_among(table, machine, (n - 1) as nat).push(table[n - 1])
    } else {
        regions_among(table, machine, (n - 1) as nat)
    }
}

/// The first region from number `from` on with those names.
pub open spec fn region_from(
    table: Seq<DisasmRegion>,
    from: int,
    machine: Seq<char>,
    region: Seq<char>,
) -> Option<DisasmRegion>
    decreases table.len() - from,
{
    if from < 0 || from >= table.len() {
        None
    } else if table[from].machine@ == machine && table[from].region@ == region {
        Some(table[from])
    } else {
        region_from(table, from + 1, machine, region)
    }
}

/// A machine's regions, in the order of their names.
pub fn regions_for(machine: &str) -> (v: Vec<DisasmRegion>)
    ensures
        v@ == regions_among(region_table(), machine@, region_table().len()),
{
    let all: Vec<DisasmRegion> = regions();
    let mut v: Vec<DisasmRegion> = Vec::new();
    let mut i: usize = 0;
    while i < all.len()
        invariant
            i <= all@.len(),
            all@ == region_table(),
            v@ == regions_among(region_table(), machine@, i as nat),
        decreases all@.len() - i,
    {
        if same(all[i].machine, machine) {
            v.push(all[i]);
        }
        i += 1;
    }
    v
}

/// Look a region up by its machine and its name.
pub fn find(machine: &str, region: &str) -> (r: Option<DisasmRegion>)
    ensures
        r == region_from(region_table(), 0, machine@, region@),
{
    let all: Vec<DisasmRegion> = regions();
    let mut i: usize = 0;
    while i < all.len()
        invariant
            i <= all@.len(),
            all@ == region_table(),
            region_from(region_table(), 0, machine@, region@) == region_from(
                region_table(),
                i as int,
                machine@,
                region@,
            ),
        decreases all@.len() - i,
    {
        if same(all[i].machine, machine) && same(all[i].region, region) {
            return Some(all[i]);
        }
        i += 1;
    }
    None
}

/// A region found has the names it was looked up by.
pub proof fn law_found_by_its_names(
    table: Seq<DisasmRegion>,
    from: int,
    machine: Seq<char>,
    region: Seq<char>,
)
    ensures
        region_from(table, from, machine, region) matches Some(r) ==> r.machine@ == machine
            && r.region@ == region,
    decreases table.len() - from,
{
    if 0 <= from < table.len() && !(table[from].machine@ == machine && table[from].region@
        == region) {
        law_found_by_its_names(table, from + 1, machine, region);
    }
}

} // verus!
