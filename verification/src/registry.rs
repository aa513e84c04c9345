//! Names the machines go by.

use vstd::prelude::*;

verus! {

/// A machine: its name, and the names of the ROM sets it runs from.
pub struct MachineEntry {
    pub name: &'static str,
    pub rom_names: Vec<&'static str>,
}

/// A machine as a value.
pub type MachineRow = (&'static str, Seq<&'static str>);

impl MachineEntry {
    pub open spec fn row(&self) -> MachineRow {
        (self.name, self.rom_names@)
    }
}

/// Every machine, in the order of their names.
pub open spec fn machine_table() -> Seq<MachineRow> {
    seq![
        ("astdelux", seq!["astdelux"]),
        ("asteroid", seq!["asteroid"]),
        ("burgertime", seq!["btime"]),
        ("ccastles", seq!["ccastles"]),
        ("congobongo", seq!["congo", "congobongo"]),
    ]
}

/// The first row from number `from` on with that name.
pub open spec fn named_from(table: Seq<MachineRow>, from: int, name: Seq<char>) -> Option<MachineRow>
    decreases table.len() - from,
{
    if from < 0 || from >= table.len() {
        None
    } else if table[from].0@ == name {
        Some(table[from])
    } else {
        named_from(table, from + 1, name)
    }
}

/// Whether two strings are equal.
pub fn same(a: &str, b: &str) -> (r: bool)
    ensures
        r == (a@ == b@),
{
    a.to_owned() == b.to_owned()
}

/// Every machine.
pub fn machines() -> (v: Vec<MachineEntry>)
    ensures
        v@.len() == machine_table().len(),
        forall|i: int| 0 <= i < v@.len() ==> (#[trigger] v@[i]).row() == machine_table()[i],
{
    let v: Vec<MachineEntry> = vec![
        MachineEntry { name: "astdelux", rom_names: vec!["astdelux"] },
        MachineEntry { name: "asteroid", rom_names: vec!["asteroid"] },
        MachineEntry { name: "burgertime", rom_names: vec!["btime"] },
        MachineEntry { name: "ccastles", rom_names: vec!["ccastles"] },
        MachineEntry { name: "congobongo", rom_names: vec!["congo", "congobongo"] },
    ];
    assert(v@[0].rom_names@ =~= machine_table()[0].1);
    assert(v@[1].rom_names@ =~= machine_table()[1].1);
    assert(v@[2].rom_names@ =~= machine_table()[2].1);
    assert(v@[3].rom_names@ =~= machine_table()[3].1);
    assert(v@[4].rom_names@ =~= machine_table()[4].1);
    v
}

/// Look a machine up by its name.
pub fn find(name: &str) -> (e: Option<MachineEntry>)
    ensures
        match e {
            Some(e) => named_from(machine_table(), 0, name@) == Some(e.row()),
            None => named_from(machine_table(), 0, name@) is None,
        },
{
    let mut v: Vec<MachineEntry> = machines();
    let mut i: usize = 0;
    while i < v.len()
        invariant
            i <= v@.len(),
            v@.len() == machine_table().len(),
            forall|k: int| 0 <= k < v@.len() ==> (#[trigger] v@[k]).row() == machine_table()[k],
            named_from(machine_table(), 0, name@) == named_from(machine_table(), i as int, name@),
        decreases v@.len() - i,
    {
        assert(v@[i as int].row() == machine_table()[i as int]);
        if same(v[i].name, name) {
            return Some(v.swap_remove(i));
        }
        i += 1;
    }
    None
}

/// A machine found has the name it was looked up by.
pub proof fn law_found_by_its_name(table: Seq<MachineRow>, from: int, name: Seq<char>)
    ensures
        named_from(table, from, name) matches Some(row) ==> row.0@ == name,
    decreases table.len() - from,
{
    if 0 <= from < table.len() && table[from].0@ != name {
        law_found_by_its_name(table, from + 1, name);
    }
}

} // verus!
