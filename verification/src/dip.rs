//! DIP switch tables and the rule by which an option changes its bank.

use vstd::prelude::*;

verus! {

/// When a changed switch takes effect.
#[derive(Clone, Copy, Debug, PartialEq, Eq, Structural)]
pub enum DipApplyTiming {
    Immediate,
    OnReset,
}

/// One setting of an option: its label and the bits it puts under the mask.
#[derive(Clone, Copy, Debug)]
pub struct DipChoice {
    pub label: &'static str,
    pub value: u8,
}

/// A group of switches that make one setting.
pub struct DipOption {
    pub name: &'static str,
    pub mask: u8,
    pub apply: DipApplyTiming,
    pub choices: Vec<DipChoice>,
}

/// Eight switches.
pub struct DipSwitchBank {
    pub name: &'static str,
    pub options: Vec<DipOption>,
}

/// An option as a value: name, mask, choices.
pub type OptionTable = (&'static str, u8, Seq<(&'static str, u8)>);

/// A bank as a value: name, options.
pub type BankTable = (&'static str, Seq<OptionTable>);

impl DipOption {
    pub open spec fn table(&self) -> OptionTable {
        (
            self.name,
            self.mask,
            Seq::new(
                self.choices@.len(),
                |i: int| (self.choices@[i].label, self.choices@[i].value),
            ),
        )
    }
}

impl DipSwitchBank {
    pub open spec fn table(&self) -> BankTable {
        (self.name, Seq::new(self.options@.len(), |i: int| self.options@[i].table()))
    }
}

impl DipSwitchBank {
    /// Every option of the bank applies at once.
    pub open spec fn immediate(&self) -> bool {
        forall|i: int|
            0 <= i < self.options@.len() ==> (#[trigger] self.options@[i]).apply == DipApplyTiming::Immediate
    }
}

/// Every option of the banks applies at once.
pub open spec fn all_immediate(banks: Seq<DipSwitchBank>) -> bool {
    forall|i: int| 0 <= i < banks.len() ==> (#[trigger] banks[i]).immediate()
}

/// The banks of a machine as a value.
pub open spec fn tables(banks: Seq<DipSwitchBank>) -> Seq<BankTable> {
    Seq::new(banks.len(), |i: int| banks[i].table())
}

/// The option's choices lie under its mask and differ from each other.
pub open spec fn valid_option(o: OptionTable) -> bool {
    &&& o.1 != 0
    &&& o.2.len() >= 2
    &&& forall|i: int| 0 <= i < o.2.len() ==> (#[trigger] o.2[i]).1 & !o.1 == 0
    &&& forall|i: int, j: int|
        0 <= i < j < o.2.len() ==> (#[trigger] o.2[i]).1 != (#[trigger] o.2[j]).1
}

/// The bank's options are valid, share no switch, and each has a choice that
/// `value` selects.
pub open spec fn valid_bank(b: BankTable, value: u8) -> bool {
    &&& forall|i: int| 0 <= i < b.1.len() ==> valid_option(#[trigger] b.1[i])
    &&& forall|i: int, j: int|
        0 <= i < j < b.1.len() ==> (#[trigger] b.1[i]).1 & (#[trigger] b.1[j]).1 == 0
    &&& forall|i: int|
        0 <= i < b.1.len() ==> exists|k: int|
            0 <= k < (#[trigger] b.1[i]).2.len() && (#[trigger] b.1[i].2[k]).1 == value & b.1[i].1
}

/// One choice.
pub fn choice(label: &'static str, value: u8) -> (c: DipChoice)
    ensures
        c.label == label,
        c.value == value,
{
    DipChoice { label, value }
}

/// One option that applies at once.
pub fn option(name: &'static str, mask: u8, choices: Vec<DipChoice>) -> (o: DipOption)
    ensures
        o.name == name,
        o.mask == mask,
        o.apply == DipApplyTiming::Immediate,
        o.choices == choices,
{
    DipOption { name, mask, apply: DipApplyTiming::Immediate, choices }
}

/// `current` with the bits under `mask` replaced by those of `value`.
pub open spec fn masked(current: u8, mask: u8, value: u8) -> u8 {
    (current & !mask) | (value & mask)
}

/// Replace the bits under `mask`.
pub fn apply_mask(current: u8, mask: u8, value: u8) -> (out: u8)
    ensures
        out == masked(current, mask, value),
{
    (current & !mask) | (value & mask)
}

/// Setting an option changes no bit outside its mask, and puts its value under
/// the mask.
pub proof fn law_option_changes_only_its_bits(current: u8, mask: u8, value: u8)
    ensures
        masked(current, mask, value) & !mask == current & !mask,
        masked(current, mask, value) & mask == value & mask,
{
    assert({
        &&& ((current & !mask) | (value & mask)) & !mask == current & !mask
        &&& ((current & !mask) | (value & mask)) & mask == value & mask
    }) by (bit_vector);
}

} // verus!
