//! Discrete sound circuits as netlists: which stages there are, what each is
//! made of, and what feeds it.

use vstd::prelude::*;

verus! {

/// A number as a fraction.
#[derive(Clone, Copy, Debug, PartialEq, Eq, Structural)]
pub struct Ratio {
    pub num: i64,
    pub den: u64,
}

/// How a timer's current source reaches its capacitor.
#[derive(Clone, Copy, Debug, PartialEq, Eq, Structural)]
pub enum TimerFeed {
    /// Straight onto the capacitor, which empties toward the discharge resistor's
    /// drop.
    Capacitor,
    /// Onto the discharge pin, so the capacitor empties toward ground.
    DischargePin,
}

/// A stage. Resistors are in ohms, capacitors in picofarads, voltages in
/// millivolts, times in milliseconds.
#[derive(Clone, Copy, Debug, PartialEq, Eq, Structural)]
pub enum Part {
    /// A number that the board sets.
    DataInput,
    /// A pulse that the board gives.
    PulseInput,
    /// A line that the board drives.
    LogicInput,
    /// A signal made elsewhere.
    ExternalSource,
    Constant(Ratio),
    /// Its input times a factor.
    Gain(Ratio),
    /// Its inputs added.
    Sum,
    /// Its inputs multiplied.
    Product,
    RcLowPass { ohms: u32, picofarads: u64 },
    RcHighPass { ohms: u32, picofarads: u64 },
    /// Two poles.
    LowPass { hz: u32, q: Ratio },
    /// A multiple-feedback stage: signal and reference resistors, feedback, two
    /// equal capacitors, and the rails.
    BandPass { signal_ohms: u32, reference_ohms: u32, feedback_ohms: u32, picofarads: u64, rail: u32 },
    /// A shift register as a noise source.
    NoiseRegister { hz: u32 },
    /// The same register clocked at a divided rate. Inputs: volume, divider,
    /// reset.
    DividedNoise { hz: u32 },
    /// A four-bit ladder, a weight per bit from the lowest on.
    Ladder { w0: Ratio, w1: Ratio, w2: Ratio, w3: Ratio },
    /// A 555 run by a current source. Inputs: control voltage, enable.
    Timer {
        source_ohms: u32,
        picofarads: u64,
        discharge_ohms: u32,
        supply: u32,
        source: u32,
        junction: u32,
        feed: TimerFeed,
    },
    /// A triangle at the rate of its input.
    Triangle,
    Square { hz: u32 },
    /// A capacitor that is held while its input is low and fills at a constant
    /// current up to a ceiling while it is high.
    PitchCapacitor { hold: u32, ceiling: u32, drive: u32, source_ohms: u32, picofarads: u64 },
    /// The node that a timer pulls down against a storage capacitor. Inputs:
    /// enable, timer.
    OutputNode { series_ohms: u32, picofarads: u64, mix_ohms: u32, hold: u32, clamp: u32 },
    /// A damped sine that bends down from `1 + drop` times its pitch.
    Drum { hz: u32, decay: u32, drop: Ratio },
    /// A burst of noise with an attack, a decay and a tremolo.
    Burst { attack: u32, decay: u32, tremolo_hz: u32, one_shot: bool },
}

/// A stage by its name, with the stages that feed it.
pub struct Node {
    pub name: &'static str,
    pub part: Part,
    pub inputs: Vec<usize>,
}

/// A circuit: its stages in the order in which they settle, and the one that is
/// heard.
pub struct Netlist {
    pub nodes: Vec<Node>,
    pub output: usize,
}

/// A stage as a value.
pub type NodeRow = (&'static str, Part, Seq<usize>);

impl Node {
    pub open spec fn row(&self) -> NodeRow {
        (self.name, self.part, self.inputs@)
    }
}

impl Netlist {
    pub open spec fn table(&self) -> Seq<NodeRow> {
        Seq::new(self.nodes@.len(), |i: int| self.nodes@[i].row())
    }
}

/// How many stages feed a part, if that is fixed.
pub open spec fn fan_in(p: Part) -> Option<nat> {
    match p {
        Part::DataInput | Part::PulseInput | Part::LogicInput | Part::ExternalSource => Some(0),
        Part::Constant(_) | Part::NoiseRegister { .. } | Part::Square { .. } => Some(0),
        Part::Sum => None,
        Part::Product | Part::Timer { .. } | Part::OutputNode { .. } => Some(2),
        Part::DividedNoise { .. } => Some(3),
        _ => Some(1),
    }
}

/// The fractions of a part have a denominator.
pub open spec fn proper(p: Part) -> bool {
    match p {
        Part::Constant(r) | Part::Gain(r) => r.den > 0,
        Part::LowPass { hz, q } => q.den > 0,
        Part::Drum { hz, decay, drop } => drop.den > 0,
        Part::Ladder { w0, w1, w2, w3 } => w0.den > 0 && w1.den > 0 && w2.den > 0 && w3.den > 0,
        _ => true,
    }
}

/// Stage `i` is fed by as many stages as it takes, all of them before it.
pub open spec fn settles(t: Seq<NodeRow>, i: int) -> bool {
    &&& fan_in(t[i].1) matches Some(n) ==> t[i].2.len() == n
    &&& proper(t[i].1)
    &&& forall|k: int| 0 <= k < t[i].2.len() ==> (#[trigger] t[i].2[k]) < i
}

/// Every stage can be computed from the ones before it.
pub open spec fn ordered(t: Seq<NodeRow>) -> bool {
    forall|i: int| 0 <= i < t.len() ==> #[trigger] settles(t, i)
}

/// Stage `from` feeds stage `to`, directly or through others.
pub open spec fn reaches(t: Seq<NodeRow>, from: int, to: int) -> bool
    decreases to,
{
    from == to || exists|k: int|
        0 <= k < t[to].2.len() && (#[trigger] t[to].2[k]) < to && reaches(t, from, t[to].2[k] as int)
}

/// One more stage downstream.
pub proof fn lemma_reaches(t: Seq<NodeRow>, from: int, mid: int, to: int, k: int)
    requires
        reaches(t, from, mid),
        0 <= k < t[to].2.len(),
        t[to].2[k] == mid,
        mid < to,
    ensures
        reaches(t, from, to),
{
    assert(t[to].2[k] < to);
}

/// One stage.
pub fn node(name: &'static str, part: Part, inputs: Vec<usize>) -> (n: Node)
    ensures
        n.row() == (name, part, inputs@),
{
    Node { name, part, inputs }
}

} // verus!
