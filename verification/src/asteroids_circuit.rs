//! The Asteroids sound circuit: seven effects summed and coupled to the
//! amplifier.

use vstd::prelude::*;

use crate::circuit::{
    Netlist, Node, NodeRow, Part, Ratio, TimerFeed, lemma_reaches, node, ordered, reaches, settles,
};

verus! {

/// Mix level of each effect, in tenths.
pub const LVL_EXPLOSION: i64 = 10_000;

pub const LVL_THRUST: i64 = 6_000;

pub const LVL_LIFE: i64 = 1_000;

pub const LVL_THUMP: i64 = 1_316;

pub const LVL_SAUCER: i64 = 761;

pub const LVL_SHIP_FIRE: i64 = 530;

pub const LVL_SAUCER_FIRE: i64 = 495;

pub const LVL_TOTAL: i64 = LVL_EXPLOSION + LVL_THRUST + LVL_LIFE + LVL_THUMP + LVL_SAUCER
    + LVL_SHIP_FIRE + LVL_SAUCER_FIRE;

/// The stages.
pub open spec fn circuit_table() -> Seq<NodeRow> {
    seq![
        ("EXPLODE_VOL", Part::DataInput, Seq::<usize>::empty()),
        ("EXPLODE_PITCH", Part::DataInput, Seq::<usize>::empty()),
        ("NOISE_RESET", Part::PulseInput, Seq::<usize>::empty()),
        ("THUMP_EN", Part::LogicInput, Seq::<usize>::empty()),
        ("THUMP_DATA", Part::DataInput, Seq::<usize>::empty()),
        ("SAUCER_EN", Part::LogicInput, Seq::<usize>::empty()),
        ("SAUCER_FIRE", Part::LogicInput, Seq::<usize>::empty()),
        ("SAUCER_SEL", Part::LogicInput, Seq::<usize>::empty()),
        ("THRUST_EN", Part::LogicInput, Seq::<usize>::empty()),
        ("SHIP_FIRE", Part::LogicInput, Seq::<usize>::empty()),
        ("LIFE_EN", Part::LogicInput, Seq::<usize>::empty()),
        ("EXPLODE_NOISE", Part::DividedNoise { hz: 12000 }, seq![0usize, 1usize, 2usize]),
        ("EXPLODE_LP", Part::RcLowPass { ohms: 3042, picofarads: 1000000 }, seq![11usize]),
        ("EXPLODE", Part::Gain(Ratio { num: 10000, den: 20102 }), seq![12usize]),
        ("THRUST_NOISE", Part::NoiseRegister { hz: 12000 }, Seq::<usize>::empty()),
        ("THRUST_RC", Part::RcLowPass { ohms: 2200, picofarads: 1000000 }, seq![14usize]),
        ("THRUST_GATE", Part::Product, seq![15usize, 8usize]),
        ("THRUST_BP", Part::BandPass { signal_ohms: 47000, reference_ohms: 1200, feedback_ohms: 270000, picofarads: 100000, rail: 12000 }, seq![16usize]),
        ("THRUST_LP", Part::RcLowPass { ohms: 10000, picofarads: 100000 }, seq![17usize]),
        ("THRUST", Part::Gain(Ratio { num: 94000, den: 80937 }), seq![18usize]),
        ("THUMP_DAC", Part::Ladder { w0: Ratio { num: 139825, den: 2193840 }, w1: Ratio { num: 307615, den: 2193840 }, w2: Ratio { num: 654500, den: 2193840 }, w3: Ratio { num: 1398250, den: 2193840 } }, seq![4usize]),
        ("THUMP_DAC_OFF", Part::Constant(Ratio { num: 5557750, den: 2193840 }), Seq::<usize>::empty()),
        ("THUMP_CV", Part::Sum, seq![20usize, 21usize]),
        ("THUMP_555", Part::Timer { source_ohms: 22000, picofarads: 220000, discharge_ohms: 18000, supply: 5000, source: 5000, junction: 800, feed: TimerFeed::Capacitor }, seq![22usize, 3usize]),
        ("THUMP_RC", Part::RcLowPass { ohms: 3300, picofarads: 100000 }, seq![23usize]),
        ("THUMP", Part::Gain(Ratio { num: 13160, den: 381938 }), seq![24usize]),
        ("SAUCER_WBASE", Part::Constant(Ratio { num: 825, den: 100 }), Seq::<usize>::empty()),
        ("SAUCER_WSEL", Part::Gain(Ratio { num: (-25) as i64, den: 10 }), seq![7usize]),
        ("SAUCER_WRATE", Part::Sum, seq![26usize, 27usize]),
        ("SAUCER_LFO", Part::Triangle, seq![28usize]),
        ("SAUCER_DEV", Part::Gain(Ratio { num: 460, den: 1 }), seq![29usize]),
        ("SAUCER_BASE", Part::Constant(Ratio { num: 1210, den: 1 }), Seq::<usize>::empty()),
        ("SAUCER_SELOFF", Part::Gain(Ratio { num: (-250) as i64, den: 1 }), seq![7usize]),
        ("SAUCER_FREQ", Part::Sum, seq![31usize, 30usize, 32usize]),
        ("SAUCER_TONE", Part::Triangle, seq![33usize]),
        ("SAUCER_G", Part::Product, seq![34usize, 5usize]),
        ("SAUCER", Part::Gain(Ratio { num: 761, den: 20102 }), seq![35usize]),
        ("SHIP_FIRE_CV", Part::PitchCapacitor { hold: 5000, ceiling: 10960, drive: 840, source_ohms: 33000, picofarads: 1000000 }, seq![9usize]),
        ("SHIP_FIRE_555", Part::Timer { source_ohms: 3300, picofarads: 1000000, discharge_ohms: 680, supply: 5000, source: 12000, junction: 0, feed: TimerFeed::DischargePin }, seq![37usize, 9usize]),
        ("SHIP_FIRE_NODE", Part::OutputNode { series_ohms: 2700, picofarads: 10000000, mix_ohms: 100000, hold: 5000, clamp: 700 }, seq![9usize, 38usize]),
        ("SHIP_FIRE_OUT", Part::Gain(Ratio { num: 53000, den: 4321930 }), seq![39usize]),
        ("SAUCER_FIRE_CV", Part::PitchCapacitor { hold: 5000, ceiling: 10960, drive: 840, source_ohms: 10000, picofarads: 10000000 }, seq![6usize]),
        ("SAUCER_FIRE_555", Part::Timer { source_ohms: 3300, picofarads: 1000000, discharge_ohms: 680, supply: 5000, source: 12000, junction: 0, feed: TimerFeed::DischargePin }, seq![41usize, 6usize]),
        ("SAUCER_FIRE_NODE", Part::OutputNode { series_ohms: 10000, picofarads: 10000000, mix_ohms: 100000, hold: 5000, clamp: 700 }, seq![6usize, 42usize]),
        ("SAUCER_FIRE_OUT", Part::Gain(Ratio { num: 49500, den: 4321930 }), seq![43usize]),
        ("LIFE_TONE", Part::Square { hz: 3000 }, Seq::<usize>::empty()),
        ("LIFE_G", Part::Product, seq![45usize, 10usize]),
        ("LIFE", Part::Gain(Ratio { num: 1000, den: 20102 }), seq![46usize]),
        ("MIX", Part::Sum, seq![13usize, 19usize, 25usize, 36usize, 40usize, 44usize, 47usize]),
        ("AUDIO_COUPLING", Part::RcHighPass { ohms: 10000, picofarads: 10000000 }, seq![48usize]),
    ]
}

/// Build the circuit.
pub fn asteroids_circuit() -> (c: Netlist)
    ensures
        c.table() == circuit_table(),
        ordered(c.table()),
        c.output == 49,
{
    let nodes: Vec<Node> = vec![
        node("EXPLODE_VOL", Part::DataInput, vec![]),
        node("EXPLODE_PITCH", Part::DataInput, vec![]),
        node("NOISE_RESET", Part::PulseInput, vec![]),
        node("THUMP_EN", Part::LogicInput, vec![]),
        node("THUMP_DATA", Part::DataInput, vec![]),
        node("SAUCER_EN", Part::LogicInput, vec![]),
        node("SAUCER_FIRE", Part::LogicInput, vec![]),
        node("SAUCER_SEL", Part::LogicInput, vec![]),
        node("THRUST_EN", Part::LogicInput, vec![]),
        node("SHIP_FIRE", Part::LogicInput, vec![]),
        node("LIFE_EN", Part::LogicInput, vec![]),
        node("EXPLODE_NOISE", Part::DividedNoise { hz: 12000 }, vec![0, 1, 2]),
        node("EXPLODE_LP", Part::RcLowPass { ohms: 3042, picofarads: 1000000 }, vec![11]),
        node("EXPLODE", Part::Gain(Ratio { num: 10000, den: 20102 }), vec![12]),
        node("THRUST_NOISE", Part::NoiseRegister { hz: 12000 }, vec![]),
        node("THRUST_RC", Part::RcLowPass { ohms: 2200, picofarads: 1000000 }, vec![14]),
        node("THRUST_GATE", Part::Product, vec![15, 8]),
        node("THRUST_BP", Part::BandPass { signal_ohms: 47000, reference_ohms: 1200, feedback_ohms: 270000, picofarads: 100000, rail: 12000 }, vec![16]),
        node("THRUST_LP", Part::RcLowPass { ohms: 10000, picofarads: 100000 }, vec![17]),
        node("THRUST", Part::Gain(Ratio { num: 94000, den: 80937 }), vec![18]),
        node("THUMP_DAC", Part::Ladder { w0: Ratio { num: 139825, den: 2193840 }, w1: Ratio { num: 307615, den: 2193840 }, w2: Ratio { num: 654500, den: 2193840 }, w3: Ratio { num: 1398250, den: 2193840 } }, vec![4]),
        node("THUMP_DAC_OFF", Part::Constant(Ratio { num: 5557750, den: 2193840 }), vec![]),
        node("THUMP_CV", Part::Sum, vec![20, 21]),
        node("THUMP_555", Part::Timer { source_ohms: 22000, picofarads: 220000, discharge_ohms: 18000, supply: 5000, source: 5000, junction: 800, feed: TimerFeed::Capacitor }, vec![22, 3]),
        node("THUMP_RC", Part::RcLowPass { ohms: 3300, picofarads: 100000 }, vec![23]),
        node("THUMP", Part::Gain(Ratio { num: 13160, den: 381938 }), vec![24]),
        node("SAUCER_WBASE", Part::Constant(Ratio { num: 825, den: 100 }), vec![]),
        node("SAUCER_WSEL", Part::Gain(Ratio { num: -25, den: 10 }), vec![7]),
        node("SAUCER_WRATE", Part::Sum, vec![26, 27]),
        node("SAUCER_LFO", Part::Triangle, vec![28]),
        node("SAUCER_DEV", Part::Gain(Ratio { num: 460, den: 1 }), vec![29]),
        node("SAUCER_BASE", Part::Constant(Ratio { num: 1210, den: 1 }), vec![]),
        node("SAUCER_SELOFF", Part::Gain(Ratio { num: -250, den: 1 }), vec![7]),
        node("SAUCER_FREQ", Part::Sum, vec![31, 30, 32]),
        node("SAUCER_TONE", Part::Triangle, vec![33]),
        node("SAUCER_G", Part::Product, vec![34, 5]),
        node("SAUCER", Part::Gain(Ratio { num: 761, den: 20102 }), vec![35]),
        node("SHIP_FIRE_CV", Part::PitchCapacitor { hold: 5000, ceiling: 10960, drive: 840, source_ohms: 33000, picofarads: 1000000 }, vec![9]),
        node("SHIP_FIRE_555", Part::Timer { source_ohms: 3300, picofarads: 1000000, discharge_ohms: 680, supply: 5000, source: 12000, junction: 0, feed: TimerFeed::DischargePin }, vec![37, 9]),
        node("SHIP_FIRE_NODE", Part::OutputNode { series_ohms: 2700, picofarads: 10000000, mix_ohms: 100000, hold: 5000, clamp: 700 }, vec![9, 38]),
        node("SHIP_FIRE_OUT", Part::Gain(Ratio { num: 53000, den: 4321930 }), vec![39]),
        node("SAUCER_FIRE_CV", Part::PitchCapacitor { hold: 5000, ceiling: 10960, drive: 840, source_ohms: 10000, picofarads: 10000000 }, vec![6]),
        node("SAUCER_FIRE_555", Part::Timer { source_ohms: 3300, picofarads: 1000000, discharge_ohms: 680, supply: 5000, source: 12000, junction: 0, feed: TimerFeed::DischargePin }, vec![41, 6]),
        node("SAUCER_FIRE_NODE", Part::OutputNode { series_ohms: 10000, picofarads: 10000000, mix_ohms: 100000, hold: 5000, clamp: 700 }, vec![6, 42]),
        node("SAUCER_FIRE_OUT", Part::Gain(Ratio { num: 49500, den: 4321930 }), vec![43]),
        node("LIFE_TONE", Part::Square { hz: 3000 }, vec![]),
        node("LIFE_G", Part::Product, vec![45, 10]),
        node("LIFE", Part::Gain(Ratio { num: 1000, den: 20102 }), vec![46]),
        node("MIX", Part::Sum, vec![13, 19, 25, 36, 40, 44, 47]),
        node("AUDIO_COUPLING", Part::RcHighPass { ohms: 10000, picofarads: 10000000 }, vec![48]),
    ];
    let c: Netlist = Netlist { nodes, output: 49 };
    proof {
        assert(c.nodes@[0].inputs@ =~= circuit_table()[0].2);
        assert(c.nodes@[1].inputs@ =~= circuit_table()[1].2);
        assert(c.nodes@[2].inputs@ =~= circuit_table()[2].2);
        assert(c.nodes@[3].inputs@ =~= circuit_table()[3].2);
        assert(c.nodes@[4].inputs@ =~= circuit_table()[4].2);
        assert(c.nodes@[5].inputs@ =~= circuit_table()[5].2);
        assert(c.nodes@[6].inputs@ =~= circuit_table()[6].2);
        assert(c.nodes@[7].inputs@ =~= circuit_table()[7].2);
        assert(c.nodes@[8].inputs@ =~= circuit_table()[8].2);
        assert(c.nodes@[9].inputs@ =~= circuit_table()[9].2);
        assert(c.nodes@[10].inputs@ =~= circuit_table()[10].2);
        assert(c.nodes@[11].inputs@ =~= circuit_table()[11].2);
        assert(c.nodes@[12].inputs@ =~= circuit_table()[12].2);
        assert(c.nodes@[13].inputs@ =~= circuit_table()[13].2);
        assert(c.nodes@[14].inputs@ =~= circuit_table()[14].2);
        assert(c.nodes@[15].inputs@ =~= circuit_table()[15].2);
        assert(c.nodes@[16].inputs@ =~= circuit_table()[16].2);
        assert(c.nodes@[17].inputs@ =~= circuit_table()[17].2);
        assert(c.nodes@[18].inputs@ =~= circuit_table()[18].2);
        assert(c.nodes@[19].inputs@ =~= circuit_table()[19].2);
        assert(c.nodes@[20].inputs@ =~= circuit_table()[20].2);
        assert(c.nodes@[21].inputs@ =~= circuit_table()[21].2);
        assert(c.nodes@[22].inputs@ =~= circuit_table()[22].2);
        assert(c.nodes@[23].inputs@ =~= circuit_table()[23].2);
        assert(c.nodes@[24].inputs@ =~= circuit_table()[24].2);
        assert(c.nodes@[25].inputs@ =~= circuit_table()[25].2);
        assert(c.nodes@[26].inputs@ =~= circuit_table()[26].2);
        assert(c.nodes@[27].inputs@ =~= circuit_table()[27].2);
        assert(c.nodes@[28].inputs@ =~= circuit_table()[28].2);
        assert(c.nodes@[29].inputs@ =~= circuit_table()[29].2);
        assert(c.nodes@[30].inputs@ =~= circuit_table()[30].2);
        assert(c.nodes@[31].inputs@ =~= circuit_table()[31].2);
        assert(c.nodes@[32].inputs@ =~= circuit_table()[32].2);
        assert(c.nodes@[33].inputs@ =~= circuit_table()[33].2);
        assert(c.nodes@[34].inputs@ =~= circuit_table()[34].2);
        assert(c.nodes@[35].inputs@ =~= circuit_table()[35].2);
        assert(c.nodes@[36].inputs@ =~= circuit_table()[36].2);
        assert(c.nodes@[37].inputs@ =~= circuit_table()[37].2);
        assert(c.nodes@[38].inputs@ =~= circuit_table()[38].2);
        assert(c.nodes@[39].inputs@ =~= circuit_table()[39].2);
        assert(c.nodes@[40].inputs@ =~= circuit_table()[40].2);
        assert(c.nodes@[41].inputs@ =~= circuit_table()[41].2);
        assert(c.nodes@[42].inputs@ =~= circuit_table()[42].2);
        assert(c.nodes@[43].inputs@ =~= circuit_table()[43].2);
        assert(c.nodes@[44].inputs@ =~= circuit_table()[44].2);
        assert(c.nodes@[45].inputs@ =~= circuit_table()[45].2);
        assert(c.nodes@[46].inputs@ =~= circuit_table()[46].2);
        assert(c.nodes@[47].inputs@ =~= circuit_table()[47].2);
        assert(c.nodes@[48].inputs@ =~= circuit_table()[48].2);
        assert(c.nodes@[49].inputs@ =~= circuit_table()[49].2);
        assert(c.table() =~= circuit_table());
        lemma_ordered();
    }
    c
}

proof fn lemma_ordered()
    ensures
        ordered(circuit_table()),
{
    let t = circuit_table();
    assert(settles(t, 0));
    assert(settles(t, 1));
    assert(settles(t, 2));
    assert(settles(t, 3));
    assert(settles(t, 4));
    assert(settles(t, 5));
    assert(settles(t, 6));
    assert(settles(t, 7));
    assert(settles(t, 8));
    assert(settles(t, 9));
    assert(settles(t, 10));
    assert(settles(t, 11));
    assert(settles(t, 12));
    assert(settles(t, 13));
    assert(settles(t, 14));
    assert(settles(t, 15));
    assert(settles(t, 16));
    assert(settles(t, 17));
    assert(settles(t, 18));
    assert(settles(t, 19));
    assert(settles(t, 20));
    assert(settles(t, 21));
    assert(settles(t, 22));
    assert(settles(t, 23));
    assert(settles(t, 24));
    assert(settles(t, 25));
    assert(settles(t, 26));
    assert(settles(t, 27));
    assert(settles(t, 28));
    assert(settles(t, 29));
    assert(settles(t, 30));
    assert(settles(t, 31));
    assert(settles(t, 32));
    assert(settles(t, 33));
    assert(settles(t, 34));
    assert(settles(t, 35));
    assert(settles(t, 36));
    assert(settles(t, 37));
    assert(settles(t, 38));
    assert(settles(t, 39));
    assert(settles(t, 40));
    assert(settles(t, 41));
    assert(settles(t, 42));
    assert(settles(t, 43));
    assert(settles(t, 44));
    assert(settles(t, 45));
    assert(settles(t, 46));
    assert(settles(t, 47));
    assert(settles(t, 48));
    assert(settles(t, 49));
}

/// Every input of the board changes what is heard.
pub proof fn law_every_input_is_heard(i: int)
    requires
        0 <= i < 11,
    ensures
        reaches(circuit_table(), i, 49),
{
    let t = circuit_table();
    assert(reaches(t, i, i));
    if i == 0 {
        lemma_reaches(t, i, 0, 11, 0);
        lemma_reaches(t, i, 11, 12, 0);
        lemma_reaches(t, i, 12, 13, 0);
        lemma_reaches(t, i, 13, 48, 0);
        lemma_reaches(t, i, 48, 49, 0);
    } else if i == 1 {
        lemma_reaches(t, i, 1, 11, 1);
        lemma_reaches(t, i, 11, 12, 0);
        lemma_reaches(t, i, 12, 13, 0);
        lemma_reaches(t, i, 13, 48, 0);
        lemma_reaches(t, i, 48, 49, 0);
    } else if i == 2 {
        lemma_reaches(t, i, 2, 11, 2);
        lemma_reaches(t, i, 11, 12, 0);
        lemma_reaches(t, i, 12, 13, 0);
        lemma_reaches(t, i, 13, 48, 0);
        lemma_reaches(t, i, 48, 49, 0);
    } else if i == 3 {
        lemma_reaches(t, i, 3, 23, 1);
        lemma_reaches(t, i, 23, 24, 0);
        lemma_reaches(t, i, 24, 25, 0);
        lemma_reaches(t, i, 25, 48, 2);
        lemma_reaches(t, i, 48, 49, 0);
    } else if i == 4 {
        lemma_reaches(t, i, 4, 20, 0);
        lemma_reaches(t, i, 20, 22, 0);
        lemma_reaches(t, i, 22, 23, 0);
        lemma_reaches(t, i, 23, 24, 0);
        lemma_reaches(t, i, 24, 25, 0);
        lemma_reaches(t, i, 25, 48, 2);
        lemma_reaches(t, i, 48, 49, 0);
    } else if i == 5 {
        lemma_reaches(t, i, 5, 35, 1);
        lemma_reaches(t, i, 35, 36, 0);
        lemma_reaches(t, i, 36, 48, 3);
        lemma_reaches(t, i, 48, 49, 0);
    } else if i == 6 {
        lemma_reaches(t, i, 6, 41, 0);
        lemma_reaches(t, i, 41, 42, 0);
        lemma_reaches(t, i, 42, 43, 1);
        lemma_reaches(t, i, 43, 44, 0);
        lemma_reaches(t, i, 44, 48, 5);
        lemma_reaches(t, i, 48, 49, 0);
    } else if i == 7 {
        lemma_reaches(t, i, 7, 27, 0);
        lemma_reaches(t, i, 27, 28, 1);
        lemma_reaches(t, i, 28, 29, 0);
        lemma_reaches(t, i, 29, 30, 0);
        lemma_reaches(t, i, 30, 33, 1);
        lemma_reaches(t, i, 33, 34, 0);
        lemma_reaches(t, i, 34, 35, 0);
        lemma_reaches(t, i, 35, 36, 0);
        lemma_reaches(t, i, 36, 48, 3);
        lemma_reaches(t, i, 48, 49, 0);
    } else if i == 8 {
        lemma_reaches(t, i, 8, 16, 1);
        lemma_reaches(t, i, 16, 17, 0);
        lemma_reaches(t, i, 17, 18, 0);
        lemma_reaches(t, i, 18, 19, 0);
        lemma_reaches(t, i, 19, 48, 1);
        lemma_reaches(t, i, 48, 49, 0);
    } else if i == 9 {
        lemma_reaches(t, i, 9, 37, 0);
        lemma_reaches(t, i, 37, 38, 0);
        lemma_reaches(t, i, 38, 39, 1);
        lemma_reaches(t, i, 39, 40, 0);
        lemma_reaches(t, i, 40, 48, 4);
        lemma_reaches(t, i, 48, 49, 0);
    } else if i == 10 {
        lemma_reaches(t, i, 10, 46, 1);
        lemma_reaches(t, i, 46, 47, 0);
        lemma_reaches(t, i, 47, 48, 6);
        lemma_reaches(t, i, 48, 49, 0);
    }
}

/// The gain of a stage, where it is one.
pub open spec fn gain_of(row: NodeRow) -> Ratio {
    match row.1 {
        Part::Gain(r) => r,
        _ => Ratio { num: 0, den: 1 },
    }
}

/// The effects that carry their level as it stands have it as a share of the
/// total, so that all of them together stay in range.
pub proof fn law_levels_are_shares_of_the_total()
    ensures
        LVL_TOTAL == 20102,
        ({
            let t = circuit_table();
            &&& gain_of(t[13]) == (Ratio { num: LVL_EXPLOSION, den: LVL_TOTAL as u64 })
            &&& gain_of(t[36]) == (Ratio { num: LVL_SAUCER, den: LVL_TOTAL as u64 })
            &&& gain_of(t[47]) == (Ratio { num: LVL_LIFE, den: LVL_TOTAL as u64 })
        }),
{
}

/// The thump's share, taken out of the volts of half its timer's swing, and the
/// fire voices', out of half their node's swing.
pub proof fn law_voltage_levels_are_normalised()
    ensures
        ({
            let t = circuit_table();
            let thump = gain_of(t[25]);
            let ship = gain_of(t[40]);
            let saucer = gain_of(t[44]);
            &&& thump.num * LVL_TOTAL * (5000 - 1200) == 2000 * LVL_THUMP * thump.den
            &&& ship.num * LVL_TOTAL * (5000 - 700) == 2000 * LVL_SHIP_FIRE * ship.den
            &&& saucer.num * LVL_TOTAL * (5000 - 700) == 2000 * LVL_SAUCER_FIRE * saucer.den
        }),
{
    let t = circuit_table();
    assert(13160int * 20102 * 3800 == 2000 * 1316 * 381938) by (nonlinear_arith);
    assert(53000int * 20102 * 4300 == 2000 * 530 * 4321930) by (nonlinear_arith);
    assert(49500int * 20102 * 4300 == 2000 * 495 * 4321930) by (nonlinear_arith);
    assert(gain_of(t[25]) == (Ratio { num: 13160, den: 381938 }));
    assert(gain_of(t[40]) == (Ratio { num: 53000, den: 4321930 }));
    assert(gain_of(t[44]) == (Ratio { num: 49500, den: 4321930 }));
}

/// The thrust's share, made up for what its narrow filter takes away (its Q of
/// 7.6), with the band-pass stage's own gain taken out and the output stage's
/// gain put in.
pub proof fn law_thrust_level()
    ensures
        ({
            let r = gain_of(circuit_table()[19]);
            r.num * LVL_TOTAL * (10 * 6800 * 270000) == LVL_THRUST * (76 * 10000 * 2 * 47000) * r.den
        }),
{
    assert(94000int * 20102 * (10 * 6800 * 270000) == 6000 * (76 * 10000 * 2 * 47000) * 80937) by (nonlinear_arith);
    assert(gain_of(circuit_table()[19]) == (Ratio { num: 94000, den: 80937 }));
}

/// The thump ladder weighs each bit by the inverse of its resistor: 220k, 100k,
/// 47k and 22k.
pub proof fn law_thump_ladder_follows_its_resistors()
    ensures
        circuit_table()[20].1 matches Part::Ladder { w0, w1, w2, w3 } && w0.num * 220_000 == w1.num * 100_000
            && w1.num * 100_000 == w2.num * 47_000 && w2.num * 47_000 == w3.num * 22_000 && w0.den
            == w1.den && w1.den == w2.den && w2.den == w3.den,
{
}

/// All seven effects meet in the mixer, which feeds the output alone.
pub proof fn law_mixer_takes_every_effect()
    ensures
        circuit_table()[48].2 == seq![13usize, 19usize, 25usize, 36usize, 40usize, 44usize, 47usize],
        circuit_table()[49].2 == seq![48usize],
{
}

} // verus!
