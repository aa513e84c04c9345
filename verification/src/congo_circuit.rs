//! The Congo Bongo percussion circuit: five voices summed with the sound
//! chips' mix.

use vstd::prelude::*;

use crate::circuit::{Netlist, Node, NodeRow, Part, Ratio, lemma_reaches, node, ordered, reaches, settles};

verus! {

/// The stages.
pub open spec fn circuit_table() -> Seq<NodeRow> {
    seq![
        ("PSG", Part::ExternalSource, Seq::<usize>::empty()),
        ("GORILLA", Part::LogicInput, Seq::<usize>::empty()),
        ("BASS", Part::LogicInput, Seq::<usize>::empty()),
        ("CONGA_LOW", Part::LogicInput, Seq::<usize>::empty()),
        ("CONGA_HIGH", Part::LogicInput, Seq::<usize>::empty()),
        ("RIM", Part::LogicInput, Seq::<usize>::empty()),
        ("GORILLA", Part::Burst { attack: 90, decay: 230, tremolo_hz: 28, one_shot: true }, seq![1usize]),
        ("GORILLA_LP", Part::LowPass { hz: 700, q: Ratio { num: 707, den: 1000 } }, seq![6usize]),
        ("GORILLA_OUT", Part::Gain(Ratio { num: 85, den: 100 }), seq![7usize]),
        ("BASS", Part::Drum { hz: 90, decay: 55, drop: Ratio { num: 13, den: 10 } }, seq![2usize]),
        ("BASS_OUT", Part::Gain(Ratio { num: 95, den: 100 }), seq![9usize]),
        ("CONGA_LOW", Part::Drum { hz: 160, decay: 95, drop: Ratio { num: 0, den: 1 } }, seq![3usize]),
        ("CONGA_LOW_OUT", Part::Gain(Ratio { num: 7, den: 10 }), seq![11usize]),
        ("CONGA_HIGH", Part::Drum { hz: 250, decay: 110, drop: Ratio { num: 0, den: 1 } }, seq![4usize]),
        ("CONGA_HIGH_OUT", Part::Gain(Ratio { num: 7, den: 10 }), seq![13usize]),
        ("RIM", Part::Burst { attack: 0, decay: 22, tremolo_hz: 0, one_shot: false }, seq![5usize]),
        ("RIM_LP", Part::LowPass { hz: 1800, q: Ratio { num: 707, den: 1000 } }, seq![15usize]),
        ("RIM_OUT", Part::Gain(Ratio { num: 55, den: 100 }), seq![16usize]),
        ("MIX", Part::Sum, seq![0usize, 8usize, 10usize, 12usize, 14usize, 17usize]),
    ]
}

/// Build the circuit.
pub fn congo_circuit() -> (c: Netlist)
    ensures
        c.table() == circuit_table(),
        ordered(c.table()),
        c.output == 18,
{
    let nodes: Vec<Node> = vec![
        node("PSG", Part::ExternalSource, vec![]),
        node("GORILLA", Part::LogicInput, vec![]),
        node("BASS", Part::LogicInput, vec![]),
        node("CONGA_LOW", Part::LogicInput, vec![]),
        node("CONGA_HIGH", Part::LogicInput, vec![]),
        node("RIM", Part::LogicInput, vec![]),
        node("GORILLA", Part::Burst { attack: 90, decay: 230, tremolo_hz: 28, one_shot: true }, vec![1]),
        node("GORILLA_LP", Part::LowPass { hz: 700, q: Ratio { num: 707, den: 1000 } }, vec![6]),
        node("GORILLA_OUT", Part::Gain(Ratio { num: 85, den: 100 }), vec![7]),
        node("BASS", Part::Drum { hz: 90, decay: 55, drop: Ratio { num: 13, den: 10 } }, vec![2]),
        node("BASS_OUT", Part::Gain(Ratio { num: 95, den: 100 }), vec![9]),
        node("CONGA_LOW", Part::Drum { hz: 160, decay: 95, drop: Ratio { num: 0, den: 1 } }, vec![3]),
        node("CONGA_LOW_OUT", Part::Gain(Ratio { num: 7, den: 10 }), vec![11]),
        node("CONGA_HIGH", Part::Drum { hz: 250, decay: 110, drop: Ratio { num: 0, den: 1 } }, vec![4]),
        node("CONGA_HIGH_OUT", Part::Gain(Ratio { num: 7, den: 10 }), vec![13]),
        node("RIM", Part::Burst { attack: 0, decay: 22, tremolo_hz: 0, one_shot: false }, vec![5]),
        node("RIM_LP", Part::LowPass { hz: 1800, q: Ratio { num: 707, den: 1000 } }, vec![15]),
        node("RIM_OUT", Part::Gain(Ratio { num: 55, den: 100 }), vec![16]),
        node("MIX", Part::Sum, vec![0, 8, 10, 12, 14, 17]),
    ];
    let c: Netlist = Netlist { nodes, output: 18 };
    proof {
        assert(c.nodes@[0].inputs@ =~= circuit_table()[0].2);
        assert(c.nodes@[1].inputs@ =~= circuit_table()[1].2);
        assert(c.nodes@[2].inputs@ =~= circuit_table()[2].2);
        assert(c.nodes@[3].inputs@ =~= circuit_table()[3].2);
        assert(c.nodes@[4].inputs@ =~= circuit_table()[4].2);
        assert(c.nodes@[5].inputs@ =~= circuit_table()[5].2);
        assert(c.nodes@[6].inputs@ =~= circuit_table()[6].2);
        assert(c.nodes@[7].inputs@ =~= circuit_table()[7].2);
        assert(c.nodes@[8].inputs@ =~= circuit_table()[8].2);
        assert(c.nodes@[9].inputs@ =~= circuit_table()[9].2);
        assert(c.nodes@[10].inputs@ =~= circuit_table()[10].2);
        assert(c.nodes@[11].inputs@ =~= circuit_table()[11].2);
        assert(c.nodes@[12].inputs@ =~= circuit_table()[12].2);
        assert(c.nodes@[13].inputs@ =~= circuit_table()[13].2);
        assert(c.nodes@[14].inputs@ =~= circuit_table()[14].2);
        assert(c.nodes@[15].inputs@ =~= circuit_table()[15].2);
        assert(c.nodes@[16].inputs@ =~= circuit_table()[16].2);
        assert(c.nodes@[17].inputs@ =~= circuit_table()[17].2);
        assert(c.nodes@[18].inputs@ =~= circuit_table()[18].2);
        assert(c.table() =~= circuit_table());
        lemma_ordered();
    }
    c
}

proof fn lemma_ordered()
    ensures
        ordered(circuit_table()),
{
    let t = circuit_table();
    assert(settles(t, 0));
    assert(settles(t, 1));
    assert(settles(t, 2));
    assert(settles(t, 3));
    assert(settles(t, 4));
    assert(settles(t, 5));
    assert(settles(t, 6));
    assert(settles(t, 7));
    assert(settles(t, 8));
    assert(settles(t, 9));
    assert(settles(t, 10));
    assert(settles(t, 11));
    assert(settles(t, 12));
    assert(settles(t, 13));
    assert(settles(t, 14));
    assert(settles(t, 15));
    assert(settles(t, 16));
    assert(settles(t, 17));
    assert(settles(t, 18));
}

/// Every voice and the sound chips' mix change what is heard.
pub proof fn law_every_input_is_heard(i: int)
    requires
        0 <= i < 6,
    ensures
        reaches(circuit_table(), i, 18),
{
    let t = circuit_table();
    assert(reaches(t, i, i));
    if i == 0 {
        lemma_reaches(t, i, 0, 18, 0);
    } else if i == 1 {
        lemma_reaches(t, i, 1, 6, 0);
        lemma_reaches(t, i, 6, 7, 0);
        lemma_reaches(t, i, 7, 8, 0);
        lemma_reaches(t, i, 8, 18, 1);
    } else if i == 2 {
        lemma_reaches(t, i, 2, 9, 0);
        lemma_reaches(t, i, 9, 10, 0);
        lemma_reaches(t, i, 10, 18, 2);
    } else if i == 3 {
        lemma_reaches(t, i, 3, 11, 0);
        lemma_reaches(t, i, 11, 12, 0);
        lemma_reaches(t, i, 12, 18, 3);
    } else if i == 4 {
        lemma_reaches(t, i, 4, 13, 0);
        lemma_reaches(t, i, 13, 14, 0);
        lemma_reaches(t, i, 14, 18, 4);
    } else if i == 5 {
        lemma_reaches(t, i, 5, 15, 0);
        lemma_reaches(t, i, 15, 16, 0);
        lemma_reaches(t, i, 16, 17, 0);
        lemma_reaches(t, i, 17, 18, 5);
    }
}

} // verus!
