//! Congo Bongo percussion: the gates of its five voices and the noise
//! generator behind two of them.

use vstd::prelude::*;

use crate::bits::lemma_lines;

verus! {

/// Gates of the percussion voices. A voice is gated while its line of the
/// sound board's interface chip is low.
#[derive(Clone, Copy, Debug, PartialEq, Eq, Structural)]
pub struct CongoSound {
    pub gorilla: bool,
    pub bass: bool,
    pub conga_low: bool,
    pub conga_high: bool,
    pub rim: bool,
}

impl CongoSound {
    /// Every voice at rest.
    pub fn new() -> (s: CongoSound)
        ensures
            s == (CongoSound {
                gorilla: false,
                bass: false,
                conga_low: false,
                conga_high: false,
                rim: false,
            }),
    {
        CongoSound { gorilla: false, bass: false, conga_low: false, conga_high: false, rim: false }
    }

    /// The gates that a pair of port bytes sets.
    pub open spec fn gates(port_b: u8, port_c: u8) -> CongoSound {
        CongoSound {
            gorilla: port_b & 0x02 == 0,
            bass: port_c & 0x01 == 0,
            conga_low: port_c & 0x02 == 0,
            conga_high: port_c & 0x04 == 0,
            rim: port_c & 0x08 == 0,
        }
    }

    /// Follow the interface chip's output ports.
    pub fn set_triggers(&mut self, port_b: u8, port_c: u8)
        ensures
            *final(self) == CongoSound::gates(port_b, port_c),
    {
        self.gorilla = port_b & 0x02 == 0;
        self.bass = port_c & 0x01 == 0;
        self.conga_low = port_c & 0x02 == 0;
        self.conga_high = port_c & 0x04 == 0;
        self.rim = port_c & 0x08 == 0;
    }

    /// Let every gate go.
    pub fn reset(&mut self)
        ensures
            *final(self) == (CongoSound {
                gorilla: false,
                bass: false,
                conga_low: false,
                conga_high: false,
                rim: false,
            }),
    {
        *self = CongoSound::new();
    }
}

impl Default for CongoSound {
    fn default() -> (s: CongoSound)
        ensures
            s == (CongoSound {
                gorilla: false,
                bass: false,
                conga_low: false,
                conga_high: false,
                rim: false,
            }),
    {
        CongoSound::new()
    }
}

/// With every line high no voice is gated.
pub proof fn law_idle_ports_gate_nothing()
    ensures
        CongoSound::gates(0xFF, 0xFF) == (CongoSound {
            gorilla: false,
            bass: false,
            conga_low: false,
            conga_high: false,
            rim: false,
        }),
{
    lemma_lines(0xFF);
}

/// Whether a voice starts: on the rising edge of its gate, unless it plays to
/// its end once started and is still sounding.
pub fn voice_starts(gate: bool, last_gate: bool, one_shot: bool, sounding: bool) -> (starts: bool)
    ensures
        starts == (gate && !last_gate && !(one_shot && sounding)),
{
    gate && !last_gate && !(one_shot && sounding)
}

/// Start value of the noise register.
pub const NOISE_SEED: u32 = 0x1_2345;

/// The 17-bit noise register one step on: shifted down, with the feedback taps
/// toggled when a one falls out.
pub open spec fn next_noise_register(lfsr: u32) -> u32 {
    if lfsr & 1 != 0 {
        (lfsr >> 1) ^ 0x1_2000
    } else {
        lfsr >> 1
    }
}

/// Step the noise register; the noise is high while its low bit is one.
pub fn next_noise(lfsr: u32) -> (r: (u32, bool))
    ensures
        r.0 == next_noise_register(lfsr),
        r.1 == (r.0 & 1 != 0),
{
    let shifted: u32 = lfsr >> 1;
    let next: u32 = if lfsr & 1 != 0 {
        shifted ^ 0x1_2000
    } else {
        shifted
    };
    (next, next & 1 != 0)
}

/// The register stays 17 bits wide and, once not zero, never falls to the zero
/// it could not leave.
pub proof fn law_noise_never_stops(lfsr: u32)
    requires
        0 < lfsr < 0x2_0000,
    ensures
        0 < next_noise_register(lfsr) < 0x2_0000,
{
    assert(0 < (if lfsr & 1 != 0 { (lfsr >> 1) ^ 0x1_2000 } else { lfsr >> 1 }) < 0x2_0000)
        by (bit_vector)
        requires
            0 < lfsr < 0x2_0000,
    ;
}

} // verus!
