//! Sound registers of the Asteroids board: what each write means to the
//! discrete circuit.

use vstd::prelude::*;

use crate::bits::{bit, bit_is_set, drive_bit, lemma_with_bit, with_bit};
use crate::machine::{DebugRegister, register_of};
use crate::memory::SaveError;
use crate::state::{StateReader, StateWriter, lemma_append, lemma_nothing_appended};

verus! {

/// By how much the explosion's noise clock is divided, from lines 6-7 of its
/// register.
pub open spec fn divider_of(reg: u8) -> int {
    if reg / 64 == 0 {
        12
    } else if reg / 64 == 1 {
        6
    } else if reg / 64 == 2 {
        3
    } else {
        5
    }
}

/// The explosion's pitch divider.
pub fn explosion_divider(reg: u8) -> (d: u8)
    ensures
        d == divider_of(reg),
{
    if reg / 64 == 0 {
        12
    } else if reg / 64 == 1 {
        6
    } else if reg / 64 == 2 {
        3
    } else {
        5
    }
}

/// The explosion's volume, from lines 2-5 of its register.
pub open spec fn volume_of(reg: u8) -> int {
    (reg as int / 4) % 16
}

/// The board-facing registers of the discrete sound circuit.
pub struct AsteroidsDiscreteSound {
    /// Explosion register: volume on lines 2-5, pitch on lines 6-7.
    pub explosion_reg: u8,
    /// Thump register: enable on line 4, pitch code on lines 0-3.
    pub thump_reg: u8,
    /// Addressable latch, one line per effect.
    pub audio_latch: u8,
    /// A noise reset that the circuit has not seen yet.
    pub noise_reset: bool,
}

/// The registers as a mathematical value.
#[verifier::ext_equal]
pub struct SoundView {
    pub explosion_reg: u8,
    pub thump_reg: u8,
    pub audio_latch: u8,
    pub noise_reset: bool,
}

impl View for AsteroidsDiscreteSound {
    type V = SoundView;

    open spec fn view(&self) -> SoundView {
        SoundView {
            explosion_reg: self.explosion_reg,
            thump_reg: self.thump_reg,
            audio_latch: self.audio_latch,
            noise_reset: self.noise_reset,
        }
    }
}

/// Levels that the registers put on the circuit's inputs.
#[derive(Clone, Copy, Debug, PartialEq, Eq, Structural)]
pub struct SoundDrive {
    /// Explosion volume, 0 to 15.
    pub explosion_vol: u8,
    /// Explosion pitch divider.
    pub explosion_pitch: u8,
    pub thump_en: bool,
    /// Thump pitch code, 0 to 15.
    pub thump_data: u8,
    pub saucer_en: bool,
    pub saucer_fire: bool,
    pub saucer_sel: bool,
    pub thrust_en: bool,
    pub ship_fire: bool,
    pub life_en: bool,
}

impl SoundView {
    /// Power-on: everything silent.
    pub open spec fn silent() -> SoundView {
        SoundView { explosion_reg: 0, thump_reg: 0, audio_latch: 0, noise_reset: false }
    }

    /// What the registers put on the circuit's inputs.
    pub open spec fn drive(&self) -> SoundDrive {
        SoundDrive {
            explosion_vol: volume_of(self.explosion_reg) as u8,
            explosion_pitch: divider_of(self.explosion_reg) as u8,
            thump_en: bit(self.thump_reg, 4),
            thump_data: self.thump_reg % 16,
            saucer_en: bit(self.audio_latch, 0),
            saucer_fire: bit(self.audio_latch, 1),
            saucer_sel: bit(self.audio_latch, 2),
            thrust_en: bit(self.audio_latch, 3),
            ship_fire: bit(self.audio_latch, 4),
            life_en: bit(self.audio_latch, 5),
        }
    }

    /// The registers as a debugger lists them. `mix` is the circuit's output.
    pub open spec fn registers(&self, mix: u16) -> Seq<DebugRegister> {
        seq![
            register_of("SAUCER", level(bit(self.audio_latch, 0)), 8),
            register_of("SAUCER_FIRE", level(bit(self.audio_latch, 1)), 8),
            register_of("SAUCER_SEL", level(bit(self.audio_latch, 2)), 8),
            register_of("THRUST", level(bit(self.audio_latch, 3)), 8),
            register_of("SHIP_FIRE", level(bit(self.audio_latch, 4)), 8),
            register_of("LIFE", level(bit(self.audio_latch, 5)), 8),
            register_of("THUMP_EN", level(bit(self.thump_reg, 4)), 8),
            register_of("THUMP_DATA", self.thump_reg as int % 16, 8),
            register_of("EXPLODE_DATA", volume_of(self.explosion_reg), 8),
            register_of("EXPLODE_PITCH", divider_of(self.explosion_reg), 8),
            register_of("MIX", mix as int, 16),
        ]
    }
}

/// A line as a number.
pub open spec fn level(high: bool) -> int {
    if high {
        1
    } else {
        0
    }
}

fn register(name: &'static str, value: u64, width: u8) -> (r: DebugRegister)
    ensures
        r == register_of(name, value as int, width),
{
    DebugRegister { name, value, width }
}

fn line(v: u8, n: u8) -> (r: u64)
    requires
        n < 8,
    ensures
        r == level(bit(v, n)),
{
    if bit_is_set(v, n) {
        1
    } else {
        0
    }
}

impl AsteroidsDiscreteSound {
    pub fn new() -> (s: AsteroidsDiscreteSound)
        ensures
            s@ == SoundView::silent(),
    {
        AsteroidsDiscreteSound { explosion_reg: 0, thump_reg: 0, audio_latch: 0, noise_reset: false }
    }

    /// Write the explosion register.
    pub fn write_explosion(&mut self, data: u8)
        ensures
            final(self)@ == (SoundView { explosion_reg: data, ..old(self)@ }),
    {
        self.explosion_reg = data;
    }

    /// Write the thump register.
    pub fn write_thump(&mut self, data: u8)
        ensures
            final(self)@ == (SoundView { thump_reg: data, ..old(self)@ }),
    {
        self.thump_reg = data;
    }

    /// Drive one line of the audio latch.
    pub fn write_audio_latch_bit(&mut self, bit: u8, value: bool)
        requires
            bit < 8,
        ensures
            final(self)@ == (SoundView {
                audio_latch: with_bit(old(self)@.audio_latch, bit, value),
                ..old(self)@
            }),
    {
        self.audio_latch = drive_bit(self.audio_latch, bit, value);
    }

    /// Ask for the noise register to be cleared.
    pub fn pulse_noise_reset(&mut self)
        ensures
            final(self)@ == (SoundView { noise_reset: true, ..old(self)@ }),
    {
        self.noise_reset = true;
    }

    /// Hand a noise reset to the circuit, once.
    pub fn take_noise_reset(&mut self) -> (due: bool)
        ensures
            due == old(self)@.noise_reset,
            final(self)@ == (SoundView { noise_reset: false, ..old(self)@ }),
    {
        let due: bool = self.noise_reset;
        self.noise_reset = false;
        due
    }

    /// The levels on the circuit's inputs.
    pub fn drive(&self) -> (d: SoundDrive)
        ensures
            d == self@.drive(),
    {
        SoundDrive {
            explosion_vol: (self.explosion_reg / 4) % 16,
            explosion_pitch: explosion_divider(self.explosion_reg),
            thump_en: bit_is_set(self.thump_reg, 4),
            thump_data: self.thump_reg % 16,
            saucer_en: bit_is_set(self.audio_latch, 0),
            saucer_fire: bit_is_set(self.audio_latch, 1),
            saucer_sel: bit_is_set(self.audio_latch, 2),
            thrust_en: bit_is_set(self.audio_latch, 3),
            ship_fire: bit_is_set(self.audio_latch, 4),
            life_en: bit_is_set(self.audio_latch, 5),
        }
    }

    pub fn reset(&mut self)
        ensures
            final(self)@ == SoundView::silent(),
    {
        self.explosion_reg = 0;
        self.thump_reg = 0;
        self.audio_latch = 0;
        self.noise_reset = false;
    }

    /// The registers as a debugger lists them. `mix` is the circuit's output as
    /// a sample.
    pub fn debug_registers(&self, mix: u16) -> (v: Vec<DebugRegister>)
        ensures
            v@ == self@.registers(mix),
    {
        let v: Vec<DebugRegister> = vec![
            register("SAUCER", line(self.audio_latch, 0), 8),
            register("SAUCER_FIRE", line(self.audio_latch, 1), 8),
            register("SAUCER_SEL", line(self.audio_latch, 2), 8),
            register("THRUST", line(self.audio_latch, 3), 8),
            register("SHIP_FIRE", line(self.audio_latch, 4), 8),
            register("LIFE", line(self.audio_latch, 5), 8),
            register("THUMP_EN", line(self.thump_reg, 4), 8),
            register("THUMP_DATA", (self.thump_reg % 16) as u64, 8),
            register("EXPLODE_DATA", ((self.explosion_reg / 4) % 16) as u64, 8),
            register("EXPLODE_PITCH", explosion_divider(self.explosion_reg) as u64, 8),
            register("MIX", mix as u64, 16),
        ];
        assert(v@ =~= self@.registers(mix));
        v
    }
}

impl Default for AsteroidsDiscreteSound {
    fn default() -> (s: AsteroidsDiscreteSound)
        ensures
            s@ == SoundView::silent(),
    {
        AsteroidsDiscreteSound::new()
    }
}

/// Bytes of this part of a saved state.
pub const REGISTERS_LEN: usize = 3;

impl SoundView {
    /// The registers in a saved state.
    pub open spec fn register_bytes(&self) -> Seq<u8> {
        Seq::<u8>::empty() + seq![self.explosion_reg] + seq![self.thump_reg] + seq![self.audio_latch]
    }

    /// These registers taken back from `b`.
    pub open spec fn with_register_bytes(self, b: Seq<u8>) -> SoundView {
        SoundView {
            explosion_reg: b[0],
            thump_reg: b[1],
            audio_latch: b[2],
            ..self
        }
    }
}

impl AsteroidsDiscreteSound {
    /// The registers in a saved state.
    pub fn save_registers(&self, w: &mut StateWriter)
        ensures
            final(w)@ == old(w)@ + self@.register_bytes(),
    {
        let ghost start = w@;
        let ghost g0 = Seq::<u8>::empty();
        proof {
            lemma_nothing_appended(start);
        }
        w.write_u8(self.explosion_reg);
        proof {
            lemma_append(start, g0, seq![self@.explosion_reg]);
        }
        let ghost g1 = g0 + seq![self@.explosion_reg];
        w.write_u8(self.thump_reg);
        proof {
            lemma_append(start, g1, seq![self@.thump_reg]);
        }
        let ghost g2 = g1 + seq![self@.thump_reg];
        w.write_u8(self.audio_latch);
        proof {
            lemma_append(start, g2, seq![self@.audio_latch]);
        }
        let ghost g3 = g2 + seq![self@.audio_latch];
    }

    /// These registers taken back from `b`.
    /// Fails, changing nothing of the board, where the bytes end too early.
    pub fn load_registers(&mut self, r: &mut StateReader) -> (res: Result<(), SaveError>)
        ensures
            old(r)@.len() >= REGISTERS_LEN ==> res is Ok && final(self)@ == old(self)@.with_register_bytes(old(r)@.take(REGISTERS_LEN as int)) && final(r)@ == old(r)@.skip(REGISTERS_LEN as int),
            old(r)@.len() < REGISTERS_LEN ==> res == Err::<(), SaveError>(SaveError::UnexpectedEnd) && final(self)@ == old(self)@ && final(r)@ == old(r)@,
    {
        let b: Vec<u8> = match r.take_bytes(REGISTERS_LEN) {
            Ok(v) => v,
            Err(e) => {
                return Err(e);
            },
        };
        assert(b.len() == REGISTERS_LEN);
        self.explosion_reg = b[0];
        self.thump_reg = b[1];
        self.audio_latch = b[2];
        Ok(())
    }
}

/// Restoring saved registers brings them back.
pub proof fn law_registers_round_trip(a: SoundView, b: SoundView)
    ensures
        a.register_bytes().len() == REGISTERS_LEN,
        b.with_register_bytes(a.register_bytes()) == (SoundView {
            explosion_reg: a.explosion_reg,
            thump_reg: a.thump_reg,
            audio_latch: a.audio_latch,
            ..b
        }),
{
    let s = a.register_bytes();
    assert(s[0] == a.explosion_reg);
    assert(s[1] == a.thump_reg);
    assert(s[2] == a.audio_latch);
}

/// Driving one latch line switches that effect and no other.
pub proof fn law_latch_line_switches_one_effect(s: SoundView, n: u8, k: u8, value: bool)
    requires
        n < 8,
        k < 8,
    ensures
        bit(with_bit(s.audio_latch, n, value), k) == if k == n { value } else { bit(s.audio_latch, k) },
{
    lemma_with_bit(s.audio_latch, n, k, value);
}

} // verus!
