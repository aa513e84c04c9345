//! Atari System 1 sound board: a 6502 with an FM chip and a POKEY, optional
//! speech, and one-byte latches to and from the main CPU.

use vstd::prelude::*;

use crate::bits::{bit, drive_bit, group_mask_bounds, lemma_word_fields, with_bit};
use crate::machine::{DebugRegister, InterruptState, register_of};
use crate::memory::{SaveError, copied_range, zeroed, zeros};
use crate::state::{
    StateReader, StateWriter, flag, le32, le64, lemma_append, lemma_le32, lemma_le64,
    lemma_nothing_appended, of_le32, of_le64, u32_at, u64_at,
};

verus! {

broadcast use group_mask_bounds;

/// Sound CPU clock: 14.318181 MHz over 8.
pub const SOUND_CLOCK_HZ: u32 = 1_789_772;

/// FM chip clocks per sound-CPU cycle.
pub const YM_CLOCKS_PER_TICK: u32 = 2;

/// Samples per second of the POKEY.
pub const AUDIO_SAMPLE_RATE: u32 = 44_100;

/// Clock the speech chip's divider starts from: 14.318181 MHz over 2.
pub const TMS_CLOCK_BASE_HZ: u32 = 7_159_090;

/// Speech clock under the two settings of the divider: over 11, or over 9.
pub open spec fn tms_clock(pb4: bool) -> int {
    if pb4 {
        7_159_090int / 9
    } else {
        7_159_090int / 11
    }
}

/// Speech clock that line 4 of port B selects.
pub fn tms_clock_for_pb4(pb4: bool) -> (hz: u32)
    ensures
        hz == tms_clock(pb4),
{
    assert(5u32 | 2u32 == 7 && 5u32 | 0u32 == 5) by (bit_vector);
    let sel: u32 = 5u32 | (if pb4 {
        2u32
    } else {
        0u32
    });
    TMS_CLOCK_BASE_HZ / (16 - sel)
}

/// What a read of the speech window asks of the interface chip.
#[derive(Clone, Copy, Debug, PartialEq, Eq, Structural)]
pub enum SpeechRead {
    /// Drive these levels onto port B, then read register 0.
    PortB { pins: u8 },
    /// Drive the speech chip's status onto port A, then read the register.
    PortA { register: u8 },
    Register { register: u8 },
}

/// Clocking of the speech chip against the sound CPU.
#[derive(Clone, Copy, Debug, PartialEq, Eq, Structural)]
pub struct Speech {
    /// Speech clock currently selected.
    pub tms_clock_hz: u32,
    /// Fraction of a speech clock owed.
    pub clock_acc: u64,
}

/// Levels the speech chip drives onto port B: line 2 low while it is ready,
/// line 3 low while it interrupts.
pub open spec fn port_b_pins(ready: bool, interrupting: bool) -> u8 {
    (if ready { 0u8 } else { 4u8 }) | (if interrupting { 0u8 } else { 8u8 })
}

impl Speech {
    pub fn new() -> (s: Speech)
        ensures
            s.tms_clock_hz == tms_clock(false),
            s.clock_acc == 0,
    {
        Speech { tms_clock_hz: tms_clock_for_pb4(false), clock_acc: 0 }
    }

    pub fn reset(&mut self)
        ensures
            final(self).tms_clock_hz == tms_clock(false),
            final(self).clock_acc == 0,
    {
        self.tms_clock_hz = tms_clock_for_pb4(false);
        self.clock_acc = 0;
    }

    /// Credit the speech chip with one sound-CPU cycle and return how many of
    /// its clocks are due.
    pub fn tick(&mut self, sound_clock_hz: u32) -> (due: u64)
        requires
            sound_clock_hz > 0,
            old(self).clock_acc + old(self).tms_clock_hz <= u64::MAX,
        ensures
            due == (old(self).clock_acc + old(self).tms_clock_hz) / sound_clock_hz as int,
            final(self).clock_acc == (old(self).clock_acc + old(self).tms_clock_hz)
                % sound_clock_hz as int,
            final(self).tms_clock_hz == old(self).tms_clock_hz,
            due * sound_clock_hz + final(self).clock_acc == old(self).clock_acc + old(self).tms_clock_hz,
            final(self).clock_acc < sound_clock_hz,
    {
        let total: u64 = self.clock_acc + self.tms_clock_hz as u64;
        let step: u64 = sound_clock_hz as u64;
        let mut left: u64 = total;
        let mut due: u64 = 0;
        while left >= step
            invariant
                step > 0,
                due * step + left == total,
                due <= total,
            decreases left,
        {
            left = left - step;
            assert((due + 1) * step == due * step + step) by (nonlinear_arith);
            assert(due + 1 <= total) by (nonlinear_arith)
                requires
                    (due + 1) * step + left == total,
                    step >= 1,
                    left >= 0,
            ;
            due = due + 1;
        }
        proof {
            assert(step * due == due * step) by (nonlinear_arith);
            vstd::arithmetic::div_mod::lemma_fundamental_div_mod_converse(
                total as int,
                step as int,
                due as int,
                left as int,
            );
        }
        self.clock_acc = left;
        due
    }

    /// What a read of register `offset` asks of the interface chip, given the
    /// speech chip's lines.
    pub fn read(offset: u16, ready: bool, interrupting: bool) -> (r: SpeechRead)
        ensures
            r == match offset & 0x0F {
                0 => SpeechRead::PortB { pins: port_b_pins(ready, interrupting) },
                1 => SpeechRead::PortA { register: 1 },
                15 => SpeechRead::PortA { register: 15 },
                n => SpeechRead::Register { register: n as u8 },
            },
    {
        let register: u16 = offset & 0x0F;
        if register == 0 {
            let a: u8 = if ready {
                0
            } else {
                4
            };
            let b: u8 = if interrupting {
                0
            } else {
                8
            };
            SpeechRead::PortB { pins: a | b }
        } else if register == 1 || register == 15 {
            SpeechRead::PortA { register: register as u8 }
        } else {
            SpeechRead::Register { register: register as u8 }
        }
    }

    /// Whether a register write also presents a byte to the speech chip: both
    /// addresses of port A do.
    pub fn write_reaches_chip(offset: u16) -> (r: bool)
        ensures
            r == (offset & 0x0F == 1 || offset & 0x0F == 15),
    {
        offset & 0x0F == 1 || offset & 0x0F == 15
    }

    /// Follow port B's output after a write to it: line 4 selects the speech
    /// clock. Returns the new clock if it changed.
    pub fn port_b_driven(&mut self, out: u8) -> (retuned: Option<u32>)
        ensures
            final(self).tms_clock_hz == tms_clock(out & 0x10 != 0),
            final(self).clock_acc == old(self).clock_acc,
            retuned == if final(self).tms_clock_hz != old(self).tms_clock_hz {
                Some(final(self).tms_clock_hz)
            } else {
                None
            },
    {
        let hz: u32 = tms_clock_for_pb4(out & 0x10 != 0);
        if hz != self.tms_clock_hz {
            self.tms_clock_hz = hz;
            Some(hz)
        } else {
            None
        }
    }

    /// Bytes of the speech clocking in a saved state.
    pub open spec fn bytes(&self) -> Seq<u8> {
        le32(self.tms_clock_hz) + le64(self.clock_acc)
    }

    /// The clocking that saved bytes hold.
    pub open spec fn of_bytes(b: Seq<u8>) -> Speech {
        Speech {
            tms_clock_hz: of_le32(b.subrange(0, 4)),
            clock_acc: of_le64(b.subrange(4, 12)),
        }
    }

    pub fn save_state(&self, w: &mut StateWriter)
        ensures
            final(w)@ == old(w)@ + self.bytes(),
    {
        let ghost start = w@;
        w.write_u32_le(self.tms_clock_hz);
        w.write_u64_le(self.clock_acc);
        proof {
            lemma_append(start, le32(self.tms_clock_hz), le64(self.clock_acc));
        }
    }

    /// Fails, changing nothing, where the bytes end too early.
    pub fn load_state(&mut self, r: &mut StateReader) -> (res: Result<(), SaveError>)
        ensures
            old(r)@.len() >= 12 ==> res is Ok && *final(self) == Speech::of_bytes(old(r)@.take(12))
                && final(r)@ == old(r)@.skip(12),
            old(r)@.len() < 12 ==> res == Err::<(), SaveError>(SaveError::UnexpectedEnd)
                && *final(self) == *old(self) && final(r)@ == old(r)@,
    {
        let b: Vec<u8> = match r.take_bytes(12) {
            Ok(v) => v,
            Err(e) => {
                return Err(e);
            },
        };
        assert(b.len() == 12);
        self.tms_clock_hz = u32_at(&b, 0);
        self.clock_acc = u64_at(&b, 4);
        Ok(())
    }
}

/// Loading the saved speech clocking gives it back.
pub proof fn law_speech_round_trip(s: Speech)
    ensures
        s.bytes().len() == 12,
        Speech::of_bytes(s.bytes()) == s,
{
    assert(s.bytes().subrange(0, 4) =~= le32(s.tms_clock_hz));
    assert(s.bytes().subrange(4, 12) =~= le64(s.clock_acc));
    lemma_le32(s.tms_clock_hz);
    lemma_le64(s.clock_acc);
}

/// The sound board, apart from its CPU and chips.
pub struct AtariSystem1Sound {
    pub sound_ram: Vec<u8>,
    /// Program, mapped from 0x4000 up.
    pub sound_rom: Vec<u8>,
    /// Speech hardware, on the games that carry it.
    pub speech: Option<Speech>,
    /// Addressable output latch.
    pub outlatch: u8,
    /// Coin switches held; each pulls its port line low.
    pub coin_inputs: u8,
    /// Command from the main CPU.
    pub soundlatch: u8,
    pub command_pending: bool,
    /// Response to the main CPU.
    pub mainlatch: u8,
    pub response_pending: bool,
    /// One-shot NMI of a fresh command.
    pub sound_nmi: bool,
    pub held_reset: bool,
    /// The CPU is to boot at its next cycle.
    pub reset_pending: bool,
    pub clock: u64,
}

/// The sound board as a mathematical value.
#[verifier::ext_equal]
pub struct System1SoundView {
    pub sound_ram: Seq<u8>,
    pub sound_rom: Seq<u8>,
    pub speech: Option<Speech>,
    pub outlatch: u8,
    pub coin_inputs: u8,
    pub soundlatch: u8,
    pub command_pending: bool,
    pub mainlatch: u8,
    pub response_pending: bool,
    pub sound_nmi: bool,
    pub held_reset: bool,
    pub reset_pending: bool,
    pub clock: u64,
}

impl View for AtariSystem1Sound {
    type V = System1SoundView;

    open spec fn view(&self) -> System1SoundView {
        System1SoundView {
            sound_ram: self.sound_ram@,
            sound_rom: self.sound_rom@,
            speech: self.speech,
            outlatch: self.outlatch,
            coin_inputs: self.coin_inputs,
            soundlatch: self.soundlatch,
            command_pending: self.command_pending,
            mainlatch: self.mainlatch,
            response_pending: self.response_pending,
            sound_nmi: self.sound_nmi,
            held_reset: self.held_reset,
            reset_pending: self.reset_pending,
            clock: self.clock,
        }
    }
}

/// What a sound-CPU read addresses.
#[derive(Clone, Copy, Debug, PartialEq, Eq, Structural)]
pub enum System1SoundRead {
    Value(u8),
    Ym(u8),
    Pokey(u8),
    Speech(u8),
}

/// What a sound-CPU write leaves for a chip.
#[derive(Clone, Copy, Debug, PartialEq, Eq, Structural)]
pub enum System1SoundWrite {
    Done,
    Ym { register: u8, data: u8 },
    Pokey { register: u8, data: u8 },
    Speech { register: u8, data: u8 },
}

/// What the sound CPU does in a cycle.
#[derive(Clone, Copy, Debug, PartialEq, Eq, Structural)]
pub enum SoundStep {
    /// Held in reset: nothing runs.
    Held,
    /// Boot from the reset vector, then run a cycle.
    Boot,
    Run,
}

impl System1SoundView {
    pub open spec fn wf(&self) -> bool {
        &&& self.sound_ram.len() == 0x1000
        &&& self.sound_rom.len() == 0xC000
    }

    /// The status port: coin lines low while held, bit 7 idle high, bit 3 a
    /// command waiting, bit 4 a response waiting.
    pub open spec fn port_1820(&self) -> u8 {
        (0x87 & !(self.coin_inputs & 0x07)) | (if self.command_pending { 0x08u8 } else { 0u8 }) | (
        if self.response_pending { 0x10u8 } else { 0u8 })
    }

    /// Whether an address falls in the speech window of a board that has one.
    pub open spec fn in_speech_window(&self, addr: u16) -> bool {
        self.speech is Some && 0x1000 <= addr <= 0x100F
    }

    /// What a read addresses.
    pub open spec fn read_access(&self, addr: u16) -> System1SoundRead {
        if addr >= 0x4000 {
            System1SoundRead::Value(self.sound_rom[addr - 0x4000])
        } else if self.in_speech_window(addr) {
            System1SoundRead::Speech((addr & 0x0F) as u8)
        } else if addr & 0x1800 == 0x1800 {
            let select = addr & 0x70;
            if select == 0x00 {
                System1SoundRead::Ym((addr & 1) as u8)
            } else if select == 0x10 {
                System1SoundRead::Value(self.soundlatch)
            } else if select == 0x20 {
                System1SoundRead::Value(self.port_1820())
            } else if select == 0x70 {
                System1SoundRead::Pokey((addr & 0x0F) as u8)
            } else {
                System1SoundRead::Value(0xFF)
            }
        } else if addr & 0x1000 == 0 {
            System1SoundRead::Value(self.sound_ram[(addr & 0x0FFF) as int])
        } else {
            System1SoundRead::Value(0xFF)
        }
    }

    /// Whether an address is the latch pair's.
    pub open spec fn is_latch(&self, addr: u16) -> bool {
        addr < 0x4000 && !self.in_speech_window(addr) && addr & 0x1800 == 0x1800 && addr & 0x70
            == 0x10
    }

    /// The board after a read: reading the command acknowledges it.
    pub open spec fn after_read(self, addr: u16) -> System1SoundView {
        if self.is_latch(addr) {
            System1SoundView { command_pending: false, ..self }
        } else {
            self
        }
    }

    /// What a write leaves for a chip.
    pub open spec fn write_access(&self, addr: u16, data: u8) -> System1SoundWrite {
        if addr >= 0x4000 {
            System1SoundWrite::Done
        } else if self.in_speech_window(addr) {
            System1SoundWrite::Speech { register: (addr & 0x0F) as u8, data }
        } else if addr & 0x1800 == 0x1800 && addr & 0x70 == 0x00 {
            System1SoundWrite::Ym { register: (addr & 1) as u8, data }
        } else if addr & 0x1800 == 0x1800 && addr & 0x70 == 0x70 {
            System1SoundWrite::Pokey { register: (addr & 0x0F) as u8, data }
        } else {
            System1SoundWrite::Done
        }
    }

    /// The board after a write.
    pub open spec fn after_write(self, addr: u16, data: u8) -> System1SoundView {
        if self.is_latch(addr) {
            System1SoundView { mainlatch: data, response_pending: true, ..self }
        } else if addr >= 0x4000 || self.in_speech_window(addr) {
            self
        } else if addr & 0x1800 == 0x1800 {
            if addr & 0x70 == 0x20 {
                System1SoundView {
                    outlatch: with_bit(self.outlatch, (addr & 7) as u8, data & 1 != 0),
                    ..self
                }
            } else {
                self
            }
        } else if addr & 0x1000 == 0 {
            System1SoundView {
                sound_ram: self.sound_ram.update((addr & 0x0FFF) as int, data),
                ..self
            }
        } else {
            self
        }
    }

    /// The board after the main CPU writes a command. A CPU held in reset sees
    /// no NMI edge.
    pub open spec fn after_command(self, data: u8) -> System1SoundView {
        System1SoundView {
            soundlatch: data,
            command_pending: true,
            sound_nmi: self.sound_nmi || !self.held_reset,
            ..self
        }
    }

    /// The board after its reset line is driven: asserting it acknowledges a
    /// waiting response, releasing it boots the CPU at its next cycle.
    pub open spec fn after_reset_line(self, asserted: bool) -> System1SoundView {
        System1SoundView {
            response_pending: self.response_pending && !asserted,
            reset_pending: self.reset_pending || (!asserted && self.held_reset),
            held_reset: asserted,
            ..self
        }
    }

    /// What the CPU does in the coming cycle.
    pub open spec fn next_step(&self) -> SoundStep {
        if self.held_reset {
            SoundStep::Held
        } else if self.reset_pending {
            SoundStep::Boot
        } else {
            SoundStep::Run
        }
    }

    /// The board at the start of a cycle: a boot is taken once.
    pub open spec fn after_begin_tick(self) -> System1SoundView {
        System1SoundView { reset_pending: self.reset_pending && self.held_reset, ..self }
    }

    /// The CPU's interrupt lines, given those of the chips.
    pub open spec fn interrupts(&self, ym: bool, pokey: bool, speech: bool) -> InterruptState {
        InterruptState::lines(self.sound_nmi, ym || pokey || (self.speech is Some && speech))
    }

    /// Latches and lines as a reset leaves them.
    pub open spec fn lines_cleared(&self) -> bool {
        &&& self.outlatch == 0
        &&& self.coin_inputs == 0
        &&& self.soundlatch == 0
        &&& !self.command_pending
        &&& self.mainlatch == 0
        &&& !self.response_pending
        &&& !self.sound_nmi
        &&& self.held_reset
        &&& !self.reset_pending
        &&& self.clock == 0
    }
}

impl AtariSystem1Sound {
    pub open spec fn wf(&self) -> bool {
        self@.wf()
    }

    /// A sound board, held in reset, with or without speech.
    pub fn new(speech: bool) -> (s: AtariSystem1Sound)
        ensures
            s.wf(),
            s@.sound_ram == zeros(0x1000),
            s@.sound_rom == Seq::new(0xC000, |i: int| 0xFFu8),
            s@.lines_cleared(),
            s@.speech == if speech {
                Some(Speech { tms_clock_hz: tms_clock(false) as u32, clock_acc: 0 })
            } else {
                None
            },
    {
        let sound_rom: Vec<u8> = vec![0xFFu8; 0xC000];
        assert(sound_rom@ =~= Seq::new(0xC000, |i: int| 0xFFu8));
        AtariSystem1Sound {
            sound_ram: zeroed(0x1000),
            sound_rom,
            speech: if speech {
                Some(Speech::new())
            } else {
                None
            },
            outlatch: 0,
            coin_inputs: 0,
            soundlatch: 0,
            command_pending: false,
            mainlatch: 0,
            response_pending: false,
            sound_nmi: false,
            held_reset: true,
            reset_pending: false,
            clock: 0,
        }
    }

    /// Load the 64 KB sound image; its part from 0x4000 up is ROM.
    pub fn load_rom(&mut self, sound_image: &[u8])
        requires
            sound_image@.len() >= 0x10000,
        ensures
            final(self)@ == (System1SoundView {
                sound_rom: sound_image@.subrange(0x4000, 0x10000),
                ..old(self)@
            }),
    {
        self.sound_rom = copied_range(sound_image, 0x4000, 0x10000);
    }

    /// Back to the power-on lines, under the main CPU's control. Memory stays.
    pub fn reset(&mut self)
        ensures
            final(self)@.lines_cleared(),
            final(self)@.sound_ram == old(self)@.sound_ram,
            final(self)@.sound_rom == old(self)@.sound_rom,
            final(self)@.speech == match old(self)@.speech {
                Some(_) => Some(Speech { tms_clock_hz: tms_clock(false) as u32, clock_acc: 0 }),
                None => None,
            },
    {
        if self.speech.is_some() {
            self.speech = Some(Speech::new());
        }
        self.outlatch = 0;
        self.coin_inputs = 0;
        self.soundlatch = 0;
        self.command_pending = false;
        self.mainlatch = 0;
        self.response_pending = false;
        self.sound_nmi = false;
        self.held_reset = true;
        self.reset_pending = false;
        self.clock = 0;
    }

    /// The main CPU writes a command.
    pub fn write_command(&mut self, data: u8)
        ensures
            final(self)@ == old(self)@.after_command(data),
    {
        self.soundlatch = data;
        self.command_pending = true;
        if !self.held_reset {
            self.sound_nmi = true;
        }
    }

    /// The main CPU reads the response, which acknowledges it.
    pub fn read_response(&mut self) -> (v: u8)
        ensures
            v == old(self)@.mainlatch,
            final(self)@ == (System1SoundView { response_pending: false, ..old(self)@ }),
    {
        self.response_pending = false;
        self.mainlatch
    }

    /// Whether a command waits for the sound CPU.
    pub fn command_pending(&self) -> (v: bool)
        ensures
            v == self@.command_pending,
    {
        self.command_pending
    }

    /// Whether a response waits for the main CPU.
    pub fn response_pending(&self) -> (v: bool)
        ensures
            v == self@.response_pending,
    {
        self.response_pending
    }

    /// Press or release a coin switch.
    pub fn set_coin(&mut self, n: u8, pressed: bool)
        ensures
            final(self)@ == (System1SoundView {
                coin_inputs: with_bit(old(self)@.coin_inputs, n & 0x07, pressed),
                ..old(self)@
            }),
    {
        self.coin_inputs = drive_bit(self.coin_inputs, n & 0x07, pressed);
    }

    /// Drive the sound CPU's reset line.
    pub fn set_reset(&mut self, asserted: bool)
        ensures
            final(self)@ == old(self)@.after_reset_line(asserted),
    {
        if asserted {
            self.response_pending = false;
        } else if self.held_reset {
            self.reset_pending = true;
        }
        self.held_reset = asserted;
    }

    /// What the sound CPU does in the coming cycle. A boot that was due is
    /// taken.
    pub fn begin_tick(&mut self) -> (step: SoundStep)
        ensures
            step == if old(self)@.held_reset {
                SoundStep::Held
            } else if old(self)@.reset_pending {
                SoundStep::Boot
            } else {
                SoundStep::Run
            },
            final(self)@ == (System1SoundView {
                reset_pending: old(self)@.reset_pending && old(self)@.held_reset,
                ..old(self)@
            }),
            step == old(self)@.next_step(),
            final(self)@ == old(self)@.after_begin_tick(),
    {
        if self.held_reset {
            return SoundStep::Held;
        }
        if self.reset_pending {
            self.reset_pending = false;
            return SoundStep::Boot;
        }
        SoundStep::Run
    }

    /// Count a cycle that ran.
    pub fn end_tick(&mut self)
        requires
            old(self)@.clock < u64::MAX,
        ensures
            final(self)@ == (System1SoundView { clock: (old(self)@.clock + 1) as u64, ..old(self)@ }),
    {
        self.clock = self.clock + 1;
    }

    /// Held in reset, cycles run, command waiting, response waiting.
    pub fn debug_state(&self) -> (s: (bool, u64, bool, bool))
        ensures
            s == (
                self@.held_reset,
                self@.clock,
                self@.command_pending,
                self@.response_pending,
            ),
    {
        (self.held_reset, self.clock, self.command_pending, self.response_pending)
    }

    /// The status port.
    pub fn read_1820(&self) -> (v: u8)
        ensures
            v == self@.port_1820(),
    {
        let coins: u8 = 0x87 & !(self.coin_inputs & 0x07);
        let command: u8 = if self.command_pending {
            0x08
        } else {
            0
        };
        let response: u8 = if self.response_pending {
            0x10
        } else {
            0
        };
        coins | command | response
    }

    /// A sound-CPU read. What a chip is to answer is handed back.
    pub fn read(&mut self, addr: u16) -> (r: System1SoundRead)
        requires
            old(self).wf(),
        ensures
            r == old(self)@.read_access(addr),
            final(self)@ == old(self)@.after_read(addr),
    {
        if addr >= 0x4000 {
            return System1SoundRead::Value(self.sound_rom[(addr - 0x4000) as usize]);
        }
        if self.speech.is_some() && 0x1000 <= addr && addr <= 0x100F {
            return System1SoundRead::Speech((addr & 0x0F) as u8);
        }
        if addr & 0x1800 == 0x1800 {
            let select: u16 = addr & 0x70;
            if select == 0x00 {
                System1SoundRead::Ym((addr & 1) as u8)
            } else if select == 0x10 {
                self.command_pending = false;
                System1SoundRead::Value(self.soundlatch)
            } else if select == 0x20 {
                System1SoundRead::Value(self.read_1820())
            } else if select == 0x70 {
                System1SoundRead::Pokey((addr & 0x0F) as u8)
            } else {
                System1SoundRead::Value(0xFF)
            }
        } else if addr & 0x1000 == 0 {
            System1SoundRead::Value(self.sound_ram[(addr & 0x0FFF) as usize])
        } else {
            System1SoundRead::Value(0xFF)
        }
    }

    /// A sound-CPU write. What goes to a chip is handed back.
    pub fn write(&mut self, addr: u16, data: u8) -> (w: System1SoundWrite)
        requires
            old(self).wf(),
        ensures
            final(self).wf(),
            w == old(self)@.write_access(addr, data),
            final(self)@ == old(self)@.after_write(addr, data),
    {
        if addr >= 0x4000 {
            return System1SoundWrite::Done;
        }
        if self.speech.is_some() && 0x1000 <= addr && addr <= 0x100F {
            return System1SoundWrite::Speech { register: (addr & 0x0F) as u8, data };
        }
        if addr & 0x1800 == 0x1800 {
            let select: u16 = addr & 0x70;
            if select == 0x00 {
                return System1SoundWrite::Ym { register: (addr & 1) as u8, data };
            } else if select == 0x10 {
                self.mainlatch = data;
                self.response_pending = true;
            } else if select == 0x20 {
                self.outlatch = drive_bit(self.outlatch, (addr & 7) as u8, data & 1 != 0);
            } else if select == 0x70 {
                return System1SoundWrite::Pokey { register: (addr & 0x0F) as u8, data };
            }
        } else if addr & 0x1000 == 0 {
            self.sound_ram[(addr & 0x0FFF) as usize] = data;
        }
        System1SoundWrite::Done
    }

    /// No device stops the sound CPU.
    pub fn is_halted(&self) -> (halted: bool)
        ensures
            !halted,
    {
        false
    }

    /// Interrupt lines, given the chips' own. Taking the NMI clears it.
    pub fn check_interrupts(&mut self, ym_irq: bool, pokey_irq: bool, speech_irq: bool) -> (s: InterruptState)
        ensures
            s == InterruptState::lines(
                old(self)@.sound_nmi,
                ym_irq || pokey_irq || (old(self)@.speech is Some && speech_irq),
            ),
            s == old(self)@.interrupts(ym_irq, pokey_irq, speech_irq),
            final(self)@ == (System1SoundView { sound_nmi: false, ..old(self)@ }),
    {
        let nmi: bool = self.sound_nmi;
        self.sound_nmi = false;
        InterruptState::of_lines(nmi, ym_irq || pokey_irq || (self.speech.is_some() && speech_irq))
    }

    /// The registers a debugger shows.
    pub fn debug_registers(&self) -> (v: Vec<DebugRegister>)
        ensures
            v@ == seq![
                register_of("SND_CLK", self@.clock as int, 32),
                register_of("CMD", self@.soundlatch as int, 8),
                register_of("RESP", self@.mainlatch as int, 8),
                register_of("HELD_RST", flag(self@.held_reset) as int, 1),
            ],
    {
        let held: u64 = if self.held_reset {
            1
        } else {
            0
        };
        let v: Vec<DebugRegister> = vec![
            DebugRegister { name: "SND_CLK", value: self.clock, width: 32 },
            DebugRegister { name: "CMD", value: self.soundlatch as u64, width: 8 },
            DebugRegister { name: "RESP", value: self.mainlatch as u64, width: 8 },
            DebugRegister { name: "HELD_RST", value: held, width: 1 },
        ];
        assert(v@ =~= seq![
            register_of("SND_CLK", self@.clock as int, 32),
            register_of("CMD", self@.soundlatch as int, 8),
            register_of("RESP", self@.mainlatch as int, 8),
            register_of("HELD_RST", flag(self@.held_reset) as int, 1),
        ]);
        v
    }
}

impl Default for AtariSystem1Sound {
    /// A board without speech.
    fn default() -> (s: AtariSystem1Sound)
        ensures
            s.wf(),
            s@.lines_cleared(),
            s@.speech is None,
            s@.sound_ram == zeros(0x1000),
            s@.sound_rom == Seq::new(0xC000, |i: int| 0xFFu8),
    {
        AtariSystem1Sound::new(false)
    }
}

/// Bytes of this part of a saved state.
pub const STATE_LEN: usize = 4113;

impl System1SoundView {
    /// The board's own part of a saved state, between its chips and its speech.
    pub open spec fn state_bytes(&self) -> Seq<u8> {
        Seq::<u8>::empty() + self.sound_ram + seq![self.outlatch] + seq![self.coin_inputs] + seq![self.soundlatch] + seq![flag(self.command_pending)] + seq![self.mainlatch] + seq![flag(self.response_pending)] + seq![flag(self.sound_nmi)] + seq![flag(self.held_reset)] + seq![flag(self.reset_pending)] + le64(self.clock)
    }

    /// The board with that part replaced by saved bytes.
    pub open spec fn with_state(self, b: Seq<u8>) -> System1SoundView {
        System1SoundView {
            sound_ram: b.subrange(0, 4096),
            outlatch: b[4096],
            coin_inputs: b[4097],
            soundlatch: b[4098],
            command_pending: b[4099] != 0,
            mainlatch: b[4100],
            response_pending: b[4101] != 0,
            sound_nmi: b[4102] != 0,
            held_reset: b[4103] != 0,
            reset_pending: b[4104] != 0,
            clock: of_le64(b.subrange(4105, 4113)),
            ..self
        }
    }
}

impl AtariSystem1Sound {
    /// The board's own part of a saved state, between its chips and its speech.
    pub fn save_state(&self, w: &mut StateWriter)
        ensures
            final(w)@ == old(w)@ + self@.state_bytes(),
    {
        let ghost start = w@;
        let ghost g0 = Seq::<u8>::empty();
        proof {
            lemma_nothing_appended(start);
        }
        w.write_bytes(self.sound_ram.as_slice());
        proof {
            lemma_append(start, g0, self@.sound_ram);
        }
        let ghost g1 = g0 + self@.sound_ram;
        w.write_u8(self.outlatch);
        proof {
            lemma_append(start, g1, seq![self@.outlatch]);
        }
        let ghost g2 = g1 + seq![self@.outlatch];
        w.write_u8(self.coin_inputs);
        proof {
            lemma_append(start, g2, seq![self@.coin_inputs]);
        }
        let ghost g3 = g2 + seq![self@.coin_inputs];
        w.write_u8(self.soundlatch);
        proof {
            lemma_append(start, g3, seq![self@.soundlatch]);
        }
        let ghost g4 = g3 + seq![self@.soundlatch];
        w.write_bool(self.command_pending);
        proof {
            lemma_append(start, g4, seq![flag(self@.command_pending)]);
        }
        let ghost g5 = g4 + seq![flag(self@.command_pending)];
        w.write_u8(self.mainlatch);
        proof {
            lemma_append(start, g5, seq![self@.mainlatch]);
        }
        let ghost g6 = g5 + seq![self@.mainlatch];
        w.write_bool(self.response_pending);
        proof {
            lemma_append(start, g6, seq![flag(self@.response_pending)]);
        }
        let ghost g7 = g6 + seq![flag(self@.response_pending)];
        w.write_bool(self.sound_nmi);
        proof {
            lemma_append(start, g7, seq![flag(self@.sound_nmi)]);
        }
        let ghost g8 = g7 + seq![flag(self@.sound_nmi)];
        w.write_bool(self.held_reset);
        proof {
            lemma_append(start, g8, seq![flag(self@.held_reset)]);
        }
        let ghost g9 = g8 + seq![flag(self@.held_reset)];
        w.write_bool(self.reset_pending);
        proof {
            lemma_append(start, g9, seq![flag(self@.reset_pending)]);
        }
        let ghost g10 = g9 + seq![flag(self@.reset_pending)];
        w.write_u64_le(self.clock);
        proof {
            lemma_append(start, g10, le64(self@.clock));
        }
        let ghost g11 = g10 + le64(self@.clock);
    }

    /// The board with that part replaced by saved bytes.
    /// Fails, changing nothing of the board, where the bytes end too early.
    pub fn load_state(&mut self, r: &mut StateReader) -> (res: Result<(), SaveError>)
        ensures
            old(r)@.len() >= STATE_LEN ==> res is Ok && final(self)@ == old(self)@.with_state(old(r)@.take(STATE_LEN as int)) && final(r)@ == old(r)@.skip(STATE_LEN as int),
            old(r)@.len() < STATE_LEN ==> res == Err::<(), SaveError>(SaveError::UnexpectedEnd) && final(self)@ == old(self)@ && final(r)@ == old(r)@,
    {
        let b: Vec<u8> = match r.take_bytes(STATE_LEN) {
            Ok(v) => v,
            Err(e) => {
                return Err(e);
            },
        };
        assert(b.len() == STATE_LEN);
        self.sound_ram = copied_range(b.as_slice(), 0, 4096);
        self.outlatch = b[4096];
        self.coin_inputs = b[4097];
        self.soundlatch = b[4098];
        self.command_pending = b[4099] != 0;
        self.mainlatch = b[4100];
        self.response_pending = b[4101] != 0;
        self.sound_nmi = b[4102] != 0;
        self.held_reset = b[4103] != 0;
        self.reset_pending = b[4104] != 0;
        self.clock = u64_at(&b, 4105);
        Ok(())
    }
}

/// Loading the saved sound board gives it back and leaves ROM and speech alone.
pub proof fn law_state_round_trip(a: System1SoundView, b: System1SoundView)
    requires
        a.sound_ram.len() == 4096,
    ensures
        a.state_bytes().len() == STATE_LEN,
        b.with_state(a.state_bytes()) == (System1SoundView {
            sound_ram: a.sound_ram,
            outlatch: a.outlatch,
            coin_inputs: a.coin_inputs,
            soundlatch: a.soundlatch,
            command_pending: a.command_pending,
            mainlatch: a.mainlatch,
            response_pending: a.response_pending,
            sound_nmi: a.sound_nmi,
            held_reset: a.held_reset,
            reset_pending: a.reset_pending,
            clock: a.clock,
            ..b
        }),
{
    let s = a.state_bytes();
    assert(s.subrange(0, 4096) =~= a.sound_ram);
    assert(s[4096] == a.outlatch);
    assert(s[4097] == a.coin_inputs);
    assert(s[4098] == a.soundlatch);
    assert(s[4099] == flag(a.command_pending));
    assert(s[4100] == a.mainlatch);
    assert(s[4101] == flag(a.response_pending));
    assert(s[4102] == flag(a.sound_nmi));
    assert(s[4103] == flag(a.held_reset));
    assert(s[4104] == flag(a.reset_pending));
    assert(s.subrange(4105, 4113) =~= le64(a.clock));
    lemma_le64(a.clock);
}

/// Bytes of the speech clocking in a saved state.
pub const SPEECH_STATE_LEN: usize = 12;

impl System1SoundView {
    /// Bytes the board saves: its own, and the speech clocking where speech is
    /// fitted.
    pub open spec fn saved_len(&self) -> int {
        if self.speech is Some {
            STATE_LEN + SPEECH_STATE_LEN
        } else {
            STATE_LEN as int
        }
    }

    pub open spec fn saved_bytes(&self) -> Seq<u8> {
        match self.speech {
            Some(speech) => self.state_bytes() + speech.bytes(),
            None => self.state_bytes(),
        }
    }

    /// The board with its saved part replaced by `b`. What is fitted decides
    /// how the bytes read: no marker stands for the speech hardware.
    pub open spec fn with_saved(self, b: Seq<u8>) -> System1SoundView {
        System1SoundView {
            speech: match self.speech {
                Some(_) => Some(
                    Speech::of_bytes(
                        b.subrange(STATE_LEN as int, STATE_LEN + SPEECH_STATE_LEN),
                    ),
                ),
                None => None,
            },
            ..self.with_state(b.take(STATE_LEN as int))
        }
    }
}

impl AtariSystem1Sound {
    /// Everything the board saves beside its chips.
    pub fn saved(&self) -> (b: Vec<u8>)
        ensures
            b@ == self@.saved_bytes(),
    {
        let mut w: StateWriter = StateWriter::new();
        self.save_state(&mut w);
        if let Some(speech) = &self.speech {
            speech.save_state(&mut w);
        }
        let b: Vec<u8> = w.into_vec();
        assert(b@ =~= self@.saved_bytes());
        b
    }

    /// Restore what `saved` gave. Fails, changing nothing, where the bytes end
    /// too early.
    pub fn restore(&mut self, b: &[u8]) -> (res: Result<(), SaveError>)
        ensures
            res == if b@.len() >= old(self)@.saved_len() {
                Ok::<(), SaveError>(())
            } else {
                Err(SaveError::UnexpectedEnd)
            },
            final(self)@ == if b@.len() >= old(self)@.saved_len() {
                old(self)@.with_saved(b@)
            } else {
                old(self)@
            },
    {
        let needed: usize = if self.speech.is_some() {
            STATE_LEN + SPEECH_STATE_LEN
        } else {
            STATE_LEN
        };
        if b.len() < needed {
            return Err(SaveError::UnexpectedEnd);
        }
        let mut r: StateReader = StateReader::new(b);
        let _ = self.load_state(&mut r);
        if let Some(fitted) = self.speech {
            let mut speech: Speech = fitted;
            let _ = speech.load_state(&mut r);
            assert(b@.skip(STATE_LEN as int).take(SPEECH_STATE_LEN as int) =~= b@.subrange(
                STATE_LEN as int,
                STATE_LEN + SPEECH_STATE_LEN,
            ));
            self.speech = Some(speech);
        }
        Ok(())
    }
}

/// Restoring what a board saved brings back all of it but the ROM, on a board
/// with the same hardware fitted.
pub proof fn law_saved_round_trip(a: System1SoundView, b: System1SoundView)
    requires
        a.wf(),
        a.speech is Some == b.speech is Some,
    ensures
        a.saved_bytes().len() == a.saved_len(),
        b.with_saved(a.saved_bytes()) == (System1SoundView { sound_rom: b.sound_rom, ..a }),
{
    law_state_round_trip(a, b);
    let saved = a.saved_bytes();
    assert(saved.take(STATE_LEN as int) =~= a.state_bytes());
    if let Some(speech) = a.speech {
        law_speech_round_trip(speech);
        assert(saved.subrange(STATE_LEN as int, STATE_LEN + SPEECH_STATE_LEN) =~= speech.bytes());
    }
}

/// A command is visible to the sound CPU until it reads the latch: it raises
/// the waiting flag, is what the latch reads, and the read drops the flag.
pub proof fn law_command_handshake(b: System1SoundView, data: u8, addr: u16)
    requires
        b.is_latch(addr),
    ensures
        b.after_command(data).command_pending,
        b.after_command(data).read_access(addr) == System1SoundRead::Value(data),
        !b.after_command(data).after_read(addr).command_pending,
{
}

/// A response written at the latch is what the main CPU reads, and waits until
/// then.
pub proof fn law_response_handshake(b: System1SoundView, data: u8, addr: u16)
    requires
        b.is_latch(addr),
    ensures
        b.after_write(addr, data).response_pending,
        b.after_write(addr, data).mainlatch == data,
        !b.after_write(addr, data).after_reset_line(true).response_pending,
{
}

/// A command written while the CPU is held in reset raises no NMI; one written
/// while it runs does.
pub proof fn law_reset_swallows_the_nmi(b: System1SoundView, data: u8)
    ensures
        b.held_reset ==> b.after_command(data).sound_nmi == b.sound_nmi,
        !b.held_reset ==> b.after_command(data).sound_nmi,
{
}

/// RAM reads back what was written, also through its mirror.
pub proof fn law_ram_read_after_write(b: System1SoundView, addr: u16, mirror: u16, data: u8)
    requires
        b.wf(),
        addr < 0x4000,
        mirror < 0x4000,
        addr & 0x1000 == 0,
        mirror & 0x1000 == 0,
        addr & 0x0FFF == mirror & 0x0FFF,
    ensures
        b.after_write(addr, data).read_access(mirror) == System1SoundRead::Value(data),
{
    lemma_word_fields(addr);
    lemma_word_fields(mirror);
}

/// Without speech the speech window is open bus and takes no write.
pub proof fn law_no_speech_no_window(b: System1SoundView, addr: u16, data: u8)
    requires
        b.speech is None,
        0x1000 <= addr <= 0x100F,
    ensures
        b.read_access(addr) == System1SoundRead::Value(0xFF),
        b.after_write(addr, data) == b,
        b.write_access(addr, data) == System1SoundWrite::Done,
{
    lemma_word_fields(addr);
}

} // verus!
