//! The Atari JSA-I sound board: a 6502 with a YM2151 and, on some boards, a
//! POKEY, talking to the main board through a pair of one-byte latches. The
//! coin switches are read here too.

use vstd::prelude::*;

use crate::bits::{bit, drive_bit, lemma_with_bit, lemma_with_bit_twice, with_bit};
use crate::machine::{DebugRegister, InterruptState, register_of};
use crate::memory::{SaveError, copied, copied_range, zeroed, zeros};

verus! {

/// Sound CPU and POKEY clock: a 3.579545 MHz crystal halved.
pub const SOUND_CLOCK_HZ: u32 = 1_789_772;

/// The YM2151 takes the whole crystal.
pub const YM_CLOCKS_PER_TICK: u32 = 2;

/// Sound CPU cycles between periodic interrupts: the crystal divided by 4, 16,
/// 16 and 14.
pub const IRQ_PERIOD_CYCLES: u32 = 4 * 16 * 16 * 14 / 2;

/// Mix register with every source at full volume.
pub const MIX_FULL: u8 = 0xFE;

/// Which optional parts a board carries.
#[derive(Clone, Copy, Debug, PartialEq, Eq, Structural)]
pub enum JsaPokey {
    /// A POKEY is fitted.
    Fitted,
    /// No POKEY: its window is open bus.
    Absent,
}

/// What a read of the sound bus comes to: a value, or an access to a chip.
#[derive(Clone, Copy, Debug, PartialEq, Eq, Structural)]
pub enum JsaRead {
    Value(u8),
    Ym { port: u8 },
    Pokey { register: u8 },
}

/// What a write asks of the chips.
#[derive(Clone, Copy, Debug, PartialEq, Eq, Structural)]
pub enum JsaWrite {
    Done,
    Ym { port: u8, data: u8 },
    YmReset,
    Pokey { register: u8, data: u8 },
}

/// A gain, as a ratio of resistors.
#[derive(Clone, Copy, Debug, PartialEq, Eq, Structural)]
pub struct GainRatio {
    pub num: u32,
    pub den: u32,
}

/// How the output stage is set: the gain of each source, and whether the
/// low-pass is switched to its lower corner.
#[derive(Clone, Copy, Debug, PartialEq, Eq, Structural)]
pub struct JsaMix {
    pub ym: GainRatio,
    pub pokey: GainRatio,
    pub shunt_closed: bool,
}

/// Strobes of the I/O block, decoded on address lines 1, 2 and 9.
#[derive(Clone, Copy, Debug, PartialEq, Eq, Structural)]
pub enum JsaPort {
    /// Command latch.
    Rdp,
    /// Coin, handshake and self-test port.
    Rdio,
    /// Periodic interrupt acknowledge.
    IrqAck,
    /// Response latch.
    Wrp,
    /// Bank, coin counters, YM2151 reset.
    Wrio,
    Mix,
    Nothing,
}

/// The strobe at an address of the I/O block.
pub open spec fn port_of(addr: int) -> JsaPort {
    let upper = (addr / 0x200) % 2 == 1;
    let n = (addr / 2) % 4;
    if n == 0 {
        JsaPort::Nothing
    } else if n == 1 {
        if upper {
            JsaPort::Wrp
        } else {
            JsaPort::Rdp
        }
    } else if n == 2 {
        if upper {
            JsaPort::Wrio
        } else {
            JsaPort::Rdio
        }
    } else {
        if upper {
            JsaPort::Mix
        } else {
            JsaPort::IrqAck
        }
    }
}

fn port_at(addr: u16) -> (p: JsaPort)
    ensures
        p == port_of(addr as int),
{
    let upper: bool = (addr / 0x200) % 2 == 1;
    let n: u16 = (addr / 2) % 4;
    if n == 0 {
        JsaPort::Nothing
    } else if n == 1 {
        if upper {
            JsaPort::Wrp
        } else {
            JsaPort::Rdp
        }
    } else if n == 2 {
        if upper {
            JsaPort::Wrio
        } else {
            JsaPort::Rdio
        }
    } else {
        if upper {
            JsaPort::Mix
        } else {
            JsaPort::IrqAck
        }
    }
}

/// Everything on the board but its CPU and chips.
pub struct AtariJsa1 {
    pub ram: Vec<u8>,
    /// Fixed ROM, from 0x4000 up.
    pub rom: Vec<u8>,
    /// The four pages that the window at 0x3000 shows.
    pub bank_pages: Vec<u8>,
    /// Which page it shows.
    pub bank: u8,
    pub pokey_fitted: bool,
    /// Command from the main board.
    pub soundlatch: u8,
    pub command_pending: bool,
    /// Response to the main board.
    pub mainlatch: u8,
    /// Raises the main board's IRQ2.
    pub response_pending: bool,
    /// One-shot NMI, raised by a command.
    pub sound_nmi: bool,
    /// The periodic interrupt, held until it is acknowledged.
    pub timed_int: bool,
    /// Cycles since it last fired.
    pub irq_counter: u32,
    /// Coin switches 1 to 4 on lines 0 to 3, high when closed.
    pub coin_inputs: u8,
    pub self_test: bool,
    /// ROM bank, coin counters, YM2151 reset.
    pub wrio: u8,
    /// Volumes: POKEY on lines 4-5, YM2151 on lines 1-3; low-pass on line 0.
    pub mix: u8,
    /// The next cycle boots the CPU from its vector.
    pub reset_pending: bool,
    /// Sound CPU cycles since reset.
    pub clock: u64,
}

/// The board as a mathematical value: memories as sequences.
#[verifier::ext_equal]
pub struct JsaView {
    pub ram: Seq<u8>,
    pub rom: Seq<u8>,
    pub bank_pages: Seq<u8>,
    pub bank: u8,
    pub pokey_fitted: bool,
    pub soundlatch: u8,
    pub command_pending: bool,
    pub mainlatch: u8,
    pub response_pending: bool,
    pub sound_nmi: bool,
    pub timed_int: bool,
    pub irq_counter: u32,
    pub coin_inputs: u8,
    pub self_test: bool,
    pub wrio: u8,
    pub mix: u8,
    pub reset_pending: bool,
    pub clock: u64,
}

impl View for AtariJsa1 {
    type V = JsaView;

    open spec fn view(&self) -> JsaView {
        JsaView {
            ram: self.ram@,
            rom: self.rom@,
            bank_pages: self.bank_pages@,
            bank: self.bank,
            pokey_fitted: self.pokey_fitted,
            soundlatch: self.soundlatch,
            command_pending: self.command_pending,
            mainlatch: self.mainlatch,
            response_pending: self.response_pending,
            sound_nmi: self.sound_nmi,
            timed_int: self.timed_int,
            irq_counter: self.irq_counter,
            coin_inputs: self.coin_inputs,
            self_test: self.self_test,
            wrio: self.wrio,
            mix: self.mix,
            reset_pending: self.reset_pending,
            clock: self.clock,
        }
    }
}

/// The periodic interrupt's counter and flag after one more cycle.
pub open spec fn irq_step(counter: int, raised: bool) -> (int, bool) {
    if counter + 1 >= IRQ_PERIOD_CYCLES {
        (0, true)
    } else {
        (counter + 1, raised)
    }
}

/// The same after `n` cycles without an acknowledge.
pub open spec fn irq_after(counter: int, raised: bool, n: nat) -> (int, bool)
    decreases n,
{
    if n == 0 {
        (counter, raised)
    } else {
        let before = irq_after(counter, raised, (n - 1) as nat);
        irq_step(before.0, before.1)
    }
}

/// A flag on a line of the I/O port.
pub open spec fn port_line(high: bool, weight: int) -> int {
    if high {
        weight
    } else {
        0
    }
}

impl JsaView {
    pub open spec fn wf(&self) -> bool {
        &&& self.ram.len() == 0x2000
        &&& self.rom.len() == 0xC000
        &&& self.bank_pages.len() == 0x4000
        &&& self.bank < 4
    }

    /// The state that power-on and reset leave, with the memories given.
    pub open spec fn idle(
        ram: Seq<u8>,
        rom: Seq<u8>,
        bank_pages: Seq<u8>,
        pokey_fitted: bool,
    ) -> JsaView {
        JsaView {
            ram,
            rom,
            bank_pages,
            bank: 0,
            pokey_fitted,
            soundlatch: 0,
            command_pending: false,
            mainlatch: 0,
            response_pending: false,
            sound_nmi: false,
            timed_int: false,
            irq_counter: 0,
            coin_inputs: 0,
            self_test: false,
            wrio: 0,
            mix: MIX_FULL,
            reset_pending: true,
            clock: 0,
        }
    }

    /// The I/O port: self-test on line 7, no command waiting on line 6, a
    /// response waiting on line 5, the coin switches on lines 0 to 3. Line 4,
    /// a speech chip's ready line, stays low.
    pub open spec fn rdio(&self) -> int {
        port_line(self.self_test, 0x80) + port_line(!self.command_pending, 0x40) + port_line(
            self.response_pending,
            0x20,
        ) + self.coin_inputs as int % 16
    }

    /// What a sound CPU read comes to.
    pub open spec fn read_access(&self, addr: u16) -> JsaRead {
        if addr < 0x2000 {
            JsaRead::Value(self.ram[addr as int])
        } else if addr < 0x2800 {
            JsaRead::Ym { port: (addr % 2) as u8 }
        } else if addr < 0x2C00 {
            match port_of(addr as int) {
                JsaPort::Rdp => JsaRead::Value(self.soundlatch),
                JsaPort::Rdio => JsaRead::Value(self.rdio() as u8),
                _ => JsaRead::Value(0xFF),
            }
        } else if addr < 0x2C10 {
            if self.pokey_fitted {
                JsaRead::Pokey { register: (addr % 16) as u8 }
            } else {
                JsaRead::Value(0xFF)
            }
        } else if addr < 0x3000 {
            JsaRead::Value(0xFF)
        } else if addr < 0x4000 {
            JsaRead::Value(self.bank_pages[self.bank * 0x1000 + (addr - 0x3000)])
        } else {
            JsaRead::Value(self.rom[addr - 0x4000])
        }
    }

    /// This board after a sound CPU read. Reading the command latch clears the
    /// pending flag and the NMI; the acknowledge strobe clears the periodic
    /// interrupt.
    pub open spec fn after_read(self, addr: u16) -> JsaView {
        if 0x2800 <= addr < 0x2C00 {
            match port_of(addr as int) {
                JsaPort::Rdp => JsaView { command_pending: false, sound_nmi: false, ..self },
                JsaPort::IrqAck => JsaView { timed_int: false, ..self },
                _ => self,
            }
        } else {
            self
        }
    }

    /// What a sound CPU write asks of the chips.
    pub open spec fn write_access(&self, addr: u16, data: u8) -> JsaWrite {
        if 0x2000 <= addr < 0x2800 {
            JsaWrite::Ym { port: (addr % 2) as u8, data }
        } else if 0x2800 <= addr < 0x2C00 && port_of(addr as int) == JsaPort::Wrio && data % 2 == 0 {
            JsaWrite::YmReset
        } else if 0x2C00 <= addr < 0x2C10 && self.pokey_fitted {
            JsaWrite::Pokey { register: (addr % 16) as u8, data }
        } else {
            JsaWrite::Done
        }
    }

    /// This board with the bank latch set.
    pub open spec fn with_wrio(self, data: u8) -> JsaView {
        JsaView { wrio: data, bank: data / 64, ..self }
    }

    /// This board after a sound CPU write.
    pub open spec fn after_write(self, addr: u16, data: u8) -> JsaView {
        if addr < 0x2000 {
            JsaView { ram: self.ram.update(addr as int, data), ..self }
        } else if 0x2800 <= addr < 0x2C00 {
            match port_of(addr as int) {
                JsaPort::IrqAck => JsaView { timed_int: false, ..self },
                JsaPort::Wrp => JsaView { mainlatch: data, response_pending: true, ..self },
                JsaPort::Wrio => self.with_wrio(data),
                JsaPort::Mix => JsaView { mix: data, ..self },
                _ => self,
            }
        } else {
            self
        }
    }

    /// This board at the start of a cycle: a pending reset takes effect, and the
    /// periodic interrupt counts.
    pub open spec fn after_begin_tick(self) -> JsaView {
        let counter = if self.reset_pending { 0 } else { self.irq_counter as int };
        let raised = if self.reset_pending { false } else { self.timed_int };
        let next = irq_step(counter, raised);
        JsaView {
            reset_pending: false,
            irq_counter: next.0 as u32,
            timed_int: next.1,
            ..self
        }
    }

    pub open spec fn spec_pokey_code(&self) -> int {
        (self.mix as int / 16) % 4
    }

    pub open spec fn spec_ym_code(&self) -> int {
        (self.mix as int / 2) % 8
    }

    /// The output stage, given the two YM2151 pins that gate the POKEY. With
    /// both low it reaches no speaker. The low-pass drops on its own line or on
    /// the lowest line of the YM2151's volume.
    pub open spec fn spec_mix(&self, ct1: bool, ct2: bool) -> JsaMix {
        JsaMix {
            ym: GainRatio { num: (12 * self.spec_ym_code()) as u32, den: 30 },
            pokey: GainRatio {
                num: if ct1 || ct2 { (47 * self.spec_pokey_code()) as u32 } else { 0 },
                den: 150,
            },
            shunt_closed: self.mix % 4 != 0,
        }
    }

    /// The registers as a debugger lists them.
    pub open spec fn registers(&self) -> Seq<DebugRegister> {
        seq![
            register_of("SND_CLK", self.clock as int, 32),
            register_of("BANK", self.bank as int, 2),
            register_of("WRIO", self.wrio as int, 8),
            register_of("MIX", self.mix as int, 8),
            register_of("CMD", self.soundlatch as int, 8),
            register_of("RESP", self.mainlatch as int, 8),
        ]
    }
}

fn erased(n: usize) -> (v: Vec<u8>)
    ensures
        v@ == Seq::new(n as nat, |i: int| 0xFFu8),
{
    let v: Vec<u8> = vec![0xFFu8; n];
    assert(v@ =~= Seq::new(n as nat, |i: int| 0xFFu8));
    v
}

impl AtariJsa1 {
    pub open spec fn wf(&self) -> bool {
        self@.wf()
    }

    /// A board with blank RAM and erased ROM.
    pub fn new(pokey: JsaPokey) -> (b: AtariJsa1)
        ensures
            b.wf(),
            b@ == JsaView::idle(
                zeros(0x2000),
                Seq::new(0xC000, |i: int| 0xFFu8),
                Seq::new(0x4000, |i: int| 0xFFu8),
                pokey == JsaPokey::Fitted,
            ),
    {
        AtariJsa1 {
            ram: zeroed(0x2000),
            rom: erased(0xC000),
            bank_pages: erased(0x4000),
            bank: 0,
            pokey_fitted: pokey == JsaPokey::Fitted,
            soundlatch: 0,
            command_pending: false,
            mainlatch: 0,
            response_pending: false,
            sound_nmi: false,
            timed_int: false,
            irq_counter: 0,
            coin_inputs: 0,
            self_test: false,
            wrio: 0,
            mix: MIX_FULL,
            reset_pending: true,
            clock: 0,
        }
    }

    /// Load the 64 KB sound chip: its low 16 KB are the four pages, the rest is
    /// the fixed ROM. A shorter image is ignored.
    pub fn load_rom(&mut self, image: &[u8])
        requires
            old(self).wf(),
        ensures
            final(self).wf(),
            final(self)@ == if image@.len() < 0x10000 {
                old(self)@
            } else {
                JsaView {
                    bank_pages: image@.subrange(0, 0x4000),
                    rom: image@.subrange(0x4000, 0x10000),
                    ..old(self)@
                }
            },
    {
        if image.len() < 0x10000 {
            return;
        }
        self.bank_pages = copied_range(image, 0, 0x4000);
        self.rom = copied_range(image, 0x4000, 0x10000);
    }

    /// Reset the board. Memories stay.
    pub fn reset(&mut self)
        requires
            old(self).wf(),
        ensures
            final(self).wf(),
            final(self)@ == JsaView::idle(
                old(self)@.ram,
                old(self)@.rom,
                old(self)@.bank_pages,
                old(self)@.pokey_fitted,
            ),
    {
        self.bank = 0;
        self.soundlatch = 0;
        self.command_pending = false;
        self.mainlatch = 0;
        self.response_pending = false;
        self.sound_nmi = false;
        self.timed_int = false;
        self.irq_counter = 0;
        self.coin_inputs = 0;
        self.self_test = false;
        self.wrio = 0;
        self.mix = MIX_FULL;
        self.reset_pending = true;
        self.clock = 0;
    }

    /// The main board sends a command: latch it, flag it, raise the NMI.
    pub fn write_command(&mut self, data: u8)
        ensures
            final(self)@ == (JsaView {
                soundlatch: data,
                command_pending: true,
                sound_nmi: true,
                ..old(self)@
            }),
    {
        self.soundlatch = data;
        self.command_pending = true;
        self.sound_nmi = true;
    }

    /// The main board collects the response.
    pub fn read_response(&mut self) -> (v: u8)
        ensures
            v == old(self)@.mainlatch,
            final(self)@ == (JsaView { response_pending: false, ..old(self)@ }),
    {
        self.response_pending = false;
        self.mainlatch
    }

    /// Whether the sound CPU has not read the command yet.
    pub fn command_pending(&self) -> (b: bool)
        ensures
            b == self@.command_pending,
    {
        self.command_pending
    }

    /// Whether the main board has not collected the response yet.
    pub fn response_pending(&self) -> (b: bool)
        ensures
            b == self@.response_pending,
    {
        self.response_pending
    }

    /// The main board pulses the sound CPU's reset line. A response it had not
    /// collected is dropped.
    pub fn reset_pulse(&mut self)
        ensures
            final(self)@ == (JsaView { response_pending: false, reset_pending: true, ..old(self)@ }),
    {
        self.response_pending = false;
        self.reset_pending = true;
    }

    /// Press or release a coin switch; only the two low lines of the index
    /// count.
    pub fn set_coin(&mut self, index: u8, pressed: bool)
        ensures
            final(self)@ == (JsaView {
                coin_inputs: with_bit(old(self)@.coin_inputs, index % 4, pressed),
                ..old(self)@
            }),
    {
        self.coin_inputs = drive_bit(self.coin_inputs, index % 4, pressed);
    }

    /// Drive the operator self-test line.
    pub fn set_self_test(&mut self, pressed: bool)
        ensures
            final(self)@ == (JsaView { self_test: pressed, ..old(self)@ }),
    {
        self.self_test = pressed;
    }

    /// The board's part of one sound CPU cycle, before the CPU's. Whether the
    /// CPU must boot from its vector.
    pub fn begin_tick(&mut self) -> (boot: bool)
        requires
            old(self)@.irq_counter < u32::MAX,
        ensures
            boot == old(self)@.reset_pending,
            final(self)@ == old(self)@.after_begin_tick(),
    {
        let boot: bool = self.reset_pending;
        if boot {
            self.reset_pending = false;
            self.timed_int = false;
            self.irq_counter = 0;
        }
        self.irq_counter = self.irq_counter + 1;
        if self.irq_counter >= IRQ_PERIOD_CYCLES {
            self.irq_counter = 0;
            self.timed_int = true;
        }
        boot
    }

    /// Count a sound CPU cycle, after the chips have been clocked.
    pub fn end_tick(&mut self)
        requires
            old(self)@.clock < u64::MAX,
        ensures
            final(self)@ == (JsaView { clock: (old(self)@.clock + 1) as u64, ..old(self)@ }),
    {
        self.clock = self.clock + 1;
    }

    /// The I/O port.
    pub fn read_rdio(&self) -> (v: u8)
        ensures
            v == self@.rdio(),
    {
        let mut v: u8 = self.coin_inputs % 16;
        if !self.command_pending {
            v = v + 0x40;
        }
        if self.response_pending {
            v = v + 0x20;
        }
        if self.self_test {
            v = v + 0x80;
        }
        v
    }

    /// Set the bank latch. Whether the YM2151 is held in reset.
    pub fn write_wrio(&mut self, data: u8) -> (ym_reset: bool)
        ensures
            final(self)@ == old(self)@.with_wrio(data),
            ym_reset == (data % 2 == 0),
    {
        self.wrio = data;
        self.bank = data / 64;
        data % 2 == 0
    }

    /// A sound CPU read.
    pub fn read(&mut self, addr: u16) -> (r: JsaRead)
        requires
            old(self).wf(),
        ensures
            final(self).wf(),
            r == old(self)@.read_access(addr),
            final(self)@ == old(self)@.after_read(addr),
    {
        if addr < 0x2000 {
            JsaRead::Value(self.ram[addr as usize])
        } else if addr < 0x2800 {
            JsaRead::Ym { port: (addr % 2) as u8 }
        } else if addr < 0x2C00 {
            match port_at(addr) {
                JsaPort::Rdp => {
                    self.command_pending = false;
                    self.sound_nmi = false;
                    JsaRead::Value(self.soundlatch)
                },
                JsaPort::Rdio => JsaRead::Value(self.read_rdio()),
                JsaPort::IrqAck => {
                    self.timed_int = false;
                    JsaRead::Value(0xFF)
                },
                _ => JsaRead::Value(0xFF),
            }
        } else if addr < 0x2C10 {
            if self.pokey_fitted {
                JsaRead::Pokey { register: (addr % 16) as u8 }
            } else {
                JsaRead::Value(0xFF)
            }
        } else if addr < 0x3000 {
            JsaRead::Value(0xFF)
        } else if addr < 0x4000 {
            JsaRead::Value(self.bank_pages[self.bank as usize * 0x1000 + (addr - 0x3000) as usize])
        } else {
            JsaRead::Value(self.rom[(addr - 0x4000) as usize])
        }
    }

    /// A sound CPU write.
    pub fn write(&mut self, addr: u16, data: u8) -> (w: JsaWrite)
        requires
            old(self).wf(),
        ensures
            final(self).wf(),
            w == old(self)@.write_access(addr, data),
            final(self)@ == old(self)@.after_write(addr, data),
    {
        if addr < 0x2000 {
            self.ram.set(addr as usize, data);
        } else if addr < 0x2800 {
            return JsaWrite::Ym { port: (addr % 2) as u8, data };
        } else if addr < 0x2C00 {
            match port_at(addr) {
                JsaPort::IrqAck => {
                    self.timed_int = false;
                },
                JsaPort::Wrp => {
                    self.mainlatch = data;
                    self.response_pending = true;
                },
                JsaPort::Wrio => if self.write_wrio(data) {
                    return JsaWrite::YmReset;
                },
                JsaPort::Mix => {
                    self.mix = data;
                },
                _ => {},
            }
        } else if addr < 0x2C10 && self.pokey_fitted {
            return JsaWrite::Pokey { register: (addr % 16) as u8, data };
        }
        JsaWrite::Done
    }

    /// The sound CPU's interrupt lines. Sampling takes the one-shot NMI. The
    /// YM2151's line comes in as an argument.
    pub fn check_interrupts(&mut self, ym_irq: bool) -> (s: InterruptState)
        ensures
            s == InterruptState::lines(old(self)@.sound_nmi, old(self)@.timed_int || ym_irq),
            final(self)@ == (JsaView { sound_nmi: false, ..old(self)@ }),
    {
        let nmi: bool = self.sound_nmi;
        self.sound_nmi = false;
        InterruptState::of_lines(nmi, self.timed_int || ym_irq)
    }

    /// The POKEY's volume code.
    pub fn pokey_code(&self) -> (c: u8)
        ensures
            c == self@.spec_pokey_code(),
    {
        (self.mix / 16) % 4
    }

    /// The YM2151's volume code.
    pub fn ym_code(&self) -> (c: u8)
        ensures
            c == self@.spec_ym_code(),
    {
        (self.mix / 2) % 8
    }

    /// The POKEY's gain into a channel mixer: 47k over 150k for each step.
    pub fn pokey_gain(&self) -> (g: GainRatio)
        ensures
            g == (GainRatio { num: (47 * self@.spec_pokey_code()) as u32, den: 150 }),
    {
        GainRatio { num: 47 * self.pokey_code() as u32, den: 150 }
    }

    /// The YM2151's gain into a channel mixer: 12k over 30k for each step.
    pub fn ym_gain(&self) -> (g: GainRatio)
        ensures
            g == (GainRatio { num: (12 * self@.spec_ym_code()) as u32, den: 30 }),
    {
        GainRatio { num: 12 * self.ym_code() as u32, den: 30 }
    }

    /// How the output stage is set.
    pub fn mix_plan(&self, ct1: bool, ct2: bool) -> (m: JsaMix)
        ensures
            m == self@.spec_mix(ct1, ct2),
    {
        JsaMix {
            ym: self.ym_gain(),
            pokey: if ct1 || ct2 {
                self.pokey_gain()
            } else {
                GainRatio { num: 0, den: 150 }
            },
            shunt_closed: self.mix % 4 != 0,
        }
    }

    /// Which page the ROM window shows.
    pub fn bank(&self) -> (b: u8)
        ensures
            b == self@.bank,
    {
        self.bank
    }

    /// Cycles run and the two pending flags.
    pub fn debug_state(&self) -> (s: (u64, bool, bool))
        ensures
            s == (self@.clock, self@.command_pending, self@.response_pending),
    {
        (self.clock, self.command_pending, self.response_pending)
    }

    /// The registers as a debugger lists them.
    pub fn debug_registers(&self) -> (v: Vec<DebugRegister>)
        ensures
            v@ == self@.registers(),
    {
        let v: Vec<DebugRegister> = vec![
            DebugRegister { name: "SND_CLK", value: self.clock, width: 32 },
            DebugRegister { name: "BANK", value: self.bank as u64, width: 2 },
            DebugRegister { name: "WRIO", value: self.wrio as u64, width: 8 },
            DebugRegister { name: "MIX", value: self.mix as u64, width: 8 },
            DebugRegister { name: "CMD", value: self.soundlatch as u64, width: 8 },
            DebugRegister { name: "RESP", value: self.mainlatch as u64, width: 8 },
        ];
        assert(v@ =~= self@.registers());
        v
    }
}

impl Default for AtariJsa1 {
    fn default() -> (b: AtariJsa1)
        ensures
            b.wf(),
            b@ == JsaView::idle(
                zeros(0x2000),
                Seq::new(0xC000, |i: int| 0xFFu8),
                Seq::new(0x4000, |i: int| 0xFFu8),
                false,
            ),
    {
        AtariJsa1::new(JsaPokey::Absent)
    }
}

/// What is saved of the board beside its CPU and chips.
pub struct JsaSnapshot {
    pub ram: Vec<u8>,
    pub bank: u8,
    pub soundlatch: u8,
    pub command_pending: bool,
    pub mainlatch: u8,
    pub response_pending: bool,
    pub sound_nmi: bool,
    pub timed_int: bool,
    pub irq_counter: u32,
    pub coin_inputs: u8,
    pub self_test: bool,
    pub wrio: u8,
    pub mix: u8,
    pub reset_pending: bool,
    pub clock: u64,
}

impl JsaSnapshot {
    /// Every memory has the board's size.
    pub open spec fn wf(&self) -> bool {
        &&& self.ram@.len() == 0x2000
    }
}

impl JsaView {
    /// `s` holds the saved part of this board.
    pub open spec fn saved_as(&self, s: JsaSnapshot) -> bool {
        &&& s.ram@ == self.ram
        &&& s.bank == self.bank
        &&& s.soundlatch == self.soundlatch
        &&& s.command_pending == self.command_pending
        &&& s.mainlatch == self.mainlatch
        &&& s.response_pending == self.response_pending
        &&& s.sound_nmi == self.sound_nmi
        &&& s.timed_int == self.timed_int
        &&& s.irq_counter == self.irq_counter
        &&& s.coin_inputs == self.coin_inputs
        &&& s.self_test == self.self_test
        &&& s.wrio == self.wrio
        &&& s.mix == self.mix
        &&& s.reset_pending == self.reset_pending
        &&& s.clock == self.clock
    }

    /// This board with the saved part replaced by `s`.
    pub open spec fn restored_from(self, s: JsaSnapshot) -> JsaView {
        JsaView {
            ram: s.ram@,
            bank: s.bank,
            soundlatch: s.soundlatch,
            command_pending: s.command_pending,
            mainlatch: s.mainlatch,
            response_pending: s.response_pending,
            sound_nmi: s.sound_nmi,
            timed_int: s.timed_int,
            irq_counter: s.irq_counter,
            coin_inputs: s.coin_inputs,
            self_test: s.self_test,
            wrio: s.wrio,
            mix: s.mix,
            reset_pending: s.reset_pending,
            clock: s.clock,
            ..self
        }
    }
}

impl AtariJsa1 {
    /// Take a snapshot.
    pub fn save_state(&self) -> (s: JsaSnapshot)
        requires
            self.wf(),
        ensures
            s.wf(),
            self@.saved_as(s),
    {
        JsaSnapshot {
            ram: copied(self.ram.as_slice()),
            bank: self.bank,
            soundlatch: self.soundlatch,
            command_pending: self.command_pending,
            mainlatch: self.mainlatch,
            response_pending: self.response_pending,
            sound_nmi: self.sound_nmi,
            timed_int: self.timed_int,
            irq_counter: self.irq_counter,
            coin_inputs: self.coin_inputs,
            self_test: self.self_test,
            wrio: self.wrio,
            mix: self.mix,
            reset_pending: self.reset_pending,
            clock: self.clock,
        }
    }

    /// Restore a snapshot. One whose memories have the wrong size is refused
    /// and changes nothing.
    pub fn load_state(&mut self, s: &JsaSnapshot) -> (r: Result<(), SaveError>)
        requires
            old(self).wf(),
            s.bank < 4,
        ensures
            final(self).wf(),
            r == if s.wf() { Ok::<(), SaveError>(()) } else { Err(SaveError::SizeMismatch) },
            final(self)@ == if s.wf() { old(self)@.restored_from(*s) } else { old(self)@ },
    {
        if s.ram.len() != 0x2000 {
            return Err(SaveError::SizeMismatch);
        }
        self.ram = copied(s.ram.as_slice());
        self.bank = s.bank;
        self.soundlatch = s.soundlatch;
        self.command_pending = s.command_pending;
        self.mainlatch = s.mainlatch;
        self.response_pending = s.response_pending;
        self.sound_nmi = s.sound_nmi;
        self.timed_int = s.timed_int;
        self.irq_counter = s.irq_counter;
        self.coin_inputs = s.coin_inputs;
        self.self_test = s.self_test;
        self.wrio = s.wrio;
        self.mix = s.mix;
        self.reset_pending = s.reset_pending;
        self.clock = s.clock;
        Ok(())
    }
}

/// Restoring a snapshot brings back everything but the ROM and what is fitted.
pub proof fn law_snapshot_round_trip(a: JsaView, b: JsaView, s: JsaSnapshot)
    requires
        a.saved_as(s),
    ensures
        b.restored_from(s).saved_as(s),
        b.restored_from(s) == (JsaView {
            rom: b.rom,
            bank_pages: b.bank_pages,
            pokey_fitted: b.pokey_fitted,
            ..a
        }),
{
}

/// RAM reads back what was written to it.
pub proof fn law_ram_read_after_write(b: JsaView, addr: u16, data: u8)
    requires
        b.wf(),
        addr < 0x2000,
    ensures
        b.after_write(addr, data).read_access(addr) == JsaRead::Value(data),
{
}

/// The bank latch's top lines pick the page that the window shows, and the fixed
/// ROM does not move.
pub proof fn law_bank_latch_picks_the_page(b: JsaView, addr: u16, data: u8)
    requires
        b.wf(),
        addr >= 0x3000,
    ensures
        b.with_wrio(data).wf(),
        addr < 0x4000 ==> b.with_wrio(data).read_access(addr) == JsaRead::Value(
            b.bank_pages[(data as int / 64) * 0x1000 + (addr - 0x3000)],
        ),
        addr >= 0x4000 ==> b.with_wrio(data).read_access(addr) == b.read_access(addr),
{
}

/// A command reaches the sound CPU: its flag, its NMI and its byte are there
/// until the latch is read, and reading it clears flag and NMI.
pub proof fn law_command_handshake(b: JsaView, data: u8)
    ensures
        ({
            let sent = JsaView { soundlatch: data, command_pending: true, sound_nmi: true, ..b };
            &&& sent.read_access(0x2802) == JsaRead::Value(data)
            &&& !sent.after_read(0x2802).command_pending
            &&& !sent.after_read(0x2802).sound_nmi
        }),
{
    assert((0x2802int / 0x200) % 2 == 0 && (0x2802int / 2) % 4 == 1);
}

/// A response reaches the main board: the write flags it and latches its byte.
pub proof fn law_response_handshake(b: JsaView, data: u8)
    ensures
        b.after_write(0x2A02, data).response_pending,
        b.after_write(0x2A02, data).mainlatch == data,
{
    assert((0x2A02int / 0x200) % 2 == 1 && (0x2A02int / 2) % 4 == 1);
}

/// The strobes answer at every address of the block with the same lines 1, 2
/// and 9.
pub proof fn law_io_block_is_mirrored(b: JsaView, addr: u16, other: u16, data: u8)
    requires
        0x2800 <= addr < 0x2C00,
        0x2800 <= other < 0x2C00,
        (addr / 2) % 4 == (other / 2) % 4,
        (addr / 0x200) % 2 == (other / 0x200) % 2,
    ensures
        b.read_access(addr) == b.read_access(other),
        b.after_read(addr) == b.after_read(other),
        b.after_write(addr, data) == b.after_write(other, data),
{
}

/// The periodic interrupt fires after exactly one period.
pub proof fn law_periodic_interrupt_fires_at_its_period(n: nat)
    requires
        n <= IRQ_PERIOD_CYCLES,
    ensures
        irq_after(0, false, n) == if n == IRQ_PERIOD_CYCLES {
            (0int, true)
        } else {
            (n as int, false)
        },
    decreases n,
{
    if n > 0 {
        law_periodic_interrupt_fires_at_its_period((n - 1) as nat);
    }
}

/// It holds until it is acknowledged, and a read and a write of the strobe both
/// acknowledge it.
pub proof fn law_periodic_interrupt_is_acknowledged(b: JsaView, counter: int, n: nat, data: u8)
    ensures
        irq_after(counter, true, n).1,
        !b.after_read(0x2806).timed_int,
        !b.after_write(0x2806, data).timed_int,
    decreases n,
{
    assert((0x2806int / 0x200) % 2 == 0 && (0x2806int / 2) % 4 == 3);
    if n > 0 {
        law_periodic_interrupt_is_acknowledged(b, counter, (n - 1) as nat, data);
    }
}

/// Each coin switch has its own line on the I/O port.
pub proof fn law_coin_switch_moves_one_line(b: JsaView, index: u8, k: u8, pressed: bool)
    requires
        k < 8,
    ensures
        bit(with_bit(b.coin_inputs, index % 4, pressed), k) == if k == index % 4 {
            pressed
        } else {
            bit(b.coin_inputs, k)
        },
        with_bit(with_bit(b.coin_inputs, index % 4, true), index % 4, false) == with_bit(
            b.coin_inputs,
            index % 4,
            false,
        ),
{
    lemma_with_bit(b.coin_inputs, (index % 4) as u8, k, pressed);
    lemma_with_bit_twice(b.coin_inputs, (index % 4) as u8, true, false);
}

/// At full volume the YM2151's gain is 2.80 and the POKEY's 0.94, and both are
/// linear in their codes.
pub proof fn law_gain_ladders(b: JsaView)
    ensures
        b.mix == MIX_FULL ==> b.spec_mix(true, true).ym.num * 100 == 280 * b.spec_mix(true, true).ym.den,
        b.mix == MIX_FULL ==> b.spec_mix(true, true).pokey.num * 100 == 94 * b.spec_mix(
            true,
            true,
        ).pokey.den,
        b.spec_mix(true, true).ym.num == 12 * b.spec_ym_code(),
        b.spec_mix(true, true).pokey.num == 47 * b.spec_pokey_code(),
        b.spec_mix(false, false).pokey.num == 0,
{
}

/// A board without a POKEY shows open bus in its window and takes writes there
/// without effect.
pub proof fn law_absent_pokey_is_open_bus(b: JsaView, addr: u16, data: u8)
    requires
        !b.pokey_fitted,
        0x2C00 <= addr < 0x2C10,
    ensures
        b.read_access(addr) == JsaRead::Value(0xFF),
        b.write_access(addr, data) == JsaWrite::Done,
        b.after_write(addr, data) == b,
{
}

} // verus!
