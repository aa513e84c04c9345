//! The Atari AVG colour vector board (1980-1983): a 6502, a periodic IRQ, and
//! the memory that the vector generator draws from. Each game brings its own
//! memory map and I/O.

use vstd::prelude::*;

use crate::machine::TimingConfig;
use crate::memory::{SaveError, copied_range, overlaid, overlay, zeroed, zeros};
use crate::state::{
    StateReader, StateWriter, flag, le64, lemma_append, lemma_le64, lemma_nothing_appended, of_le64,
    u64_at,
};

verus! {

/// CPU cycles in one frame.
pub const FRAME_CYCLES: u64 = 25_200;

/// CPU cycles between IRQs: the crystal divided by 4096 and by twelve.
pub const IRQ_PERIOD_CYCLES: u64 = 6144;

/// The generator's address space, half RAM and half ROM.
pub const AVG_SPACE: usize = 0x2000;

/// Size of each half.
pub const AVG_HALF: usize = 0x1000;

/// Entries of the colour lookup that the generator takes.
pub const COLORS: usize = 16;

/// Timing: a 12.096 MHz crystal divided by eight. There is no scanline
/// hardware, so a frame is one line.
pub open spec fn spec_timing() -> TimingConfig {
    TimingConfig {
        cpu_clock_hz: 1_512_000,
        cycles_per_scanline: 25_200,
        total_scanlines: 1,
        display_width: 580,
        display_height: 570,
        display_aspect: None,
    }
}

pub fn timing() -> (t: TimingConfig)
    ensures
        t == spec_timing(),
        t.frame_cycles() == FRAME_CYCLES,
        8 * t.cpu_clock_hz / 4096 / 12 == t.cpu_clock_hz / IRQ_PERIOD_CYCLES,
{
    TimingConfig {
        cpu_clock_hz: 1_512_000,
        cycles_per_scanline: 25_200,
        total_scanlines: 1,
        display_width: 580,
        display_height: 570,
        display_aspect: None,
    }
}

/// What a window of the memory map leads to.
#[derive(Clone, Copy, Debug, PartialEq, Eq, Structural)]
pub enum Region {
    Ram,
    ColorRam,
    Io,
    VectorRam,
    VectorRom,
    ProgramRom,
}

/// How large a game's map makes each region.
#[derive(Clone, Copy, Debug, PartialEq, Eq, Structural)]
pub struct AvgMap {
    pub ram: u16,
    pub color_ram: u16,
    pub vector_ram: u16,
    pub vector_rom: u16,
    pub program_rom: u16,
}

/// Everything on the board but the CPU and the vector generator.
pub struct AtariAvgBoard {
    pub ram: Vec<u8>,
    /// Colour lookup, as the game's map sizes it.
    pub color_ram: Vec<u8>,
    pub vector_ram: Vec<u8>,
    pub vector_rom: Vec<u8>,
    pub program_rom: Vec<u8>,
    /// CPU cycles since power-on.
    pub clock: u64,
    /// Cycles since the IRQ counter last wrapped.
    pub irq_counter: u64,
    /// Raised by the counter, cleared by the game.
    pub irq_pending: bool,
    pub watchdog_frame_count: u8,
    /// The area that the beam's centre is half of.
    pub visible_width: i32,
    pub visible_height: i32,
}

/// The board as a mathematical value: memories as sequences.
#[verifier::ext_equal]
pub struct AvgView {
    pub ram: Seq<u8>,
    pub color_ram: Seq<u8>,
    pub vector_ram: Seq<u8>,
    pub vector_rom: Seq<u8>,
    pub program_rom: Seq<u8>,
    pub clock: u64,
    pub irq_counter: u64,
    pub irq_pending: bool,
    pub watchdog_frame_count: u8,
    pub visible_width: i32,
    pub visible_height: i32,
}

impl View for AtariAvgBoard {
    type V = AvgView;

    open spec fn view(&self) -> AvgView {
        AvgView {
            ram: self.ram@,
            color_ram: self.color_ram@,
            vector_ram: self.vector_ram@,
            vector_rom: self.vector_rom@,
            program_rom: self.program_rom@,
            clock: self.clock,
            irq_counter: self.irq_counter,
            irq_pending: self.irq_pending,
            watchdog_frame_count: self.watchdog_frame_count,
            visible_width: self.visible_width,
            visible_height: self.visible_height,
        }
    }
}

/// The generator is started: what its memory holds, and the colours.
pub struct AvgStart {
    pub memory: Vec<u8>,
    pub colors: Vec<u8>,
}

/// The IRQ counter and line after one more cycle.
pub open spec fn irq_step(counter: int, pending: bool) -> (int, bool) {
    if counter + 1 >= IRQ_PERIOD_CYCLES {
        (0, true)
    } else {
        (counter + 1, pending)
    }
}

/// The IRQ counter and line after `n` cycles in which nothing clears the line.
pub open spec fn irq_after(counter: int, pending: bool, n: nat) -> (int, bool)
    decreases n,
{
    if n == 0 {
        (counter, pending)
    } else {
        let before = irq_after(counter, pending, (n - 1) as nat);
        irq_step(before.0, before.1)
    }
}

impl AvgView {
    /// The vector RAM fills the lower half of the generator's address space.
    pub open spec fn wf(&self) -> bool {
        &&& self.vector_ram.len() == AVG_HALF
        &&& self.ram.len() <= 0xFFFF
        &&& self.color_ram.len() <= 0xFFFF
    }

    /// What the generator sees: vector RAM below, as much of the vector ROM as
    /// fits above, zeros after it.
    pub open spec fn avg_memory(&self) -> Seq<u8> {
        Seq::new(
            AVG_SPACE as nat,
            |i: int|
                if i < AVG_HALF {
                    self.vector_ram[i]
                } else if i - AVG_HALF < self.vector_rom.len() {
                    self.vector_rom[i - AVG_HALF]
                } else {
                    0
                },
        )
    }

    /// The colours handed to the generator, zero where the lookup is shorter.
    pub open spec fn colors(&self) -> Seq<u8> {
        Seq::new(
            COLORS as nat,
            |i: int|
                if i < self.color_ram.len() {
                    self.color_ram[i]
                } else {
                    0
                },
        )
    }
}

impl AtariAvgBoard {
    pub open spec fn wf(&self) -> bool {
        self@.wf()
    }

    /// A board with blank memories.
    pub fn new(map: AvgMap, visible_width: i32, visible_height: i32) -> (b: AtariAvgBoard)
        requires
            map.vector_ram == AVG_HALF,
        ensures
            b.wf(),
            b@ == (AvgView {
                ram: zeros(map.ram as nat),
                color_ram: zeros(map.color_ram as nat),
                vector_ram: zeros(AVG_HALF as nat),
                vector_rom: zeros(map.vector_rom as nat),
                program_rom: zeros(map.program_rom as nat),
                clock: 0,
                irq_counter: 0,
                irq_pending: false,
                watchdog_frame_count: 0,
                visible_width,
                visible_height,
            }),
    {
        AtariAvgBoard {
            ram: zeroed(map.ram as usize),
            color_ram: zeroed(map.color_ram as usize),
            vector_ram: zeroed(AVG_HALF),
            vector_rom: zeroed(map.vector_rom as usize),
            program_rom: zeroed(map.program_rom as usize),
            clock: 0,
            irq_counter: 0,
            irq_pending: false,
            watchdog_frame_count: 0,
            visible_width,
            visible_height,
        }
    }

    /// Copy as much of an image as fits into a region.
    pub fn load_region(&mut self, region: Region, image: &[u8])
        requires
            old(self).wf(),
        ensures
            final(self).wf(),
            final(self)@ == match region {
                Region::Ram => AvgView { ram: overlaid(old(self)@.ram, image@), ..old(self)@ },
                Region::ColorRam => AvgView {
                    color_ram: overlaid(old(self)@.color_ram, image@),
                    ..old(self)@
                },
                Region::VectorRam => AvgView {
                    vector_ram: overlaid(old(self)@.vector_ram, image@),
                    ..old(self)@
                },
                Region::VectorRom => AvgView {
                    vector_rom: overlaid(old(self)@.vector_rom, image@),
                    ..old(self)@
                },
                Region::ProgramRom => AvgView {
                    program_rom: overlaid(old(self)@.program_rom, image@),
                    ..old(self)@
                },
                Region::Io => old(self)@,
            },
    {
        match region {
            Region::Ram => overlay(&mut self.ram, image),
            Region::ColorRam => overlay(&mut self.color_ram, image),
            Region::VectorRam => overlay(&mut self.vector_ram, image),
            Region::VectorRom => overlay(&mut self.vector_rom, image),
            Region::ProgramRom => overlay(&mut self.program_rom, image),
            Region::Io => {},
        }
    }

    /// The board's part of one cycle, before the CPU's.
    pub fn begin_cycle(&mut self)
        requires
            old(self)@.irq_counter < u64::MAX,
        ensures
            ({
                let next = irq_step(old(self)@.irq_counter as int, old(self)@.irq_pending);
                final(self)@ == (AvgView {
                    irq_counter: next.0 as u64,
                    irq_pending: next.1,
                    ..old(self)@
                })
            }),
    {
        self.irq_counter = self.irq_counter + 1;
        if self.irq_counter >= IRQ_PERIOD_CYCLES {
            self.irq_counter = 0;
            self.irq_pending = true;
        }
    }

    /// Count a CPU cycle.
    pub fn end_cycle(&mut self)
        requires
            old(self)@.clock < u64::MAX,
        ensures
            final(self)@ == (AvgView { clock: (old(self)@.clock + 1) as u64, ..old(self)@ }),
    {
        self.clock = self.clock + 1;
    }

    /// Start the generator: assemble its memory and its colours.
    pub fn trigger_avg(&self) -> (start: AvgStart)
        requires
            self.wf(),
        ensures
            start.memory@ == self@.avg_memory(),
            start.colors@ == self@.colors(),
    {
        let mut memory: Vec<u8> = zeroed(AVG_SPACE);
        let mut i: usize = 0;
        while i < AVG_HALF
            invariant
                self.wf(),
                i <= AVG_HALF,
                memory@.len() == AVG_SPACE,
                forall|k: int|
                    0 <= k < AVG_SPACE ==> #[trigger] memory@[k] == if k < i {
                        self.vector_ram@[k]
                    } else {
                        0
                    },
            decreases AVG_HALF - i,
        {
            memory.set(i, self.vector_ram[i]);
            i += 1;
        }
        let mut j: usize = 0;
        while j < AVG_HALF && j < self.vector_rom.len()
            invariant
                self.wf(),
                j <= AVG_HALF,
                j <= self.vector_rom@.len(),
                memory@.len() == AVG_SPACE,
                forall|k: int|
                    0 <= k < AVG_SPACE ==> #[trigger] memory@[k] == if k < AVG_HALF {
                        self.vector_ram@[k]
                    } else if k - AVG_HALF < j {
                        self.vector_rom@[k - AVG_HALF]
                    } else {
                        0
                    },
            decreases AVG_HALF - j,
        {
            memory.set(AVG_HALF + j, self.vector_rom[j]);
            j += 1;
        }
        assert(memory@ =~= self@.avg_memory());
        let mut colors: Vec<u8> = zeroed(COLORS);
        overlay(&mut colors, self.color_ram.as_slice());
        assert(colors@ =~= self@.colors());
        AvgStart { memory, colors }
    }

    /// Reset the board. Memories and the cycle count stay.
    pub fn reset(&mut self)
        ensures
            final(self)@ == (AvgView {
                irq_pending: false,
                irq_counter: 0,
                watchdog_frame_count: 0,
                ..old(self)@
            }),
    {
        self.irq_pending = false;
        self.irq_counter = 0;
        self.watchdog_frame_count = 0;
    }

    /// How many CPUs are at an instruction boundary.
    pub fn debug_tick_boundaries(&self, cpu_at_boundary: bool) -> (n: u32)
        ensures
            n == if cpu_at_boundary { 1u32 } else { 0u32 },
    {
        if cpu_at_boundary {
            1
        } else {
            0
        }
    }

    pub fn display_size(&self) -> (size: (u32, u32))
        ensures
            size == (580u32, 570u32),
    {
        timing().display_size()
    }
}

/// Bytes of the counters at the end of a saved state.
pub const COUNTERS_LEN: usize = 18;

impl AvgView {
    /// The board in a saved state.
    pub open spec fn state_bytes(&self) -> Seq<u8> {
        Seq::<u8>::empty() + self.ram + self.color_ram + self.vector_ram + le64(self.clock) + le64(
            self.irq_counter,
        ) + seq![flag(self.irq_pending)] + seq![self.watchdog_frame_count]
    }

    /// Bytes of this board in a saved state.
    pub open spec fn state_len(&self) -> int {
        self.ram.len() + self.color_ram.len() + AVG_HALF + COUNTERS_LEN
    }

    /// This board with the saved part taken from `b`.
    pub open spec fn with_state(self, b: Seq<u8>) -> AvgView {
        let r = self.ram.len() as int;
        let c = r + self.color_ram.len();
        let n = c + AVG_HALF;
        AvgView {
            ram: b.subrange(0, r),
            color_ram: b.subrange(r, c),
            vector_ram: b.subrange(c, n),
            clock: of_le64(b.subrange(n, n + 8)),
            irq_counter: of_le64(b.subrange(n + 8, n + 16)),
            irq_pending: b[n + 16] != 0,
            watchdog_frame_count: b[n + 17],
            ..self
        }
    }
}

impl AtariAvgBoard {
    /// Write the board's RAM and counters. ROM is not saved.
    pub fn save_state(&self, w: &mut StateWriter)
        ensures
            final(w)@ == old(w)@ + self@.state_bytes(),
    {
        let ghost start = w@;
        let ghost g0 = Seq::<u8>::empty();
        proof {
            lemma_nothing_appended(start);
        }
        w.write_bytes(self.ram.as_slice());
        proof {
            lemma_append(start, g0, self@.ram);
        }
        let ghost g1 = g0 + self@.ram;
        w.write_bytes(self.color_ram.as_slice());
        proof {
            lemma_append(start, g1, self@.color_ram);
        }
        let ghost g2 = g1 + self@.color_ram;
        w.write_bytes(self.vector_ram.as_slice());
        proof {
            lemma_append(start, g2, self@.vector_ram);
        }
        let ghost g3 = g2 + self@.vector_ram;
        w.write_u64_le(self.clock);
        proof {
            lemma_append(start, g3, le64(self@.clock));
        }
        let ghost g4 = g3 + le64(self@.clock);
        w.write_u64_le(self.irq_counter);
        proof {
            lemma_append(start, g4, le64(self@.irq_counter));
        }
        let ghost g5 = g4 + le64(self@.irq_counter);
        w.write_bool(self.irq_pending);
        proof {
            lemma_append(start, g5, seq![flag(self@.irq_pending)]);
        }
        let ghost g6 = g5 + seq![flag(self@.irq_pending)];
        w.write_u8(self.watchdog_frame_count);
        proof {
            lemma_append(start, g6, seq![self@.watchdog_frame_count]);
        }
    }

    /// Take the board's RAM and counters back. Fails, changing nothing of the
    /// board, where the bytes end too early.
    pub fn load_state(&mut self, r: &mut StateReader) -> (res: Result<(), SaveError>)
        requires
            old(self).wf(),
        ensures
            final(self).wf(),
            old(r)@.len() >= old(self)@.state_len() ==> res is Ok && final(self)@
                == old(self)@.with_state(old(r)@.take(old(self)@.state_len())) && final(r)@
                == old(r)@.skip(old(self)@.state_len()),
            old(r)@.len() < old(self)@.state_len() ==> res == Err::<(), SaveError>(
                SaveError::UnexpectedEnd,
            ) && final(self)@ == old(self)@ && final(r)@ == old(r)@,
    {
        let ram_end: usize = self.ram.len();
        let color_end: usize = ram_end + self.color_ram.len();
        let n: usize = color_end + AVG_HALF;
        let b: Vec<u8> = match r.take_bytes(n + COUNTERS_LEN) {
            Ok(v) => v,
            Err(e) => {
                return Err(e);
            },
        };
        assert(b.len() == n + COUNTERS_LEN);
        self.ram = copied_range(b.as_slice(), 0, ram_end);
        self.color_ram = copied_range(b.as_slice(), ram_end, color_end);
        self.vector_ram = copied_range(b.as_slice(), color_end, n);
        self.clock = u64_at(&b, n);
        self.irq_counter = u64_at(&b, n + 8);
        self.irq_pending = b[n + 16] != 0;
        self.watchdog_frame_count = b[n + 17];
        Ok(())
    }
}

/// Restoring a saved board brings its RAM and counters back and leaves ROM as it
/// is.
pub proof fn law_state_round_trip(a: AvgView, b: AvgView)
    requires
        a.wf(),
        b.wf(),
        a.ram.len() == b.ram.len(),
        a.color_ram.len() == b.color_ram.len(),
    ensures
        a.state_bytes().len() == b.state_len(),
        b.with_state(a.state_bytes()) == (AvgView {
            ram: a.ram,
            color_ram: a.color_ram,
            vector_ram: a.vector_ram,
            clock: a.clock,
            irq_counter: a.irq_counter,
            irq_pending: a.irq_pending,
            watchdog_frame_count: a.watchdog_frame_count,
            ..b
        }),
{
    let s = a.state_bytes();
    let r = a.ram.len() as int;
    let c = r + a.color_ram.len();
    let n = c + AVG_HALF;
    assert(s.subrange(0, r) =~= a.ram);
    assert(s.subrange(r, c) =~= a.color_ram);
    assert(s.subrange(c, n) =~= a.vector_ram);
    assert(s.subrange(n, n + 8) =~= le64(a.clock));
    lemma_le64(a.clock);
    assert(s.subrange(n + 8, n + 16) =~= le64(a.irq_counter));
    lemma_le64(a.irq_counter);
    assert(s[n + 16] == flag(a.irq_pending));
    assert(s[n + 17] == a.watchdog_frame_count);
}

/// From the counter's wrap on, the next IRQ comes after exactly one period.
pub proof fn law_irq_repeats_every_period(n: nat)
    requires
        n <= IRQ_PERIOD_CYCLES,
    ensures
        irq_after(0, false, n) == if n == IRQ_PERIOD_CYCLES {
            (0int, true)
        } else {
            (n as int, false)
        },
    decreases n,
{
    if n > 0 {
        law_irq_repeats_every_period((n - 1) as nat);
    }
}

/// Once raised, the line holds until the game clears it.
pub proof fn law_irq_holds_until_cleared(counter: int, n: nat)
    ensures
        irq_after(counter, true, n).1,
    decreases n,
{
    if n > 0 {
        law_irq_holds_until_cleared(counter, (n - 1) as nat);
    }
}

} // verus!
