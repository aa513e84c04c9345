//! The Atari DVG vector board (1979-1980): a 6502, a periodic NMI, a watchdog,
//! and the memory that the vector generator draws from. Each game brings its
//! own memory map and I/O.

use vstd::prelude::*;

use crate::bits::{bit, bit_is_set};
use crate::machine::TimingConfig;
use crate::memory::{SaveError, copied_range, overlaid, overlay, zeroed, zeros};
use crate::state::{
    StateReader, StateWriter, flag, le64, lemma_append, lemma_le64, lemma_nothing_appended, of_le64,
    u64_at,
};
use crate::trace::{DebugAccessSource, DebugEvent, DebugEventKind};

verus! {

/// CPU cycles in one frame.
pub const FRAME_CYCLES: u64 = 25_200;

/// CPU cycles between NMIs: the CPU clock divided down to 250 Hz.
pub const NMI_PERIOD_CYCLES: u64 = 1_512_000 / 250;

/// How long the NMI line stays low.
pub const NMI_PULSE_CYCLES: u64 = 16;

/// Frames without a write before the watchdog resets the machine.
pub const WATCHDOG_FRAMES: u8 = 8;

/// Data lines that the option multiplexer does not drive.
pub const DSW_UNDRIVEN: u8 = 0xFC;

/// Size of the vector RAM.
pub const VECTOR_RAM_LEN: usize = 0x800;

/// The generator's address space.
pub const DVG_SPACE: usize = 0x2000;

/// Timing: a 12.096 MHz crystal divided by eight. There is no scanline
/// hardware, so a frame is one line.
pub open spec fn spec_timing() -> TimingConfig {
    TimingConfig {
        cpu_clock_hz: 1_512_000,
        cycles_per_scanline: 25_200,
        total_scanlines: 1,
        display_width: 1024,
        display_height: 1024,
        display_aspect: Some((4u32, 3u32)),
    }
}

pub fn timing() -> (t: TimingConfig)
    ensures
        t == spec_timing(),
        t.frame_cycles() == FRAME_CYCLES,
        NMI_PERIOD_CYCLES == t.cpu_clock_hz / 250,
{
    TimingConfig {
        cpu_clock_hz: 1_512_000,
        cycles_per_scanline: 25_200,
        total_scanlines: 1,
        display_width: 1024,
        display_height: 1024,
        display_aspect: Some((4, 3)),
    }
}

/// What a window of the memory map leads to.
#[derive(Clone, Copy, Debug, PartialEq, Eq, Structural)]
pub enum Region {
    Ram,
    Io,
    VectorRam,
    VectorRom,
    ProgramRom,
}

/// A window of the memory map: `size` addresses from `base` on lead to the
/// start of the region.
#[derive(Clone, Copy, Debug)]
pub struct DvgWindow {
    pub region: Region,
    pub name: &'static str,
    pub base: u16,
    pub size: u16,
}

impl DvgWindow {
    pub open spec fn covers(&self, addr: u16) -> bool {
        self.base <= addr < self.base + self.size
    }
}

/// A game's memory map.
pub struct DvgMap {
    pub windows: Vec<DvgWindow>,
}

/// The first window, from number `from` on, that covers an address.
pub open spec fn window_from(windows: Seq<DvgWindow>, from: int, addr: u16) -> Option<DvgWindow>
    decreases windows.len() - from,
{
    if from < 0 || from >= windows.len() {
        None
    } else if windows[from].covers(addr) {
        Some(windows[from])
    } else {
        window_from(windows, from + 1, addr)
    }
}

/// The window that an address is decoded to.
pub open spec fn window_at(windows: Seq<DvgWindow>, addr: u16) -> Option<DvgWindow> {
    window_from(windows, 0, addr)
}

/// Size of a region: that of its first window, from number `from` on.
pub open spec fn size_from(windows: Seq<DvgWindow>, from: int, region: Region) -> int
    decreases windows.len() - from,
{
    if from < 0 || from >= windows.len() {
        0
    } else if windows[from].region == region {
        windows[from].size as int
    } else {
        size_from(windows, from + 1, region)
    }
}

/// Size of a region, 0 where the map has no window to it.
pub open spec fn size_of(windows: Seq<DvgWindow>, region: Region) -> int {
    size_from(windows, 0, region)
}

/// No window reaches past the end of its region.
pub open spec fn map_fits(windows: Seq<DvgWindow>) -> bool {
    forall|i: int|
        0 <= i < windows.len() ==> (#[trigger] windows[i]).size <= size_of(windows, windows[i].region)
}

proof fn lemma_window_found(windows: Seq<DvgWindow>, from: int, addr: u16)
    requires
        0 <= from,
    ensures
        window_from(windows, from, addr) matches Some(w) ==> w.covers(addr) && exists|i: int|
            from <= i < windows.len() && #[trigger] windows[i] == w,
    decreases windows.len() - from,
{
    if from < windows.len() && !windows[from].covers(addr) {
        lemma_window_found(windows, from + 1, addr);
    }
}

impl DvgMap {
    pub fn new() -> (m: DvgMap)
        ensures
            m.windows@ == Seq::<DvgWindow>::empty(),
    {
        DvgMap { windows: Vec::new() }
    }

    /// Add a window to the end of the map. One that leads to a region seen
    /// before is a mirror of it.
    pub fn region(&mut self, region: Region, name: &'static str, base: u16, size: u16)
        ensures
            final(self).windows@ == old(self).windows@.push(DvgWindow { region, name, base, size }),
    {
        self.windows.push(DvgWindow { region, name, base, size });
    }

    /// The size of a region.
    pub fn region_size(&self, region: Region) -> (n: usize)
        ensures
            n == size_of(self.windows@, region),
    {
        let mut i: usize = 0;
        while i < self.windows.len()
            invariant
                i <= self.windows@.len(),
                size_from(self.windows@, 0, region) == size_from(self.windows@, i as int, region),
            decreases self.windows@.len() - i,
        {
            let w: DvgWindow = self.windows[i];
            if w.region == region {
                return w.size as usize;
            }
            i += 1;
        }
        0
    }
}

/// Beam current of each intensity code, out of 255.
pub open spec fn beam_currents() -> Seq<u8> {
    seq![0, 20, 40, 60, 80, 100, 120, 140, 160, 175, 190, 205, 220, 232, 244, 255]
}

/// The beam current for an intensity code. Only the low four lines count.
pub fn beam_current(intensity: u8) -> (v: u8)
    ensures
        v == beam_currents()[intensity as int % 16],
{
    let table: [u8; 16] = [
        0,
        20,
        40,
        60,
        80,
        100,
        120,
        140,
        160,
        175,
        190,
        205,
        220,
        232,
        244,
        255,
    ];
    assert(table@ =~= beam_currents());
    table[(intensity % 16) as usize]
}

/// A higher code is never dimmer; code 0 is dark and the highest is full.
pub proof fn law_intensity_codes_rise(a: int, b: int)
    requires
        0 <= a < b < 16,
    ensures
        beam_currents()[a] < beam_currents()[b],
        beam_currents()[0] == 0,
        beam_currents()[15] == 255,
{
}

/// Swap the two halves of the upper RAM: with RAMSEL set, each address whose
/// line 9 is high reaches the other 256 bytes.
pub open spec fn swapped_by_ramsel(addr: u16, ramsel: bool) -> int {
    if ramsel && (addr / 0x200) % 2 == 1 {
        if (addr / 0x100) % 2 == 0 {
            addr + 0x100
        } else {
            addr - 0x100
        }
    } else {
        addr as int
    }
}

/// The RAM address that a CPU address reaches under RAMSEL.
pub fn ramsel_addr(addr: u16, ramsel: bool) -> (a: u16)
    ensures
        a == swapped_by_ramsel(addr, ramsel),
{
    if ramsel && (addr / 0x200) % 2 == 1 {
        if (addr / 0x100) % 2 == 0 {
            addr + 0x100
        } else {
            addr - 0x100
        }
    } else {
        addr
    }
}

/// An 8:1 multiplexer: the selected line on the top data line.
pub open spec fn mux_line(high: bool) -> u8 {
    if high {
        0x80
    } else {
        0
    }
}

/// Line `n` of the first input port: the 3 kHz clock on line 1, the
/// generator's running line on line 2, switches on the others.
pub open spec fn in0_line(in0: u8, n: u8, clock: u64, dvg_halted: bool) -> bool {
    if n == 1 {
        (clock / 0x100) % 2 == 1
    } else if n == 2 {
        !dvg_halted
    } else {
        bit(in0, n)
    }
}

/// Read one line of the first input port.
pub fn read_in0(in0: u8, n: u8, clock: u64, dvg_halted: bool) -> (v: u8)
    requires
        n < 8,
    ensures
        v == mux_line(in0_line(in0, n, clock, dvg_halted)),
{
    let high: bool = if n == 1 {
        (clock / 0x100) % 2 == 1
    } else if n == 2 {
        !dvg_halted
    } else {
        bit_is_set(in0, n)
    };
    if high {
        0x80
    } else {
        0
    }
}

/// Read one line of the second input port.
pub fn read_in1(in1: u8, n: u8) -> (v: u8)
    requires
        n < 8,
    ensures
        v == mux_line(bit(in1, n)),
{
    if bit_is_set(in1, n) {
        0x80
    } else {
        0
    }
}

/// The pair of option toggles at multiplexer input `n`, counted from the top
/// of the byte down.
pub open spec fn toggle_pair(switches: u8, n: int) -> int {
    (switches as int / if n == 0 {
        64int
    } else if n == 1 {
        16
    } else if n == 2 {
        4
    } else {
        1
    }) % 4
}

/// Read a pair of option toggles.
pub fn read_toggles(switches: u8, n: u16) -> (v: u8)
    requires
        n < 4,
    ensures
        v == toggle_pair(switches, n as int),
{
    (switches / if n == 0 {
        64
    } else if n == 1 {
        16
    } else if n == 2 {
        4
    } else {
        1
    }) % 4
}

/// The lines that the multiplexer leaves alone read high around a pair.
pub proof fn lemma_undriven_lines_read_high()
    ensures
        forall|pair: u8| pair < 4 ==> #[trigger] (DSW_UNDRIVEN | pair) == 0xFC + pair,
{
    assert(forall|pair: u8| pair < 4 ==> #[trigger] (0xFCu8 | pair) == 0xFC + pair) by (bit_vector);
}

/// The four pairs together are the whole byte.
pub proof fn law_toggle_pairs_hold_the_byte(switches: u8)
    ensures
        switches == 64 * toggle_pair(switches, 0) + 16 * toggle_pair(switches, 1) + 4 * toggle_pair(
            switches,
            2,
        ) + toggle_pair(switches, 3),
{
}

/// Swapping twice is no swap, and the swap stays within the upper RAM.
pub proof fn law_ramsel_swaps_halves(addr: u16, ramsel: bool)
    requires
        addr < 0x800,
    ensures
        swapped_by_ramsel(swapped_by_ramsel(addr, ramsel) as u16, ramsel) == addr,
        swapped_by_ramsel(addr, ramsel) / 0x200 == addr as int / 0x200,
{
}

/// Everything on the board but the CPU and the vector generator.
pub struct AtariDvgBoard {
    /// The game's memory map.
    pub windows: Vec<DvgWindow>,
    pub ram: Vec<u8>,
    pub vector_ram: Vec<u8>,
    pub vector_rom: Vec<u8>,
    pub program_rom: Vec<u8>,
    /// CPU cycles since power-on.
    pub clock: u64,
    /// Cycles since the NMI counter last wrapped.
    pub nmi_counter: u64,
    pub nmi_pending: bool,
    /// Self-test switch, which gates the NMI off.
    pub test_asserted: bool,
    pub watchdog_frame_count: u8,
    /// Where the vector ROM sits in the generator's address space.
    pub vrom_dvg_offset: usize,
    pub vrom_size: usize,
    /// Whether a debugger listens.
    pub tracing: bool,
    /// Address of the instruction being executed, while a debugger listens.
    pub latched_pc: Option<u32>,
}

/// The board as a mathematical value: memories as sequences.
#[verifier::ext_equal]
pub struct DvgView {
    pub windows: Seq<DvgWindow>,
    pub ram: Seq<u8>,
    pub vector_ram: Seq<u8>,
    pub vector_rom: Seq<u8>,
    pub program_rom: Seq<u8>,
    pub clock: u64,
    pub nmi_counter: u64,
    pub nmi_pending: bool,
    pub test_asserted: bool,
    pub watchdog_frame_count: u8,
    pub vrom_dvg_offset: usize,
    pub vrom_size: usize,
    pub tracing: bool,
    pub latched_pc: Option<u32>,
}

impl View for AtariDvgBoard {
    type V = DvgView;

    open spec fn view(&self) -> DvgView {
        DvgView {
            windows: self.windows@,
            ram: self.ram@,
            vector_ram: self.vector_ram@,
            vector_rom: self.vector_rom@,
            program_rom: self.program_rom@,
            clock: self.clock,
            nmi_counter: self.nmi_counter,
            nmi_pending: self.nmi_pending,
            test_asserted: self.test_asserted,
            watchdog_frame_count: self.watchdog_frame_count,
            vrom_dvg_offset: self.vrom_dvg_offset,
            vrom_size: self.vrom_size,
            tracing: self.tracing,
            latched_pc: self.latched_pc,
        }
    }
}

/// The generator is started: what its memory holds, and what to tell a
/// debugger.
pub struct DvgStart {
    pub memory: Vec<u8>,
    pub event: Option<DebugEvent>,
}

/// The NMI counter and line after one more cycle. The line falls when the
/// counter wraps, unless self-test gates it off, and rises again sixteen cycles
/// later.
pub open spec fn nmi_step(counter: int, pending: bool, test: bool) -> (int, bool) {
    if counter + 1 >= NMI_PERIOD_CYCLES {
        (0, pending || !test)
    } else if counter + 1 == NMI_PULSE_CYCLES {
        (counter + 1, false)
    } else {
        (counter + 1, pending)
    }
}

/// The NMI counter and line after `n` cycles.
pub open spec fn nmi_after(counter: int, pending: bool, test: bool, n: nat) -> (int, bool)
    decreases n,
{
    if n == 0 {
        (counter, pending)
    } else {
        let before = nmi_after(counter, pending, test, (n - 1) as nat);
        nmi_step(before.0, before.1, test)
    }
}

impl DvgView {
    /// Every region has the size its map gives it, the vector RAM is 2 KB, and
    /// the vector ROM fits the generator's address space.
    pub open spec fn wf(&self) -> bool {
        &&& map_fits(self.windows)
        &&& self.ram.len() == size_of(self.windows, Region::Ram)
        &&& self.vector_ram.len() == VECTOR_RAM_LEN
        &&& self.vector_ram.len() == size_of(self.windows, Region::VectorRam)
        &&& self.vector_rom.len() == size_of(self.windows, Region::VectorRom)
        &&& self.program_rom.len() == size_of(self.windows, Region::ProgramRom)
        &&& self.vrom_size <= self.vector_rom.len()
        &&& self.vrom_dvg_offset + self.vrom_size <= DVG_SPACE
    }

    pub open spec fn region_memory(&self, region: Region) -> Seq<u8> {
        match region {
            Region::Ram => self.ram,
            Region::VectorRam => self.vector_ram,
            Region::VectorRom => self.vector_rom,
            Region::ProgramRom => self.program_rom,
            Region::Io => Seq::empty(),
        }
    }

    /// The region that an address is decoded to.
    pub open spec fn region_at(&self, addr: u16) -> Option<Region> {
        match window_at(self.windows, addr) {
            Some(w) => Some(w.region),
            None => None,
        }
    }

    /// The byte behind an address, 0 where there is no memory.
    pub open spec fn backing(&self, addr: u16) -> u8 {
        match window_at(self.windows, addr) {
            Some(w) => if w.region == Region::Io {
                0
            } else {
                self.region_memory(w.region)[addr - w.base]
            },
            None => 0,
        }
    }

    /// This board after a write to the RAM behind an address. ROM and
    /// everything else stay.
    pub open spec fn with_backing(self, addr: u16, data: u8) -> DvgView {
        match window_at(self.windows, addr) {
            Some(w) => if w.region == Region::Ram {
                DvgView { ram: self.ram.update(addr - w.base, data), ..self }
            } else if w.region == Region::VectorRam {
                DvgView { vector_ram: self.vector_ram.update(addr - w.base, data), ..self }
            } else {
                self
            },
            None => self,
        }
    }

    /// What the generator sees: vector RAM at the bottom, the vector ROM at the
    /// game's offset, zeros elsewhere.
    pub open spec fn dvg_memory(&self) -> Seq<u8> {
        Seq::new(
            DVG_SPACE as nat,
            |i: int|
                if self.vrom_dvg_offset <= i < self.vrom_dvg_offset + self.vrom_size {
                    self.vector_rom[i - self.vrom_dvg_offset]
                } else if i < VECTOR_RAM_LEN {
                    self.vector_ram[i]
                } else {
                    0
                },
        )
    }

    /// This board at the start of a cycle. `pc` is the instruction address
    /// where the CPU is about to begin an instruction.
    pub open spec fn after_begin_cycle(self, pc: Option<u32>) -> DvgView {
        let next = nmi_step(self.nmi_counter as int, self.nmi_pending, self.test_asserted);
        DvgView {
            nmi_counter: next.0 as u64,
            nmi_pending: next.1,
            latched_pc: if self.tracing && pc is Some { pc } else { self.latched_pc },
            ..self
        }
    }

    /// Whether the NMI is raised in the coming cycle.
    pub open spec fn nmi_due(&self) -> bool {
        self.nmi_counter + 1 >= NMI_PERIOD_CYCLES && !self.test_asserted
    }

    /// What a write tells a debugger. The generator's start address is left to
    /// the generator.
    pub open spec fn write_event(&self, addr: u16, data: u8) -> Option<DebugEvent> {
        if !self.tracing || addr == 0x3000 {
            None
        } else {
            let watchdog = 0x3400 <= addr < 0x3500;
            Some(
                DebugEvent {
                    cycle: self.clock,
                    source: DebugAccessSource::Cpu(0),
                    kind: if watchdog {
                        DebugEventKind::Watchdog
                    } else if self.region_at(addr) == Some(Region::Io) {
                        DebugEventKind::IoWrite
                    } else {
                        DebugEventKind::MemoryWrite
                    },
                    cpu_index: Some(0u8),
                    pc: self.latched_pc,
                    addr: Some(addr as u32),
                    value: Some(data as u32),
                    width: 1,
                    region: match window_at(self.windows, addr) {
                        Some(w) => Some(w.name),
                        None => None,
                    },
                    device: None,
                    detail: if watchdog { Some("watchdog cleared") } else { None },
                },
            )
        }
    }

    /// What the generator's start tells a debugger.
    pub open spec fn start_event(&self) -> Option<DebugEvent> {
        if self.tracing {
            Some(
                DebugEvent {
                    cycle: self.clock,
                    source: DebugAccessSource::Cpu(0),
                    kind: DebugEventKind::DeviceWrite,
                    cpu_index: Some(0u8),
                    pc: self.latched_pc,
                    addr: None,
                    value: None,
                    width: 0,
                    region: None,
                    device: Some("DVG"),
                    detail: Some("vector generator start"),
                },
            )
        } else {
            None
        }
    }

    /// What a raised NMI tells a debugger.
    pub open spec fn nmi_event(&self) -> Option<DebugEvent> {
        if self.tracing && self.nmi_due() {
            Some(
                DebugEvent {
                    cycle: self.clock,
                    source: DebugAccessSource::Unknown,
                    kind: DebugEventKind::InterruptAssert,
                    cpu_index: Some(0u8),
                    pc: None,
                    addr: None,
                    value: None,
                    width: 0,
                    region: None,
                    device: None,
                    detail: Some("250 Hz NMI"),
                },
            )
        } else {
            None
        }
    }
}

/// The byte behind an address lies within its region's memory.
pub proof fn lemma_backing_in_range(b: DvgView, addr: u16)
    requires
        b.wf(),
    ensures
        window_at(b.windows, addr) matches Some(w) ==> w.covers(addr) && (w.region == Region::Io
            || addr - w.base < b.region_memory(w.region).len()),
{
    lemma_window_found(b.windows, 0, addr);
}

impl AtariDvgBoard {
    pub open spec fn wf(&self) -> bool {
        self@.wf()
    }

    /// A board with blank memories. The vector ROM sits at `vrom_dvg_offset` in
    /// the generator's address space.
    pub fn new(map: DvgMap, vrom_dvg_offset: usize, vrom_size: usize) -> (b: AtariDvgBoard)
        requires
            map_fits(map.windows@),
            size_of(map.windows@, Region::VectorRam) == VECTOR_RAM_LEN,
            vrom_size <= size_of(map.windows@, Region::VectorRom),
            vrom_dvg_offset + vrom_size <= DVG_SPACE,
        ensures
            b.wf(),
            b@ == (DvgView {
                windows: map.windows@,
                ram: zeros(size_of(map.windows@, Region::Ram) as nat),
                vector_ram: zeros(VECTOR_RAM_LEN as nat),
                vector_rom: zeros(size_of(map.windows@, Region::VectorRom) as nat),
                program_rom: zeros(size_of(map.windows@, Region::ProgramRom) as nat),
                clock: 0,
                nmi_counter: 0,
                nmi_pending: false,
                test_asserted: false,
                watchdog_frame_count: 0,
                vrom_dvg_offset,
                vrom_size,
                tracing: false,
                latched_pc: None,
            }),
    {
        AtariDvgBoard {
            ram: zeroed(map.region_size(Region::Ram)),
            vector_ram: zeroed(VECTOR_RAM_LEN),
            vector_rom: zeroed(map.region_size(Region::VectorRom)),
            program_rom: zeroed(map.region_size(Region::ProgramRom)),
            windows: map.windows,
            clock: 0,
            nmi_counter: 0,
            nmi_pending: false,
            test_asserted: false,
            watchdog_frame_count: 0,
            vrom_dvg_offset,
            vrom_size,
            tracing: false,
            latched_pc: None,
        }
    }

    /// Copy as much of an image as fits into a region.
    pub fn load_region(&mut self, region: Region, image: &[u8])
        requires
            old(self).wf(),
        ensures
            final(self).wf(),
            final(self)@ == match region {
                Region::Ram => DvgView { ram: overlaid(old(self)@.ram, image@), ..old(self)@ },
                Region::VectorRam => DvgView {
                    vector_ram: overlaid(old(self)@.vector_ram, image@),
                    ..old(self)@
                },
                Region::VectorRom => DvgView {
                    vector_rom: overlaid(old(self)@.vector_rom, image@),
                    ..old(self)@
                },
                Region::ProgramRom => DvgView {
                    program_rom: overlaid(old(self)@.program_rom, image@),
                    ..old(self)@
                },
                Region::Io => old(self)@,
            },
    {
        match region {
            Region::Ram => overlay(&mut self.ram, image),
            Region::VectorRam => overlay(&mut self.vector_ram, image),
            Region::VectorRom => overlay(&mut self.vector_rom, image),
            Region::ProgramRom => overlay(&mut self.program_rom, image),
            Region::Io => {},
        }
    }

    /// The window that covers an address.
    pub fn find(&self, addr: u16) -> (w: Option<DvgWindow>)
        ensures
            w == window_at(self@.windows, addr),
    {
        let mut i: usize = 0;
        while i < self.windows.len()
            invariant
                i <= self.windows@.len(),
                window_from(self.windows@, 0, addr) == window_from(self.windows@, i as int, addr),
            decreases self.windows@.len() - i,
        {
            let w: DvgWindow = self.windows[i];
            if w.base <= addr && addr - w.base < w.size {
                return Some(w);
            }
            i += 1;
        }
        None
    }

    /// The byte behind an address.
    pub fn read_backing(&self, addr: u16) -> (v: u8)
        requires
            self.wf(),
        ensures
            v == self@.backing(addr),
    {
        proof {
            lemma_backing_in_range(self@, addr);
        }
        match self.find(addr) {
            Some(w) => {
                let at: usize = (addr - w.base) as usize;
                match w.region {
                    Region::Ram => self.ram[at],
                    Region::VectorRam => self.vector_ram[at],
                    Region::VectorRom => self.vector_rom[at],
                    Region::ProgramRom => self.program_rom[at],
                    Region::Io => 0,
                }
            },
            None => 0,
        }
    }

    /// Write the RAM behind an address.
    pub fn write_backing(&mut self, addr: u16, data: u8)
        requires
            old(self).wf(),
        ensures
            final(self).wf(),
            final(self)@ == old(self)@.with_backing(addr, data),
    {
        proof {
            lemma_backing_in_range(self@, addr);
        }
        match self.find(addr) {
            Some(w) => {
                let at: usize = (addr - w.base) as usize;
                match w.region {
                    Region::Ram => {
                        self.ram.set(at, data);
                    },
                    Region::VectorRam => {
                        self.vector_ram.set(at, data);
                    },
                    _ => {},
                }
            },
            None => {},
        }
    }

    /// The board's work before a CPU cycle. What a debugger should hear is
    /// handed back.
    pub fn begin_cycle(&mut self, pc: Option<u32>) -> (event: Option<DebugEvent>)
        requires
            old(self)@.nmi_counter < u64::MAX,
        ensures
            final(self)@ == old(self)@.after_begin_cycle(pc),
            event == old(self)@.nmi_event(),
    {
        let due: bool = self.nmi_counter + 1 >= NMI_PERIOD_CYCLES;
        let raised: bool = due && !self.test_asserted;
        let event: Option<DebugEvent> = if self.tracing && raised {
            Some(
                DebugEvent {
                    cycle: self.clock,
                    source: DebugAccessSource::Unknown,
                    kind: DebugEventKind::InterruptAssert,
                    cpu_index: Some(0),
                    pc: None,
                    addr: None,
                    value: None,
                    width: 0,
                    region: None,
                    device: None,
                    detail: Some("250 Hz NMI"),
                },
            )
        } else {
            None
        };
        self.nmi_counter = if due {
            0
        } else {
            self.nmi_counter + 1
        };
        if raised {
            self.nmi_pending = true;
        }
        if self.nmi_pending && self.nmi_counter == NMI_PULSE_CYCLES {
            self.nmi_pending = false;
        }
        if self.tracing && pc.is_some() {
            self.latched_pc = pc;
        }
        event
    }

    /// Count a CPU cycle.
    pub fn end_cycle(&mut self)
        requires
            old(self)@.clock < u64::MAX,
        ensures
            final(self)@ == (DvgView { clock: (old(self)@.clock + 1) as u64, ..old(self)@ }),
    {
        self.clock = self.clock + 1;
    }

    /// Frame end: the NMI line is released, and the watchdog counts. Whether
    /// the machine must reset.
    pub fn end_frame(&mut self) -> (expired: bool)
        requires
            old(self)@.watchdog_frame_count < 255,
        ensures
            final(self)@ == (DvgView {
                nmi_pending: false,
                watchdog_frame_count: (old(self)@.watchdog_frame_count + 1) as u8,
                ..old(self)@
            }),
            expired == (old(self)@.watchdog_frame_count + 1 >= WATCHDOG_FRAMES),
    {
        self.nmi_pending = false;
        self.watchdog_frame_count = self.watchdog_frame_count + 1;
        self.watchdog_frame_count >= WATCHDOG_FRAMES
    }

    /// What a main-bus write tells a debugger.
    pub fn trace_main_write(&self, addr: u16, data: u8) -> (event: Option<DebugEvent>)
        ensures
            event == self@.write_event(addr, data),
    {
        if !self.tracing || addr == 0x3000 {
            return None;
        }
        let w: Option<DvgWindow> = self.find(addr);
        let watchdog: bool = 0x3400 <= addr && addr < 0x3500;
        let io: bool = match w {
            Some(w) => w.region == Region::Io,
            None => false,
        };
        Some(
            DebugEvent {
                cycle: self.clock,
                source: DebugAccessSource::Cpu(0),
                kind: if watchdog {
                    DebugEventKind::Watchdog
                } else if io {
                    DebugEventKind::IoWrite
                } else {
                    DebugEventKind::MemoryWrite
                },
                cpu_index: Some(0),
                pc: self.latched_pc,
                addr: Some(addr as u32),
                value: Some(data as u32),
                width: 1,
                region: match w {
                    Some(w) => Some(w.name),
                    None => None,
                },
                device: None,
                detail: if watchdog {
                    Some("watchdog cleared")
                } else {
                    None
                },
            },
        )
    }

    /// Start the generator: assemble its memory.
    pub fn trigger_dvg(&self) -> (start: DvgStart)
        requires
            self.wf(),
        ensures
            start.memory@ == self@.dvg_memory(),
            start.event == self@.start_event(),
    {
        let mut memory: Vec<u8> = zeroed(DVG_SPACE);
        let mut i: usize = 0;
        while i < VECTOR_RAM_LEN
            invariant
                self.wf(),
                i <= VECTOR_RAM_LEN,
                memory@.len() == DVG_SPACE,
                forall|k: int|
                    0 <= k < DVG_SPACE ==> #[trigger] memory@[k] == if k < i {
                        self.vector_ram@[k]
                    } else {
                        0
                    },
            decreases VECTOR_RAM_LEN - i,
        {
            memory.set(i, self.vector_ram[i]);
            i += 1;
        }
        let mut j: usize = 0;
        while j < self.vrom_size
            invariant
                self.wf(),
                j <= self.vrom_size,
                memory@.len() == DVG_SPACE,
                forall|k: int|
                    0 <= k < DVG_SPACE ==> #[trigger] memory@[k] == if self.vrom_dvg_offset <= k
                        < self.vrom_dvg_offset + j {
                        self.vector_rom@[k - self.vrom_dvg_offset]
                    } else if k < VECTOR_RAM_LEN {
                        self.vector_ram@[k]
                    } else {
                        0
                    },
            decreases self.vrom_size - j,
        {
            memory.set(self.vrom_dvg_offset + j, self.vector_rom[j]);
            j += 1;
        }
        assert(memory@ =~= self@.dvg_memory());
        let event: Option<DebugEvent> = if self.tracing {
            Some(
                DebugEvent {
                    cycle: self.clock,
                    source: DebugAccessSource::Cpu(0),
                    kind: DebugEventKind::DeviceWrite,
                    cpu_index: Some(0),
                    pc: self.latched_pc,
                    addr: None,
                    value: None,
                    width: 0,
                    region: None,
                    device: Some("DVG"),
                    detail: Some("vector generator start"),
                },
            )
        } else {
            None
        };
        DvgStart { memory, event }
    }

    /// Reset the board. Memories and the cycle count stay.
    pub fn reset(&mut self)
        ensures
            final(self)@ == (DvgView {
                nmi_pending: false,
                nmi_counter: 0,
                watchdog_frame_count: 0,
                ..old(self)@
            }),
    {
        self.nmi_pending = false;
        self.nmi_counter = 0;
        self.watchdog_frame_count = 0;
    }

    /// How many CPUs are at an instruction boundary.
    pub fn instruction_boundaries(cpu_at_boundary: bool) -> (n: u32)
        ensures
            n == if cpu_at_boundary { 1u32 } else { 0u32 },
    {
        if cpu_at_boundary {
            1
        } else {
            0
        }
    }

    /// The extent of the display list's coordinates.
    pub fn vector_field_size(&self) -> (size: (u32, u32))
        ensures
            size == (1024u32, 1024u32),
    {
        timing().display_size()
    }
}

/// Bytes of the counters at the end of a saved state.
pub const COUNTERS_LEN: usize = 18;

impl DvgView {
    /// The board in a saved state.
    pub open spec fn state_bytes(&self) -> Seq<u8> {
        Seq::<u8>::empty() + self.ram + self.vector_ram + le64(self.clock) + le64(self.nmi_counter)
            + seq![flag(self.nmi_pending)] + seq![self.watchdog_frame_count]
    }

    /// Bytes of this board in a saved state.
    pub open spec fn state_len(&self) -> int {
        self.ram.len() + VECTOR_RAM_LEN + COUNTERS_LEN
    }

    /// This board with the saved part taken from `b`.
    pub open spec fn with_state(self, b: Seq<u8>) -> DvgView {
        let n = self.ram.len() as int + VECTOR_RAM_LEN;
        DvgView {
            ram: b.subrange(0, self.ram.len() as int),
            vector_ram: b.subrange(self.ram.len() as int, n),
            clock: of_le64(b.subrange(n, n + 8)),
            nmi_counter: of_le64(b.subrange(n + 8, n + 16)),
            nmi_pending: b[n + 16] != 0,
            watchdog_frame_count: b[n + 17],
            ..self
        }
    }
}

impl AtariDvgBoard {
    /// Write the board's RAM and counters. ROM and wiring are not saved.
    pub fn save_state(&self, w: &mut StateWriter)
        ensures
            final(w)@ == old(w)@ + self@.state_bytes(),
    {
        let ghost start = w@;
        let ghost g0 = Seq::<u8>::empty();
        proof {
            lemma_nothing_appended(start);
        }
        w.write_bytes(self.ram.as_slice());
        proof {
            lemma_append(start, g0, self@.ram);
        }
        let ghost g1 = g0 + self@.ram;
        w.write_bytes(self.vector_ram.as_slice());
        proof {
            lemma_append(start, g1, self@.vector_ram);
        }
        let ghost g2 = g1 + self@.vector_ram;
        w.write_u64_le(self.clock);
        proof {
            lemma_append(start, g2, le64(self@.clock));
        }
        let ghost g3 = g2 + le64(self@.clock);
        w.write_u64_le(self.nmi_counter);
        proof {
            lemma_append(start, g3, le64(self@.nmi_counter));
        }
        let ghost g4 = g3 + le64(self@.nmi_counter);
        w.write_bool(self.nmi_pending);
        proof {
            lemma_append(start, g4, seq![flag(self@.nmi_pending)]);
        }
        let ghost g5 = g4 + seq![flag(self@.nmi_pending)];
        w.write_u8(self.watchdog_frame_count);
        proof {
            lemma_append(start, g5, seq![self@.watchdog_frame_count]);
        }
    }

    /// Take the board's RAM and counters back. Fails, changing nothing of the
    /// board, where the bytes end too early.
    pub fn load_state(&mut self, r: &mut StateReader) -> (res: Result<(), SaveError>)
        requires
            old(self).wf(),
        ensures
            final(self).wf(),
            old(r)@.len() >= old(self)@.state_len() ==> res is Ok && final(self)@
                == old(self)@.with_state(old(r)@.take(old(self)@.state_len())) && final(r)@
                == old(r)@.skip(old(self)@.state_len()),
            old(r)@.len() < old(self)@.state_len() ==> res == Err::<(), SaveError>(
                SaveError::UnexpectedEnd,
            ) && final(self)@ == old(self)@ && final(r)@ == old(r)@,
    {
        proof {
            lemma_size_bound(self@.windows, 0, Region::Ram);
        }
        let ram_len: usize = self.ram.len();
        let n: usize = ram_len + VECTOR_RAM_LEN;
        let b: Vec<u8> = match r.take_bytes(n + COUNTERS_LEN) {
            Ok(v) => v,
            Err(e) => {
                return Err(e);
            },
        };
        assert(b.len() == n + COUNTERS_LEN);
        self.ram = copied_range(b.as_slice(), 0, ram_len);
        self.vector_ram = copied_range(b.as_slice(), ram_len, n);
        self.clock = u64_at(&b, n);
        self.nmi_counter = u64_at(&b, n + 8);
        self.nmi_pending = b[n + 16] != 0;
        self.watchdog_frame_count = b[n + 17];
        Ok(())
    }
}

proof fn lemma_size_bound(windows: Seq<DvgWindow>, from: int, region: Region)
    ensures
        0 <= size_from(windows, from, region) <= 0xFFFF,
    decreases windows.len() - from,
{
    if 0 <= from < windows.len() && windows[from].region != region {
        lemma_size_bound(windows, from + 1, region);
    }
}

/// Restoring a saved board brings its RAM and counters back and leaves ROM and
/// wiring as they are.
pub proof fn law_state_round_trip(a: DvgView, b: DvgView)
    requires
        a.wf(),
        b.wf(),
        a.ram.len() == b.ram.len(),
    ensures
        a.state_bytes().len() == b.state_len(),
        b.with_state(a.state_bytes()) == (DvgView {
            ram: a.ram,
            vector_ram: a.vector_ram,
            clock: a.clock,
            nmi_counter: a.nmi_counter,
            nmi_pending: a.nmi_pending,
            watchdog_frame_count: a.watchdog_frame_count,
            ..b
        }),
{
    let s = a.state_bytes();
    let n = a.ram.len() as int + VECTOR_RAM_LEN;
    assert(s.subrange(0, a.ram.len() as int) =~= a.ram);
    assert(s.subrange(a.ram.len() as int, n) =~= a.vector_ram);
    assert(s.subrange(n, n + 8) =~= le64(a.clock));
    lemma_le64(a.clock);
    assert(s.subrange(n + 8, n + 16) =~= le64(a.nmi_counter));
    lemma_le64(a.nmi_counter);
    assert(s[n + 16] == flag(a.nmi_pending));
    assert(s[n + 17] == a.watchdog_frame_count);
}

/// RAM reads back what was written to it.
pub proof fn law_ram_read_after_write(b: DvgView, addr: u16, data: u8)
    requires
        b.wf(),
        b.region_at(addr) == Some(Region::Ram) || b.region_at(addr) == Some(Region::VectorRam),
    ensures
        b.with_backing(addr, data).backing(addr) == data,
        b.with_backing(addr, data).wf(),
{
    lemma_backing_in_range(b, addr);
}

/// Writing elsewhere leaves all memory as it is.
pub proof fn law_rom_cannot_be_written(b: DvgView, addr: u16, data: u8)
    requires
        b.region_at(addr) != Some(Region::Ram),
        b.region_at(addr) != Some(Region::VectorRam),
    ensures
        b.with_backing(addr, data) == b,
{
}

/// The counter counts up to the period, and the line keeps its level from the
/// end of one pulse to the start of the next.
pub proof fn law_nmi_line_is_quiet_between_pulses(counter: int, pending: bool, test: bool, n: nat)
    requires
        NMI_PULSE_CYCLES <= counter,
        counter + n < NMI_PERIOD_CYCLES,
    ensures
        nmi_after(counter, pending, test, n) == (counter + n, pending),
    decreases n,
{
    if n > 0 {
        law_nmi_line_is_quiet_between_pulses(counter, pending, test, (n - 1) as nat);
    }
}

/// A pulse holds the line for fifteen cycles after the one that starts it and
/// ends with the sixteenth.
pub proof fn law_nmi_pulse_length(test: bool, n: nat)
    requires
        n <= NMI_PULSE_CYCLES,
    ensures
        nmi_after(0, true, test, n) == (n as int, n < NMI_PULSE_CYCLES),
    decreases n,
{
    if n > 0 {
        law_nmi_pulse_length(test, (n - 1) as nat);
    }
}

proof fn lemma_nmi_after_split(counter: int, pending: bool, test: bool, m: nat, n: nat)
    ensures
        nmi_after(counter, pending, test, m + n) == nmi_after(
            nmi_after(counter, pending, test, m).0,
            nmi_after(counter, pending, test, m).1,
            test,
            n,
        ),
    decreases n,
{
    if n > 0 {
        lemma_nmi_after_split(counter, pending, test, m, (n - 1) as nat);
        assert((m + n - 1) as nat == m + (n - 1) as nat);
    }
}

/// The NMI repeats every period: from the start of one pulse the next one
/// starts after exactly that many cycles, and not before.
pub proof fn law_nmi_repeats_every_period(n: nat)
    requires
        0 < n <= NMI_PERIOD_CYCLES,
    ensures
        nmi_after(0, true, false, n) == if n == NMI_PERIOD_CYCLES {
            (0int, true)
        } else {
            (n as int, n < NMI_PULSE_CYCLES)
        },
{
    if n <= NMI_PULSE_CYCLES {
        law_nmi_pulse_length(false, n);
    } else {
        law_nmi_pulse_length(false, NMI_PULSE_CYCLES as nat);
        let rest = (n - NMI_PULSE_CYCLES) as nat;
        lemma_nmi_after_split(0, true, false, NMI_PULSE_CYCLES as nat, rest);
        if n < NMI_PERIOD_CYCLES {
            law_nmi_line_is_quiet_between_pulses(NMI_PULSE_CYCLES as int, false, false, rest);
        } else {
            law_nmi_line_is_quiet_between_pulses(
                NMI_PULSE_CYCLES as int,
                false,
                false,
                (rest - 1) as nat,
            );
        }
    }
}

/// From power-on the counter runs modulo the period, and the line is up for
/// exactly the first sixteen cycles of every period but the first.
pub proof fn law_nmi_from_power_on(n: nat)
    ensures
        nmi_after(0, false, false, n) == (
            n as int % NMI_PERIOD_CYCLES as int,
            n >= NMI_PERIOD_CYCLES && n as int % (NMI_PERIOD_CYCLES as int) < NMI_PULSE_CYCLES,
        ),
    decreases n,
{
    if n > 0 {
        law_nmi_from_power_on((n - 1) as nat);
    }
}

/// While self-test is on, an idle NMI line stays idle.
pub proof fn law_self_test_gates_the_nmi(counter: int, n: nat)
    requires
        0 <= counter,
    ensures
        !nmi_after(counter, false, true, n).1,
    decreases n,
{
    if n > 0 {
        law_self_test_gates_the_nmi(counter, (n - 1) as nat);
    }
}

} // verus!
