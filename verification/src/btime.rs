//! Data East btime board: the hardware shared by Burger Time and its
//! siblings. Two 6502s, a DECO CPU-7 opcode scrambler on the main one, a
//! character / sprite / background raster and two PSGs.

use vstd::prelude::*;

use crate::bits::{bit, group_mask_bounds};
use crate::frame::FrameLoop;
use crate::gfx::{
    GfxCache, GfxSheet, GfxLayout, decode_gfx, pal_nbit, pal_nbit_level, planar_pen, put_row, with_row,
};
use crate::machine::{
    BusMaster, ClockDomain, ClockDomainName, ClockTree, InterruptState, Orientation, TimingConfig, ratio_in,
};
use crate::memory::{SaveError, copied, overlaid, overlay, zeroed, zeros};

verus! {

broadcast use group_mask_bounds;

pub const NUM_CHARS: usize = 1024;

pub const NUM_SPRITES: usize = 256;

pub const NUM_BG_TILES: usize = 64;

/// Width of the native raster the layers are drawn into.
pub const NATIVE_DIM: usize = 256;

/// First visible row and column of the native raster.
pub const CROP_LO: usize = 8;

/// Visible rows and columns.
pub const VISIBLE_DIM: usize = 240;

/// Palette entry that background pen 0 uses.
pub const BG_PALETTE_BASE: usize = 8;

/// Main-CPU cycles in one frame.
pub const FRAME_CYCLES: u64 = 96 * 272;

/// PSG chip clock, equal to the main CPU's.
pub const AY_CLOCK_HZ: u64 = 1_500_000;

/// Raster timing: a 6 MHz pixel clock over 384 by 272, 240 by 240 of it
/// visible, shown three to four.
pub open spec fn spec_timing() -> TimingConfig {
    TimingConfig {
        cpu_clock_hz: 1_500_000,
        cycles_per_scanline: 96,
        total_scanlines: 272,
        display_width: 240,
        display_height: 240,
        display_aspect: Some((3u32, 4u32)),
    }
}

pub fn timing() -> (t: TimingConfig)
    ensures
        t == spec_timing(),
        t.frame_cycles() == FRAME_CYCLES,
{
    TimingConfig {
        cpu_clock_hz: 1_500_000,
        cycles_per_scanline: 96,
        total_scanlines: 272,
        display_width: 240,
        display_height: 240,
        display_aspect: Some((3, 4)),
    }
}

/// Bytes of the RGB24 framebuffer.
pub fn display_bytes() -> (n: usize)
    ensures
        n == 3 * 240 * 240,
{
    let (w, h) = timing().display_size();
    (w * h * 3) as usize
}

/// The 12 MHz crystal and the clocks divided out of it.
pub fn clock_tree() -> (t: ClockTree)
    ensures
        t.root_hz == 12_000_000,
        t.ratio(ClockDomainName::Cpu) == Some((1u32, 8u32)),
        t.ratio(ClockDomainName::Pixel) == Some((1u32, 2u32)),
        t.ratio(ClockDomainName::Psg) == Some((1u32, 8u32)),
        t.ratio(ClockDomainName::SoundCpu) == Some((1u32, 24u32)),
        t.domains@.len() == 4,
        t.step == ClockDomainName::Cpu,
        t.raster == ClockDomainName::Pixel,
        t.dots_per_line == 384,
        t.hz(ClockDomainName::Cpu) == spec_timing().cpu_clock_hz,
        t.hz(ClockDomainName::Cpu) == 3 * t.hz(ClockDomainName::SoundCpu),
        t.hz(ClockDomainName::Psg) == AY_CLOCK_HZ,
        t.hz(ClockDomainName::Pixel) == 4 * t.hz(ClockDomainName::Cpu),
        t.dots_per_line == 4 * spec_timing().cycles_per_scanline,
{
    let mut domains: Vec<ClockDomain> = Vec::new();
    domains.push(ClockDomain { name: ClockDomainName::Cpu, multiply: 1, divide: 8 });
    domains.push(ClockDomain { name: ClockDomainName::Pixel, multiply: 1, divide: 2 });
    domains.push(ClockDomain { name: ClockDomainName::Psg, multiply: 1, divide: 8 });
    domains.push(ClockDomain { name: ClockDomainName::SoundCpu, multiply: 1, divide: 24 });
    proof {
        reveal_with_fuel(ratio_in, 5);
    }
    let t: ClockTree = ClockTree {
        root_hz: 12_000_000,
        domains,
        step: ClockDomainName::Cpu,
        raster: ClockDomainName::Pixel,
        dots_per_line: 384,
    };
    assert(t.ratio(ClockDomainName::Pixel) == Some((1u32, 2u32)));
    assert(t.hz(ClockDomainName::Pixel) == 6_000_000);
    t
}

/// DECO CPU-7 opcode scrambling undone: lines 2, 3, 5, 6 and 7 move round one
/// cycle, lines 0, 1 and 4 stay.
pub open spec fn deco_cpu7(v: u8) -> u8 {
    ((v >> 6) & 1) << 7 | ((v >> 5) & 1) << 6 | ((v >> 3) & 1) << 5 | ((v >> 4) & 1) << 4 | ((v
        >> 2) & 1) << 3 | ((v >> 7) & 1) << 2 | ((v >> 1) & 1) << 1 | (v & 1)
}

/// Undo the DECO CPU-7 scrambling of a fetched opcode.
pub fn deco_cpu7_decrypt(v: u8) -> (plain: u8)
    ensures
        plain == deco_cpu7(v),
{
    ((v >> 6) & 1) << 7 | ((v >> 5) & 1) << 6 | ((v >> 3) & 1) << 5 | ((v >> 4) & 1) << 4 | ((v
        >> 2) & 1) << 3 | ((v >> 7) & 1) << 2 | ((v >> 1) & 1) << 1 | (v & 1)
}

/// Where each line of a descrambled opcode comes from.
pub proof fn law_decrypt_moves_lines(v: u8)
    ensures
        bit(deco_cpu7(v), 7) == bit(v, 6),
        bit(deco_cpu7(v), 6) == bit(v, 5),
        bit(deco_cpu7(v), 5) == bit(v, 3),
        bit(deco_cpu7(v), 4) == bit(v, 4),
        bit(deco_cpu7(v), 3) == bit(v, 2),
        bit(deco_cpu7(v), 2) == bit(v, 7),
        bit(deco_cpu7(v), 1) == bit(v, 1),
        bit(deco_cpu7(v), 0) == bit(v, 0),
        deco_cpu7(deco_cpu7(deco_cpu7(deco_cpu7(deco_cpu7(v))))) == v,
{
    assert({
        &&& bit(deco_cpu7(v), 7) == bit(v, 6)
        &&& bit(deco_cpu7(v), 6) == bit(v, 5)
        &&& bit(deco_cpu7(v), 5) == bit(v, 3)
        &&& bit(deco_cpu7(v), 4) == bit(v, 4)
        &&& bit(deco_cpu7(v), 3) == bit(v, 2)
        &&& bit(deco_cpu7(v), 2) == bit(v, 7)
        &&& bit(deco_cpu7(v), 1) == bit(v, 1)
        &&& bit(deco_cpu7(v), 0) == bit(v, 0)
        &&& deco_cpu7(deco_cpu7(deco_cpu7(deco_cpu7(deco_cpu7(v))))) == v
    }) by (bit_vector);
}

/// Distinct opcodes stay distinct through the descrambler.
pub proof fn law_decrypt_is_injective(v: u8, w: u8)
    requires
        deco_cpu7(v) == deco_cpu7(w),
    ensures
        v == w,
{
    law_decrypt_moves_lines(v);
    law_decrypt_moves_lines(w);
}

/// X/Y swap over the 32 by 32 video window.
pub open spec fn swapped(off: int) -> int {
    32 * (off % 32) + off / 32
}

/// Swapping twice leads back.
pub proof fn law_swap_is_an_involution(off: int)
    requires
        0 <= off < 0x400,
    ensures
        0 <= swapped(off) < 0x400,
        swapped(swapped(off)) == off,
{
}

/// RGB of a palette byte: inverted, then three bits of red from the bottom,
/// three of green, two of blue.
pub open spec fn palette_color(v: u8) -> (u8, u8, u8) {
    (
        pal_nbit_level(!v & 7, 3),
        pal_nbit_level((!v >> 3) & 7, 3),
        pal_nbit_level((!v >> 6) & 3, 2),
    )
}

/// Planes a third of the region apart.
pub open spec fn planes_of(third: int) -> Seq<usize> {
    seq![0usize, (third * 8) as usize, (third * 16) as usize]
}

/// Column offsets of a 16-wide tile: the right half of each row is stored
/// first.
pub open spec fn wide_column(x: int) -> int {
    if x < 8 {
        128 + x
    } else {
        x - 8
    }
}

/// Characters: 8 by 8, one bit per plane.
fn char_layout() -> (l: GfxLayout)
    ensures
        l.plane_offsets@ == planes_of(0x2000),
        l.x_offsets@ == Seq::new(8, |x: int| x as usize),
        l.y_offsets@ == Seq::new(8, |y: int| (8 * y) as usize),
        l.char_increment == 64,
{
    let plane_offsets: Vec<usize> = vec![0, 0x2000 * 8, 0x4000 * 8];
    let x_offsets: Vec<usize> = vec![0, 1, 2, 3, 4, 5, 6, 7];
    let y_offsets: Vec<usize> = vec![0, 8, 16, 24, 32, 40, 48, 56];
    assert(plane_offsets@ =~= planes_of(0x2000));
    assert(x_offsets@ =~= Seq::new(8, |x: int| x as usize));
    assert(y_offsets@ =~= Seq::new(8, |y: int| (8 * y) as usize));
    GfxLayout { plane_offsets, x_offsets, y_offsets, char_increment: 64 }
}

/// Sprites and background tiles: 16 by 16, over a region whose planes lie
/// `third` bytes apart.
fn wide_layout(third: usize) -> (l: GfxLayout)
    requires
        third <= 0x2000,
    ensures
        l.plane_offsets@ == planes_of(third as int),
        l.x_offsets@ == Seq::new(16, |x: int| wide_column(x) as usize),
        l.y_offsets@ == Seq::new(16, |y: int| (8 * y) as usize),
        l.char_increment == 256,
{
    let plane_offsets: Vec<usize> = vec![0, third * 8, third * 16];
    let x_offsets: Vec<usize> = vec![
        128, 129, 130, 131, 132, 133, 134, 135, 0, 1, 2, 3, 4, 5, 6, 7,
    ];
    let y_offsets: Vec<usize> = vec![
        0, 8, 16, 24, 32, 40, 48, 56, 64, 72, 80, 88, 96, 104, 112, 120,
    ];
    assert(plane_offsets@ =~= planes_of(third as int));
    assert(x_offsets@ =~= Seq::new(16, |x: int| wide_column(x) as usize));
    assert(y_offsets@ =~= Seq::new(16, |y: int| (8 * y) as usize));
    GfxLayout { plane_offsets, x_offsets, y_offsets, char_increment: 256 }
}

/// The cache holds `count` 8 by 8 tiles of the planar region `rom`.
pub open spec fn decodes_chars(cache: GfxCache, rom: Seq<u8>) -> bool {
    &&& cache.wf()
    &&& cache.spec_count() == NUM_CHARS
    &&& cache.spec_width() == 8
    &&& cache.spec_height() == 8
    &&& forall|c: int, x: int, y: int|
        0 <= c < NUM_CHARS && 0 <= x < 8 && 0 <= y < 8 ==> #[trigger] cache.at(c, x, y)
            == planar_pen(rom, 64 * c + 8 * y + x, planes_of(0x2000), 3)
}

/// The cache holds `count` 16 by 16 tiles of the planar region `rom`.
pub open spec fn decodes_wide(cache: GfxCache, rom: Seq<u8>, count: int, third: int) -> bool {
    &&& cache.wf()
    &&& cache.spec_count() == count
    &&& cache.spec_width() == 16
    &&& cache.spec_height() == 16
    &&& forall|c: int, x: int, y: int|
        0 <= c < count && 0 <= x < 16 && 0 <= y < 16 ==> #[trigger] cache.at(c, x, y)
            == planar_pen(rom, 256 * c + 8 * y + wide_column(x), planes_of(third), 3)
}

/// The cache holds `count` blank tiles.
pub open spec fn blank_cache(cache: GfxCache, count: int, width: int, height: int) -> bool {
    &&& cache.wf()
    &&& cache.spec_count() == count
    &&& cache.spec_width() == width
    &&& cache.spec_height() == height
    &&& forall|c: int, x: int, y: int|
        0 <= c < count && 0 <= x < width && 0 <= y < height ==> #[trigger] cache.at(c, x, y) == 0
}

fn decode_wide(rom: &[u8], count: usize, third: usize) -> (cache: GfxCache)
    requires
        third <= 0x2000,
        1 <= count,
        rom@.len() == 3 * third,
        32 * count <= third,
    ensures
        decodes_wide(cache, rom@, count as int, third as int),
{
    let layout: GfxLayout = wide_layout(third);
    proof {
        assert(layout.plane_offsets@.len() == 3);
        assert forall|x: int, y: int, p: int|
            0 <= x < layout.x_offsets@.len() && 0 <= y < layout.y_offsets@.len() && 0 <= p
                < layout.plane_offsets@.len() implies #[trigger] layout.x_offsets@[x]
            + #[trigger] layout.y_offsets@[y] + #[trigger] layout.plane_offsets@[p] < 256 + 16
            * third by {
            assert(layout.plane_offsets@[p] <= 16 * third);
        }
        layout.lemma_fits(rom@.len() as int, count as int, 256, 256 + 16 * third as int);
    }
    decode_gfx(rom, count, &layout)
}

/// A sound-CPU write that goes to a PSG: which chip, whether to its address
/// latch, and the byte.
#[derive(Clone, Copy, Debug, PartialEq, Eq, Structural)]
pub struct AyWrite {
    pub chip: usize,
    pub address: bool,
    pub data: u8,
}

/// The PSG access, if any, of a sound-CPU write.
pub open spec fn ay_write(addr: u16, data: u8) -> Option<AyWrite> {
    if 0x2000 <= addr < 0x4000 {
        Some(AyWrite { chip: 0, address: false, data })
    } else if 0x4000 <= addr < 0x6000 {
        Some(AyWrite { chip: 0, address: true, data })
    } else if 0x6000 <= addr < 0x8000 {
        Some(AyWrite { chip: 1, address: false, data })
    } else if 0x8000 <= addr < 0xA000 {
        Some(AyWrite { chip: 1, address: true, data })
    } else {
        None
    }
}

/// Per-game configuration of the shared board.
pub struct BtimeConfig {
    /// Machine id, also the save-state tag.
    pub name: &'static str,
}

/// The shared btime hardware, apart from its CPUs and sound chips.
pub struct BtimeBoard {
    pub main_rom: Vec<u8>,
    pub sound_rom: Vec<u8>,
    pub sound_ram: Vec<u8>,
    pub sound_irq: bool,
    pub audio_nmi_enable: bool,
    pub ram: Vec<u8>,
    pub videoram: Vec<u8>,
    pub colorram: Vec<u8>,
    pub palette_ram: Vec<u8>,
    pub palette_rgb: Vec<(u8, u8, u8)>,
    pub chars: GfxCache,
    pub sprites: GfxCache,
    pub bg_tiles: GfxCache,
    pub bg_map: Vec<u8>,
    pub framebuffer: Vec<u8>,
    pub main_had_written: bool,
    pub main_is_sync: bool,
    pub main_irq: bool,
    pub flip_screen: bool,
    pub bnj_scroll0: u8,
    pub sound_latch: u8,
    pub p1: u8,
    pub p2: u8,
    pub system: u8,
    pub dsw1: u8,
    pub dsw2: u8,
    pub config: BtimeConfig,
    pub clock: u64,
}

/// The board as a mathematical value: memories as sequences.
#[verifier::ext_equal]
pub struct BtimeView {
    pub main_rom: Seq<u8>,
    pub sound_rom: Seq<u8>,
    pub sound_ram: Seq<u8>,
    pub sound_irq: bool,
    pub audio_nmi_enable: bool,
    pub ram: Seq<u8>,
    pub videoram: Seq<u8>,
    pub colorram: Seq<u8>,
    pub palette_ram: Seq<u8>,
    pub palette_rgb: Seq<(u8, u8, u8)>,
    pub chars: GfxCache,
    pub sprites: GfxCache,
    pub bg_tiles: GfxCache,
    pub bg_map: Seq<u8>,
    pub framebuffer: Seq<u8>,
    pub main_had_written: bool,
    pub main_is_sync: bool,
    pub main_irq: bool,
    pub flip_screen: bool,
    pub bnj_scroll0: u8,
    pub sound_latch: u8,
    pub p1: u8,
    pub p2: u8,
    pub system: u8,
    pub dsw1: u8,
    pub dsw2: u8,
    pub config: BtimeConfig,
    pub clock: u64,
}

impl View for BtimeBoard {
    type V = BtimeView;

    open spec fn view(&self) -> BtimeView {
        BtimeView {
            main_rom: self.main_rom@,
            sound_rom: self.sound_rom@,
            sound_ram: self.sound_ram@,
            sound_irq: self.sound_irq,
            audio_nmi_enable: self.audio_nmi_enable,
            ram: self.ram@,
            videoram: self.videoram@,
            colorram: self.colorram@,
            palette_ram: self.palette_ram@,
            palette_rgb: self.palette_rgb@,
            chars: self.chars,
            sprites: self.sprites,
            bg_tiles: self.bg_tiles,
            bg_map: self.bg_map@,
            framebuffer: self.framebuffer@,
            main_had_written: self.main_had_written,
            main_is_sync: self.main_is_sync,
            main_irq: self.main_irq,
            flip_screen: self.flip_screen,
            bnj_scroll0: self.bnj_scroll0,
            sound_latch: self.sound_latch,
            p1: self.p1,
            p2: self.p2,
            system: self.system,
            dsw1: self.dsw1,
            dsw2: self.dsw2,
            config: self.config,
            clock: self.clock,
        }
    }
}

/// Row `row` after the line of tile `code` that crosses native row `y` is drawn
/// with the tile's top-left corner at (`sx`, `sy`).
#[verifier::opaque]
pub open spec fn blitted(
    row: Seq<u8>,
    cache: GfxCache,
    code: int,
    sx: int,
    sy: int,
    flipx: bool,
    flipy: bool,
    pal_base: int,
    transparent: bool,
    y: int,
) -> Seq<u8> {
    let w = cache.spec_width() as int;
    let h = cache.spec_height() as int;
    if code < cache.spec_count() && sy <= y < sy + h {
        let py = if flipy { h - 1 - (y - sy) } else { y - sy };
        Seq::new(
            row.len(),
            |x: int|
                if sx <= x < sx + w {
                    let px = if flipx { w - 1 - (x - sx) } else { x - sx };
                    let pen = cache.at(code, px, py);
                    if transparent && pen == 0 {
                        row[x]
                    } else {
                        (pal_base + pen) as u8
                    }
                } else {
                    row[x]
                },
        )
    } else {
        row
    }
}

impl BtimeView {
    /// Sizes of the memories and tile caches.
    pub open spec fn wf(&self) -> bool {
        &&& self.main_rom.len() == 0x5000
        &&& self.sound_rom.len() == 0x1000
        &&& self.sound_ram.len() == 0x400
        &&& self.ram.len() == 0x800
        &&& self.videoram.len() == 0x400
        &&& self.colorram.len() == 0x400
        &&& self.palette_ram.len() == 16
        &&& self.palette_rgb.len() == 16
        &&& self.bg_map.len() == 0x800
        &&& self.framebuffer.len() == 3 * VISIBLE_DIM * VISIBLE_DIM
        &&& self.chars.wf()
        &&& self.chars.spec_width() == 8
        &&& self.chars.spec_height() == 8
        &&& self.sprites.wf()
        &&& self.sprites.spec_width() == 16
        &&& self.sprites.spec_height() == 16
        &&& self.bg_tiles.wf()
        &&& self.bg_tiles.spec_width() == 16
        &&& self.bg_tiles.spec_height() == 16
    }

    /// The state a board powers on in: blank memories, idle inputs, factory
    /// switch settings.
    pub open spec fn powered_on(&self) -> bool {
        &&& self.main_rom == zeros(0x5000)
        &&& self.sound_rom == zeros(0x1000)
        &&& self.sound_ram == zeros(0x400)
        &&& self.ram == zeros(0x800)
        &&& self.videoram == zeros(0x400)
        &&& self.colorram == zeros(0x400)
        &&& self.palette_ram == zeros(16)
        &&& self.palette_in_step()
        &&& self.bg_map == zeros(0x800)
        &&& self.framebuffer == zeros(3 * 240 * 240)
        &&& blank_cache(self.chars, 1024, 8, 8)
        &&& blank_cache(self.sprites, 256, 16, 16)
        &&& blank_cache(self.bg_tiles, 64, 16, 16)
        &&& !self.sound_irq
        &&& !self.audio_nmi_enable
        &&& !self.main_had_written
        &&& self.main_is_sync
        &&& !self.main_irq
        &&& !self.flip_screen
        &&& self.bnj_scroll0 == 0
        &&& self.sound_latch == 0
        &&& self.p1 == 0xFF
        &&& self.p2 == 0xFF
        &&& self.system == 0x07
        &&& self.dsw1 == 0x1F
        &&& self.dsw2 == 0x0B
        &&& self.clock == 0
    }

    /// Scanline within the frame that the beam is on.
    pub open spec fn scanline(&self) -> int {
        (self.clock % FRAME_CYCLES) as int / 96
    }

    pub open spec fn vblank(&self) -> bool {
        !(8 <= self.scanline() < 248)
    }

    /// Sound NMI line: enabled, while bit 3 of the scanline counter is set.
    pub open spec fn sound_nmi(&self) -> bool {
        self.audio_nmi_enable && (self.scanline() / 8) % 2 == 1
    }

    /// Interrupt lines of a CPU: the coin interrupt for the first, the command
    /// and the beam's NMI for the second.
    pub open spec fn interrupts(&self, target: BusMaster) -> InterruptState {
        if target == BusMaster::Cpu(1) {
            InterruptState::lines(self.sound_nmi(), self.sound_irq)
        } else {
            InterruptState::lines(false, self.main_irq)
        }
    }

    /// Every palette colour is the decoded palette byte.
    pub open spec fn palette_in_step(&self) -> bool {
        forall|i: int| 0 <= i < 16 ==> #[trigger] self.palette_rgb[i] == palette_color(self.palette_ram[i])
    }

    /// Byte that the addressed main-CPU location drives onto the bus.
    pub open spec fn main_byte(&self, addr: u16) -> u8 {
        if addr < 0x0800 {
            self.ram[addr as int]
        } else if 0x0C00 <= addr < 0x0C10 {
            self.palette_ram[addr - 0x0C00]
        } else if 0x1000 <= addr < 0x1400 {
            self.videoram[addr - 0x1000]
        } else if 0x1400 <= addr < 0x1800 {
            self.colorram[addr - 0x1400]
        } else if 0x1800 <= addr < 0x1C00 {
            self.videoram[swapped(addr - 0x1800)]
        } else if 0x1C00 <= addr < 0x2000 {
            self.colorram[swapped(addr - 0x1C00)]
        } else if addr == 0x4000 {
            self.p1
        } else if addr == 0x4001 {
            self.p2
        } else if addr == 0x4002 {
            self.system
        } else if addr == 0x4003 {
            (self.dsw1 & 0x7F) | (if self.vblank() { 0x80u8 } else { 0u8 })
        } else if addr == 0x4004 {
            self.dsw2
        } else if addr >= 0xB000 {
            self.main_rom[addr - 0xB000]
        } else {
            0
        }
    }

    /// Whether a main-CPU read here is an opcode fetch that follows a write.
    pub open spec fn fetch_after_write(&self) -> bool {
        self.main_is_sync && self.main_had_written
    }

    /// What the main CPU reads: the addressed byte, descrambled on an opcode
    /// fetch after a write at a matching address.
    pub open spec fn main_read(&self, addr: u16) -> u8 {
        if self.fetch_after_write() && addr & 0x0104 == 0x0104 {
            deco_cpu7(self.main_byte(addr))
        } else {
            self.main_byte(addr)
        }
    }

    /// The board after a main-CPU read: fetching the IRQ vector acknowledges
    /// the coin interrupt, and an opcode fetch consumes the write flag.
    pub open spec fn after_main_read(self, addr: u16) -> BtimeView {
        BtimeView {
            main_irq: self.main_irq && addr != 0xFFFE,
            main_had_written: self.main_had_written && !self.main_is_sync,
            ..self
        }
    }

    /// The board after a main-CPU write.
    pub open spec fn after_main_write(self, addr: u16, data: u8) -> BtimeView {
        let armed = BtimeView { main_had_written: true, ..self };
        if addr < 0x0800 {
            BtimeView { ram: self.ram.update(addr as int, data), ..armed }
        } else if 0x0C00 <= addr < 0x0C10 {
            BtimeView {
                palette_ram: self.palette_ram.update(addr - 0x0C00, data),
                palette_rgb: self.palette_rgb.update(addr - 0x0C00, palette_color(data)),
                ..armed
            }
        } else if 0x1000 <= addr < 0x1400 {
            BtimeView { videoram: self.videoram.update(addr - 0x1000, data), ..armed }
        } else if 0x1400 <= addr < 0x1800 {
            BtimeView { colorram: self.colorram.update(addr - 0x1400, data), ..armed }
        } else if 0x1800 <= addr < 0x1C00 {
            BtimeView { videoram: self.videoram.update(swapped(addr - 0x1800), data), ..armed }
        } else if 0x1C00 <= addr < 0x2000 {
            BtimeView { colorram: self.colorram.update(swapped(addr - 0x1C00), data), ..armed }
        } else if addr == 0x4002 {
            BtimeView { flip_screen: data & 1 != 0, ..armed }
        } else if addr == 0x4003 {
            BtimeView { sound_latch: data, sound_irq: true, ..armed }
        } else if addr == 0x4004 {
            BtimeView { bnj_scroll0: data, ..armed }
        } else {
            armed
        }
    }

    /// What the sound CPU reads.
    pub open spec fn sound_byte(&self, addr: u16) -> u8 {
        if addr < 0x2000 {
            self.sound_ram[(addr % 0x400) as int]
        } else if 0xA000 <= addr < 0xC000 {
            self.sound_latch
        } else if addr >= 0xE000 {
            self.sound_rom[(addr % 0x1000) as int]
        } else {
            0
        }
    }

    /// The board after a sound-CPU read: reading the command latch
    /// acknowledges the sound interrupt.
    pub open spec fn after_sound_read(self, addr: u16) -> BtimeView {
        if 0xA000 <= addr < 0xC000 {
            BtimeView { sound_irq: false, ..self }
        } else {
            self
        }
    }

    /// The board after a sound-CPU write.
    pub open spec fn after_sound_write(self, addr: u16, data: u8) -> BtimeView {
        if addr < 0x2000 {
            BtimeView { sound_ram: self.sound_ram.update((addr % 0x400) as int, data), ..self }
        } else if 0xC000 <= addr < 0xE000 {
            BtimeView { audio_nmi_enable: data & 1 != 0, ..self }
        } else {
            self
        }
    }

    /// The board after the beam reaches the start of `scanline`.
    pub open spec fn after_scanline(self, scanline: int) -> BtimeView {
        if CROP_LO <= scanline < CROP_LO + VISIBLE_DIM {
            BtimeView {
                framebuffer: with_row(
                    self.framebuffer,
                    (scanline - CROP_LO) * VISIBLE_DIM * 3,
                    self.visible_row(scanline),
                ),
                ..self
            }
        } else {
            self
        }
    }

    /// Character cell covering native pixel (`x`, `y`): the grid is stored
    /// column by column from the right edge, and turned half round by the flip.
    pub open spec fn char_cell(&self, x: int, y: int) -> int {
        if self.flip_screen {
            (x / 8) * 32 + (31 - y / 8)
        } else {
            (31 - x / 8) * 32 + y / 8
        }
    }

    pub open spec fn char_code(&self, cell: int) -> int {
        self.videoram[cell] + 256 * (self.colorram[cell] as usize & 3)
    }

    /// Character pen at native pixel (`x`, `y`), if the cell names a tile.
    pub open spec fn char_pen(&self, x: int, y: int) -> Option<u8> {
        let code = self.char_code(self.char_cell(x, y));
        if code < self.chars.spec_count() {
            Some(
                if self.flip_screen {
                    self.chars.at(code, 7 - x % 8, 7 - y % 8)
                } else {
                    self.chars.at(code, x % 8, y % 8)
                },
            )
        } else {
            None
        }
    }

    /// Row `y` with the characters drawn over it.
    pub open spec fn with_chars(&self, row: Seq<u8>, transparent: bool, y: int) -> Seq<u8> {
        Seq::new(
            row.len(),
            |x: int|
                match self.char_pen(x, y) {
                    Some(pen) => if transparent && pen == 0 {
                        row[x]
                    } else {
                        pen
                    },
                    None => row[x],
                },
        )
    }

    /// Row `y` with one hardware sprite drawn over it, at its own position and
    /// again one screen height away.
    pub open spec fn with_sprite(&self, row: Seq<u8>, i: int, y: int) -> Seq<u8> {
        let off = i * 0x80;
        let attr = self.videoram[off];
        let code = self.videoram[off + 0x20] as int;
        let x = 240 - self.videoram[off + 0x60];
        let sy = 240 - self.videoram[off + 0x40];
        let flipx = attr & 0x04 != 0;
        let flipy = attr & 0x02 != 0;
        if attr & 0x01 == 0 {
            row
        } else if self.flip_screen {
            let near = blitted(row, self.sprites, code, 240 - x, 240 - sy - 1, !flipx, !flipy, 0, true, y);
            blitted(near, self.sprites, code, 240 - x, 240 - sy - 1 - 256, !flipx, !flipy, 0, true, y)
        } else {
            let near = blitted(row, self.sprites, code, x, sy - 1, flipx, flipy, 0, true, y);
            blitted(near, self.sprites, code, x, sy - 1 + 256, flipx, flipy, 0, true, y)
        }
    }

    /// Row `y` with the first `n` sprites drawn over it, in table order.
    pub open spec fn with_sprites(&self, row: Seq<u8>, n: nat, y: int) -> Seq<u8>
        decreases n,
    {
        if n == 0 {
            row
        } else {
            self.with_sprite(self.with_sprites(row, (n - 1) as nat, y), n - 1, y)
        }
    }

    /// Distance of column `x` from the edge the background scrolls in from.
    pub open spec fn bg_distance(&self, x: int) -> int {
        if self.flip_screen {
            x - 1
        } else {
            254 - x
        }
    }

    /// The 0x100-entry map block that covers column `x` under scroll `ctrl`;
    /// negative where no block does.
    pub open spec fn bg_block(&self, ctrl: u8, x: int) -> int {
        if self.bg_distance(x) >= 0 {
            (ctrl & 3) as int
        } else {
            (ctrl & 3) - 1
        }
    }

    /// Background map page shown in block `b`.
    pub open spec fn bg_page(&self, ctrl: u8, b: int) -> int {
        let start: int = if self.flip_screen { 0 } else { 1 };
        ((((start + b) % 4) as u8) | (ctrl & 0x04)) as int
    }

    /// Background pen at native pixel (`x`, `y`), if a block covers it and its
    /// map entry names a tile.
    pub open spec fn bg_pen(&self, ctrl: u8, x: int, y: int) -> Option<u8> {
        let block = self.bg_block(ctrl, x);
        let pos = self.bg_distance(x) % 256;
        let yy = if self.flip_screen { 255 - y } else { y };
        let code = self.bg_map[self.bg_page(ctrl, block) * 0x100 + (pos / 16) * 16 + yy / 16] as int;
        if block >= 0 && code < self.bg_tiles.spec_count() {
            Some(self.bg_tiles.at(code, 15 - pos % 16, yy % 16))
        } else {
            None
        }
    }

    /// Column of the left edge of the tile in column `col` of block `i`.
    spec fn bg_tile_x(&self, ctrl: u8, i: int, col: int) -> int {
        let scroll = 256 * (i - (ctrl & 3));
        if self.flip_screen {
            1 + 16 * col + scroll
        } else {
            239 - 16 * col - scroll
        }
    }

    /// Top row of the background tile that crosses native row `y`.
    spec fn bg_tile_y(&self, y: int) -> int {
        if self.flip_screen {
            240 - 16 * ((255 - y) / 16)
        } else {
            16 * (y / 16)
        }
    }

    /// Column arithmetic of one background tile.
    proof fn lemma_bg_column(&self, ctrl: u8, i: int, col: int, k: int)
        requires
            0 <= (ctrl & 3) <= 3,
            (ctrl & 3) - 1 <= i <= (ctrl & 3) + 1,
            0 <= col < 16,
            0 <= k < NATIVE_DIM,
        ensures
            ({
                let x = self.bg_tile_x(ctrl, i, col);
                let pos = self.bg_distance(k) % 256;
                &&& (x <= k < x + 16) == (self.bg_block(ctrl, k) == i && pos / 16 == col)
                &&& x <= k < x + 16 ==> 15 - pos % 16 == if self.flip_screen { 15 - (k - x) } else { k - x }
            }),
    {
    }

    /// Row arithmetic of the background tiles.
    proof fn lemma_bg_line(&self, y: int)
        requires
            0 <= y < NATIVE_DIM,
        ensures
            ({
                let top = self.bg_tile_y(y);
                let yy = if self.flip_screen { 255 - y } else { y };
                &&& top <= y < top + 16
                &&& yy % 16 == if self.flip_screen { 15 - (y - top) } else { y - top }
            }),
    {
    }

    /// Drawing the tile in column `col` of block `i` settles exactly the
    /// pixels that this tile covers.
    proof fn lemma_bg_tile(
        &self,
        row: Seq<u8>,
        start: Seq<u8>,
        ctrl: u8,
        y: int,
        i: int,
        col: int,
        code: int,
    )
        requires
            self.wf(),
            row.len() == NATIVE_DIM,
            start.len() == NATIVE_DIM,
            0 <= y < NATIVE_DIM,
            0 <= i < 5,
            0 <= col < 16,
            (ctrl & 3) - 1 <= i <= (ctrl & 3) + 1,
            i < 4 ==> code == self.bg_map[self.bg_page(ctrl, i) * 0x100 + col * 16 + (if self.flip_screen { 255 - y } else { y }) / 16],
            forall|k: int|
                0 <= k < NATIVE_DIM && self.bg_block(ctrl, k) == i && (self.bg_distance(k) % 256) / 16 == col
                    ==> #[trigger] row[k] == start[k],
        ensures
            forall|k: int|
                0 <= k < NATIVE_DIM ==> #[trigger] blitted(
                    row,
                    self.bg_tiles,
                    code,
                    self.bg_tile_x(ctrl, i, col),
                    self.bg_tile_y(y),
                    self.flip_screen,
                    self.flip_screen,
                    BG_PALETTE_BASE as int,
                    false,
                    y,
                )[k] == if self.bg_block(ctrl, k) == i && (self.bg_distance(k) % 256) / 16 == col {
                    self.with_background(start, ctrl, y)[k]
                } else {
                    row[k]
                },
    {
        reveal(blitted);
        let drawn = blitted(
            row,
            self.bg_tiles,
            code,
            self.bg_tile_x(ctrl, i, col),
            self.bg_tile_y(y),
            self.flip_screen,
            self.flip_screen,
            BG_PALETTE_BASE as int,
            false,
            y,
        );
        let x = self.bg_tile_x(ctrl, i, col);
        self.lemma_bg_line(y);
        assert forall|k: int| 0 <= k < NATIVE_DIM implies #[trigger] drawn[k] == if self.bg_block(
            ctrl,
            k,
        ) == i && (self.bg_distance(k) % 256) / 16 == col {
            self.with_background(start, ctrl, y)[k]
        } else {
            row[k]
        } by {
            self.lemma_bg_column(ctrl, i, col, k);
            if x <= k < x + 16 {
                assert(row[k] == start[k]);
            }
        }
    }

    /// Row `y` with the background drawn over it.
    pub open spec fn with_background(&self, row: Seq<u8>, ctrl: u8, y: int) -> Seq<u8> {
        Seq::new(
            row.len(),
            |x: int|
                match self.bg_pen(ctrl, x, y) {
                    Some(pen) => (BG_PALETTE_BASE + pen) as u8,
                    None => row[x],
                },
        )
    }

    /// Palette indices of native row `y`: backdrop, background where it is
    /// enabled, characters, sprites.
    pub open spec fn native_row(&self, y: int) -> Seq<u8> {
        let backdrop = Seq::new(NATIVE_DIM as nat, |x: int| 0u8);
        let tiles = if self.bnj_scroll0 & 0x10 != 0 {
            self.with_chars(self.with_background(backdrop, self.bnj_scroll0, y), true, y)
        } else {
            self.with_chars(backdrop, false, y)
        };
        self.with_sprites(tiles, 8, y)
    }

    /// Colours of the visible part of native row `y`.
    pub open spec fn visible_row(&self, y: int) -> Seq<(u8, u8, u8)> {
        Seq::new(
            VISIBLE_DIM as nat,
            |x: int| self.palette_rgb[(self.native_row(y)[x + CROP_LO] & 0x0F) as int],
        )
    }
}

impl BtimeBoard {
    pub open spec fn wf(&self) -> bool {
        self@.wf()
    }

    /// Blit the one line of tile `code` that crosses native row `y` into `row`.
    /// `transparent` skips pen 0. Positions count in 32 bits.
    pub fn blit_tile_row(
        row: &mut Vec<u8>,
        cache: &GfxCache,
        code: usize,
        sx: i32,
        sy: i32,
        flipx: bool,
        flipy: bool,
        pal_base: usize,
        transparent: bool,
        y: usize,
    )
        requires
            old(row)@.len() == NATIVE_DIM,
            cache.wf(),
            code < cache.spec_count() ==> {
                &&& y <= i32::MAX
                &&& y - sy <= i32::MAX
                &&& cache.spec_height() <= i32::MAX
            },
            code < cache.spec_count() && sy <= y < sy + cache.spec_height() ==> {
                &&& cache.spec_width() <= i32::MAX
                &&& sx + cache.spec_width() <= i32::MAX + 1
                &&& pal_base + 255 <= usize::MAX
            },
        ensures
            final(row)@ == blitted(
                old(row)@,
                *cache,
                code as int,
                sx as int,
                sy as int,
                flipx,
                flipy,
                pal_base as int,
                transparent,
                y as int,
            ),
            final(row)@.len() == NATIVE_DIM,
    {
        reveal(blitted);
        if code >= cache.count() {
            return;
        }
        let w: usize = cache.width();
        let h: usize = cache.height();
        let ty: i32 = y as i32 - sy;
        if ty < 0 || ty >= h as i32 {
            return;
        }
        let py: usize = if flipy {
            h - 1 - ty as usize
        } else {
            ty as usize
        };
        let ghost start = row@;
        let ghost done = blitted(
            start,
            *cache,
            code as int,
            sx as int,
            sy as int,
            flipx,
            flipy,
            pal_base as int,
            transparent,
            y as int,
        );
        let mut tx: usize = 0;
        while tx < w
            invariant
                tx <= w,
                w == cache.spec_width(),
                h == cache.spec_height(),
                w <= i32::MAX,
                cache.wf(),
                code < cache.spec_count(),
                py < h,
                sx + w <= i32::MAX + 1,
                pal_base + 255 <= usize::MAX,
                sy <= y < sy + h,
                py == if flipy { h - 1 - (y - sy) } else { y - sy },
                start.len() == NATIVE_DIM,
                row@.len() == NATIVE_DIM,
                done == blitted(
                    start,
                    *cache,
                    code as int,
                    sx as int,
                    sy as int,
                    flipx,
                    flipy,
                    pal_base as int,
                    transparent,
                    y as int,
                ),
                forall|x: int| 0 <= x < NATIVE_DIM ==> #[trigger] row@[x] == if x < sx + tx { done[x] } else { start[x] },
            decreases w - tx,
        {
            reveal(blitted);
            let dx: i32 = sx + tx as i32;
            if 0 <= dx && dx < NATIVE_DIM as i32 {
                let px: usize = if flipx {
                    w - 1 - tx
                } else {
                    tx
                };
                let pen: u8 = cache.pixel(code, px, py);
                if !(transparent && pen == 0) {
                    row[dx as usize] = (pal_base + pen as usize) as u8;
                }
            }
            tx += 1;
        }
        assert(row@ =~= done);
    }

    /// Characters: a 32 by 32 grid of 8 by 8 tiles. Only the grid row that
    /// covers native row `y` is visited.
    fn draw_chars_row(&self, row: &mut Vec<u8>, transparent: bool, y: usize)
        requires
            self.wf(),
            old(row)@.len() == NATIVE_DIM,
            y < NATIVE_DIM,
        ensures
            final(row)@ == self@.with_chars(old(row)@, transparent, y as int),
    {
        let flip: bool = self.flip_screen;
        let cy: usize = if flip {
            31 - y / 8
        } else {
            y / 8
        };
        let top: i32 = 8 * (y / 8) as i32;
        let ghost start = row@;
        let ghost done = self@.with_chars(start, transparent, y as int);
        let mut col: usize = 0;
        while col < 32
            invariant
                col <= 32,
                self.wf(),
                flip == self.flip_screen,
                y < NATIVE_DIM,
                cy == if flip { 31 - y / 8 } else { (y / 8) as int },
                top == 8 * (y / 8),
                start.len() == NATIVE_DIM,
                row@.len() == NATIVE_DIM,
                done == self@.with_chars(start, transparent, y as int),
                forall|x: int|
                    0 <= x < NATIVE_DIM ==> #[trigger] row@[x] == if (if flip { x / 8 } else { 31 - x / 8 }) < col {
                        done[x]
                    } else {
                        start[x]
                    },
            decreases 32 - col,
        {
            let off: usize = col * 32 + cy;
            let x: usize = if flip {
                col
            } else {
                31 - col
            };
            let code: usize = self.videoram[off] as usize + 256 * (self.colorram[off] as usize & 3);
            let ghost before = row@;
            Self::blit_tile_row(row, &self.chars, code, 8 * x as i32, top, flip, flip, 0, transparent, y);
            proof {
                reveal(blitted);
                assert forall|k: int| 0 <= k < NATIVE_DIM && 8 * x <= k < 8 * x + 8 implies row@[k] == done[k] by {
                    assert(k / 8 == x);
                    assert(before[k] == start[k]);
                    assert(self@.char_cell(k, y as int) == off);
                    assert(self@.char_code(off as int) == code);
                }
            }
            col += 1;
        }
        assert(row@ =~= done);
    }

    /// The eight hardware sprites, whose attributes lie 0x20 apart in video
    /// RAM.
    fn draw_sprites_row(&self, row: &mut Vec<u8>, y: usize)
        requires
            self.wf(),
            old(row)@.len() == NATIVE_DIM,
            y < NATIVE_DIM,
        ensures
            final(row)@ == self@.with_sprites(old(row)@, 8, y as int),
            final(row)@.len() == NATIVE_DIM,
    {
        let ghost start = row@;
        let mut i: usize = 0;
        while i < 8
            invariant
                i <= 8,
                self.wf(),
                y < NATIVE_DIM,
                row@.len() == NATIVE_DIM,
                row@ == self@.with_sprites(start, i as nat, y as int),
            decreases 8 - i,
        {
            let off: usize = i * 0x80;
            let attr: u8 = self.videoram[off];
            if attr & 0x01 != 0 {
                let mut x: i32 = 240 - self.videoram[off + 0x60] as i32;
                let mut sy: i32 = 240 - self.videoram[off + 0x40] as i32;
                let mut flipx: bool = attr & 0x04 != 0;
                let mut flipy: bool = attr & 0x02 != 0;
                if self.flip_screen {
                    x = 240 - x;
                    sy = 240 - sy;
                    flipx = !flipx;
                    flipy = !flipy;
                }
                sy = sy - 1;
                let code: usize = self.videoram[off + 0x20] as usize;
                Self::blit_tile_row(row, &self.sprites, code, x, sy, flipx, flipy, 0, true, y);
                let sy2: i32 = sy + if self.flip_screen {
                    -256
                } else {
                    256
                };
                Self::blit_tile_row(row, &self.sprites, code, x, sy2, flipx, flipy, 0, true, y);
            }
            i += 1;
        }
    }

    /// Top native row of tile row `k` of a background block.
    pub open spec fn bg_row_top(k: int, flip: bool) -> int {
        if flip {
            240 - 16 * k
        } else {
            16 * k
        }
    }

    /// Which of the 16 tile rows of a background block covers native row `y`,
    /// or `None` if none does.
    pub fn bg_tile_row(y: usize, flip: bool) -> (r: Option<usize>)
        requires
            y <= i32::MAX,
        ensures
            r == if y < NATIVE_DIM {
                Some(((if flip { 255 - y } else { y as int }) / 16) as usize)
            } else {
                None
            },
            forall|k: usize|
                r == Some(k) <==> k < 16 && #[trigger] Self::bg_row_top(k as int, flip) <= y
                    < Self::bg_row_top(k as int, flip) + 16,
    {
        let k: i32 = if flip {
            if y < 256 {
                (255 - y as i32) / 16
            } else {
                -1
            }
        } else {
            (y / 16) as i32
        };
        if 0 <= k && k < 16 {
            Some(k as usize)
        } else {
            None
        }
    }

    /// Background: blocks of 16 by 16 tiles out of the map ROM, scrolled by
    /// whole blocks. A later block overwrites an earlier one.
    fn draw_background_row(&self, row: &mut Vec<u8>, ctrl: u8, y: usize)
        requires
            self.wf(),
            old(row)@.len() == NATIVE_DIM,
            y <= i32::MAX,
        ensures
            final(row)@ == if y < NATIVE_DIM {
                self@.with_background(old(row)@, ctrl, y as int)
            } else {
                old(row)@
            },
    {
        let flip: bool = self.flip_screen;
        let ty: usize = match Self::bg_tile_row(y, flip) {
            Some(k) => k,
            None => {
                return;
            },
        };
        let ghost start = row@;
        let ghost done = self@.with_background(start, ctrl, y as int);
        let mut first: u8 = if flip {
            0
        } else {
            1
        };
        let mut tmap: Vec<u8> = Vec::new();
        let mut k: usize = 0;
        while k < 4
            invariant
                k <= 4,
                tmap@.len() == k,
                flip == self.flip_screen,
                first == ((if flip { 0int } else { 1int }) + k) % 4,
                forall|b: int| 0 <= b < k ==> #[trigger] tmap@[b] == self@.bg_page(ctrl, b),
                forall|b: int| 0 <= b < k ==> (#[trigger] tmap@[b]) <= 7,
            decreases 4 - k,
        {
            assert((first | (ctrl & 0x04)) <= 7) by (bit_vector)
                requires
                    first < 4,
            ;
            tmap.push(first | (ctrl & 0x04));
            first = (first + 1) % 4;
            k += 1;
        }
        let pages: i32 = (ctrl & 0x03) as i32;
        let mut scroll: i32 = -(pages * 256);
        let mut i: usize = 0;
        while i < 5 && scroll <= 256
            invariant
                i <= 5,
                self.wf(),
                flip == self.flip_screen,
                y < NATIVE_DIM,
                ty == (if flip { 255 - y } else { y as int }) / 16,
                pages == ctrl & 3,
                0 <= pages <= 3,
                scroll == 256 * (i - pages),
                tmap@.len() == 4,
                forall|b: int| 0 <= b < 4 ==> #[trigger] tmap@[b] == self@.bg_page(ctrl, b),
                forall|b: int| 0 <= b < 4 ==> (#[trigger] tmap@[b]) <= 7,
                start.len() == NATIVE_DIM,
                row@.len() == NATIVE_DIM,
                done == self@.with_background(start, ctrl, y as int),
                forall|x: int|
                    0 <= x < NATIVE_DIM ==> #[trigger] row@[x] == if self@.bg_block(ctrl, x) < i { done[x] } else { start[x] },
            decreases 5 - i,
        {
            if scroll >= -256 {
                let tileoffset: usize = tmap[i % 4] as usize * 0x100;
                let mut col: usize = 0;
                while col < 16
                    invariant
                        i < 5,
                        col <= 16,
                        self.wf(),
                        flip == self.flip_screen,
                        y < NATIVE_DIM,
                        ty == (if flip { 255 - y } else { y as int }) / 16,
                        pages == ctrl & 3,
                        0 <= pages <= 3,
                        scroll == 256 * (i - pages),
                        -256 <= scroll <= 256,
                        i < 4 ==> tileoffset == self@.bg_page(ctrl, i as int) * 0x100,
                        tileoffset <= 0x700,
                        start.len() == NATIVE_DIM,
                        row@.len() == NATIVE_DIM,
                        done == self@.with_background(start, ctrl, y as int),
                        forall|x: int|
                            0 <= x < NATIVE_DIM ==> #[trigger] row@[x] == if self@.bg_block(ctrl, x) < i || (self@.bg_block(ctrl, x) == i && (self@.bg_distance(x) % 256) / 16 < col) {
                                done[x]
                            } else {
                                start[x]
                            },
                    decreases 16 - col,
                {
                    let off: usize = col * 16 + ty;
                    let mut x: i32 = 240 - (16 * col as i32 + scroll) - 1;
                    let mut sy: i32 = 16 * ty as i32;
                    if flip {
                        x = 240 - x;
                        sy = 240 - sy;
                    }
                    let code: usize = self.bg_map[tileoffset + off] as usize;
                    let ghost before = row@;
                    Self::blit_tile_row(
                        row,
                        &self.bg_tiles,
                        code,
                        x,
                        sy,
                        flip,
                        flip,
                        BG_PALETTE_BASE,
                        false,
                        y,
                    );
                    proof {
                        assert(x == self@.bg_tile_x(ctrl, i as int, col as int));
                        assert(sy == self@.bg_tile_y(y as int));
                        self@.lemma_bg_tile(before, start, ctrl, y as int, i as int, col as int, code as int);
                    }
                    col += 1;
                }
            }
            scroll = scroll + 256;
            i += 1;
        }
        assert(row@ =~= done);
    }

    /// Draw one visible scanline into the framebuffer, out of the video state
    /// as it stands at that line's boundary.
    fn render_scanline(&mut self, y: usize)
        requires
            old(self).wf(),
            CROP_LO <= y < CROP_LO + VISIBLE_DIM,
        ensures
            final(self)@ == (BtimeView {
                framebuffer: with_row(
                    old(self)@.framebuffer,
                    (y - CROP_LO) * VISIBLE_DIM * 3,
                    old(self)@.visible_row(y as int),
                ),
                ..old(self)@
            }),
    {
        let mut row: Vec<u8> = vec![0u8; NATIVE_DIM];
        assert(row@ =~= Seq::new(NATIVE_DIM as nat, |x: int| 0u8));
        let ctrl: u8 = self.bnj_scroll0;
        if ctrl & 0x10 != 0 {
            self.draw_background_row(&mut row, ctrl, y);
            self.draw_chars_row(&mut row, true, y);
        } else {
            self.draw_chars_row(&mut row, false, y);
        }
        self.draw_sprites_row(&mut row, y);
        let mut colors: Vec<(u8, u8, u8)> = Vec::new();
        let mut x: usize = 0;
        while x < VISIBLE_DIM
            invariant
                x <= VISIBLE_DIM,
                self.wf(),
                row@ == self@.native_row(y as int),
                row@.len() == NATIVE_DIM,
                colors@ == self@.visible_row(y as int).take(x as int),
            decreases VISIBLE_DIM - x,
        {
            let pen: u8 = row[x + CROP_LO] & 0x0F;
            colors.push(self.palette_rgb[pen as usize]);
            x += 1;
            assert(colors@ =~= self@.visible_row(y as int).take(x as int));
        }
        assert(colors@ =~= self@.visible_row(y as int));
        put_row(&mut self.framebuffer, (y - CROP_LO) * VISIBLE_DIM * 3, &colors);
    }

    /// X/Y address swap over the 32 by 32 video and color window.
    pub fn swap(off: usize) -> (r: usize)
        ensures
            r == swapped(off as int),
            off < 0x400 ==> r < 0x400,
    {
        32 * (off % 32) + off / 32
    }

    /// Scanline (0 to 271) that the beam is on.
    pub fn current_scanline(&self) -> (n: u64)
        ensures
            n == self@.scanline(),
            n < 272,
    {
        (self.clock % FRAME_CYCLES) / 96
    }

    /// Whether the beam is outside the visible window.
    pub fn in_vblank(&self) -> (v: bool)
        ensures
            v == self@.vblank(),
    {
        let n: u64 = self.current_scanline();
        !(8 <= n && n < 248)
    }

    /// Level of the sound CPU's NMI line.
    pub fn sound_nmi_asserted(&self) -> (v: bool)
        ensures
            v == self@.sound_nmi(),
    {
        self.audio_nmi_enable && (self.current_scanline() / 8) % 2 == 1
    }

    /// Recompute one palette colour from its byte.
    fn update_palette_entry(&mut self, i: usize)
        requires
            old(self).wf(),
            i < 16,
        ensures
            final(self)@ == (BtimeView {
                palette_rgb: old(self)@.palette_rgb.update(
                    i as int,
                    palette_color(old(self)@.palette_ram[i as int]),
                ),
                ..old(self)@
            }),
    {
        let v: u8 = !self.palette_ram[i];
        let r: u8 = pal_nbit(v & 7, 3);
        let g: u8 = pal_nbit((v >> 3) & 7, 3);
        let b: u8 = pal_nbit((v >> 6) & 3, 2);
        self.palette_rgb[i] = (r, g, b);
    }

    /// Recompute every palette colour.
    fn rebuild_palette(&mut self)
        requires
            old(self).wf(),
        ensures
            final(self)@ == (BtimeView {
                palette_rgb: Seq::new(16, |i: int| palette_color(old(self)@.palette_ram[i])),
                ..old(self)@
            }),
    {
        let ghost start = self@;
        let mut i: usize = 0;
        while i < 16
            invariant
                i <= 16,
                start.wf(),
                self@.palette_rgb.len() == 16,
                forall|k: int| 0 <= k < i ==> #[trigger] self@.palette_rgb[k] == palette_color(start.palette_ram[k]),
                self@ == (BtimeView { palette_rgb: self@.palette_rgb, ..start }),
            decreases 16 - i,
        {
            self.update_palette_entry(i);
            i += 1;
        }
        assert(self@.palette_rgb =~= Seq::new(16, |i: int| palette_color(start.palette_ram[i])));
    }

    /// Main- or sound-CPU read, side effects included.
    pub fn bus_read(&mut self, master: BusMaster, addr: u16) -> (data: u8)
        requires
            old(self).wf(),
        ensures
            master == BusMaster::Cpu(1) ==> data == old(self)@.sound_byte(addr) && final(self)@
                == old(self)@.after_sound_read(addr),
            master != BusMaster::Cpu(1) ==> data == old(self)@.main_read(addr) && final(self)@
                == old(self)@.after_main_read(addr),
    {
        if master == BusMaster::Cpu(1) {
            return self.sound_read(addr);
        }
        let a: usize = addr as usize;
        let mut data: u8 = if a < 0x0800 {
            self.ram[a]
        } else if 0x0C00 <= a && a < 0x0C10 {
            self.palette_ram[a - 0x0C00]
        } else if 0x1000 <= a && a < 0x1400 {
            self.videoram[a - 0x1000]
        } else if 0x1400 <= a && a < 0x1800 {
            self.colorram[a - 0x1400]
        } else if 0x1800 <= a && a < 0x1C00 {
            self.videoram[Self::swap(a - 0x1800)]
        } else if 0x1C00 <= a && a < 0x2000 {
            self.colorram[Self::swap(a - 0x1C00)]
        } else if a == 0x4000 {
            self.p1
        } else if a == 0x4001 {
            self.p2
        } else if a == 0x4002 {
            self.system
        } else if a == 0x4003 {
            (self.dsw1 & 0x7F) | (if self.in_vblank() {
                0x80u8
            } else {
                0u8
            })
        } else if a == 0x4004 {
            self.dsw2
        } else if a >= 0xB000 {
            self.main_rom[a - 0xB000]
        } else {
            0
        };
        if addr == 0xFFFE {
            self.main_irq = false;
        }
        if self.main_is_sync && self.main_had_written {
            self.main_had_written = false;
            if (addr & 0x0104) == 0x0104 {
                data = deco_cpu7_decrypt(data);
            }
        }
        data
    }

    /// Main- or sound-CPU write. A write to a PSG is handed back for the chip.
    pub fn bus_write(&mut self, master: BusMaster, addr: u16, data: u8) -> (ay: Option<AyWrite>)
        requires
            old(self).wf(),
        ensures
            final(self).wf(),
            master == BusMaster::Cpu(1) ==> ay == ay_write(addr, data) && final(self)@ == old(self)@.after_sound_write(addr, data),
            master != BusMaster::Cpu(1) ==> ay is None && final(self)@ == old(self)@.after_main_write(
                addr,
                data,
            ),
    {
        if master == BusMaster::Cpu(1) {
            return self.sound_write(addr, data);
        }
        self.main_had_written = true;
        let a: usize = addr as usize;
        if a < 0x0800 {
            self.ram[a] = data;
        } else if 0x0C00 <= a && a < 0x0C10 {
            self.palette_ram[a - 0x0C00] = data;
            self.update_palette_entry(a - 0x0C00);
        } else if 0x1000 <= a && a < 0x1400 {
            self.videoram[a - 0x1000] = data;
        } else if 0x1400 <= a && a < 0x1800 {
            self.colorram[a - 0x1400] = data;
        } else if 0x1800 <= a && a < 0x1C00 {
            let off: usize = Self::swap(a - 0x1800);
            self.videoram[off] = data;
        } else if 0x1C00 <= a && a < 0x2000 {
            let off: usize = Self::swap(a - 0x1C00);
            self.colorram[off] = data;
        } else if a == 0x4002 {
            self.flip_screen = data & 1 != 0;
        } else if a == 0x4003 {
            self.sound_latch = data;
            self.sound_irq = true;
        } else if a == 0x4004 {
            self.bnj_scroll0 = data;
        }
        None
    }

    /// Sound-CPU read. RAM repeats through 0x1FFF; reading the command latch
    /// acknowledges the sound interrupt.
    pub fn sound_read(&mut self, addr: u16) -> (data: u8)
        requires
            old(self).wf(),
        ensures
            data == old(self)@.sound_byte(addr),
            final(self)@ == old(self)@.after_sound_read(addr),
    {
        if addr < 0x2000 {
            self.sound_ram[(addr % 0x400) as usize]
        } else if 0xA000 <= addr && addr < 0xC000 {
            self.sound_irq = false;
            self.sound_latch
        } else if addr >= 0xE000 {
            self.sound_rom[(addr % 0x1000) as usize]
        } else {
            0
        }
    }

    /// Sound-CPU write: RAM, the two PSGs, and the NMI enable.
    pub fn sound_write(&mut self, addr: u16, data: u8) -> (ay: Option<AyWrite>)
        requires
            old(self).wf(),
        ensures
            final(self).wf(),
            ay == ay_write(addr, data),
            final(self)@ == old(self)@.after_sound_write(addr, data),
    {
        if addr < 0x2000 {
            self.sound_ram[(addr % 0x400) as usize] = data;
            None
        } else if addr < 0x4000 {
            Some(AyWrite { chip: 0, address: false, data })
        } else if addr < 0x6000 {
            Some(AyWrite { chip: 0, address: true, data })
        } else if addr < 0x8000 {
            Some(AyWrite { chip: 1, address: false, data })
        } else if addr < 0xA000 {
            Some(AyWrite { chip: 1, address: true, data })
        } else if 0xC000 <= addr && addr < 0xE000 {
            self.audio_nmi_enable = data & 1 != 0;
            None
        } else {
            None
        }
    }

    /// No device stops either CPU.
    pub fn bus_is_halted_for(&self, _master: BusMaster) -> (halted: bool)
        ensures
            !halted,
    {
        false
    }

    /// Interrupt lines of one CPU.
    pub fn bus_check_interrupts(&self, target: BusMaster) -> (s: InterruptState)
        ensures
            s == if target == BusMaster::Cpu(1) {
                InterruptState::lines(self@.sound_nmi(), self@.sound_irq)
            } else {
                InterruptState::lines(false, self@.main_irq)
            },
            s == self@.interrupts(target),
    {
        if target == BusMaster::Cpu(1) {
            InterruptState::of_lines(self.sound_nmi_asserted(), self.sound_irq)
        } else {
            InterruptState::of_lines(false, self.main_irq)
        }
    }

    /// Work on the first cycle of a scanline: draw the row, if it is visible.
    pub fn begin_scanline(&mut self, scanline: u64)
        requires
            old(self).wf(),
        ensures
            final(self).wf(),
            final(self)@ == old(self)@.after_scanline(scanline as int),
    {
        if 8 <= scanline && scanline < 248 {
            self.render_scanline(scanline as usize);
        }
    }

    /// A board as it powers on.
    pub fn new(config: BtimeConfig) -> (board: BtimeBoard)
        ensures
            board.wf(),
            board@.powered_on(),
            board@.config == config,
    {
        let mut palette_rgb: Vec<(u8, u8, u8)> = Vec::new();
        let mut i: usize = 0;
        while i < 16
            invariant
                i <= 16,
                palette_rgb@.len() == i,
            decreases 16 - i,
        {
            palette_rgb.push((0, 0, 0));
            i += 1;
        }
        let mut board: BtimeBoard = BtimeBoard {
            main_rom: zeroed(0x5000),
            sound_rom: zeroed(0x1000),
            sound_ram: zeroed(0x0400),
            sound_irq: false,
            audio_nmi_enable: false,
            ram: zeroed(0x0800),
            videoram: zeroed(0x0400),
            colorram: zeroed(0x0400),
            palette_ram: zeroed(16),
            palette_rgb,
            chars: GfxCache::new(NUM_CHARS, 8, 8),
            sprites: GfxCache::new(NUM_SPRITES, 16, 16),
            bg_tiles: GfxCache::new(NUM_BG_TILES, 16, 16),
            bg_map: zeroed(0x0800),
            framebuffer: zeroed(display_bytes()),
            main_had_written: false,
            main_is_sync: true,
            main_irq: false,
            flip_screen: false,
            bnj_scroll0: 0,
            sound_latch: 0,
            p1: 0xFF,
            p2: 0xFF,
            system: 0x07,
            dsw1: 0x1F,
            dsw2: 0x0B,
            config,
            clock: 0,
        };
        board.rebuild_palette();
        board
    }

    /// Machine id.
    pub fn machine_id(&self) -> (id: &str)
        ensures
            id@ == self@.config.name@,
    {
        self.config.name
    }

    /// Load the main program ROM, which starts at 0xB000.
    pub fn load_main_rom(&mut self, data: &[u8])
        requires
            old(self).wf(),
            data@.len() == 0x5000,
        ensures
            final(self)@ == (BtimeView { main_rom: data@, ..old(self)@ }),
    {
        self.main_rom = copied(data);
    }

    /// Decode the gfx1 region into the character and sprite caches.
    pub fn load_gfx1(&mut self, gfx1: &[u8])
        requires
            old(self).wf(),
            gfx1@.len() == 0x6000,
        ensures
            final(self)@ == (BtimeView {
                chars: final(self)@.chars,
                sprites: final(self)@.sprites,
                ..old(self)@
            }),
            decodes_chars(final(self)@.chars, gfx1@),
            decodes_wide(final(self)@.sprites, gfx1@, 256, 0x2000),
    {
        let layout: GfxLayout = char_layout();
        proof {
            assert(layout.plane_offsets@.len() == 3);
            layout.lemma_fits(0x6000, 1024, 64, 0x20040);
        }
        self.chars = decode_gfx(gfx1, NUM_CHARS, &layout);
        self.sprites = decode_wide(gfx1, NUM_SPRITES, 0x2000);
    }

    /// Decode the gfx2 region into the background tile cache.
    pub fn load_gfx2(&mut self, gfx2: &[u8])
        requires
            old(self).wf(),
            gfx2@.len() == 0x1800,
        ensures
            final(self)@ == (BtimeView { bg_tiles: final(self)@.bg_tiles, ..old(self)@ }),
            decodes_wide(final(self)@.bg_tiles, gfx2@, 64, 0x0800),
    {
        self.bg_tiles = decode_wide(gfx2, NUM_BG_TILES, 0x0800);
    }

    /// Copy the background map ROM; what does not fit is dropped.
    pub fn load_bg_map(&mut self, data: &[u8])
        ensures
            final(self)@ == (BtimeView { bg_map: overlaid(old(self)@.bg_map, data@), ..old(self)@ }),
    {
        overlay(&mut self.bg_map, data);
    }

    /// Load the sound program ROM, which repeats from 0xE000 on.
    pub fn load_sound_rom(&mut self, data: &[u8])
        requires
            old(self).wf(),
            data@.len() == 0x1000,
        ensures
            final(self)@ == (BtimeView { sound_rom: data@, ..old(self)@ }),
    {
        self.sound_rom = copied(data);
    }

    /// The decoded sheets with the colours in use.
    pub fn gfx_sheets(&self) -> (v: Vec<GfxSheet<'_>>)
        ensures
            v@.len() == 3,
            forall|i: int| 0 <= i < 3 ==> (#[trigger] v@[i]).palette@ == self@.palette_rgb,
            v@[0].name == "chars" && *v@[0].cache == self@.chars,
            v@[1].name == "bg" && *v@[1].cache == self@.bg_tiles,
            v@[2].name == "sprites" && *v@[2].cache == self@.sprites,
    {
        vec![
            GfxSheet { name: "chars", cache: &self.chars, palette: &self.palette_rgb },
            GfxSheet { name: "bg", cache: &self.bg_tiles, palette: &self.palette_rgb },
            GfxSheet { name: "sprites", cache: &self.sprites, palette: &self.palette_rgb },
        ]
    }

    pub fn chars(&self) -> (c: &GfxCache)
        ensures
            *c == self@.chars,
    {
        &self.chars
    }

    pub fn sprites(&self) -> (c: &GfxCache)
        ensures
            *c == self@.sprites,
    {
        &self.sprites
    }

    pub fn bg_tiles(&self) -> (c: &GfxCache)
        ensures
            *c == self@.bg_tiles,
    {
        &self.bg_tiles
    }

    pub fn bg_map(&self) -> (m: &[u8])
        ensures
            m@ == self@.bg_map,
    {
        self.bg_map.as_slice()
    }

    /// Board work that leads one single-stepped main-CPU cycle: the start of a
    /// scanline, if the clock is on one, and the CPU's SYNC pin.
    pub fn begin_tick(&mut self, main_is_sync: bool)
        requires
            old(self).wf(),
        ensures
            final(self).wf(),
            final(self)@ == (BtimeView {
                main_is_sync,
                ..(if old(self)@.clock % 96 == 0 {
                    old(self)@.after_scanline(old(self)@.scanline())
                } else {
                    old(self)@
                })
            }),
    {
        let frame_cycle: u64 = self.clock % FRAME_CYCLES;
        if frame_cycle % 96 == 0 {
            self.begin_scanline(frame_cycle / 96);
        }
        self.begin_main_cycle(main_is_sync);
    }

    /// Sample the main CPU's SYNC pin for the coming cycle.
    pub fn begin_main_cycle(&mut self, main_is_sync: bool)
        ensures
            final(self)@ == (BtimeView { main_is_sync, ..old(self)@ }),
    {
        self.main_is_sync = main_is_sync;
    }

    /// Board work after the CPUs' cycle: the clock.
    pub fn end_cycle(&mut self)
        requires
            old(self)@.clock < u64::MAX,
        ensures
            final(self)@ == (BtimeView { clock: (old(self)@.clock + 1) as u64, ..old(self)@ }),
    {
        self.clock = self.clock + 1;
    }

    /// Reset the latches and the clock. Memory and the picture stay.
    pub fn reset(&mut self)
        ensures
            final(self)@ == (BtimeView {
                main_had_written: false,
                main_is_sync: true,
                main_irq: false,
                sound_irq: false,
                audio_nmi_enable: false,
                clock: 0,
                ..old(self)@
            }),
    {
        self.main_had_written = false;
        self.main_is_sync = true;
        self.main_irq = false;
        self.sound_irq = false;
        self.audio_nmi_enable = false;
        self.clock = 0;
    }

    /// Which CPUs are at an instruction boundary: bit 0 main, bit 1 sound.
    pub fn instruction_boundaries(main: bool, sound: bool) -> (mask: u32)
        ensures
            mask == (if main { 1int } else { 0 }) + (if sound { 2int } else { 0 }),
    {
        let low: u32 = if main {
            1
        } else {
            0
        };
        let high: u32 = if sound {
            2
        } else {
            0
        };
        low + high
    }

    /// The latest picture, in native orientation.
    pub fn render_frame(&self, buffer: &mut Vec<u8>)
        requires
            self.wf(),
            old(buffer)@.len() == self@.framebuffer.len(),
        ensures
            final(buffer)@ == self@.framebuffer,
    {
        overlay(buffer, self.framebuffer.as_slice());
        assert(buffer@ =~= self@.framebuffer);
    }

    /// The monitor is mounted turned 270 degrees.
    pub fn orientation(&self) -> (o: Orientation)
        ensures
            o == Orientation::Rot270,
    {
        Orientation::Rot270
    }
}

/// What a saved state holds of the board. ROM, decoded graphics, the picture
/// and the SYNC sample are not part of it.
pub struct BtimeSnapshot {
    pub sound_ram: Vec<u8>,
    pub ram: Vec<u8>,
    pub videoram: Vec<u8>,
    pub colorram: Vec<u8>,
    pub palette_ram: Vec<u8>,
    pub palette_rgb: Vec<(u8, u8, u8)>,
    pub sound_irq: bool,
    pub audio_nmi_enable: bool,
    pub main_had_written: bool,
    pub main_irq: bool,
    pub flip_screen: bool,
    pub bnj_scroll0: u8,
    pub sound_latch: u8,
    pub p1: u8,
    pub p2: u8,
    pub system: u8,
    pub dsw1: u8,
    pub dsw2: u8,
    pub clock: u64,
}

impl BtimeSnapshot {
    /// Every memory has the board's size.
    pub open spec fn wf(&self) -> bool {
        &&& self.sound_ram@.len() == 0x400
        &&& self.ram@.len() == 0x800
        &&& self.videoram@.len() == 0x400
        &&& self.colorram@.len() == 0x400
        &&& self.palette_ram@.len() == 16
        &&& self.palette_rgb@.len() == 16
    }
}

impl BtimeView {
    /// `s` holds the saved part of this board.
    pub open spec fn saved_as(&self, s: BtimeSnapshot) -> bool {
        &&& s.sound_ram@ == self.sound_ram
        &&& s.ram@ == self.ram
        &&& s.videoram@ == self.videoram
        &&& s.colorram@ == self.colorram
        &&& s.palette_ram@ == self.palette_ram
        &&& s.palette_rgb@ == self.palette_rgb
        &&& s.sound_irq == self.sound_irq
        &&& s.audio_nmi_enable == self.audio_nmi_enable
        &&& s.main_had_written == self.main_had_written
        &&& s.main_irq == self.main_irq
        &&& s.flip_screen == self.flip_screen
        &&& s.bnj_scroll0 == self.bnj_scroll0
        &&& s.sound_latch == self.sound_latch
        &&& s.p1 == self.p1
        &&& s.p2 == self.p2
        &&& s.system == self.system
        &&& s.dsw1 == self.dsw1
        &&& s.dsw2 == self.dsw2
        &&& s.clock == self.clock
    }

    /// This board with the saved part replaced by `s`.
    pub open spec fn restored_from(self, s: BtimeSnapshot) -> BtimeView {
        BtimeView {
            sound_ram: s.sound_ram@,
            ram: s.ram@,
            videoram: s.videoram@,
            colorram: s.colorram@,
            palette_ram: s.palette_ram@,
            palette_rgb: s.palette_rgb@,
            sound_irq: s.sound_irq,
            audio_nmi_enable: s.audio_nmi_enable,
            main_had_written: s.main_had_written,
            main_irq: s.main_irq,
            flip_screen: s.flip_screen,
            bnj_scroll0: s.bnj_scroll0,
            sound_latch: s.sound_latch,
            p1: s.p1,
            p2: s.p2,
            system: s.system,
            dsw1: s.dsw1,
            dsw2: s.dsw2,
            clock: s.clock,
            ..self
        }
    }
}

fn copied_colors(src: &Vec<(u8, u8, u8)>) -> (v: Vec<(u8, u8, u8)>)
    ensures
        v@ == src@,
{
    let mut v: Vec<(u8, u8, u8)> = Vec::new();
    let mut i: usize = 0;
    while i < src.len()
        invariant
            i <= src@.len(),
            v@ == src@.take(i as int),
        decreases src@.len() - i,
    {
        v.push(src[i]);
        i += 1;
        assert(v@ =~= src@.take(i as int));
    }
    assert(src@.take(src@.len() as int) =~= src@);
    v
}

impl BtimeBoard {
    /// Take a snapshot.
    pub fn save_state(&self) -> (s: BtimeSnapshot)
        requires
            self.wf(),
        ensures
            s.wf(),
            self@.saved_as(s),
    {
        BtimeSnapshot {
            sound_ram: copied(self.sound_ram.as_slice()),
            ram: copied(self.ram.as_slice()),
            videoram: copied(self.videoram.as_slice()),
            colorram: copied(self.colorram.as_slice()),
            palette_ram: copied(self.palette_ram.as_slice()),
            palette_rgb: copied_colors(&self.palette_rgb),
            sound_irq: self.sound_irq,
            audio_nmi_enable: self.audio_nmi_enable,
            main_had_written: self.main_had_written,
            main_irq: self.main_irq,
            flip_screen: self.flip_screen,
            bnj_scroll0: self.bnj_scroll0,
            sound_latch: self.sound_latch,
            p1: self.p1,
            p2: self.p2,
            system: self.system,
            dsw1: self.dsw1,
            dsw2: self.dsw2,
            clock: self.clock,
        }
    }

    /// Restore a snapshot. One whose memories have the wrong size is refused
    /// and changes nothing.
    pub fn load_state(&mut self, s: &BtimeSnapshot) -> (r: Result<(), SaveError>)
        requires
            old(self).wf(),
        ensures
            final(self).wf(),
            r == if s.wf() { Ok::<(), SaveError>(()) } else { Err(SaveError::SizeMismatch) },
            final(self)@ == if s.wf() { old(self)@.restored_from(*s) } else { old(self)@ },
    {
        if s.sound_ram.len() != 0x400 || s.ram.len() != 0x800 || s.videoram.len() != 0x400
            || s.colorram.len() != 0x400 || s.palette_ram.len() != 16 || s.palette_rgb.len()
            != 16 {
            return Err(SaveError::SizeMismatch);
        }
        self.sound_ram = copied(s.sound_ram.as_slice());
        self.ram = copied(s.ram.as_slice());
        self.videoram = copied(s.videoram.as_slice());
        self.colorram = copied(s.colorram.as_slice());
        self.palette_ram = copied(s.palette_ram.as_slice());
        self.palette_rgb = copied_colors(&s.palette_rgb);
        self.sound_irq = s.sound_irq;
        self.audio_nmi_enable = s.audio_nmi_enable;
        self.main_had_written = s.main_had_written;
        self.main_irq = s.main_irq;
        self.flip_screen = s.flip_screen;
        self.bnj_scroll0 = s.bnj_scroll0;
        self.sound_latch = s.sound_latch;
        self.p1 = s.p1;
        self.p2 = s.p2;
        self.system = s.system;
        self.dsw1 = s.dsw1;
        self.dsw2 = s.dsw2;
        self.clock = s.clock;
        Ok(())
    }
}

/// Sum two PSG sample streams, saturating, over the shorter of them; the rest
/// of the first stream passes unchanged.
pub open spec fn mixed(a: Seq<i16>, b: Seq<i16>) -> Seq<i16> {
    Seq::new(
        a.len(),
        |i: int|
            if i < b.len() {
                if a[i] + b[i] > i16::MAX {
                    i16::MAX
                } else if a[i] + b[i] < i16::MIN {
                    i16::MIN
                } else {
                    (a[i] + b[i]) as i16
                }
            } else {
                a[i]
            },
    )
}

/// Mix the second PSG's samples into the first's.
pub fn mix_psgs(first: &mut Vec<i16>, second: &Vec<i16>)
    ensures
        final(first)@ == mixed(old(first)@, second@),
{
    let ghost start = first@;
    let mut i: usize = 0;
    while i < first.len() && i < second.len()
        invariant
            i <= start.len(),
            i <= second@.len(),
            first@.len() == start.len(),
            forall|k: int| 0 <= k < start.len() ==> #[trigger] first@[k] == if k < i { mixed(start, second@)[k] } else { start[k] },
        decreases start.len() - i,
    {
        let sum: i32 = first[i] as i32 + second[i] as i32;
        first[i] = if sum > 32767 {
            32767
        } else if sum < -32768 {
            -32768
        } else {
            sum as i16
        };
        i += 1;
    }
    assert(first@ =~= mixed(start, second@));
}

/// Reading a RAM location back gives the byte written there; an opcode fetch
/// at a matching address gives it descrambled.
pub proof fn law_ram_read_after_write(b: BtimeView, addr: u16, data: u8)
    requires
        b.wf(),
        addr < 0x0800 || 0x0C00 <= addr < 0x0C10 || 0x1000 <= addr < 0x2000,
    ensures
        b.after_main_write(addr, data).main_byte(addr) == data,
        b.after_main_write(addr, data).main_read(addr) == if b.main_is_sync && addr & 0x0104
            == 0x0104 {
            deco_cpu7(data)
        } else {
            data
        },
{
}

/// A byte written to the video or color window appears in the window's mirror
/// at the swapped offset, and the other way round.
pub proof fn law_mirror_swaps(b: BtimeView, off: u16, data: u8)
    requires
        b.wf(),
        off < 0x400,
    ensures
        b.after_main_write((0x1000 + off) as u16, data).main_byte((0x1800 + swapped(off as int)) as u16) == data,
        b.after_main_write((0x1400 + off) as u16, data).main_byte((0x1C00 + swapped(off as int)) as u16) == data,
        b.after_main_write((0x1800 + off) as u16, data).main_byte((0x1000 + swapped(off as int)) as u16) == data,
        b.after_main_write((0x1C00 + off) as u16, data).main_byte((0x1400 + swapped(off as int)) as u16) == data,
{
    law_swap_is_an_involution(off as int);
}

/// Any main-CPU write arms the descrambler; an opcode fetch disarms it, and no
/// other main read does.
pub proof fn law_writes_arm_and_fetches_disarm(b: BtimeView, addr: u16, data: u8)
    ensures
        b.after_main_write(addr, data).main_had_written,
        b.after_main_read(addr).main_had_written == (b.main_had_written && !b.main_is_sync),
{
}

/// The coin interrupt stays until the CPU fetches the interrupt vector, and
/// only that fetch acknowledges it.
pub proof fn law_vector_fetch_acknowledges(b: BtimeView, addr: u16)
    ensures
        b.after_main_read(addr).main_irq == (b.main_irq && addr != 0xFFFE),
{
}

/// A command written by the main CPU raises the sound interrupt, is what the
/// sound CPU reads at the latch, and the read drops the interrupt.
pub proof fn law_sound_command_handshake(b: BtimeView, data: u8, addr: u16)
    requires
        0xA000 <= addr < 0xC000,
    ensures
        b.after_main_write(0x4003, data).sound_irq,
        b.after_main_write(0x4003, data).sound_byte(addr) == data,
        !b.after_main_write(0x4003, data).after_sound_read(addr).sound_irq,
{
}

/// Main-CPU writes keep the colours in step with the palette bytes.
pub proof fn law_palette_stays_in_step(b: BtimeView, addr: u16, data: u8)
    requires
        b.wf(),
        b.palette_in_step(),
    ensures
        b.after_main_write(addr, data).palette_in_step(),
{
}

/// Drawing a scanline touches its own row of the picture and nothing else: a
/// row already drawn keeps what the beam saw, whatever is written later.
pub proof fn law_scanline_touches_only_its_row(b: BtimeView, scanline: int, k: int)
    requires
        b.wf(),
        0 <= k < b.framebuffer.len(),
        k / 720 != scanline - CROP_LO,
    ensures
        b.after_scanline(scanline).framebuffer[k] == b.framebuffer[k],
        b.after_scanline(scanline) == (BtimeView {
            framebuffer: b.after_scanline(scanline).framebuffer,
            ..b
        }),
{
}

/// Lines outside the visible window draw nothing.
pub proof fn law_vblank_draws_nothing(b: BtimeView, scanline: int)
    requires
        !(CROP_LO <= scanline < CROP_LO + VISIBLE_DIM),
    ensures
        b.after_scanline(scanline) == b,
{
}

/// Restoring a snapshot brings back everything that was saved and leaves the
/// rest of the receiving board alone.
pub proof fn law_snapshot_round_trip(a: BtimeView, b: BtimeView, s: BtimeSnapshot)
    requires
        a.saved_as(s),
    ensures
        b.restored_from(s).saved_as(s),
        b.restored_from(s) == (BtimeView {
            main_rom: b.main_rom,
            sound_rom: b.sound_rom,
            chars: b.chars,
            sprites: b.sprites,
            bg_tiles: b.bg_tiles,
            bg_map: b.bg_map,
            framebuffer: b.framebuffer,
            main_is_sync: b.main_is_sync,
            config: b.config,
            ..a
        }),
{
}

/// The frame loop of the board among CPUs and chips whose state is `O`: `step`
/// is one cycle of all of them.
pub open spec fn frame_loop<O>(step: spec_fn((BtimeView, O)) -> (BtimeView, O)) -> FrameLoop<(BtimeView, O)> {
    FrameLoop {
        clock: |m: (BtimeView, O)| m.0.clock as int,
        begin_scanline: |m: (BtimeView, O), scanline: int| (m.0.after_scanline(scanline), m.1),
        step_cycle: step,
    }
}

/// Whatever the CPUs and chips do in a cycle, a frame equals 26,112 single
/// cycles from the same start, on a scanline boundary or off one, and leaves the
/// clock that many cycles on. A single cycle's lead is that of `begin_tick`.
pub proof fn law_frame_is_its_ticks<O>(
    step: spec_fn((BtimeView, O)) -> (BtimeView, O),
    m: (BtimeView, O),
)
    requires
        forall|s: (BtimeView, O)|
            s.0.clock < u64::MAX ==> (#[trigger] step(s)).0.clock == s.0.clock + 1,
        m.0.clock + FRAME_CYCLES <= u64::MAX,
    ensures
        frame_loop(step).frame(spec_timing(), m) == frame_loop(step).ticks(
            spec_timing(),
            m,
            FRAME_CYCLES as nat,
        ),
        frame_loop(step).frame(spec_timing(), m).0.clock == m.0.clock + FRAME_CYCLES,
        frame_loop(step).led(spec_timing(), m).0 == if (m.0.clock % FRAME_CYCLES) % 96 == 0 {
            m.0.after_scanline(m.0.scanline())
        } else {
            m.0
        },
        frame_loop(step).led(spec_timing(), m).1 == m.1,
{
    let machine = frame_loop(step);
    assert(spec_timing().frame_cycles() == FRAME_CYCLES);
    assert(machine.counts());
    machine.law_frame_is_its_ticks(spec_timing(), m);
    let after = machine.frame(spec_timing(), m);
    assert((machine.clock)(after) == after.0.clock as int);
}

/// In any stretch of one frame's cycles every scanline begins exactly once.
pub proof fn law_every_scanline_begins_once(clock: int, scanline: int) -> (k: int)
    requires
        0 <= clock,
        0 <= scanline < 272,
    ensures
        0 <= k < FRAME_CYCLES,
        (clock + k) % FRAME_CYCLES as int == scanline * 96,
        forall|j: int|
            0 <= j < FRAME_CYCLES && #[trigger] ((clock + j) % FRAME_CYCLES as int) == scanline * 96 ==> j == k,
{
    let frame: int = 26112;
    assert(FRAME_CYCLES == frame);
    let phase = clock % frame;
    let k = if scanline * 96 >= phase {
        scanline * 96 - phase
    } else {
        scanline * 96 - phase + frame
    };
    assert((clock + k) % 26112 == scanline * 96);
    assert forall|j: int|
        0 <= j < FRAME_CYCLES && #[trigger] ((clock + j) % FRAME_CYCLES as int) == scanline
            * 96 implies j == k by {
        assert((clock + j) % 26112 == scanline * 96);
    }
    k
}

} // verus!
