//! Sega Congo Bongo (1983): Zaxxon-family hardware. A main and a sound Z80,
//! a skewed scrolling background, 32 by 32 sprites filled by a custom DMA, and
//! a foreground tile layer.

use vstd::prelude::*;

use crate::dip::{
    BankTable, DipChoice, DipOption, DipSwitchBank, all_immediate, apply_mask, choice, masked, option, tables, valid_bank, valid_option,
};
use crate::input::{
    ActionRole, DefaultBindings, Direction, InputControl, InputEvent, InputKind, SharedBindings,
    control, control_of,
};
use crate::rom::{RomEntry, RomRegion, RomTable, chip, chips_fit};
use crate::bits::{bit, bit_is_set, drive_bit, group_mask_bounds, lemma_with_bit, set_bit_active_high, with_bit};
use crate::gfx::{GfxCache, GfxLayout, decode_gfx, planar_pen, put_row, rotate_90_ccw, rotated_90_ccw, with_row};
use crate::machine::{BusMaster, InterruptState, TimingConfig};
use crate::memory::{SaveError, copied_range, fill, zeroed, zeros};
use crate::state::{StateReader, StateWriter, flag, le64, lemma_append, lemma_le64, lemma_nothing_appended, of_le64, u64_at};

verus! {

broadcast use group_mask_bounds;

/// Width of the native raster.
pub const NATIVE_WIDTH: usize = 256;

/// Rows of the native raster.
pub const NATIVE_HEIGHT: usize = 240;

/// First visible row.
pub const VBLANK_END: usize = 16;

/// Rows that are drawn; vertical blank starts on this line.
pub const VISIBLE_LINES: u64 = 240;

/// Main CPU clock: 48.66 MHz over 16.
pub const CPU_CLOCK_HZ: u64 = 3_041_250;

/// Main cycles in one frame.
pub const FRAME_CYCLES: u64 = 192 * 264;

/// Sound CPU clock.
pub const SOUND_CLOCK: u64 = 4_000_000;

/// Clock of the second sound generator.
pub const SOUND_PSG2_CLOCK: u32 = 1_000_000;

/// Sound CPU cycles between its periodic interrupts.
pub const SOUND_IRQ_PERIOD: u64 = 16 * 16 * 16 * 4;

/// Samples per second of the mixed output.
pub const OUTPUT_SAMPLE_RATE: u64 = 44_100;

/// Power-on switch settings: bonus at 10000, medium, three lives, sound on,
/// upright.
pub const DSW2_DEFAULT: u8 = 0x77;

/// Power-on switch settings: one coin one credit on both slots.
pub const DSW3_DEFAULT: u8 = 0x33;

/// A colour.
pub type Rgb = (u8, u8, u8);

/// The board, apart from its CPUs and sound chips.
pub struct CongoBongoBoard {
    pub main_rom: Vec<u8>,
    pub ram: Vec<u8>,
    /// Tile codes.
    pub video_ram: Vec<u8>,
    /// Tile colours.
    pub color_ram: Vec<u8>,
    pub sound_rom: Vec<u8>,
    pub sound_ram: Vec<u8>,
    pub tx_rom: Vec<u8>,
    pub bg_rom: Vec<u8>,
    pub spr_rom: Vec<u8>,
    /// The background map: codes, then attributes.
    pub tilemap_dat: Vec<u8>,
    pub tx_cache: GfxCache,
    pub bg_cache: GfxCache,
    pub sprite_cache: GfxCache,
    /// The background map drawn out as pens, 256 by 4096.
    pub bg_pixmap: Vec<u8>,
    pub palette_prom: Vec<u8>,
    pub palette_rgb: Vec<Rgb>,
    /// The native raster, 256 by 240 RGB24.
    pub scanline_buffer: Vec<u8>,
    pub in0: u8,
    pub in1: u8,
    pub in2: u8,
    pub dsw2: u8,
    pub dsw3: u8,
    /// Latched coins.
    pub coin_a: bool,
    pub coin_b: bool,
    pub coin_service: bool,
    pub latch1: u8,
    pub latch2: u8,
    pub int_enabled: bool,
    pub bg_enabled: bool,
    /// Scroll position, low byte first.
    pub bg_position: Vec<u8>,
    /// Sprite DMA registers.
    pub sprite_dma: Vec<u8>,
    pub sprite_ram: Vec<u8>,
    pub sound_latch: u8,
    pub sound_cycle_accum: u64,
    pub sound_irq_counter: u64,
    pub sound_irq_pending: bool,
    pub clock: u64,
    pub vblank_irq_pending: bool,
}

/// The board as a mathematical value: memories as sequences.
#[verifier::ext_equal]
pub struct CongoView {
    pub main_rom: Seq<u8>,
    pub ram: Seq<u8>,
    pub video_ram: Seq<u8>,
    pub color_ram: Seq<u8>,
    pub sound_rom: Seq<u8>,
    pub sound_ram: Seq<u8>,
    pub tx_rom: Seq<u8>,
    pub bg_rom: Seq<u8>,
    pub spr_rom: Seq<u8>,
    pub tilemap_dat: Seq<u8>,
    pub tx_cache: GfxCache,
    pub bg_cache: GfxCache,
    pub sprite_cache: GfxCache,
    pub bg_pixmap: Seq<u8>,
    pub palette_prom: Seq<u8>,
    pub palette_rgb: Seq<Rgb>,
    pub scanline_buffer: Seq<u8>,
    pub in0: u8,
    pub in1: u8,
    pub in2: u8,
    pub dsw2: u8,
    pub dsw3: u8,
    pub coin_a: bool,
    pub coin_b: bool,
    pub coin_service: bool,
    pub latch1: u8,
    pub latch2: u8,
    pub int_enabled: bool,
    pub bg_enabled: bool,
    pub bg_position: Seq<u8>,
    pub sprite_dma: Seq<u8>,
    pub sprite_ram: Seq<u8>,
    pub sound_latch: u8,
    pub sound_cycle_accum: u64,
    pub sound_irq_counter: u64,
    pub sound_irq_pending: bool,
    pub clock: u64,
    pub vblank_irq_pending: bool,
}

impl View for CongoBongoBoard {
    type V = CongoView;

    open spec fn view(&self) -> CongoView {
        CongoView {
            main_rom: self.main_rom@,
            ram: self.ram@,
            video_ram: self.video_ram@,
            color_ram: self.color_ram@,
            sound_rom: self.sound_rom@,
            sound_ram: self.sound_ram@,
            tx_rom: self.tx_rom@,
            bg_rom: self.bg_rom@,
            spr_rom: self.spr_rom@,
            tilemap_dat: self.tilemap_dat@,
            tx_cache: self.tx_cache,
            bg_cache: self.bg_cache,
            sprite_cache: self.sprite_cache,
            bg_pixmap: self.bg_pixmap@,
            palette_prom: self.palette_prom@,
            palette_rgb: self.palette_rgb@,
            scanline_buffer: self.scanline_buffer@,
            in0: self.in0,
            in1: self.in1,
            in2: self.in2,
            dsw2: self.dsw2,
            dsw3: self.dsw3,
            coin_a: self.coin_a,
            coin_b: self.coin_b,
            coin_service: self.coin_service,
            latch1: self.latch1,
            latch2: self.latch2,
            int_enabled: self.int_enabled,
            bg_enabled: self.bg_enabled,
            bg_position: self.bg_position@,
            sprite_dma: self.sprite_dma@,
            sprite_ram: self.sprite_ram@,
            sound_latch: self.sound_latch,
            sound_cycle_accum: self.sound_cycle_accum,
            sound_irq_counter: self.sound_irq_counter,
            sound_irq_pending: self.sound_irq_pending,
            clock: self.clock,
            vblank_irq_pending: self.vblank_irq_pending,
        }
    }
}

impl CongoView {
    /// Sizes of the memories; a tile cache is either empty or fully decoded.
    pub open spec fn wf(&self) -> bool {
        &&& self.main_rom.len() == 0x8000
        &&& self.ram.len() == 0x1000
        &&& self.video_ram.len() == 0x400
        &&& self.color_ram.len() == 0x400
        &&& self.sound_rom.len() == 0x2000
        &&& self.sound_ram.len() == 0x800
        &&& self.tx_rom.len() == 0x1000
        &&& self.bg_rom.len() == 0x6000
        &&& self.spr_rom.len() == 0xC000
        &&& self.tilemap_dat.len() == 0x4000
        &&& self.tx_cache.wf()
        &&& self.tx_cache.spec_width() == 8
        &&& self.tx_cache.spec_height() == 8
        &&& self.bg_cache.wf()
        &&& self.bg_cache.spec_count() == 0 || self.bg_cache.spec_count() == 1024
        &&& self.bg_cache.spec_width() == 8
        &&& self.bg_cache.spec_height() == 8
        &&& self.sprite_cache.wf()
        &&& self.sprite_cache.spec_count() == 0 || self.sprite_cache.spec_count() == 128
        &&& self.sprite_cache.spec_width() == 32
        &&& self.sprite_cache.spec_height() == 32
        &&& self.bg_pixmap.len() == 0 || self.bg_pixmap.len() == 256 * 4096
        &&& self.palette_prom.len() == 0x200
        &&& self.palette_rgb.len() == 512
        &&& self.scanline_buffer.len() == 3 * NATIVE_WIDTH * NATIVE_HEIGHT
        &&& self.bg_position.len() == 2
        &&& self.sprite_dma.len() == 4
        &&& self.sprite_ram.len() == 0x100
    }

    /// Byte that a main-CPU address reads outside the I/O window; also the
    /// source of the sprite DMA.
    pub open spec fn memory_byte(&self, addr: u16) -> u8 {
        if addr < 0x8000 {
            self.main_rom[addr as int]
        } else if addr < 0x9000 {
            self.ram[addr - 0x8000]
        } else if 0xA000 <= addr < 0xC000 {
            if addr & 0x07FF < 0x400 {
                self.video_ram[(addr & 0x07FF) as int]
            } else {
                self.color_ram[(addr & 0x07FF) - 0x400]
            }
        } else {
            0xFF
        }
    }

    /// Start buttons and the three latched coins.
    pub open spec fn sw100(&self) -> u8 {
        self.in2 | (flag(self.coin_a) << 5) | (flag(self.coin_b) << 6) | (flag(self.coin_service)
            << 7)
    }

    /// What the main CPU reads.
    pub open spec fn main_read(&self, addr: u16) -> u8 {
        if 0xC000 <= addr < 0xE000 {
            let port = addr & 0x3F;
            if port == 0x00 {
                self.in0
            } else if port == 0x01 {
                self.in1
            } else if port == 0x02 {
                self.dsw2
            } else if port == 0x03 {
                self.dsw3
            } else if port == 0x08 {
                self.sw100()
            } else {
                0xFF
            }
        } else {
            self.memory_byte(addr)
        }
    }

    /// The board after one line of latch 1 is driven: a coin is forgotten while
    /// its enable line is low, line 5 enables the background, line 7 the
    /// vertical-blank interrupt.
    pub open spec fn with_latch1(self, n: u8, level: bool) -> CongoView {
        let latch = with_bit(self.latch1, n, level);
        CongoView {
            latch1: latch,
            coin_a: self.coin_a && bit(latch, 0),
            coin_b: self.coin_b && bit(latch, 1),
            coin_service: self.coin_service && bit(latch, 2),
            bg_enabled: if n == 5 { level } else { self.bg_enabled },
            int_enabled: if n == 7 { level } else { self.int_enabled },
            vblank_irq_pending: self.vblank_irq_pending && !(n == 7 && !level),
            ..self
        }
    }

    /// The board after coin line `n` closes: it latches only while armed.
    pub open spec fn with_coin(self, n: int) -> CongoView {
        if n == 0 {
            CongoView { coin_a: self.coin_a || bit(self.latch1, 0), ..self }
        } else if n == 1 {
            CongoView { coin_b: self.coin_b || bit(self.latch1, 1), ..self }
        } else {
            CongoView { coin_service: self.coin_service || bit(self.latch1, 2), ..self }
        }
    }

    /// Sprite RAM after one DMA descriptor at `from`: its first byte names the
    /// slot, the next four fill it.
    pub open spec fn with_descriptor(&self, ram: Seq<u8>, from: int) -> Seq<u8> {
        Seq::new(
            ram.len(),
            |k: int|
                if k / 4 == self.memory_byte((from % 0x10000) as u16) % 64 {
                    self.memory_byte(((from + 1 + k % 4) % 0x10000) as u16)
                } else {
                    ram[k]
                },
        )
    }

    /// Sprite RAM after `n` descriptors, 0x20 bytes apart.
    pub open spec fn after_descriptors(&self, ram: Seq<u8>, from: int, n: nat) -> Seq<u8>
        decreases n,
    {
        if n == 0 {
            ram
        } else {
            self.with_descriptor(
                self.after_descriptors(ram, from, (n - 1) as nat),
                from + 0x20 * (n - 1),
            )
        }
    }

    /// The board after a sprite-DMA register write. Writing 1 to the trigger
    /// moves `count + 1` descriptors.
    pub open spec fn after_dma_write(self, reg: int, data: u8) -> CongoView {
        let regs = self.sprite_dma.update(reg, data);
        let written = CongoView { sprite_dma: regs, ..self };
        if reg == 3 && data == 1 {
            CongoView {
                sprite_ram: written.after_descriptors(
                    self.sprite_ram,
                    regs[0] + 256 * regs[1],
                    (regs[2] + 1) as nat,
                ),
                ..written
            }
        } else {
            written
        }
    }

    /// The board after a main-CPU write.
    pub open spec fn after_main_write(self, addr: u16, data: u8) -> CongoView {
        if 0x8000 <= addr < 0x9000 {
            CongoView { ram: self.ram.update(addr - 0x8000, data), ..self }
        } else if 0xA000 <= addr < 0xC000 {
            if addr & 0x07FF < 0x400 {
                CongoView { video_ram: self.video_ram.update((addr & 0x07FF) as int, data), ..self }
            } else {
                CongoView {
                    color_ram: self.color_ram.update((addr & 0x07FF) - 0x400, data),
                    ..self
                }
            }
        } else if 0xC000 <= addr < 0xE000 {
            let port = addr & 0x3F;
            if 0x18 <= port < 0x20 {
                self.with_latch1((addr & 7) as u8, data & 1 != 0)
            } else if 0x20 <= port < 0x28 {
                CongoView { latch2: with_bit(self.latch2, (addr & 7) as u8, data & 1 != 0), ..self }
            } else if 0x28 <= port < 0x2A {
                CongoView { bg_position: self.bg_position.update((addr & 1) as int, data), ..self }
            } else if 0x30 <= port < 0x34 {
                self.after_dma_write((addr & 3) as int, data)
            } else if 0x38 <= port {
                CongoView { sound_latch: data, ..self }
            } else {
                self
            }
        } else {
            self
        }
    }

    /// The board after a sound-CPU write.
    pub open spec fn after_sound_write(self, addr: u16, data: u8) -> CongoView {
        if 0x4000 <= addr < 0x5000 {
            CongoView { sound_ram: self.sound_ram.update((addr & 0x07FF) as int, data), ..self }
        } else {
            self
        }
    }

    /// Cycle within the frame.
    pub open spec fn frame_cycle(&self) -> int {
        (self.clock % FRAME_CYCLES) as int
    }

    /// The board after the work that leads a main cycle: the row of a scanline
    /// that begins here, and the vertical-blank interrupt at line 240 while it
    /// is enabled.
    pub open spec fn after_lead(self) -> CongoView {
        let cycle = self.frame_cycle();
        let drawn = if cycle % 192 == 0 && cycle / 192 < 240 {
            self.after_row(cycle / 192)
        } else {
            self
        };
        CongoView {
            vblank_irq_pending: self.vblank_irq_pending || (cycle == 240 * 192 && self.int_enabled),
            ..drawn
        }
    }

    /// The board after one sound-CPU step is taken off the accumulator: the
    /// periodic interrupt rises once per period.
    pub open spec fn after_sound_step(self) -> CongoView {
        let count = self.sound_irq_counter + 1;
        CongoView {
            sound_cycle_accum: (self.sound_cycle_accum - CPU_CLOCK_HZ) as u64,
            sound_irq_counter: if count >= SOUND_IRQ_PERIOD { 0 } else { count as u64 },
            sound_irq_pending: self.sound_irq_pending || count >= SOUND_IRQ_PERIOD,
            ..self
        }
    }

    /// Interrupt lines of a CPU: the blanking interrupt, while let through, for
    /// the first, the periodic one for the second.
    pub open spec fn interrupts(&self, target: BusMaster) -> InterruptState {
        InterruptState::lines(
            false,
            if target == BusMaster::Cpu(0) {
                self.vblank_irq_pending && self.int_enabled
            } else if target == BusMaster::Cpu(1) {
                self.sound_irq_pending
            } else {
                false
            },
        )
    }

    /// The board after a sound-CPU step: taking the interrupt, seen as the
    /// interrupt flag going down, acknowledges it.
    pub open spec fn after_sound_step_end(self, iff1_before: bool, iff1_after: bool) -> CongoView {
        CongoView {
            sound_irq_pending: self.sound_irq_pending && !(iff1_before && !iff1_after),
            ..self
        }
    }

    /// The state a board powers on in.
    pub open spec fn powered_on(&self) -> bool {
        &&& self.main_rom == zeros(0x8000)
        &&& self.ram == zeros(0x1000)
        &&& self.video_ram == zeros(0x400)
        &&& self.color_ram == zeros(0x400)
        &&& self.sound_rom == zeros(0x2000)
        &&& self.sound_ram == zeros(0x800)
        &&& self.tx_rom == zeros(0x1000)
        &&& self.bg_rom == zeros(0x6000)
        &&& self.spr_rom == zeros(0xC000)
        &&& self.tilemap_dat == zeros(0x4000)
        &&& self.tx_cache.spec_count() == 0
        &&& self.bg_cache.spec_count() == 0
        &&& self.sprite_cache.spec_count() == 0
        &&& self.bg_pixmap.len() == 0
        &&& self.palette_prom == zeros(0x200)
        &&& self.palette_rgb == Seq::new(512, |i: int| (0u8, 0u8, 0u8))
        &&& self.scanline_buffer == zeros(3 * 256 * 240)
        &&& self.in0 == 0
        &&& self.in1 == 0
        &&& self.in2 == 0
        &&& self.dsw2 == DSW2_DEFAULT
        &&& self.dsw3 == DSW3_DEFAULT
        &&& self.sound_cycle_accum == 0
        &&& self.sound_irq_counter == 0
        &&& !self.sound_irq_pending
        &&& self.controls_cleared()
    }

    /// Latches, scroll, DMA and interrupt state as a reset leaves them.
    pub open spec fn controls_cleared(&self) -> bool {
        &&& !self.coin_a
        &&& !self.coin_b
        &&& !self.coin_service
        &&& self.latch1 == 0
        &&& self.latch2 == 0
        &&& !self.int_enabled
        &&& !self.bg_enabled
        &&& self.bg_position == zeros(2)
        &&& self.sprite_dma == zeros(4)
        &&& self.sprite_ram == zeros(0x100)
        &&& self.sound_latch == 0
        &&& self.clock == 0
        &&& !self.vblank_irq_pending
    }

    /// Colour-bank line: palette entries move up by 256.
    pub open spec fn color_bank(&self) -> int {
        ((self.latch2 >> 7) & 1) as int
    }

    /// The 11-bit background scroll position.
    pub open spec fn scroll(&self) -> int {
        (self.bg_position[1] & 0x07) as int * 256 + self.bg_position[0]
    }

    /// Row of the drawn-out map shown on screen row `y`: the picture scrolls down
    /// two map rows per step.
    pub open spec fn src_y(&self, y: int) -> int {
        (y - 2 * self.scroll()) % 4096
    }

    /// Pen of the drawn-out background map at column `x`, row `y`.
    pub open spec fn map_pen(&self, x: int, y: int) -> u8 {
        let tile = ((y / 8) * 32 + x / 8) % 0x2000;
        let attr = self.tilemap_dat[tile + 0x2000];
        let code = self.tilemap_dat[tile] + 256 * (attr as usize & 3);
        ((attr >> 4) as usize * 8 + self.bg_cache.at(code, x % 8, y % 8)) as u8
    }

    /// The background map drawn out.
    pub open spec fn map_pixels(&self) -> Seq<u8> {
        Seq::new(256 * 4096, |k: int| self.map_pen(k % 256, k / 256))
    }

    /// Row `y` with the background drawn over it.
    pub open spec fn with_background(&self, row: Seq<Rgb>, y: int) -> Seq<Rgb> {
        if !self.bg_enabled || self.bg_pixmap.len() == 0 {
            row
        } else {
            Seq::new(
                row.len(),
                |x: int|
                    {
                        let pen = self.bg_pixmap[self.src_y(y) * 256 + src_x(y, x)];
                        self.palette_rgb[(pen + ((self.latch2 >> 3) & 1) * 0x80
                            + self.color_bank() * 0x100) % 512]
                    },
            )
        }
    }

    /// Colour of sprite table entry `s` at screen position (`x`, `y`), if it
    /// covers it. Positions wrap at 256 both ways.
    pub open spec fn sprite_color(&self, s: int, x: int, y: int) -> Option<Rgb> {
        let attr = self.sprite_ram[4 * s + 1];
        let color = self.sprite_ram[4 * s + 2];
        let row = (y - min_y(self.sprite_ram[4 * s], false)) % 256;
        let col = (x - min_x(self.sprite_ram[4 * s + 3], false)) % 256;
        let py = if attr & 0x80 != 0 { 31 - row } else { row };
        let px = if color & 0x80 != 0 { 31 - col } else { col };
        let pen = self.sprite_cache.at((attr & 0x7F) as int, px, py);
        if row < 32 && col < 32 && pen != 0 {
            Some(
                self.palette_rgb[(((color & 0x1F) + 32 * self.color_bank()) * 8 + pen) % 512],
            )
        } else {
            None
        }
    }

    /// Row `y` with sprite table entry `s` drawn over it.
    pub open spec fn with_sprite(&self, row: Seq<Rgb>, s: int, y: int) -> Seq<Rgb> {
        Seq::new(
            row.len(),
            |x: int|
                match self.sprite_color(s, x, y) {
                    Some(c) => c,
                    None => row[x],
                },
        )
    }

    /// Row `y` with the last `n` of the 32 displayed sprites drawn over it,
    /// last entry first, so that a lower entry lands on top.
    pub open spec fn with_sprites(&self, row: Seq<Rgb>, n: nat, y: int) -> Seq<Rgb>
        decreases n,
    {
        if n == 0 {
            row
        } else {
            self.with_sprite(self.with_sprites(row, (n - 1) as nat, y), 32 - n, y)
        }
    }

    /// Foreground colour at screen position (`x`, `y`), unless its pen is 0.
    pub open spec fn text_color(&self, x: int, y: int) -> Option<Rgb> {
        let cell = (y / 8) * 32 + x / 8;
        let bank = ((self.latch2 >> 6) & 1) as int;
        let code = (self.video_ram[cell] + bank * 256) % self.tx_cache.spec_count() as int;
        let pen = self.tx_cache.at(code, x % 8, y % 8);
        let base = (self.color_ram[cell] & 0x1F) * 8 + ((self.latch2 >> 1) & 1) * 0x80
            + self.color_bank() * 0x100;
        if pen != 0 {
            Some(self.palette_rgb[(base + pen) % 512])
        } else {
            None
        }
    }

    /// Row `y` with the foreground tiles drawn over it.
    pub open spec fn with_text(&self, row: Seq<Rgb>, y: int) -> Seq<Rgb> {
        if self.tx_cache.spec_count() == 0 {
            row
        } else {
            Seq::new(
                row.len(),
                |x: int|
                    match self.text_color(x, y) {
                        Some(c) => c,
                        None => row[x],
                    },
            )
        }
    }

    /// Screen row `y`: black, background, sprites, foreground.
    pub open spec fn screen_row(&self, y: int) -> Seq<Rgb> {
        let black = Seq::new(NATIVE_WIDTH as nat, |x: int| (0u8, 0u8, 0u8));
        let background = self.with_background(black, y);
        let sprites = if self.sprite_cache.spec_count() == 0 {
            background
        } else {
            self.with_sprites(background, 32, y)
        };
        self.with_text(sprites, y)
    }

    /// The picture as it is shown: the visible rows, turned upright.
    pub open spec fn picture(&self) -> Seq<u8> {
        rotated_90_ccw(self.scanline_buffer.skip(3 * VBLANK_END * NATIVE_WIDTH), 256, 224)
    }

    /// The board after screen row `y` is drawn.
    pub open spec fn after_row(self, y: int) -> CongoView {
        CongoView {
            scanline_buffer: with_row(self.scanline_buffer, y * NATIVE_WIDTH * 3, self.screen_row(y)),
            ..self
        }
    }
}

/// Column of the drawn-out map shown at screen position (`x`, `y`): the map is
/// skewed one column left every two rows.
pub open spec fn src_x(y: int, x: int) -> int {
    (x + 0x3F - y / 2) % 256
}

/// Inverting the low byte of a count.
proof fn lemma_low_byte_inverted(half: usize)
    ensures
        half ^ 0xFF == half - half % 0x100 + (0xFF - half % 0x100),
{
    assert(half ^ 0xFF == half - half % 0x100 + (0xFF - half % 0x100)) by (bit_vector);
}

/// Adding the inverted low byte of a count takes the count away, within 256.
proof fn lemma_skew(x: int, half: int)
    ensures
        (x + (half - half % 0x100 + (0xFF - half % 0x100)) + 1 + 0x3F) % 0x100 == (x + 0x3F - half)
            % 0x100,
{
    let q = half / 0x100;
    let r = half % 0x100;
    assert(half == 0x100 * q + r);
    let m = 2 * q + 1;
    assert(x + (half - r + (0xFF - r)) + 1 + 0x3F == 0x100 * m + (x + 0x3F - half));
    vstd::arithmetic::div_mod::lemma_mod_multiples_vanish(m, x + 0x3F - half, 0x100);
}

/// Top row of a sprite from its Y byte.
pub open spec fn min_y(value: u8, flip: bool) -> int {
    if flip {
        (value - 15) % 256
    } else {
        (239 - value) % 256
    }
}

/// Left column of a sprite from its X byte.
pub open spec fn min_x(value: u8, flip: bool) -> int {
    if flip {
        (240 - value) % 256
    } else {
        (value + 240) % 256
    }
}

/// Whether line `y` is inside the 32 lines that a sprite's comparator selects:
/// `(Y + 0xF2 + VF) & 0xE0 == 0xE0`, with the line inverted and one less offset
/// pair when the screen is flipped.
#[verifier::opaque]
pub open spec fn line_selected(value: u8, flip: bool, y: int) -> bool {
    let sum = if flip { value + 0xF0 + (255 - y) } else { value + 0xF2 + y };
    sum % 256 >= 0xE0
}

/// First line of the selected 32.
#[verifier::opaque]
pub open spec fn first_line(value: u8, flip: bool) -> int {
    if flip {
        (value - 16) % 256
    } else {
        (238 - value) % 256
    }
}

/// First multiple of 16 inside the selected lines.
spec fn probe_line(first: int) -> int {
    if first > 240 {
        0
    } else {
        ((first + 15) / 16) * 16
    }
}

proof fn lemma_first_line(value: u8, flip: bool)
    ensures
        0 <= first_line(value, flip) < 256,
        0 <= probe_line(first_line(value, flip)) <= 240,
        min_y(value, flip) == (first_line(value, flip) + 1) % 256,
{
    reveal(first_line);
}

proof fn lemma_line_selected(value: u8, flip: bool, y: int)
    ensures
        line_selected(value, flip, y) == ((y - first_line(value, flip)) % 256 < 32),
{
    reveal(first_line);
    reveal(line_selected);
    if flip {
        vstd::arithmetic::div_mod::lemma_sub_mod_noop_right(y, value - 16, 256);
        lemma_mirrored_residue(y - (value - 16));
    } else {
        vstd::arithmetic::div_mod::lemma_sub_mod_noop_right(y, 238 - value, 256);
        lemma_shifted_residue(y - (238 - value));
    }
}

proof fn lemma_shifted_residue(t: int)
    ensures
        ((t + 224) % 256 >= 224) == (t % 256 < 32),
{
}

proof fn lemma_mirrored_residue(t: int)
    ensures
        ((511 - t) % 256 >= 224) == (t % 256 < 32),
{
}

proof fn lemma_probe(first: int, y: int)
    requires
        0 <= first < 256,
        0 <= y <= probe_line(first),
        y % 16 == 0,
        (y - first) % 256 >= 32,
    ensures
        y + 16 <= probe_line(first),
{
}

proof fn lemma_step_back(first: int, y: int)
    requires
        0 <= (y - first) % 256 < 32,
    ensures
        (y - 1 - first) % 256 < 32 ==> (y - 1 - first) % 256 == (y - first) % 256 - 1,
        (y - 1 - first) % 256 >= 32 ==> (y - first) % 256 == 0 && (y + 1) % 256 == (first + 1) % 256,
{
}

fn is_line_selected(value: u8, flip: bool, y: i32) -> (r: bool)
    requires
        -256 <= y <= 512,
    ensures
        r == line_selected(value, flip, y as int),
{
    let line: i32 = if flip {
        value as i32 + 0xF0 + (255 - y)
    } else {
        value as i32 + 0xF2 + y
    };
    reveal(line_selected);
    let sum: u32 = (line + 512) as u32;
    assert((sum & 0xE0 == 0xE0) == (sum % 256 >= 0xE0)) by (bit_vector);
    sum & 0xE0 == 0xE0
}

/// What a sound-CPU read addresses.
#[derive(Clone, Copy, Debug, PartialEq, Eq, Structural)]
pub enum CongoRead {
    /// The byte read.
    Value(u8),
    /// A port of the sound board's interface chip.
    Ppi(u8),
}

/// What a write leaves for a chip outside the board.
#[derive(Clone, Copy, Debug, PartialEq, Eq, Structural)]
pub enum CongoWrite {
    Done,
    /// Drive the sound command onto the interface chip's input port.
    SoundCommand(u8),
    Sn1(u8),
    Sn2(u8),
    Ppi { port: u8, data: u8 },
}

/// Output levels of the two colour ladders, one per code.
pub struct CongoDac {
    /// Red and green: three bits.
    pub rg: Vec<u8>,
    /// Blue: two bits.
    pub b: Vec<u8>,
}

impl CongoDac {
    pub open spec fn wf(&self) -> bool {
        &&& self.rg@.len() == 8
        &&& self.b@.len() == 4
    }

    /// Colour of a palette byte: three bits of red from the bottom, three of
    /// green, two of blue.
    pub open spec fn color(&self, v: u8) -> Rgb {
        (
            self.rg@[(v & 7) as int],
            self.rg@[((v >> 3) & 7) as int],
            self.b@[((v >> 6) & 3) as int],
        )
    }
}

/// The 512 colours of a palette image.
pub fn congo_palette_rgb(palette_prom: &[u8], dac: &CongoDac) -> (out: Vec<Rgb>)
    requires
        palette_prom@.len() >= 512,
        dac.wf(),
    ensures
        out@ == Seq::new(512, |i: int| dac.color(palette_prom@[i])),
{
    let mut out: Vec<Rgb> = Vec::new();
    let mut i: usize = 0;
    while i < 512
        invariant
            i <= 512,
            palette_prom@.len() >= 512,
            dac.wf(),
            out@ == Seq::new(512, |i: int| dac.color(palette_prom@[i])).take(i as int),
        decreases 512 - i,
    {
        let v: u8 = palette_prom[i];
        let r: u8 = dac.rg[(v & 7) as usize];
        let g: u8 = dac.rg[((v >> 3) & 7) as usize];
        let b: u8 = dac.b[((v >> 6) & 3) as usize];
        out.push((r, g, b));
        i += 1;
        assert(out@ =~= Seq::new(512, |i: int| dac.color(palette_prom@[i])).take(i as int));
    }
    assert(out@ =~= Seq::new(512, |i: int| dac.color(palette_prom@[i])));
    out
}

/// The colours that the graphics viewer shows tiles in: those of the palette
/// PROM.
pub fn congo_gfx_palette(palette_prom: &[u8], dac: &CongoDac) -> (out: Vec<Rgb>)
    requires
        palette_prom@.len() == 512,
        dac.wf(),
    ensures
        out@ == Seq::new(512, |i: int| dac.color(palette_prom@[i])),
{
    congo_palette_rgb(palette_prom, dac)
}

/// Raster timing: 384 pixel clocks by 264 lines, shown turned.
pub open spec fn spec_timing() -> TimingConfig {
    TimingConfig {
        cpu_clock_hz: CPU_CLOCK_HZ,
        cycles_per_scanline: 192,
        total_scanlines: 264,
        display_width: 224,
        display_height: 256,
        display_aspect: None,
    }
}

pub fn timing() -> (t: TimingConfig)
    ensures
        t == spec_timing(),
        t.frame_cycles() == FRAME_CYCLES,
{
    TimingConfig {
        cpu_clock_hz: CPU_CLOCK_HZ,
        cycles_per_scanline: 192,
        total_scanlines: 264,
        display_width: 224,
        display_height: 256,
        display_aspect: None,
    }
}

/// Offset of tile column `x` when 8 by 8 cells of eight bytes are laid left to
/// right.
pub open spec fn cell_column(x: int) -> int {
    (x / 8) * 64 + x % 8
}

/// Offset of tile row `y` when rows of cells hold `across` cells.
pub open spec fn cell_row(y: int, across: int) -> int {
    (y / 8) * (64 * across) + (y % 8) * 8
}

/// The first `n` plane offsets when planes lie `bytes` apart.
pub open spec fn plane_starts(n: nat, bytes: int) -> Seq<usize> {
    Seq::new(n, |p: int| (8 * bytes * p) as usize)
}

/// A planar layout of `side` by `side` tiles made of 8 by 8 cells, with planes
/// `bytes` apart: the foreground, background and sprite layouts of the board.
pub fn cell_layout(planes: usize, bytes: usize, side: usize) -> (l: GfxLayout)
    requires
        planes <= 3,
        bytes <= 0x4000,
        side == 8 || side == 32,
    ensures
        l.plane_offsets@ == plane_starts(planes as nat, bytes as int),
        l.x_offsets@ == Seq::new(side as nat, |x: int| cell_column(x) as usize),
        l.y_offsets@ == Seq::new(side as nat, |y: int| cell_row(y, side as int / 8) as usize),
        l.char_increment == side * side,
{
    let mut plane_offsets: Vec<usize> = Vec::new();
    let mut p: usize = 0;
    while p < planes
        invariant
            p <= planes <= 3,
            bytes <= 0x4000,
            plane_offsets@ == plane_starts(planes as nat, bytes as int).take(p as int),
        decreases planes - p,
    {
        assert(bytes * p <= 0x4000 * 3) by (nonlinear_arith)
            requires
                bytes <= 0x4000,
                p <= 3,
        ;
        assert(8 * bytes * p == 8 * (bytes * p)) by (nonlinear_arith);
        plane_offsets.push(8 * (bytes * p));
        p += 1;
        assert(plane_offsets@ =~= plane_starts(planes as nat, bytes as int).take(p as int));
    }
    assert(plane_offsets@ =~= plane_starts(planes as nat, bytes as int));
    let across: usize = side / 8;
    let mut x_offsets: Vec<usize> = Vec::new();
    let mut y_offsets: Vec<usize> = Vec::new();
    let mut i: usize = 0;
    while i < side
        invariant
            i <= side,
            side == 8 || side == 32,
            across == side / 8,
            x_offsets@ == Seq::new(side as nat, |x: int| cell_column(x) as usize).take(i as int),
            y_offsets@ == Seq::new(side as nat, |y: int| cell_row(y, side as int / 8) as usize).take(i as int),
        decreases side - i,
    {
        assert((i / 8) * (64 * across) <= 4 * 256) by (nonlinear_arith)
            requires
                i / 8 <= 4,
                across <= 4,
        ;
        x_offsets.push((i / 8) * 64 + i % 8);
        y_offsets.push((i / 8) * (64 * across) + (i % 8) * 8);
        i += 1;
        assert(x_offsets@ =~= Seq::new(side as nat, |x: int| cell_column(x) as usize).take(i as int));
        assert(y_offsets@ =~= Seq::new(side as nat, |y: int| cell_row(y, side as int / 8) as usize).take(i as int));
    }
    assert(x_offsets@ =~= Seq::new(side as nat, |x: int| cell_column(x) as usize));
    assert(y_offsets@ =~= Seq::new(side as nat, |y: int| cell_row(y, side as int / 8) as usize));
    let char_increment: usize = if side == 8 {
        64
    } else {
        1024
    };
    GfxLayout { plane_offsets, x_offsets, y_offsets, char_increment }
}

/// The cache holds `count` tiles of `side` by `side` decoded from `rom`.
pub open spec fn decodes_cells(
    cache: GfxCache,
    rom: Seq<u8>,
    count: int,
    planes: nat,
    bytes: int,
    side: int,
) -> bool {
    &&& cache.wf()
    &&& cache.spec_count() == count
    &&& cache.spec_width() == side
    &&& cache.spec_height() == side
    &&& forall|c: int, x: int, y: int|
        0 <= c < count && 0 <= x < side && 0 <= y < side ==> #[trigger] cache.at(c, x, y)
            == planar_pen(
            rom,
            c * (side * side) + cell_row(y, side / 8) + cell_column(x),
            plane_starts(planes, bytes),
            planes,
        )
}

fn decode_cells(rom: &Vec<u8>, count: usize, planes: usize, bytes: usize, side: usize) -> (cache: GfxCache)
    requires
        1 <= planes <= 3,
        1 <= bytes <= 0x4000,
        side == 8 || side == 32,
        1 <= count <= 1024,
        count * (side * side) == 8 * bytes,
        rom@.len() == planes * bytes,
    ensures
        decodes_cells(cache, rom@, count as int, planes as nat, bytes as int, side as int),
{
    let layout: GfxLayout = cell_layout(planes, bytes, side);
    proof {
        let last = 8 * bytes * (planes - 1);
        let stride = side as int * side as int;
        assert(planes * bytes <= 0xC000) by (nonlinear_arith)
            requires
                planes <= 3,
                bytes <= 0x4000,
        ;
        assert(8 * (planes * bytes) == last + 8 * bytes) by (nonlinear_arith)
            requires
                last == 8 * bytes * (planes - 1),
        ;
        assert((count - 1) * stride == 8 * bytes - stride) by (nonlinear_arith)
            requires
                count * stride == 8 * bytes,
        ;
        assert forall|x: int, y: int, p: int|
            0 <= x < layout.x_offsets@.len() && 0 <= y < layout.y_offsets@.len() && 0 <= p
                < layout.plane_offsets@.len() implies #[trigger] layout.x_offsets@[x]
            + #[trigger] layout.y_offsets@[y] + #[trigger] layout.plane_offsets@[p] < stride + last by {
            assert(8 * bytes * p <= last) by (nonlinear_arith)
                requires
                    p <= planes - 1,
                    last == 8 * bytes * (planes - 1),
            ;
            assert(0 <= 8 * bytes * p) by (nonlinear_arith)
                requires
                    0 <= p,
            ;
            assert(last <= 8 * 0x4000 * 2) by (nonlinear_arith)
                requires
                    last == 8 * bytes * (planes - 1),
                    0 <= bytes <= 0x4000,
                    0 <= planes - 1 <= 2,
            ;
            if side == 8 {
                assert(cell_column(x) < 8);
                assert(cell_row(y, 1) <= 56);
            } else {
                assert(cell_column(x) <= 199);
                assert(cell_row(y, 4) <= 824);
            }
        }
        layout.lemma_fits(rom@.len() as int, count as int, stride, stride + last);
        assert forall|c: int, x: int, y: int|
            0 <= c < count && 0 <= x < side && 0 <= y < side implies #[trigger] layout.pixel_bit(c, x, y)
            == c * (side * side) + cell_row(y, side as int / 8) + cell_column(x) by {
            if side == 8 {
                assert(0 <= cell_column(x) < 8);
                assert(0 <= cell_row(y, 1) <= 56);
            } else {
                assert(0 <= cell_column(x) <= 199);
                assert(0 <= cell_row(y, 4) <= 824);
            }
        }
    }
    decode_gfx(rom.as_slice(), count, &layout)
}

/// Sum of the two sound generators' outputs, held to the sample range.
pub open spec fn psg_mix(a: i16, b: i16) -> i16 {
    if a + b > i16::MAX {
        i16::MAX
    } else if a + b < i16::MIN {
        i16::MIN
    } else {
        (a + b) as i16
    }
}

/// Mix one sample of both sound generators.
pub fn mix_psgs(a: i16, b: i16) -> (m: i16)
    ensures
        m == psg_mix(a, b),
{
    let sum: i32 = a as i32 + b as i32;
    if sum > 32767 {
        32767
    } else if sum < -32768 {
        -32768
    } else {
        sum as i16
    }
}

impl CongoBongoBoard {
    pub open spec fn wf(&self) -> bool {
        self@.wf()
    }

    /// Top row of a sprite: find a selected line, scan back to the first one,
    /// and step one on.
    pub fn find_minimum_y(value: u8, flip: bool) -> (r: i32)
        ensures
            r == min_y(value, flip),
    {
        let ghost first = first_line(value, flip);
        let ghost probe = probe_line(first);
        proof {
            lemma_first_line(value, flip);
        }
        let mut y: i32 = 0;
        while y < 256 && !is_line_selected(value, flip, y)
            invariant
                0 <= y <= probe,
                y % 16 == 0,
                0 <= first < 256,
                first == first_line(value, flip),
                probe == probe_line(first),
                probe <= 240,
            decreases 256 - y,
        {
            proof {
                lemma_line_selected(value, flip, y as int);
                lemma_probe(first, y as int);
            }
            y = y + 16;
        }
        proof {
            lemma_line_selected(value, flip, y as int);
        }
        let ghost anchor = y - (y - first) % 256;
        while is_line_selected(value, flip, y - 1)
            invariant
                first == first_line(value, flip),
                -31 <= anchor <= 240,
                0 <= (y - first) % 256 < 32,
                y == anchor + (y - first) % 256,
            decreases (y - first) % 256,
        {
            proof {
                lemma_line_selected(value, flip, y - 1);
                lemma_step_back(first, y as int);
            }
            y = y - 1;
        }
        proof {
            lemma_line_selected(value, flip, y - 1);
            lemma_step_back(first, y as int);
        }
        (y + 1 + 256) % 256
    }

    /// Left column of a sprite.
    pub fn find_minimum_x(value: u8, flip: bool) -> (r: i32)
        ensures
            r == min_x(value, flip),
    {
        let x: i32 = value as i32 + 0xF0;
        if flip {
            (255 - x + 512 - 31) % 256
        } else {
            x % 256
        }
    }

    /// Row of the drawn-out map for screen row `abs_y`.
    pub fn bg_src_y(&self, abs_y: usize) -> (r: usize)
        requires
            self.wf(),
            abs_y + 0x1000 - 2 * self@.scroll() <= usize::MAX,
        ensures
            r == self@.src_y(abs_y as int),
    {
        let low: usize = self.bg_position[0] as usize;
        let high: usize = (self.bg_position[1] & 0x07) as usize;
        let bgpos: usize = high * 256 + low;
        assert((bgpos << 1) ^ 0xFFF == 0xFFF - 2 * bgpos) by (bit_vector)
            requires
                bgpos < 0x800,
        ;
        let sum: usize = abs_y + ((bgpos << 1) ^ 0xFFF) + 1;
        assert(sum & 0xFFF == sum % 0x1000) by (bit_vector);
        sum & 0xFFF
    }

    /// Column of the drawn-out map for screen position (`x`, `abs_y`).
    #[verifier::spinoff_prover]
    pub fn bg_src_x(abs_y: usize, x: usize) -> (r: usize)
        requires
            x + ((abs_y / 2) ^ 0xFF) + 0x40 <= usize::MAX,
        ensures
            r == src_x(abs_y as int, x as int),
    {
        let half: usize = abs_y / 2;
        proof {
            lemma_low_byte_inverted(half);
            lemma_skew(x as int, half as int);
        }
        let sum: usize = x + (half ^ 0xFF) + 1 + 0x3F;
        sum % 0x100
    }

    /// Draw the map out once, so that a screen row is a walk over pens.
    pub fn build_bg_pixmap(&mut self)
        requires
            old(self).wf(),
        ensures
            final(self).wf(),
            final(self)@ == (CongoView {
                bg_pixmap: if old(self)@.bg_cache.spec_count() == 0 {
                    old(self)@.bg_pixmap
                } else {
                    old(self)@.map_pixels()
                },
                ..old(self)@
            }),
    {
        if self.bg_cache.count() == 0 {
            return;
        }
        let mut pixmap: Vec<u8> = Vec::new();
        let mut k: usize = 0;
        while k < 256 * 4096
            invariant
                k <= 256 * 4096,
                self.wf(),
                self@.bg_cache.spec_count() == 1024,
                pixmap@ == self@.map_pixels().take(k as int),
            decreases 256 * 4096 - k,
        {
            let x: usize = k % 256;
            let y: usize = k / 256;
            let tile: usize = ((y / 8) * 32 + x / 8) % 0x2000;
            let attr: u8 = self.tilemap_dat[tile + 0x2000];
            let code: usize = self.tilemap_dat[tile] as usize + 256 * (attr as usize & 3);
            let base: usize = (attr >> 4) as usize * 8;
            let pen: u8 = self.bg_cache.pixel(code, x % 8, y % 8);
            pixmap.push((base + pen as usize) as u8);
            k += 1;
            assert(pixmap@ =~= self@.map_pixels().take(k as int));
        }
        assert(pixmap@ =~= self@.map_pixels());
        self.bg_pixmap = pixmap;
    }

    /// Draw the skewed background over one row.
    fn render_bg_scanline(&self, row: &mut Vec<Rgb>, abs_y: usize)
        requires
            self.wf(),
            old(row)@.len() == NATIVE_WIDTH,
            abs_y < NATIVE_HEIGHT,
        ensures
            final(row)@ == self@.with_background(old(row)@, abs_y as int),
            final(row)@.len() == NATIVE_WIDTH,
    {
        if !self.bg_enabled || self.bg_pixmap.len() == 0 {
            return;
        }
        let ghost start = row@;
        let ghost done = self@.with_background(start, abs_y as int);
        let colorbase: usize = ((self.latch2 >> 3) & 1) as usize * 0x80 + ((self.latch2 >> 7)
            & 1) as usize * 0x100;
        let row_base: usize = self.bg_src_y(abs_y) * 256;
        let mut x: usize = 0;
        while x < NATIVE_WIDTH
            invariant
                x <= NATIVE_WIDTH,
                self.wf(),
                self@.bg_enabled,
                self@.bg_pixmap.len() == 256 * 4096,
                abs_y < NATIVE_HEIGHT,
                colorbase == ((self@.latch2 >> 3) & 1) * 0x80 + self@.color_bank() * 0x100,
                colorbase <= 0x180,
                row_base == self@.src_y(abs_y as int) * 256,
                row_base <= 4095 * 256,
                start.len() == NATIVE_WIDTH,
                row@.len() == NATIVE_WIDTH,
                done == self@.with_background(start, abs_y as int),
                forall|k: int| 0 <= k < NATIVE_WIDTH ==> #[trigger] row@[k] == if k < x { done[k] } else { start[k] },
            decreases NATIVE_WIDTH - x,
        {
            proof {
                lemma_low_byte_inverted((abs_y / 2) as usize);
            }
            let pen: u8 = self.bg_pixmap[row_base + Self::bg_src_x(abs_y, x)];
            row[x] = self.palette_rgb[(pen as usize + colorbase) % 512];
            x += 1;
        }
        assert(row@ =~= done);
    }

    /// Draw one sprite table entry over one row. A sprite that does not cross
    /// the row draws nothing.
    fn draw_sprite_row(&self, row: &mut Vec<Rgb>, s: usize, abs_y: usize)
        requires
            self.wf(),
            self@.sprite_cache.spec_count() == 128,
            old(row)@.len() == NATIVE_WIDTH,
            s < 32,
            abs_y < NATIVE_HEIGHT,
        ensures
            final(row)@ == self@.with_sprite(old(row)@, s as int, abs_y as int),
            final(row)@.len() == NATIVE_WIDTH,
    {
        let ghost start = row@;
        let ghost done = self@.with_sprite(start, s as int, abs_y as int);
        let offs: usize = 4 * s;
        let sy: i32 = Self::find_minimum_y(self.sprite_ram[offs], false);
        let attr: u8 = self.sprite_ram[offs + 1];
        let color: u8 = self.sprite_ram[offs + 2];
        let sx: i32 = Self::find_minimum_x(self.sprite_ram[offs + 3], false);
        let code: usize = (attr & 0x7F) as usize;
        let bank: usize = ((self.latch2 >> 7) & 1) as usize;
        let base: usize = ((color & 0x1F) as usize + 32 * bank) * 8;
        let mut line: i32 = abs_y as i32 - sy;
        if line < 0 {
            line = line + 256;
        }
        if line >= 32 {
            assert(row@ =~= done);
            return;
        }
        let py: usize = if attr & 0x80 != 0 {
            (31 - line) as usize
        } else {
            line as usize
        };
        let mut x: usize = 0;
        while x < NATIVE_WIDTH
            invariant
                x <= NATIVE_WIDTH,
                self.wf(),
                self@.sprite_cache.spec_count() == 128,
                s < 32,
                abs_y < NATIVE_HEIGHT,
                attr == self@.sprite_ram[4 * s + 1],
                color == self@.sprite_ram[4 * s + 2],
                0 <= sx < 256,
                sx == min_x(self@.sprite_ram[4 * s + 3], false),
                line == (abs_y - min_y(self@.sprite_ram[4 * s as int], false)) % 256,
                0 <= line < 32,
                code == attr & 0x7F,
                code < 128,
                bank == self@.color_bank(),
                base == ((color & 0x1F) + 32 * bank) * 8,
                base <= 512,
                py == if attr & 0x80 != 0 { 31 - line } else { line as int },
                start.len() == NATIVE_WIDTH,
                row@.len() == NATIVE_WIDTH,
                done == self@.with_sprite(start, s as int, abs_y as int),
                forall|k: int| 0 <= k < NATIVE_WIDTH ==> #[trigger] row@[k] == if k < x { done[k] } else { start[k] },
            decreases NATIVE_WIDTH - x,
        {
            let col: usize = (x + 256 - sx as usize) % 256;
            assert(col == (x - sx) % 256);
            if col < 32 {
                let px: usize = if color & 0x80 != 0 {
                    31 - col
                } else {
                    col
                };
                let pen: u8 = self.sprite_cache.pixel(code, px, py);
                if pen != 0 {
                    row[x] = self.palette_rgb[(base + pen as usize) % 512];
                }
            }
            x += 1;
        }
        assert(row@ =~= done);
    }

    /// Draw the sprites that cross one row, last table entry first.
    fn render_sprites_scanline(&self, row: &mut Vec<Rgb>, abs_y: usize)
        requires
            self.wf(),
            old(row)@.len() == NATIVE_WIDTH,
            abs_y < NATIVE_HEIGHT,
        ensures
            final(row)@ == if self@.sprite_cache.spec_count() == 0 {
                old(row)@
            } else {
                self@.with_sprites(old(row)@, 32, abs_y as int)
            },
            final(row)@.len() == NATIVE_WIDTH,
    {
        if self.sprite_cache.count() == 0 {
            return;
        }
        let ghost start = row@;
        let mut n: usize = 0;
        while n < 32
            invariant
                n <= 32,
                self.wf(),
                self@.sprite_cache.spec_count() == 128,
                abs_y < NATIVE_HEIGHT,
                row@.len() == NATIVE_WIDTH,
                row@ == self@.with_sprites(start, n as nat, abs_y as int),
            decreases 32 - n,
        {
            self.draw_sprite_row(row, 31 - n, abs_y);
            n += 1;
        }
    }

    /// Draw the foreground tiles over one row.
    fn render_fg_scanline(&self, row: &mut Vec<Rgb>, abs_y: usize)
        requires
            self.wf(),
            old(row)@.len() == NATIVE_WIDTH,
            abs_y < NATIVE_HEIGHT,
        ensures
            final(row)@ == self@.with_text(old(row)@, abs_y as int),
            final(row)@.len() == NATIVE_WIDTH,
    {
        let tile_count: usize = self.tx_cache.count();
        if tile_count == 0 {
            return;
        }
        let ghost start = row@;
        let ghost done = self@.with_text(start, abs_y as int);
        let fg_bank: usize = ((self.latch2 >> 6) & 1) as usize;
        let pal_offset: usize = ((self.latch2 >> 1) & 1) as usize * 0x80 + ((self.latch2 >> 7)
            & 1) as usize * 0x100;
        let mut x: usize = 0;
        while x < NATIVE_WIDTH
            invariant
                x <= NATIVE_WIDTH,
                self.wf(),
                tile_count == self@.tx_cache.spec_count(),
                tile_count > 0,
                abs_y < NATIVE_HEIGHT,
                fg_bank == (self@.latch2 >> 6) & 1,
                fg_bank <= 1,
                pal_offset == ((self@.latch2 >> 1) & 1) * 0x80 + self@.color_bank() * 0x100,
                pal_offset <= 0x180,
                start.len() == NATIVE_WIDTH,
                row@.len() == NATIVE_WIDTH,
                done == self@.with_text(start, abs_y as int),
                forall|k: int| 0 <= k < NATIVE_WIDTH ==> #[trigger] row@[k] == if k < x { done[k] } else { start[k] },
            decreases NATIVE_WIDTH - x,
        {
            let cell: usize = (abs_y / 8) * 32 + x / 8;
            let code: usize = (self.video_ram[cell] as usize + fg_bank * 256) % tile_count;
            let base: usize = (self.color_ram[cell] & 0x1F) as usize * 8 + pal_offset;
            let pen: u8 = self.tx_cache.pixel(code, x % 8, abs_y % 8);
            if pen != 0 {
                row[x] = self.palette_rgb[(base + pen as usize) % 512];
            }
            x += 1;
        }
        assert(row@ =~= done);
    }

    /// Draw one screen row: cleared, then background, sprites and foreground.
    pub fn render_scanline(&mut self, abs_y: usize)
        requires
            old(self).wf(),
            abs_y < NATIVE_HEIGHT,
        ensures
            final(self).wf(),
            final(self)@ == old(self)@.after_row(abs_y as int),
    {
        let mut row: Vec<Rgb> = Vec::new();
        let mut x: usize = 0;
        while x < NATIVE_WIDTH
            invariant
                x <= NATIVE_WIDTH,
                row@.len() == x,
                forall|k: int| 0 <= k < x ==> #[trigger] row@[k] == (0u8, 0u8, 0u8),
            decreases NATIVE_WIDTH - x,
        {
            row.push((0, 0, 0));
            x += 1;
        }
        assert(row@ =~= Seq::new(NATIVE_WIDTH as nat, |x: int| (0u8, 0u8, 0u8)));
        self.render_bg_scanline(&mut row, abs_y);
        self.render_sprites_scanline(&mut row, abs_y);
        self.render_fg_scanline(&mut row, abs_y);
        put_row(&mut self.scanline_buffer, abs_y * NATIVE_WIDTH * 3, &row);
    }

    /// The visible rows turned a quarter turn counterclockwise.
    pub fn render_frame(&self) -> (buffer: Vec<u8>)
        requires
            self.wf(),
        ensures
            buffer@ == rotated_90_ccw(
                self@.scanline_buffer.skip(3 * VBLANK_END * NATIVE_WIDTH),
                256,
                224,
            ),
            buffer@.len() == 3 * 224 * 256,
            buffer@ == self@.picture(),
    {
        let visible: Vec<u8> = copied_range(
            self.scanline_buffer.as_slice(),
            3 * VBLANK_END * NATIVE_WIDTH,
            3 * NATIVE_HEIGHT * NATIVE_WIDTH,
        );
        assert(visible@ =~= self@.scanline_buffer.skip(3 * VBLANK_END * NATIVE_WIDTH));
        rotate_90_ccw(visible.as_slice(), 256, 224)
    }

    /// A board as it powers on.
    pub fn new() -> (board: CongoBongoBoard)
        ensures
            board.wf(),
            board@.powered_on(),
    {
        let mut palette_rgb: Vec<Rgb> = Vec::new();
        let mut i: usize = 0;
        while i < 512
            invariant
                i <= 512,
                palette_rgb@.len() == i,
                forall|k: int| 0 <= k < i ==> #[trigger] palette_rgb@[k] == (0u8, 0u8, 0u8),
            decreases 512 - i,
        {
            palette_rgb.push((0, 0, 0));
            i += 1;
        }
        assert(palette_rgb@ =~= Seq::new(512, |i: int| (0u8, 0u8, 0u8)));
        CongoBongoBoard {
            main_rom: zeroed(0x8000),
            ram: zeroed(0x1000),
            video_ram: zeroed(0x400),
            color_ram: zeroed(0x400),
            sound_rom: zeroed(0x2000),
            sound_ram: zeroed(0x800),
            tx_rom: zeroed(0x1000),
            bg_rom: zeroed(0x6000),
            spr_rom: zeroed(0xC000),
            tilemap_dat: zeroed(0x4000),
            tx_cache: GfxCache::new(0, 8, 8),
            bg_cache: GfxCache::new(0, 8, 8),
            sprite_cache: GfxCache::new(0, 32, 32),
            bg_pixmap: Vec::new(),
            palette_prom: zeroed(0x200),
            palette_rgb,
            scanline_buffer: zeroed(3 * NATIVE_WIDTH * NATIVE_HEIGHT),
            in0: 0,
            in1: 0,
            in2: 0,
            dsw2: DSW2_DEFAULT,
            dsw3: DSW3_DEFAULT,
            coin_a: false,
            coin_b: false,
            coin_service: false,
            latch1: 0,
            latch2: 0,
            int_enabled: false,
            bg_enabled: false,
            bg_position: zeroed(2),
            sprite_dma: zeroed(4),
            sprite_ram: zeroed(0x100),
            sound_latch: 0,
            sound_cycle_accum: 0,
            sound_irq_counter: 0,
            sound_irq_pending: false,
            clock: 0,
            vblank_irq_pending: false,
        }
    }

    /// Decode the three graphics ROMs.
    pub fn decode_gfx_roms(&mut self)
        requires
            old(self).wf(),
        ensures
            final(self).wf(),
            final(self)@ == (CongoView {
                tx_cache: final(self)@.tx_cache,
                bg_cache: final(self)@.bg_cache,
                sprite_cache: final(self)@.sprite_cache,
                ..old(self)@
            }),
            decodes_cells(final(self)@.tx_cache, old(self)@.tx_rom, 256, 2, 0x800, 8),
            decodes_cells(final(self)@.bg_cache, old(self)@.bg_rom, 1024, 3, 0x2000, 8),
            decodes_cells(final(self)@.sprite_cache, old(self)@.spr_rom, 128, 3, 0x4000, 32),
    {
        self.tx_cache = decode_cells(&self.tx_rom, 256, 2, 0x800, 8);
        self.bg_cache = decode_cells(&self.bg_rom, 1024, 3, 0x2000, 8);
        self.sprite_cache = decode_cells(&self.spr_rom, 128, 3, 0x4000, 32);
    }

    /// Work the palette out of its PROM.
    pub fn build_palette(&mut self, dac: &CongoDac)
        requires
            old(self).wf(),
            dac.wf(),
        ensures
            final(self).wf(),
            final(self)@ == (CongoView {
                palette_rgb: Seq::new(512, |i: int| dac.color(old(self)@.palette_prom[i])),
                ..old(self)@
            }),
    {
        self.palette_rgb = congo_palette_rgb(self.palette_prom.as_slice(), dac);
    }

    /// One byte of the main address space, as the sprite DMA sees it.
    fn read_main(&self, addr: u16) -> (data: u8)
        requires
            self.wf(),
        ensures
            data == self@.memory_byte(addr),
    {
        if addr < 0x8000 {
            self.main_rom[addr as usize]
        } else if addr < 0x9000 {
            self.ram[(addr - 0x8000) as usize]
        } else if 0xA000 <= addr && addr < 0xC000 {
            let off: u16 = addr & 0x07FF;
            if off < 0x400 {
                self.video_ram[off as usize]
            } else {
                self.color_ram[(off - 0x400) as usize]
            }
        } else {
            0xFF
        }
    }

    /// Copy one DMA descriptor into sprite RAM.
    fn move_descriptor(&mut self, from: u16)
        requires
            old(self).wf(),
        ensures
            final(self).wf(),
            final(self)@ == (CongoView {
                sprite_ram: old(self)@.with_descriptor(old(self)@.sprite_ram, from as int),
                ..old(self)@
            }),
    {
        let ghost start = self@;
        let slot: usize = self.read_main(from) as usize % 64;
        let mut i: u16 = 0;
        while i < 4
            invariant
                i <= 4,
                start.wf(),
                self@ == (CongoView { sprite_ram: self@.sprite_ram, ..start }),
                self@.sprite_ram.len() == 0x100,
                slot == start.memory_byte(from) % 64,
                forall|k: int|
                    0 <= k < 0x100 ==> #[trigger] self@.sprite_ram[k] == if k / 4 == slot && k % 4 < i {
                        start.memory_byte(((from + 1 + k % 4) % 0x10000) as u16)
                    } else {
                        start.sprite_ram[k]
                    },
            decreases 4 - i,
        {
            let value: u8 = self.read_main(from.wrapping_add(i + 1));
            assert(from.wrapping_add((i + 1) as u16) == (from + 1 + i) % 0x10000);
            self.sprite_ram[4 * slot + i as usize] = value;
            i += 1;
        }
        assert(self@.sprite_ram =~= start.with_descriptor(start.sprite_ram, from as int));
    }

    /// Write a sprite-DMA register. Writing 1 to register 3 starts the
    /// transfer.
    pub fn write_sprite_dma(&mut self, offset: usize, data: u8)
        requires
            old(self).wf(),
            offset < 4,
        ensures
            final(self).wf(),
            final(self)@ == old(self)@.after_dma_write(offset as int, data),
    {
        self.sprite_dma[offset] = data;
        if offset != 3 || data != 0x01 {
            return;
        }
        let ghost start = self@;
        let first: u16 = self.sprite_dma[0] as u16 + 256 * self.sprite_dma[1] as u16;
        let count: usize = self.sprite_dma[2] as usize + 1;
        let mut from: u16 = first;
        let mut n: usize = 0;
        while n < count
            invariant
                n <= count <= 256,
                start.wf(),
                from as int == (first + 0x20 * n) % 0x10000,
                self.wf(),
                self@ == (CongoView {
                    sprite_ram: start.after_descriptors(start.sprite_ram, first as int, n as nat),
                    ..start
                }),
            decreases count - n,
        {
            let ghost ram = self@.sprite_ram;
            self.move_descriptor(from);
            proof {
                let at = first + 0x20 * n;
                assert(self@.sprite_ram =~= start.with_descriptor(ram, at)) by {
                    assert forall|k: int| 0 <= k < 0x100 implies #[trigger] self@.sprite_ram[k]
                        == start.with_descriptor(ram, at)[k] by {
                        assert((from + 1 + k % 4) % 0x10000 == (at + 1 + k % 4) % 0x10000);
                    }
                }
            }
            from = from.wrapping_add(0x20);
            n += 1;
        }
    }

    pub fn tx_cache(&self) -> (c: &GfxCache)
        ensures
            *c == self@.tx_cache,
    {
        &self.tx_cache
    }

    pub fn bg_cache(&self) -> (c: &GfxCache)
        ensures
            *c == self@.bg_cache,
    {
        &self.bg_cache
    }

    pub fn sprite_cache(&self) -> (c: &GfxCache)
        ensures
            *c == self@.sprite_cache,
    {
        &self.sprite_cache
    }

    /// One palette colour; the index wraps at 512.
    pub fn palette_color(&self, index: usize) -> (c: Rgb)
        requires
            self.wf(),
        ensures
            c == self@.palette_rgb[(index % 512) as int],
    {
        self.palette_rgb[index % 512]
    }

    /// Drive one line of latch 1.
    pub fn write_latch1(&mut self, n: u8, value: bool)
        requires
            n < 8,
        ensures
            final(self)@ == old(self)@.with_latch1(n, value),
    {
        let latch: u8 = drive_bit(self.latch1, n, value);
        self.latch1 = latch;
        self.coin_a = self.coin_a && bit_is_set(latch, 0);
        self.coin_b = self.coin_b && bit_is_set(latch, 1);
        self.coin_service = self.coin_service && bit_is_set(latch, 2);
        self.bg_enabled = if n == 5 {
            value
        } else {
            self.bg_enabled
        };
        self.int_enabled = if n == 7 {
            value
        } else {
            self.int_enabled
        };
        self.vblank_irq_pending = self.vblank_irq_pending && !(n == 7 && !value);
    }

    /// A coin drops: it latches only while its line of latch 1 is high.
    pub fn coin_inserted(&mut self, n: usize)
        requires
            n < 3,
        ensures
            final(self)@ == old(self)@.with_coin(n as int),
    {
        if bit_is_set(self.latch1, n as u8) {
            if n == 0 {
                self.coin_a = true;
            } else if n == 1 {
                self.coin_b = true;
            } else {
                self.coin_service = true;
            }
        }
    }

    /// Start buttons and latched coins.
    pub fn read_sw100(&self) -> (v: u8)
        ensures
            v == self@.sw100(),
    {
        let a: u8 = if self.coin_a {
            1
        } else {
            0
        };
        let b: u8 = if self.coin_b {
            1
        } else {
            0
        };
        let c: u8 = if self.coin_service {
            1
        } else {
            0
        };
        self.in2 | (a << 5) | (b << 6) | (c << 7)
    }

    /// Drive one line of latch 2.
    pub fn write_latch2(&mut self, n: u8, value: bool)
        requires
            n < 8,
        ensures
            final(self)@ == (CongoView { latch2: with_bit(old(self)@.latch2, n, value), ..old(self)@ }),
    {
        self.latch2 = drive_bit(self.latch2, n, value);
    }

    /// Board work that leads one main-CPU cycle.
    pub fn begin_tick(&mut self)
        requires
            old(self).wf(),
        ensures
            final(self).wf(),
            final(self)@ == old(self)@.after_lead(),
    {
        let frame_cycle: u64 = self.clock % FRAME_CYCLES;
        if frame_cycle % 192 == 0 {
            let scanline: u64 = frame_cycle / 192;
            if scanline < VISIBLE_LINES {
                self.render_scanline(scanline as usize);
            }
        }
        if frame_cycle == VISIBLE_LINES * 192 && self.int_enabled {
            self.vblank_irq_pending = true;
        }
    }

    /// Credit the sound CPU with one main cycle's worth of time.
    pub fn begin_sound(&mut self)
        requires
            old(self)@.sound_cycle_accum + SOUND_CLOCK <= u64::MAX,
        ensures
            final(self)@ == (CongoView {
                sound_cycle_accum: (old(self)@.sound_cycle_accum + SOUND_CLOCK) as u64,
                ..old(self)@
            }),
    {
        self.sound_cycle_accum = self.sound_cycle_accum + SOUND_CLOCK;
    }

    /// Take one sound-CPU step off the credit, if there is enough for one.
    pub fn next_sound_step(&mut self) -> (due: bool)
        requires
            old(self)@.sound_irq_counter < u64::MAX,
        ensures
            due == (old(self)@.sound_cycle_accum >= CPU_CLOCK_HZ),
            final(self)@ == if due { old(self)@.after_sound_step() } else { old(self)@ },
            due || old(self)@.sound_irq_counter < SOUND_IRQ_PERIOD ==> final(self)@.sound_irq_counter
                < SOUND_IRQ_PERIOD,
    {
        if self.sound_cycle_accum < CPU_CLOCK_HZ {
            return false;
        }
        self.sound_cycle_accum = self.sound_cycle_accum - CPU_CLOCK_HZ;
        self.sound_irq_counter = self.sound_irq_counter + 1;
        if self.sound_irq_counter >= SOUND_IRQ_PERIOD {
            self.sound_irq_counter = 0;
            self.sound_irq_pending = true;
        }
        true
    }

    /// After a sound-CPU step: the interrupt line drops when the CPU is seen to
    /// close its interrupt gate.
    pub fn end_sound_step(&mut self, iff1_before: bool, iff1_after: bool)
        ensures
            final(self)@ == (CongoView {
                sound_irq_pending: old(self)@.sound_irq_pending && !(iff1_before && !iff1_after),
                ..old(self)@
            }),
            final(self)@ == old(self)@.after_sound_step_end(iff1_before, iff1_after),
    {
        if self.sound_irq_pending && iff1_before && !iff1_after {
            self.sound_irq_pending = false;
        }
    }

    /// Board work after a main-CPU cycle: the clock.
    pub fn end_tick(&mut self)
        requires
            old(self)@.clock < u64::MAX,
        ensures
            final(self)@ == (CongoView { clock: (old(self)@.clock + 1) as u64, ..old(self)@ }),
    {
        self.clock = self.clock + 1;
    }

    /// Reset the board. ROMs, decoded graphics, palette, inputs and switches
    /// stay; RAM and the picture are cleared.
    pub fn reset(&mut self)
        requires
            old(self).wf(),
        ensures
            final(self).wf(),
            final(self)@.controls_cleared(),
            final(self)@ == (CongoView {
                ram: zeros(0x1000),
                video_ram: zeros(0x400),
                color_ram: zeros(0x400),
                sound_ram: zeros(0x800),
                scanline_buffer: zeros(3 * 256 * 240),
                coin_a: false,
                coin_b: false,
                coin_service: false,
                latch1: 0,
                latch2: 0,
                int_enabled: false,
                bg_enabled: false,
                bg_position: zeros(2),
                sprite_dma: zeros(4),
                sprite_ram: zeros(0x100),
                sound_latch: 0,
                sound_cycle_accum: 0,
                sound_irq_counter: 0,
                sound_irq_pending: false,
                clock: 0,
                vblank_irq_pending: false,
                ..old(self)@
            }),
    {
        self.int_enabled = false;
        self.bg_enabled = false;
        self.vblank_irq_pending = false;
        self.latch1 = 0;
        self.latch2 = 0;
        self.bg_position = zeroed(2);
        self.sprite_dma = zeroed(4);
        self.sprite_ram = zeroed(0x100);
        self.coin_a = false;
        self.coin_b = false;
        self.coin_service = false;
        self.sound_latch = 0;
        self.clock = 0;
        self.sound_cycle_accum = 0;
        self.sound_irq_counter = 0;
        self.sound_irq_pending = false;
        self.ram = zeroed(0x1000);
        self.video_ram = zeroed(0x400);
        self.color_ram = zeroed(0x400);
        self.sound_ram = zeroed(0x800);
        self.scanline_buffer = zeroed(3 * NATIVE_WIDTH * NATIVE_HEIGHT);
    }

    /// Interrupt lines of one CPU.
    pub fn check_interrupts(&self, target: BusMaster) -> (s: InterruptState)
        ensures
            s == InterruptState::lines(
                false,
                if target == BusMaster::Cpu(0) {
                    self@.vblank_irq_pending && self@.int_enabled
                } else if target == BusMaster::Cpu(1) {
                    self@.sound_irq_pending
                } else {
                    false
                },
            ),
            s == self@.interrupts(target),
    {
        if target == BusMaster::Cpu(0) {
            InterruptState::of_lines(false, self.vblank_irq_pending && self.int_enabled)
        } else if target == BusMaster::Cpu(1) {
            InterruptState::of_lines(false, self.sound_irq_pending)
        } else {
            InterruptState::of_lines(false, false)
        }
    }

    /// Which CPUs are at an instruction boundary: bit 0 main, bit 1 sound.
    pub fn debug_tick_boundaries(main: bool, sound: bool) -> (mask: u32)
        ensures
            mask == (if main { 1int } else { 0 }) + (if sound { 2int } else { 0 }),
    {
        let low: u32 = if main {
            1
        } else {
            0
        };
        let high: u32 = if sound {
            2
        } else {
            0
        };
        low + high
    }
}

impl Default for CongoBongoBoard {
    fn default() -> (board: CongoBongoBoard)
        ensures
            board.wf(),
            board@.powered_on(),
    {
        CongoBongoBoard::new()
    }
}

/// Bytes of this part of a saved state.
pub const MEMORY_LEN: usize = 8467;

impl CongoView {
    /// The first part of a saved state: memories, ports and latches.
    pub open spec fn memory_bytes(&self) -> Seq<u8> {
        Seq::<u8>::empty() + self.ram + self.video_ram + self.color_ram + self.sound_ram + seq![self.in0] + seq![self.in1] + seq![self.in2] + seq![self.dsw2] + seq![self.dsw3] + seq![flag(self.coin_a)] + seq![flag(self.coin_b)] + seq![flag(self.coin_service)] + seq![self.latch1] + seq![self.latch2] + seq![flag(self.int_enabled)] + seq![flag(self.bg_enabled)] + self.bg_position + self.sprite_dma + self.sprite_ram + seq![self.sound_latch]
    }

    /// The board with that part replaced by saved bytes.
    pub open spec fn with_memory(self, b: Seq<u8>) -> CongoView {
        CongoView {
            ram: b.subrange(0, 4096),
            video_ram: b.subrange(4096, 5120),
            color_ram: b.subrange(5120, 6144),
            sound_ram: b.subrange(6144, 8192),
            in0: b[8192],
            in1: b[8193],
            in2: b[8194],
            dsw2: b[8195],
            dsw3: b[8196],
            coin_a: b[8197] != 0,
            coin_b: b[8198] != 0,
            coin_service: b[8199] != 0,
            latch1: b[8200],
            latch2: b[8201],
            int_enabled: b[8202] != 0,
            bg_enabled: b[8203] != 0,
            bg_position: b.subrange(8204, 8206),
            sprite_dma: b.subrange(8206, 8210),
            sprite_ram: b.subrange(8210, 8466),
            sound_latch: b[8466],
            ..self
        }
    }
}

impl CongoBongoBoard {
    /// The first part of a saved state: memories, ports and latches.
    pub fn save_memory(&self, w: &mut StateWriter)
        ensures
            final(w)@ == old(w)@ + self@.memory_bytes(),
    {
        let ghost start = w@;
        let ghost g0 = Seq::<u8>::empty();
        proof {
            lemma_nothing_appended(start);
        }
        w.write_bytes(self.ram.as_slice());
        proof {
            lemma_append(start, g0, self@.ram);
        }
        let ghost g1 = g0 + self@.ram;
        w.write_bytes(self.video_ram.as_slice());
        proof {
            lemma_append(start, g1, self@.video_ram);
        }
        let ghost g2 = g1 + self@.video_ram;
        w.write_bytes(self.color_ram.as_slice());
        proof {
            lemma_append(start, g2, self@.color_ram);
        }
        let ghost g3 = g2 + self@.color_ram;
        w.write_bytes(self.sound_ram.as_slice());
        proof {
            lemma_append(start, g3, self@.sound_ram);
        }
        let ghost g4 = g3 + self@.sound_ram;
        w.write_u8(self.in0);
        proof {
            lemma_append(start, g4, seq![self@.in0]);
        }
        let ghost g5 = g4 + seq![self@.in0];
        w.write_u8(self.in1);
        proof {
            lemma_append(start, g5, seq![self@.in1]);
        }
        let ghost g6 = g5 + seq![self@.in1];
        w.write_u8(self.in2);
        proof {
            lemma_append(start, g6, seq![self@.in2]);
        }
        let ghost g7 = g6 + seq![self@.in2];
        w.write_u8(self.dsw2);
        proof {
            lemma_append(start, g7, seq![self@.dsw2]);
        }
        let ghost g8 = g7 + seq![self@.dsw2];
        w.write_u8(self.dsw3);
        proof {
            lemma_append(start, g8, seq![self@.dsw3]);
        }
        let ghost g9 = g8 + seq![self@.dsw3];
        w.write_bool(self.coin_a);
        proof {
            lemma_append(start, g9, seq![flag(self@.coin_a)]);
        }
        let ghost g10 = g9 + seq![flag(self@.coin_a)];
        w.write_bool(self.coin_b);
        proof {
            lemma_append(start, g10, seq![flag(self@.coin_b)]);
        }
        let ghost g11 = g10 + seq![flag(self@.coin_b)];
        w.write_bool(self.coin_service);
        proof {
            lemma_append(start, g11, seq![flag(self@.coin_service)]);
        }
        let ghost g12 = g11 + seq![flag(self@.coin_service)];
        w.write_u8(self.latch1);
        proof {
            lemma_append(start, g12, seq![self@.latch1]);
        }
        let ghost g13 = g12 + seq![self@.latch1];
        w.write_u8(self.latch2);
        proof {
            lemma_append(start, g13, seq![self@.latch2]);
        }
        let ghost g14 = g13 + seq![self@.latch2];
        w.write_bool(self.int_enabled);
        proof {
            lemma_append(start, g14, seq![flag(self@.int_enabled)]);
        }
        let ghost g15 = g14 + seq![flag(self@.int_enabled)];
        w.write_bool(self.bg_enabled);
        proof {
            lemma_append(start, g15, seq![flag(self@.bg_enabled)]);
        }
        let ghost g16 = g15 + seq![flag(self@.bg_enabled)];
        w.write_bytes(self.bg_position.as_slice());
        proof {
            lemma_append(start, g16, self@.bg_position);
        }
        let ghost g17 = g16 + self@.bg_position;
        w.write_bytes(self.sprite_dma.as_slice());
        proof {
            lemma_append(start, g17, self@.sprite_dma);
        }
        let ghost g18 = g17 + self@.sprite_dma;
        w.write_bytes(self.sprite_ram.as_slice());
        proof {
            lemma_append(start, g18, self@.sprite_ram);
        }
        let ghost g19 = g18 + self@.sprite_ram;
        w.write_u8(self.sound_latch);
        proof {
            lemma_append(start, g19, seq![self@.sound_latch]);
        }
        let ghost g20 = g19 + seq![self@.sound_latch];
    }

    /// The board with that part replaced by saved bytes.
    /// Fails, changing nothing of the board, where the bytes end too early.
    pub fn load_memory(&mut self, r: &mut StateReader) -> (res: Result<(), SaveError>)
        ensures
            old(r)@.len() >= MEMORY_LEN ==> res is Ok && final(self)@ == old(self)@.with_memory(old(r)@.take(MEMORY_LEN as int)) && final(r)@ == old(r)@.skip(MEMORY_LEN as int),
            old(r)@.len() < MEMORY_LEN ==> res == Err::<(), SaveError>(SaveError::UnexpectedEnd) && final(self)@ == old(self)@ && final(r)@ == old(r)@,
    {
        let b: Vec<u8> = match r.take_bytes(MEMORY_LEN) {
            Ok(v) => v,
            Err(e) => {
                return Err(e);
            },
        };
        assert(b.len() == MEMORY_LEN);
        self.ram = copied_range(b.as_slice(), 0, 4096);
        self.video_ram = copied_range(b.as_slice(), 4096, 5120);
        self.color_ram = copied_range(b.as_slice(), 5120, 6144);
        self.sound_ram = copied_range(b.as_slice(), 6144, 8192);
        self.in0 = b[8192];
        self.in1 = b[8193];
        self.in2 = b[8194];
        self.dsw2 = b[8195];
        self.dsw3 = b[8196];
        self.coin_a = b[8197] != 0;
        self.coin_b = b[8198] != 0;
        self.coin_service = b[8199] != 0;
        self.latch1 = b[8200];
        self.latch2 = b[8201];
        self.int_enabled = b[8202] != 0;
        self.bg_enabled = b[8203] != 0;
        self.bg_position = copied_range(b.as_slice(), 8204, 8206);
        self.sprite_dma = copied_range(b.as_slice(), 8206, 8210);
        self.sprite_ram = copied_range(b.as_slice(), 8210, 8466);
        self.sound_latch = b[8466];
        Ok(())
    }
}

/// Where the memories lie in the saved bytes.
#[verifier::spinoff_prover]
proof fn lemma_saved_memories(a: CongoView)
    requires
        a.ram.len() == 4096,
        a.video_ram.len() == 1024,
        a.color_ram.len() == 1024,
        a.sound_ram.len() == 2048,
        a.bg_position.len() == 2,
        a.sprite_dma.len() == 4,
        a.sprite_ram.len() == 256,
    ensures
        a.memory_bytes().len() == MEMORY_LEN,
        a.memory_bytes().subrange(0, 4096) == a.ram,
        a.memory_bytes().subrange(4096, 5120) == a.video_ram,
        a.memory_bytes().subrange(5120, 6144) == a.color_ram,
        a.memory_bytes().subrange(6144, 8192) == a.sound_ram,
{
    let s = a.memory_bytes();
    assert(s.subrange(0, 4096) =~= a.ram);
    assert(s.subrange(4096, 5120) =~= a.video_ram);
    assert(s.subrange(5120, 6144) =~= a.color_ram);
    assert(s.subrange(6144, 8192) =~= a.sound_ram);
}

/// Where the input ports and switches lie.
#[verifier::spinoff_prover]
proof fn lemma_saved_ports(a: CongoView)
    requires
        a.ram.len() == 4096,
        a.video_ram.len() == 1024,
        a.color_ram.len() == 1024,
        a.sound_ram.len() == 2048,
        a.bg_position.len() == 2,
        a.sprite_dma.len() == 4,
        a.sprite_ram.len() == 256,
    ensures
        a.memory_bytes()[8192] == a.in0,
        a.memory_bytes()[8193] == a.in1,
        a.memory_bytes()[8194] == a.in2,
        a.memory_bytes()[8195] == a.dsw2,
        a.memory_bytes()[8196] == a.dsw3,
{
    let s = a.memory_bytes();
    assert(s[8192] == a.in0);
    assert(s[8193] == a.in1);
    assert(s[8194] == a.in2);
    assert(s[8195] == a.dsw2);
    assert(s[8196] == a.dsw3);
}

/// Where the coin lines and latches lie.
#[verifier::spinoff_prover]
proof fn lemma_saved_latches(a: CongoView)
    requires
        a.ram.len() == 4096,
        a.video_ram.len() == 1024,
        a.color_ram.len() == 1024,
        a.sound_ram.len() == 2048,
        a.bg_position.len() == 2,
        a.sprite_dma.len() == 4,
        a.sprite_ram.len() == 256,
    ensures
        a.memory_bytes()[8197] == flag(a.coin_a),
        a.memory_bytes()[8198] == flag(a.coin_b),
        a.memory_bytes()[8199] == flag(a.coin_service),
        a.memory_bytes()[8200] == a.latch1,
        a.memory_bytes()[8201] == a.latch2,
        a.memory_bytes()[8202] == flag(a.int_enabled),
        a.memory_bytes()[8203] == flag(a.bg_enabled),
{
    let s = a.memory_bytes();
    assert(s[8197] == flag(a.coin_a));
    assert(s[8198] == flag(a.coin_b));
    assert(s[8199] == flag(a.coin_service));
    assert(s[8200] == a.latch1);
    assert(s[8201] == a.latch2);
    assert(s[8202] == flag(a.int_enabled));
    assert(s[8203] == flag(a.bg_enabled));
}

/// Where the video registers and the command lie.
#[verifier::spinoff_prover]
proof fn lemma_saved_video(a: CongoView)
    requires
        a.ram.len() == 4096,
        a.video_ram.len() == 1024,
        a.color_ram.len() == 1024,
        a.sound_ram.len() == 2048,
        a.bg_position.len() == 2,
        a.sprite_dma.len() == 4,
        a.sprite_ram.len() == 256,
    ensures
        a.memory_bytes().subrange(8204, 8206) == a.bg_position,
        a.memory_bytes().subrange(8206, 8210) == a.sprite_dma,
        a.memory_bytes().subrange(8210, 8466) == a.sprite_ram,
        a.memory_bytes()[8466] == a.sound_latch,
{
    let s = a.memory_bytes();
    assert(s.subrange(8204, 8206) =~= a.bg_position);
    assert(s.subrange(8206, 8210) =~= a.sprite_dma);
    assert(s.subrange(8210, 8466) =~= a.sprite_ram);
    assert(s[8466] == a.sound_latch);
}

/// Loading the saved memories, ports and latches gives them back, and leaves
/// everything else alone.
pub proof fn law_memory_round_trip(a: CongoView, b: CongoView)
    requires
        a.ram.len() == 4096,
        a.video_ram.len() == 1024,
        a.color_ram.len() == 1024,
        a.sound_ram.len() == 2048,
        a.bg_position.len() == 2,
        a.sprite_dma.len() == 4,
        a.sprite_ram.len() == 256,
    ensures
        a.memory_bytes().len() == MEMORY_LEN,
        b.with_memory(a.memory_bytes()) == (CongoView {
            ram: a.ram,
            video_ram: a.video_ram,
            color_ram: a.color_ram,
            sound_ram: a.sound_ram,
            in0: a.in0,
            in1: a.in1,
            in2: a.in2,
            dsw2: a.dsw2,
            dsw3: a.dsw3,
            coin_a: a.coin_a,
            coin_b: a.coin_b,
            coin_service: a.coin_service,
            latch1: a.latch1,
            latch2: a.latch2,
            int_enabled: a.int_enabled,
            bg_enabled: a.bg_enabled,
            bg_position: a.bg_position,
            sprite_dma: a.sprite_dma,
            sprite_ram: a.sprite_ram,
            sound_latch: a.sound_latch,
            ..b
        }),
{
    lemma_saved_memories(a);
    lemma_saved_ports(a);
    lemma_saved_latches(a);
    lemma_saved_video(a);
}

/// Bytes of this part of a saved state.
pub const SOUND_TIMING_LEN: usize = 17;

impl CongoView {
    /// The part of a saved state after the sound chips: the sound CPU's timing.
    pub open spec fn sound_timing_bytes(&self) -> Seq<u8> {
        Seq::<u8>::empty() + le64(self.sound_cycle_accum) + le64(self.sound_irq_counter) + seq![flag(self.sound_irq_pending)]
    }

    /// The board with that part replaced by saved bytes.
    pub open spec fn with_sound_timing(self, b: Seq<u8>) -> CongoView {
        CongoView {
            sound_cycle_accum: of_le64(b.subrange(0, 8)),
            sound_irq_counter: of_le64(b.subrange(8, 16)),
            sound_irq_pending: b[16] != 0,
            ..self
        }
    }
}

impl CongoBongoBoard {
    /// The part of a saved state after the sound chips: the sound CPU's timing.
    pub fn save_sound_timing(&self, w: &mut StateWriter)
        ensures
            final(w)@ == old(w)@ + self@.sound_timing_bytes(),
    {
        let ghost start = w@;
        let ghost g0 = Seq::<u8>::empty();
        proof {
            lemma_nothing_appended(start);
        }
        w.write_u64_le(self.sound_cycle_accum);
        proof {
            lemma_append(start, g0, le64(self@.sound_cycle_accum));
        }
        let ghost g1 = g0 + le64(self@.sound_cycle_accum);
        w.write_u64_le(self.sound_irq_counter);
        proof {
            lemma_append(start, g1, le64(self@.sound_irq_counter));
        }
        let ghost g2 = g1 + le64(self@.sound_irq_counter);
        w.write_bool(self.sound_irq_pending);
        proof {
            lemma_append(start, g2, seq![flag(self@.sound_irq_pending)]);
        }
        let ghost g3 = g2 + seq![flag(self@.sound_irq_pending)];
    }

    /// The board with that part replaced by saved bytes.
    /// Fails, changing nothing of the board, where the bytes end too early.
    pub fn load_sound_timing(&mut self, r: &mut StateReader) -> (res: Result<(), SaveError>)
        ensures
            old(r)@.len() >= SOUND_TIMING_LEN ==> res is Ok && final(self)@ == old(self)@.with_sound_timing(old(r)@.take(SOUND_TIMING_LEN as int)) && final(r)@ == old(r)@.skip(SOUND_TIMING_LEN as int),
            old(r)@.len() < SOUND_TIMING_LEN ==> res == Err::<(), SaveError>(SaveError::UnexpectedEnd) && final(self)@ == old(self)@ && final(r)@ == old(r)@,
    {
        let b: Vec<u8> = match r.take_bytes(SOUND_TIMING_LEN) {
            Ok(v) => v,
            Err(e) => {
                return Err(e);
            },
        };
        assert(b.len() == SOUND_TIMING_LEN);
        self.sound_cycle_accum = u64_at(&b, 0);
        self.sound_irq_counter = u64_at(&b, 8);
        self.sound_irq_pending = b[16] != 0;
        Ok(())
    }
}

/// Loading the saved sound timing gives it back.
pub proof fn law_sound_timing_round_trip(a: CongoView, b: CongoView)
    ensures
        a.sound_timing_bytes().len() == SOUND_TIMING_LEN,
        b.with_sound_timing(a.sound_timing_bytes()) == (CongoView {
            sound_cycle_accum: a.sound_cycle_accum,
            sound_irq_counter: a.sound_irq_counter,
            sound_irq_pending: a.sound_irq_pending,
            ..b
        }),
{
    let s = a.sound_timing_bytes();
    assert(s.subrange(0, 8) =~= le64(a.sound_cycle_accum));
    lemma_le64(a.sound_cycle_accum);
    assert(s.subrange(8, 16) =~= le64(a.sound_irq_counter));
    lemma_le64(a.sound_irq_counter);
    assert(s[16] == flag(a.sound_irq_pending));
}

/// Bytes of this part of a saved state.
pub const POSITION_LEN: usize = 9;

impl CongoView {
    /// The last part of a saved state: the clock and the pending interrupt.
    pub open spec fn position_bytes(&self) -> Seq<u8> {
        Seq::<u8>::empty() + le64(self.clock) + seq![flag(self.vblank_irq_pending)]
    }

    /// The board with that part replaced by saved bytes.
    pub open spec fn with_position(self, b: Seq<u8>) -> CongoView {
        CongoView {
            clock: of_le64(b.subrange(0, 8)),
            vblank_irq_pending: b[8] != 0,
            ..self
        }
    }
}

impl CongoBongoBoard {
    /// The last part of a saved state: the clock and the pending interrupt.
    pub fn save_position(&self, w: &mut StateWriter)
        ensures
            final(w)@ == old(w)@ + self@.position_bytes(),
    {
        let ghost start = w@;
        let ghost g0 = Seq::<u8>::empty();
        proof {
            lemma_nothing_appended(start);
        }
        w.write_u64_le(self.clock);
        proof {
            lemma_append(start, g0, le64(self@.clock));
        }
        let ghost g1 = g0 + le64(self@.clock);
        w.write_bool(self.vblank_irq_pending);
        proof {
            lemma_append(start, g1, seq![flag(self@.vblank_irq_pending)]);
        }
        let ghost g2 = g1 + seq![flag(self@.vblank_irq_pending)];
    }

    /// The board with that part replaced by saved bytes.
    /// Fails, changing nothing of the board, where the bytes end too early.
    pub fn load_position(&mut self, r: &mut StateReader) -> (res: Result<(), SaveError>)
        ensures
            old(r)@.len() >= POSITION_LEN ==> res is Ok && final(self)@ == old(self)@.with_position(old(r)@.take(POSITION_LEN as int)) && final(r)@ == old(r)@.skip(POSITION_LEN as int),
            old(r)@.len() < POSITION_LEN ==> res == Err::<(), SaveError>(SaveError::UnexpectedEnd) && final(self)@ == old(self)@ && final(r)@ == old(r)@,
    {
        let b: Vec<u8> = match r.take_bytes(POSITION_LEN) {
            Ok(v) => v,
            Err(e) => {
                return Err(e);
            },
        };
        assert(b.len() == POSITION_LEN);
        self.clock = u64_at(&b, 0);
        self.vblank_irq_pending = b[8] != 0;
        Ok(())
    }
}

/// Loading the saved clock and interrupt gives them back.
pub proof fn law_position_round_trip(a: CongoView, b: CongoView)
    ensures
        a.position_bytes().len() == POSITION_LEN,
        b.with_position(a.position_bytes()) == (CongoView {
            clock: a.clock,
            vblank_irq_pending: a.vblank_irq_pending,
            ..b
        }),
{
    let s = a.position_bytes();
    assert(s.subrange(0, 8) =~= le64(a.clock));
    lemma_le64(a.clock);
    assert(s[8] == flag(a.vblank_irq_pending));
}

/// Main program ROM.
pub open spec fn main_rom_chips() -> Seq<RomTable> {
    seq![
        ("congo_rev_c_rom1.u21", 0x2000int, 0x0000int, seq![0x09355b5bu32]),
        ("congo_rev_c_rom2a.u22", 0x2000int, 0x2000int, seq![0x1c5e30aeu32]),
        ("congo_rev_c_rom3.u23", 0x2000int, 0x4000int, seq![0x5ee1132cu32]),
        ("congo_rev_c_rom4.u24", 0x2000int, 0x6000int, seq![0x5332b9bfu32]),
    ]
}

/// Main program ROM.
pub fn congo_main_rom() -> (r: RomRegion)
    ensures
        r.size == 0x8000,
        r.table() == main_rom_chips(),
        chips_fit(r.size as int, r.table()),
{
    let c0: RomEntry = chip("congo_rev_c_rom1.u21", 0x2000, 0x0000, vec![0x09355b5b]);
    assert(c0.crc32@ =~= main_rom_chips()[0].3);
    let c1: RomEntry = chip("congo_rev_c_rom2a.u22", 0x2000, 0x2000, vec![0x1c5e30ae]);
    assert(c1.crc32@ =~= main_rom_chips()[1].3);
    let c2: RomEntry = chip("congo_rev_c_rom3.u23", 0x2000, 0x4000, vec![0x5ee1132c]);
    assert(c2.crc32@ =~= main_rom_chips()[2].3);
    let c3: RomEntry = chip("congo_rev_c_rom4.u24", 0x2000, 0x6000, vec![0x5332b9bf]);
    assert(c3.crc32@ =~= main_rom_chips()[3].3);
    let r: RomRegion = RomRegion { size: 0x8000, entries: vec![c0, c1, c2, c3] };
    assert(r.table() =~= main_rom_chips());
    r
}

/// Sound program ROM.
pub open spec fn sound_rom_chips() -> Seq<RomTable> {
    seq![
        ("tip_top_rom_17.u19", 0x2000int, 0x0000int, seq![0x5024e673u32]),
    ]
}

/// Sound program ROM.
pub fn congo_sound_rom() -> (r: RomRegion)
    ensures
        r.size == 0x2000,
        r.table() == sound_rom_chips(),
        chips_fit(r.size as int, r.table()),
{
    let c0: RomEntry = chip("tip_top_rom_17.u19", 0x2000, 0x0000, vec![0x5024e673]);
    assert(c0.crc32@ =~= sound_rom_chips()[0].3);
    let r: RomRegion = RomRegion { size: 0x2000, entries: vec![c0] };
    assert(r.table() =~= sound_rom_chips());
    r
}

/// Foreground tiles.
pub open spec fn tx_rom_chips() -> Seq<RomTable> {
    seq![
        ("tip_top_rom_5.u76", 0x1000int, 0x0000int, seq![0x7bf6ba2bu32]),
    ]
}

/// Foreground tiles.
pub fn congo_gfx_tx_rom() -> (r: RomRegion)
    ensures
        r.size == 0x1000,
        r.table() == tx_rom_chips(),
        chips_fit(r.size as int, r.table()),
{
    let c0: RomEntry = chip("tip_top_rom_5.u76", 0x1000, 0x0000, vec![0x7bf6ba2b]);
    assert(c0.crc32@ =~= tx_rom_chips()[0].3);
    let r: RomRegion = RomRegion { size: 0x1000, entries: vec![c0] };
    assert(r.table() =~= tx_rom_chips());
    r
}

/// Background tiles.
pub open spec fn bg_rom_chips() -> Seq<RomTable> {
    seq![
        ("tip_top_rom_8.u93", 0x2000int, 0x0000int, seq![0xdb99a619u32]),
        ("tip_top_rom_9.u94", 0x2000int, 0x2000int, seq![0x93e2309eu32]),
        ("tip_top_rom_10.u95", 0x2000int, 0x4000int, seq![0xf27a9407u32]),
    ]
}

/// Background tiles.
pub fn congo_gfx_bg_rom() -> (r: RomRegion)
    ensures
        r.size == 0x6000,
        r.table() == bg_rom_chips(),
        chips_fit(r.size as int, r.table()),
{
    let c0: RomEntry = chip("tip_top_rom_8.u93", 0x2000, 0x0000, vec![0xdb99a619]);
    assert(c0.crc32@ =~= bg_rom_chips()[0].3);
    let c1: RomEntry = chip("tip_top_rom_9.u94", 0x2000, 0x2000, vec![0x93e2309e]);
    assert(c1.crc32@ =~= bg_rom_chips()[1].3);
    let c2: RomEntry = chip("tip_top_rom_10.u95", 0x2000, 0x4000, vec![0xf27a9407]);
    assert(c2.crc32@ =~= bg_rom_chips()[2].3);
    let r: RomRegion = RomRegion { size: 0x6000, entries: vec![c0, c1, c2] };
    assert(r.table() =~= bg_rom_chips());
    r
}

/// Sprites.
pub open spec fn spr_rom_chips() -> Seq<RomTable> {
    seq![
        ("tip_top_rom_12.u78", 0x2000int, 0x0000int, seq![0x15e3377au32]),
        ("tip_top_rom_13.u79", 0x2000int, 0x2000int, seq![0x1d1321c8u32]),
        ("tip_top_rom_11.u77", 0x2000int, 0x4000int, seq![0x73e2709fu32]),
        ("tip_top_rom_14.u104", 0x2000int, 0x6000int, seq![0xbf9169feu32]),
        ("tip_top_rom_16.u106", 0x2000int, 0x8000int, seq![0xcb6d5775u32]),
        ("tip_top_rom_15.u105", 0x2000int, 0xA000int, seq![0x7b15a7a4u32]),
    ]
}

/// Sprites.
pub fn congo_gfx_spr_rom() -> (r: RomRegion)
    ensures
        r.size == 0xC000,
        r.table() == spr_rom_chips(),
        chips_fit(r.size as int, r.table()),
{
    let c0: RomEntry = chip("tip_top_rom_12.u78", 0x2000, 0x0000, vec![0x15e3377a]);
    assert(c0.crc32@ =~= spr_rom_chips()[0].3);
    let c1: RomEntry = chip("tip_top_rom_13.u79", 0x2000, 0x2000, vec![0x1d1321c8]);
    assert(c1.crc32@ =~= spr_rom_chips()[1].3);
    let c2: RomEntry = chip("tip_top_rom_11.u77", 0x2000, 0x4000, vec![0x73e2709f]);
    assert(c2.crc32@ =~= spr_rom_chips()[2].3);
    let c3: RomEntry = chip("tip_top_rom_14.u104", 0x2000, 0x6000, vec![0xbf9169fe]);
    assert(c3.crc32@ =~= spr_rom_chips()[3].3);
    let c4: RomEntry = chip("tip_top_rom_16.u106", 0x2000, 0x8000, vec![0xcb6d5775]);
    assert(c4.crc32@ =~= spr_rom_chips()[4].3);
    let c5: RomEntry = chip("tip_top_rom_15.u105", 0x2000, 0xA000, vec![0x7b15a7a4]);
    assert(c5.crc32@ =~= spr_rom_chips()[5].3);
    let r: RomRegion = RomRegion { size: 0xC000, entries: vec![c0, c1, c2, c3, c4, c5] };
    assert(r.table() =~= spr_rom_chips());
    r
}

/// The background map.
pub open spec fn tilemap_rom_chips() -> Seq<RomTable> {
    seq![
        ("tip_top_rom_6.u57", 0x2000int, 0x0000int, seq![0xd637f02bu32]),
        ("tip_top_rom_7.u58", 0x2000int, 0x2000int, seq![0x80927943u32]),
    ]
}

/// The background map.
pub fn congo_tilemap_dat_rom() -> (r: RomRegion)
    ensures
        r.size == 0x4000,
        r.table() == tilemap_rom_chips(),
        chips_fit(r.size as int, r.table()),
{
    let c0: RomEntry = chip("tip_top_rom_6.u57", 0x2000, 0x0000, vec![0xd637f02b]);
    assert(c0.crc32@ =~= tilemap_rom_chips()[0].3);
    let c1: RomEntry = chip("tip_top_rom_7.u58", 0x2000, 0x2000, vec![0x80927943]);
    assert(c1.crc32@ =~= tilemap_rom_chips()[1].3);
    let r: RomRegion = RomRegion { size: 0x4000, entries: vec![c0, c1] };
    assert(r.table() =~= tilemap_rom_chips());
    r
}

/// Colour PROM, loaded twice so that the upper half repeats the lower.
pub open spec fn palette_prom_chips() -> Seq<RomTable> {
    seq![
        ("mr019.u87", 0x0100int, 0x0000int, seq![0xb788d8aeu32]),
        ("mr019.u87", 0x0100int, 0x0100int, seq![0xb788d8aeu32]),
    ]
}

/// Colour PROM, loaded twice so that the upper half repeats the lower.
pub fn congo_palette_prom() -> (r: RomRegion)
    ensures
        r.size == 0x0200,
        r.table() == palette_prom_chips(),
        chips_fit(r.size as int, r.table()),
{
    let c0: RomEntry = chip("mr019.u87", 0x0100, 0x0000, vec![0xb788d8ae]);
    assert(c0.crc32@ =~= palette_prom_chips()[0].3);
    let c1: RomEntry = chip("mr019.u87", 0x0100, 0x0100, vec![0xb788d8ae]);
    assert(c1.crc32@ =~= palette_prom_chips()[1].3);
    let r: RomRegion = RomRegion { size: 0x0200, entries: vec![c0, c1] };
    assert(r.table() =~= palette_prom_chips());
    r
}

pub const INPUT_P1_RIGHT: u16 = 0;

pub const INPUT_P1_LEFT: u16 = 1;

pub const INPUT_P1_UP: u16 = 2;

pub const INPUT_P1_DOWN: u16 = 3;

pub const INPUT_P1_BUTTON: u16 = 4;

pub const INPUT_P2_RIGHT: u16 = 5;

pub const INPUT_P2_LEFT: u16 = 6;

pub const INPUT_P2_UP: u16 = 7;

pub const INPUT_P2_DOWN: u16 = 8;

pub const INPUT_P2_BUTTON: u16 = 9;

pub const INPUT_P1_START: u16 = 10;

pub const INPUT_P2_START: u16 = 11;

pub const INPUT_COIN1: u16 = 12;

pub const INPUT_COIN2: u16 = 13;

pub const INPUT_SERVICE: u16 = 14;

/// The cabinet's controls.
pub open spec fn control_table() -> Seq<InputControl> {
    seq![
        control_of(INPUT_P1_RIGHT as u16, "p1_right", "P1 Right", InputKind::DigitalDirection(Direction::Right), Some(1u8), DefaultBindings::Shared(SharedBindings::P1Right)),
        control_of(INPUT_P1_LEFT as u16, "p1_left", "P1 Left", InputKind::DigitalDirection(Direction::Left), Some(1u8), DefaultBindings::Shared(SharedBindings::P1Left)),
        control_of(INPUT_P1_UP as u16, "p1_up", "P1 Up", InputKind::DigitalDirection(Direction::Up), Some(1u8), DefaultBindings::Shared(SharedBindings::P1Up)),
        control_of(INPUT_P1_DOWN as u16, "p1_down", "P1 Down", InputKind::DigitalDirection(Direction::Down), Some(1u8), DefaultBindings::Shared(SharedBindings::P1Down)),
        control_of(INPUT_P1_BUTTON as u16, "p1_button", "P1 Button", InputKind::Action(ActionRole::Primary), Some(1u8), DefaultBindings::Unbound),
        control_of(INPUT_P2_RIGHT as u16, "p2_right", "P2 Right", InputKind::DigitalDirection(Direction::Right), Some(2u8), DefaultBindings::Shared(SharedBindings::P2Right)),
        control_of(INPUT_P2_LEFT as u16, "p2_left", "P2 Left", InputKind::DigitalDirection(Direction::Left), Some(2u8), DefaultBindings::Shared(SharedBindings::P2Left)),
        control_of(INPUT_P2_UP as u16, "p2_up", "P2 Up", InputKind::DigitalDirection(Direction::Up), Some(2u8), DefaultBindings::Shared(SharedBindings::P2Up)),
        control_of(INPUT_P2_DOWN as u16, "p2_down", "P2 Down", InputKind::DigitalDirection(Direction::Down), Some(2u8), DefaultBindings::Shared(SharedBindings::P2Down)),
        control_of(INPUT_P2_BUTTON as u16, "p2_button", "P2 Button", InputKind::Action(ActionRole::Primary), Some(2u8), DefaultBindings::Unbound),
        control_of(INPUT_P1_START as u16, "p1_start", "P1 Start", InputKind::Start, Some(1u8), DefaultBindings::Shared(SharedBindings::P1Start)),
        control_of(INPUT_P2_START as u16, "p2_start", "P2 Start", InputKind::Start, Some(2u8), DefaultBindings::Shared(SharedBindings::P2Start)),
        control_of(INPUT_COIN1 as u16, "coin1", "Coin 1", InputKind::Coin, None, DefaultBindings::Shared(SharedBindings::Coin)),
        control_of(INPUT_COIN2 as u16, "coin2", "Coin 2", InputKind::Coin, None, DefaultBindings::Unbound),
        control_of(INPUT_SERVICE as u16, "service", "Service", InputKind::Service, None, DefaultBindings::Shared(SharedBindings::Service)),
    ]
}

fn controls() -> (v: Vec<InputControl>)
    ensures
        v@ == control_table(),
{
    let v: Vec<InputControl> = vec![
        control(INPUT_P1_RIGHT as u16, "p1_right", "P1 Right", InputKind::DigitalDirection(Direction::Right), Some(1), DefaultBindings::Shared(SharedBindings::P1Right)),
        control(INPUT_P1_LEFT as u16, "p1_left", "P1 Left", InputKind::DigitalDirection(Direction::Left), Some(1), DefaultBindings::Shared(SharedBindings::P1Left)),
        control(INPUT_P1_UP as u16, "p1_up", "P1 Up", InputKind::DigitalDirection(Direction::Up), Some(1), DefaultBindings::Shared(SharedBindings::P1Up)),
        control(INPUT_P1_DOWN as u16, "p1_down", "P1 Down", InputKind::DigitalDirection(Direction::Down), Some(1), DefaultBindings::Shared(SharedBindings::P1Down)),
        control(INPUT_P1_BUTTON as u16, "p1_button", "P1 Button", InputKind::Action(ActionRole::Primary), Some(1), DefaultBindings::Unbound),
        control(INPUT_P2_RIGHT as u16, "p2_right", "P2 Right", InputKind::DigitalDirection(Direction::Right), Some(2), DefaultBindings::Shared(SharedBindings::P2Right)),
        control(INPUT_P2_LEFT as u16, "p2_left", "P2 Left", InputKind::DigitalDirection(Direction::Left), Some(2), DefaultBindings::Shared(SharedBindings::P2Left)),
        control(INPUT_P2_UP as u16, "p2_up", "P2 Up", InputKind::DigitalDirection(Direction::Up), Some(2), DefaultBindings::Shared(SharedBindings::P2Up)),
        control(INPUT_P2_DOWN as u16, "p2_down", "P2 Down", InputKind::DigitalDirection(Direction::Down), Some(2), DefaultBindings::Shared(SharedBindings::P2Down)),
        control(INPUT_P2_BUTTON as u16, "p2_button", "P2 Button", InputKind::Action(ActionRole::Primary), Some(2), DefaultBindings::Unbound),
        control(INPUT_P1_START as u16, "p1_start", "P1 Start", InputKind::Start, Some(1), DefaultBindings::Shared(SharedBindings::P1Start)),
        control(INPUT_P2_START as u16, "p2_start", "P2 Start", InputKind::Start, Some(2), DefaultBindings::Shared(SharedBindings::P2Start)),
        control(INPUT_COIN1 as u16, "coin1", "Coin 1", InputKind::Coin, None, DefaultBindings::Shared(SharedBindings::Coin)),
        control(INPUT_COIN2 as u16, "coin2", "Coin 2", InputKind::Coin, None, DefaultBindings::Unbound),
        control(INPUT_SERVICE as u16, "service", "Service", InputKind::Service, None, DefaultBindings::Shared(SharedBindings::Service)),
    ];
    assert(v@ =~= control_table());
    v
}

/// Coin prices and the nibble that selects each.
pub open spec fn coin_table() -> Seq<(&'static str, u8)> {
    seq![
        ("4 Coins/1 Credit", 0x0Fu8),
        ("3 Coins/1 Credit", 0x07u8),
        ("2 Coins/1 Credit", 0x0Bu8),
        ("2C/1C 5C/3C 6C/4C", 0x06u8),
        ("2C/1C 3C/2C 4C/3C", 0x0Au8),
        ("1 Coin/1 Credit", 0x03u8),
        ("1C/1C 5C/6C", 0x02u8),
        ("1C/1C 4C/5C", 0x0Cu8),
        ("1C/1C 2C/3C", 0x04u8),
        ("1 Coin/2 Credits", 0x0Du8),
        ("1C/2C 5C/11C", 0x08u8),
        ("1C/2C 4C/9C", 0x00u8),
        ("1 Coin/3 Credits", 0x05u8),
        ("1 Coin/4 Credits", 0x09u8),
        ("1 Coin/5 Credits", 0x01u8),
        ("1 Coin/6 Credits", 0x0Eu8),
    ]
}

/// The coin prices with their nibble moved up by `shift`.
pub open spec fn coinage_choices(shift: u8) -> Seq<(&'static str, u8)> {
    Seq::new(16, |i: int| (coin_table()[i].0, coin_table()[i].1 << shift))
}

/// Coin price choices for the slot whose nibble starts at bit `shift`.
pub fn coinage(shift: u8) -> (v: Vec<DipChoice>)
    requires
        shift < 8,
    ensures
        v@.len() == 16,
        forall|i: int| 0 <= i < 16 ==> (#[trigger] v@[i]).label == coinage_choices(shift)[i].0 && v@[i].value == coinage_choices(shift)[i].1,
{
    vec![
        choice("4 Coins/1 Credit", 0x0Fu8 << shift),
        choice("3 Coins/1 Credit", 0x07u8 << shift),
        choice("2 Coins/1 Credit", 0x0Bu8 << shift),
        choice("2C/1C 5C/3C 6C/4C", 0x06u8 << shift),
        choice("2C/1C 3C/2C 4C/3C", 0x0Au8 << shift),
        choice("1 Coin/1 Credit", 0x03u8 << shift),
        choice("1C/1C 5C/6C", 0x02u8 << shift),
        choice("1C/1C 4C/5C", 0x0Cu8 << shift),
        choice("1C/1C 2C/3C", 0x04u8 << shift),
        choice("1 Coin/2 Credits", 0x0Du8 << shift),
        choice("1C/2C 5C/11C", 0x08u8 << shift),
        choice("1C/2C 4C/9C", 0x00u8 << shift),
        choice("1 Coin/3 Credits", 0x05u8 << shift),
        choice("1 Coin/4 Credits", 0x09u8 << shift),
        choice("1 Coin/5 Credits", 0x01u8 << shift),
        choice("1 Coin/6 Credits", 0x0Eu8 << shift),
    ]
}

/// Game options.
pub open spec fn dsw02_table() -> BankTable {
    (
        "DSW02",
        seq![
            (
                "Bonus Life",
                0x03u8,
                seq![
                    ("10000", 0x03u8),
                    ("20000", 0x01u8),
                    ("30000", 0x02u8),
                    ("40000", 0x00u8),
                ],
            ),
            (
                "Difficulty",
                0x0Cu8,
                seq![
                    ("Easy", 0x0Cu8),
                    ("Medium", 0x04u8),
                    ("Hard", 0x08u8),
                    ("Hardest", 0x00u8),
                ],
            ),
            (
                "Lives",
                0x30u8,
                seq![
                    ("3", 0x30u8),
                    ("4", 0x10u8),
                    ("5", 0x20u8),
                    ("Free Play", 0x00u8),
                ],
            ),
            (
                "Sound",
                0x40u8,
                seq![
                    ("Off", 0x00u8),
                    ("On", 0x40u8),
                ],
            ),
            (
                "Cabinet",
                0x80u8,
                seq![
                    ("Upright", 0x00u8),
                    ("Cocktail", 0x80u8),
                ],
            ),
        ],
    )
}

fn dsw02_bank() -> (bank: DipSwitchBank)
    ensures
        bank.table() == dsw02_table(),
        bank.immediate(),
{
    let o0: DipOption = option(
        "Bonus Life",
        0x03,
        vec![
            choice("10000", 0x03),
            choice("20000", 0x01),
            choice("30000", 0x02),
            choice("40000", 0x00),
        ],
    );
    assert(o0.table().2 =~= dsw02_table().1[0].2);
    let o1: DipOption = option(
        "Difficulty",
        0x0C,
        vec![
            choice("Easy", 0x0C),
            choice("Medium", 0x04),
            choice("Hard", 0x08),
            choice("Hardest", 0x00),
        ],
    );
    assert(o1.table().2 =~= dsw02_table().1[1].2);
    let o2: DipOption = option(
        "Lives",
        0x30,
        vec![
            choice("3", 0x30),
            choice("4", 0x10),
            choice("5", 0x20),
            choice("Free Play", 0x00),
        ],
    );
    assert(o2.table().2 =~= dsw02_table().1[2].2);
    let o3: DipOption = option(
        "Sound",
        0x40,
        vec![
            choice("Off", 0x00),
            choice("On", 0x40),
        ],
    );
    assert(o3.table().2 =~= dsw02_table().1[3].2);
    let o4: DipOption = option(
        "Cabinet",
        0x80,
        vec![
            choice("Upright", 0x00),
            choice("Cocktail", 0x80),
        ],
    );
    assert(o4.table().2 =~= dsw02_table().1[4].2);
    let bank: DipSwitchBank = DipSwitchBank { name: "DSW02", options: vec![o0, o1, o2, o3, o4] };
    assert(bank.table().1 =~= dsw02_table().1);
    bank
}

/// Coin options.
pub open spec fn dsw03_table() -> BankTable {
    (
        "DSW03",
        seq![
            ("Coin B", 0x0Fu8, coinage_choices(0)),
            ("Coin A", 0xF0u8, coinage_choices(4)),
        ],
    )
}

fn dsw03_bank() -> (bank: DipSwitchBank)
    ensures
        bank.table() == dsw03_table(),
        bank.immediate(),
{
    let o0: DipOption = option("Coin B", 0x0F, coinage(0));
    assert(o0.table().2 =~= coinage_choices(0));
    let o1: DipOption = option("Coin A", 0xF0, coinage(4));
    assert(o1.table().2 =~= coinage_choices(4));
    let bank: DipSwitchBank = DipSwitchBank { name: "DSW03", options: vec![o0, o1] };
    assert(bank.table().1 =~= dsw03_table().1);
    bank
}

/// Choices lie under their masks, options share no switch, and the power-on
/// bytes select a choice of every option.
pub proof fn law_dip_tables_are_valid()
    ensures
        valid_bank(dsw02_table(), DSW2_DEFAULT),
        valid_bank(dsw03_table(), DSW3_DEFAULT),
{
    assert({
        &&& 0x03u8 != 0
        &&& 0x03u8 & !0x03u8 == 0
        &&& 0x01u8 & !0x03u8 == 0
        &&& 0x02u8 & !0x03u8 == 0
        &&& 0x00u8 & !0x03u8 == 0
        &&& 0x77u8 & 0x03u8 == 0x03
        &&& 0x03u8 & 0x0Cu8 == 0
        &&& 0x03u8 & 0x30u8 == 0
        &&& 0x03u8 & 0x40u8 == 0
        &&& 0x03u8 & 0x80u8 == 0
        &&& 0x0Cu8 != 0
        &&& 0x0Cu8 & !0x0Cu8 == 0
        &&& 0x04u8 & !0x0Cu8 == 0
        &&& 0x08u8 & !0x0Cu8 == 0
        &&& 0x00u8 & !0x0Cu8 == 0
        &&& 0x77u8 & 0x0Cu8 == 0x04
        &&& 0x0Cu8 & 0x30u8 == 0
        &&& 0x0Cu8 & 0x40u8 == 0
        &&& 0x0Cu8 & 0x80u8 == 0
        &&& 0x30u8 != 0
        &&& 0x30u8 & !0x30u8 == 0
        &&& 0x10u8 & !0x30u8 == 0
        &&& 0x20u8 & !0x30u8 == 0
        &&& 0x00u8 & !0x30u8 == 0
        &&& 0x77u8 & 0x30u8 == 0x30
        &&& 0x30u8 & 0x40u8 == 0
        &&& 0x30u8 & 0x80u8 == 0
        &&& 0x40u8 != 0
        &&& 0x00u8 & !0x40u8 == 0
        &&& 0x40u8 & !0x40u8 == 0
        &&& 0x77u8 & 0x40u8 == 0x40
        &&& 0x40u8 & 0x80u8 == 0
        &&& 0x80u8 != 0
        &&& 0x00u8 & !0x80u8 == 0
        &&& 0x80u8 & !0x80u8 == 0
        &&& 0x77u8 & 0x80u8 == 0x00
    }) by (bit_vector);
    assert(dsw02_table().1[0].2[0].1 == 0x77u8 & dsw02_table().1[0].1);
    assert(dsw02_table().1[1].2[1].1 == 0x77u8 & dsw02_table().1[1].1);
    assert(dsw02_table().1[2].2[0].1 == 0x77u8 & dsw02_table().1[2].1);
    assert(dsw02_table().1[3].2[1].1 == 0x77u8 & dsw02_table().1[3].1);
    assert(dsw02_table().1[4].2[0].1 == 0x77u8 & dsw02_table().1[4].1);
    assert forall|v: u8, w: u8| v < 16 && w < 16 implies {
        &&& #[trigger] (v << 0u8) & !0x0Fu8 == 0
        &&& (v << 4u8) & !0xF0u8 == 0
        &&& (v << 0u8) == v
        &&& #[trigger] (w << 4u8) == (v << 4u8) ==> v == w
    } by {
        assert({
            &&& (v << 0u8) & !0x0Fu8 == 0
            &&& (v << 4u8) & !0xF0u8 == 0
            &&& (v << 0u8) == v
            &&& (w << 4u8) == (v << 4u8) ==> v == w
        }) by (bit_vector)
            requires
                v < 16,
                w < 16,
        ;
    }
    assert({
        &&& 0x0Fu8 & 0xF0u8 == 0
        &&& 0x33u8 & 0x0Fu8 == 0x03u8 << 0u8
        &&& 0x33u8 & 0xF0u8 == 0x03u8 << 4u8
    }) by (bit_vector);
    let b = dsw03_table();
    assert(b.1[0].2[5].1 == 0x33u8 & b.1[0].1);
    assert(b.1[1].2[5].1 == 0x33u8 & b.1[1].1);
    assert forall|i: int| 0 <= i < 2 implies valid_option(#[trigger] b.1[i]) by {
        assert forall|j: int| 0 <= j < 16 implies (#[trigger] b.1[i].2[j]).1 & !b.1[i].1 == 0 by {
            let v = coin_table()[j].1;
            assert(v < 16);
            assert((v << 0u8) & !0x0Fu8 == 0);
            assert((v << 4u8) == (v << 4u8));
        }
        assert forall|j: int, k: int| 0 <= j < k < 16 implies (#[trigger] b.1[i].2[j]).1 != (
        #[trigger] b.1[i].2[k]).1 by {
            let v = coin_table()[j].1;
            let w = coin_table()[k].1;
            assert(v < 16 && w < 16 && v != w);
            assert((v << 0u8) == v);
            assert((w << 0u8) == w);
            assert((v << 4u8) != (w << 4u8));
        }
    }
}

/// The switch banks of the machine.
pub open spec fn dip_tables() -> Seq<BankTable> {
    seq![dsw02_table(), dsw03_table()]
}

pub open spec fn bank_value(b: CongoView, bank: usize) -> u8 {
    if bank == 0 {
        b.dsw2
    } else if bank == 1 {
        b.dsw3
    } else {
        0
    }
}

pub open spec fn with_bank(b: CongoView, bank: usize, value: u8) -> CongoView {
    if bank == 0 {
        CongoView { dsw2: value, ..b }
    } else if bank == 1 {
        CongoView { dsw3: value, ..b }
    } else {
        b
    }
}

/// The board after a control changes. Stick, button and start lines go high
/// while held; a coin counts when pressed.
pub open spec fn after_button(b: CongoView, id: u16, pressed: bool) -> CongoView {
    if id <= INPUT_P1_BUTTON {
        CongoView { in0: with_bit(b.in0, id as u8, pressed), ..b }
    } else if id <= INPUT_P2_BUTTON {
        CongoView { in1: with_bit(b.in1, (id - INPUT_P2_RIGHT) as u8, pressed), ..b }
    } else if id == INPUT_P1_START {
        CongoView { in2: with_bit(b.in2, 2, pressed), ..b }
    } else if id == INPUT_P2_START {
        CongoView { in2: with_bit(b.in2, 3, pressed), ..b }
    } else if INPUT_COIN1 <= id <= INPUT_SERVICE && pressed {
        b.with_coin(id - INPUT_COIN1)
    } else {
        b
    }
}

/// What a sound-CPU read addresses.
pub open spec fn sound_access(b: CongoView, addr: u16) -> CongoRead {
    if addr < 0x2000 {
        CongoRead::Value(b.sound_rom[addr as int])
    } else if 0x4000 <= addr < 0x5000 {
        CongoRead::Value(b.sound_ram[(addr & 0x07FF) as int])
    } else if 0x8000 <= addr < 0xA000 {
        CongoRead::Ppi((addr & 3) as u8)
    } else {
        CongoRead::Value(0xFF)
    }
}

/// What a write leaves for a chip outside the board.
pub open spec fn chip_access(master: BusMaster, addr: u16, data: u8) -> CongoWrite {
    if master == BusMaster::Cpu(0) && 0xC000 <= addr < 0xE000 && addr & 0x3F >= 0x38 {
        CongoWrite::SoundCommand(data)
    } else if master == BusMaster::Cpu(1) && 0x6000 <= addr < 0x8000 {
        CongoWrite::Sn1(data)
    } else if master == BusMaster::Cpu(1) && 0x8000 <= addr < 0xA000 {
        CongoWrite::Ppi { port: (addr & 3) as u8, data }
    } else if master == BusMaster::Cpu(1) && 0xA000 <= addr < 0xC000 {
        CongoWrite::Sn2(data)
    } else {
        CongoWrite::Done
    }
}

/// The region images of a ROM set.
pub struct CongoRoms {
    pub main: Vec<u8>,
    pub sound: Vec<u8>,
    pub tx: Vec<u8>,
    pub bg: Vec<u8>,
    pub spr: Vec<u8>,
    pub tilemap: Vec<u8>,
    pub palette: Vec<u8>,
}

impl CongoRoms {
    /// Every image has its region's size.
    pub open spec fn wf(&self) -> bool {
        &&& self.main@.len() == 0x8000
        &&& self.sound@.len() == 0x2000
        &&& self.tx@.len() == 0x1000
        &&& self.bg@.len() == 0x6000
        &&& self.spr@.len() == 0xC000
        &&& self.tilemap@.len() == 0x4000
        &&& self.palette@.len() == 0x200
    }
}

/// Congo Bongo: the board as its CPUs and the cabinet see it.
pub struct CongoBongoSystem {
    pub board: CongoBongoBoard,
}

impl View for CongoBongoSystem {
    type V = CongoView;

    open spec fn view(&self) -> CongoView {
        self.board@
    }
}

impl CongoBongoSystem {
    pub fn new() -> (sys: CongoBongoSystem)
        ensures
            sys.board.wf(),
            sys@.powered_on(),
    {
        CongoBongoSystem { board: CongoBongoBoard::new() }
    }

    /// Put the region images into the board, decode the graphics, work out the
    /// palette and draw the background map out.
    pub fn load_rom_set(&mut self, roms: CongoRoms, dac: &CongoDac)
        requires
            old(self).board.wf(),
            roms.wf(),
            dac.wf(),
        ensures
            final(self).board.wf(),
            decodes_cells(final(self)@.tx_cache, roms.tx@, 256, 2, 0x800, 8),
            decodes_cells(final(self)@.bg_cache, roms.bg@, 1024, 3, 0x2000, 8),
            decodes_cells(final(self)@.sprite_cache, roms.spr@, 128, 3, 0x4000, 32),
            final(self)@.bg_pixmap == final(self)@.map_pixels(),
            final(self)@ == (CongoView {
                main_rom: roms.main@,
                sound_rom: roms.sound@,
                tx_rom: roms.tx@,
                bg_rom: roms.bg@,
                spr_rom: roms.spr@,
                tilemap_dat: roms.tilemap@,
                palette_prom: roms.palette@,
                palette_rgb: Seq::new(512, |i: int| dac.color(roms.palette@[i])),
                tx_cache: final(self)@.tx_cache,
                bg_cache: final(self)@.bg_cache,
                sprite_cache: final(self)@.sprite_cache,
                bg_pixmap: final(self)@.bg_pixmap,
                ..old(self)@
            }),
    {
        self.board.main_rom = roms.main;
        self.board.sound_rom = roms.sound;
        self.board.tx_rom = roms.tx;
        self.board.bg_rom = roms.bg;
        self.board.spr_rom = roms.spr;
        self.board.tilemap_dat = roms.tilemap;
        self.board.palette_prom = roms.palette;
        self.board.decode_gfx_roms();
        self.board.build_palette(dac);
        let ghost before = self@;
        self.board.build_bg_pixmap();
        assert(before.map_pixels() =~= self@.map_pixels());
    }

    /// A bus read. Reads have no side effect on the board; a read of the
    /// interface chip is handed back.
    pub fn read(&self, master: BusMaster, addr: u16) -> (r: CongoRead)
        requires
            self.board.wf(),
        ensures
            r == if master == BusMaster::Cpu(0) {
                CongoRead::Value(self@.main_read(addr))
            } else if master == BusMaster::Cpu(1) {
                sound_access(self@, addr)
            } else {
                CongoRead::Value(0xFF)
            },
    {
        if master == BusMaster::Cpu(0) {
            if 0xC000 <= addr && addr < 0xE000 {
                let port: u16 = addr & 0x3F;
                if port == 0x00 {
                    CongoRead::Value(self.board.in0)
                } else if port == 0x01 {
                    CongoRead::Value(self.board.in1)
                } else if port == 0x02 {
                    CongoRead::Value(self.board.dsw2)
                } else if port == 0x03 {
                    CongoRead::Value(self.board.dsw3)
                } else if port == 0x08 {
                    CongoRead::Value(self.board.read_sw100())
                } else {
                    CongoRead::Value(0xFF)
                }
            } else {
                CongoRead::Value(self.board.read_main(addr))
            }
        } else if master == BusMaster::Cpu(1) {
            if addr < 0x2000 {
                CongoRead::Value(self.board.sound_rom[addr as usize])
            } else if 0x4000 <= addr && addr < 0x5000 {
                CongoRead::Value(self.board.sound_ram[(addr & 0x07FF) as usize])
            } else if 0x8000 <= addr && addr < 0xA000 {
                CongoRead::Ppi((addr & 0x03) as u8)
            } else {
                CongoRead::Value(0xFF)
            }
        } else {
            CongoRead::Value(0xFF)
        }
    }

    /// A main-CPU write to the I/O window.
    fn write_io(&mut self, addr: u16, data: u8)
        requires
            old(self).board.wf(),
            0xC000 <= addr < 0xE000,
        ensures
            final(self).board.wf(),
            final(self)@ == old(self)@.after_main_write(addr, data),
    {
        let port: u16 = addr & 0x3F;
        if 0x18 <= port && port < 0x20 {
            self.board.write_latch1((addr & 0x07) as u8, data & 1 != 0);
        } else if 0x20 <= port && port < 0x28 {
            self.board.write_latch2((addr & 0x07) as u8, data & 1 != 0);
        } else if 0x28 <= port && port < 0x2A {
            self.board.bg_position[(addr & 0x01) as usize] = data;
        } else if 0x30 <= port && port < 0x34 {
            self.board.write_sprite_dma((addr & 0x03) as usize, data);
        } else if 0x38 <= port {
            self.board.sound_latch = data;
        }
    }

    /// A bus write. What goes to a chip outside the board is handed back.
    pub fn write(&mut self, master: BusMaster, addr: u16, data: u8) -> (w: CongoWrite)
        requires
            old(self).board.wf(),
        ensures
            final(self).board.wf(),
            w == chip_access(master, addr, data),
            final(self)@ == if master == BusMaster::Cpu(0) {
                old(self)@.after_main_write(addr, data)
            } else if master == BusMaster::Cpu(1) {
                old(self)@.after_sound_write(addr, data)
            } else {
                old(self)@
            },
    {
        if master == BusMaster::Cpu(0) {
            if 0x8000 <= addr && addr < 0x9000 {
                self.board.ram[(addr - 0x8000) as usize] = data;
            } else if 0xA000 <= addr && addr < 0xC000 {
                let off: u16 = addr & 0x07FF;
                if off < 0x400 {
                    self.board.video_ram[off as usize] = data;
                } else {
                    self.board.color_ram[(off - 0x400) as usize] = data;
                }
            } else if 0xC000 <= addr && addr < 0xE000 {
                self.write_io(addr, data);
                if addr & 0x3F >= 0x38 {
                    return CongoWrite::SoundCommand(data);
                }
            }
            CongoWrite::Done
        } else if master == BusMaster::Cpu(1) {
            if 0x4000 <= addr && addr < 0x5000 {
                self.board.sound_ram[(addr & 0x07FF) as usize] = data;
                CongoWrite::Done
            } else if 0x6000 <= addr && addr < 0x8000 {
                CongoWrite::Sn1(data)
            } else if 0x8000 <= addr && addr < 0xA000 {
                CongoWrite::Ppi { port: (addr & 0x03) as u8, data }
            } else if 0xA000 <= addr && addr < 0xC000 {
                CongoWrite::Sn2(data)
            } else {
                CongoWrite::Done
            }
        } else {
            CongoWrite::Done
        }
    }

    /// No device stops either CPU.
    pub fn is_halted_for(&self, _master: BusMaster) -> (halted: bool)
        ensures
            !halted,
    {
        false
    }

    pub fn machine_id(&self) -> (id: &'static str)
        ensures
            id@ == "congobongo"@,
    {
        "congobongo"
    }

    pub fn input_controls(&self) -> (v: Vec<InputControl>)
        ensures
            v@ == control_table(),
    {
        controls()
    }

    /// Apply an input event. Only buttons are wired.
    pub fn handle_input(&mut self, event: InputEvent)
        ensures
            final(self)@ == match event {
                InputEvent::Button { id, pressed } => after_button(old(self)@, id.0, pressed),
                _ => old(self)@,
            },
    {
        if let InputEvent::Button { id, pressed } = event {
            let code: u16 = id.0;
            if code <= INPUT_P1_BUTTON {
                set_bit_active_high(&mut self.board.in0, code as u8, pressed);
            } else if code <= INPUT_P2_BUTTON {
                set_bit_active_high(&mut self.board.in1, (code - INPUT_P2_RIGHT) as u8, pressed);
            } else if code == INPUT_P1_START {
                set_bit_active_high(&mut self.board.in2, 2, pressed);
            } else if code == INPUT_P2_START {
                set_bit_active_high(&mut self.board.in2, 3, pressed);
            } else if INPUT_COIN1 <= code && code <= INPUT_SERVICE && pressed {
                self.board.coin_inserted((code - INPUT_COIN1) as usize);
            }
        }
    }

    pub fn dip_banks(&self) -> (banks: Vec<DipSwitchBank>)
        ensures
            tables(banks@) == dip_tables(),
            all_immediate(banks@),
    {
        let banks: Vec<DipSwitchBank> = vec![dsw02_bank(), dsw03_bank()];
        assert(tables(banks@) =~= dip_tables());
        banks
    }

    pub fn dip_bank_value(&self, bank: usize) -> (v: u8)
        ensures
            v == bank_value(self@, bank),
    {
        if bank == 0 {
            self.board.dsw2
        } else if bank == 1 {
            self.board.dsw3
        } else {
            0
        }
    }

    pub fn set_dip_bank_value(&mut self, bank: usize, value: u8)
        ensures
            final(self)@ == with_bank(old(self)@, bank, value),
    {
        if bank == 0 {
            self.board.dsw2 = value;
        } else if bank == 1 {
            self.board.dsw3 = value;
        }
    }

    /// Choose a setting of one option.
    pub fn set_dip_option(&mut self, bank: usize, option: usize, value: u8)
        requires
            bank < dip_tables().len(),
            option < dip_tables()[bank as int].1.len(),
        ensures
            final(self)@ == with_bank(
                old(self)@,
                bank,
                masked(
                    bank_value(old(self)@, bank),
                    dip_tables()[bank as int].1[option as int].1,
                    value,
                ),
            ),
    {
        let banks: Vec<DipSwitchBank> = self.dip_banks();
        assert(tables(banks@)[bank as int] == banks@[bank as int].table());
        assert(banks@[bank as int].table().1[option as int]
            == banks@[bank as int].options@[option as int].table());
        let mask: u8 = banks[bank].options[option].mask;
        let current: u8 = self.dip_bank_value(bank);
        self.set_dip_bank_value(bank, apply_mask(current, mask, value));
    }
}

impl Default for CongoBongoSystem {
    fn default() -> (sys: CongoBongoSystem)
        ensures
            sys.board.wf(),
            sys@.powered_on(),
    {
        CongoBongoSystem::new()
    }
}

/// A byte written to RAM reads back at its own address, and video and color RAM
/// also at every mirror: addresses that agree in their low 11 bits.
pub proof fn law_ram_read_after_write(b: CongoView, addr: u16, mirror: u16, data: u8)
    requires
        b.wf(),
        0x8000 <= addr < 0x9000 && mirror == addr || 0xA000 <= addr < 0xC000 && 0xA000 <= mirror
            < 0xC000 && addr & 0x07FF == mirror & 0x07FF,
    ensures
        b.after_main_write(addr, data).main_read(mirror) == data,
{
}

/// Writes to program ROM and to unmapped addresses change nothing.
pub proof fn law_rom_is_read_only(b: CongoView, addr: u16, data: u8)
    requires
        addr < 0x8000 || 0x9000 <= addr < 0xA000 || addr >= 0xE000,
    ensures
        b.after_main_write(addr, data) == b,
{
}

/// A coin registers only while its line is armed; dropping the line forgets
/// it, and arming the line again does not bring it back.
pub proof fn law_coin_latches_only_when_armed(b: CongoView, n: u8)
    requires
        n < 3,
    ensures
        !bit(b.latch1, n) ==> b.with_coin(n as int) == b,
        bit(b.latch1, n) ==> coin_of(b.with_coin(n as int), n),
        !coin_of(b.with_latch1(n, false), n),
        !coin_of(b.with_latch1(n, false).with_latch1(n, true), n),
{
    lemma_with_bit(b.latch1, n, n, false);
    lemma_with_bit(b.latch1, n, n, true);
}

/// Coin latch `n`.
pub open spec fn coin_of(b: CongoView, n: u8) -> bool {
    if n == 0 {
        b.coin_a
    } else if n == 1 {
        b.coin_b
    } else {
        b.coin_service
    }
}

/// Disabling the vertical-blank interrupt drops one that is pending, and
/// enabling it again does not raise it.
pub proof fn law_disabling_drops_the_interrupt(b: CongoView)
    ensures
        !b.with_latch1(7, false).vblank_irq_pending,
        !b.with_latch1(7, false).with_latch1(7, true).vblank_irq_pending,
{
}

/// Where sprites overlap, the lowest table entry that covers a pixel shows.
pub proof fn law_lower_sprites_land_on_top(b: CongoView, row: Seq<Rgb>, n: nat, s: int, x: int, y: int)
    requires
        row.len() == NATIVE_WIDTH,
        0 <= x < NATIVE_WIDTH,
        n <= 32,
        32 - n <= s < 32,
        b.sprite_color(s, x, y) is Some,
        forall|t: int| 32 - n <= t < s ==> #[trigger] b.sprite_color(t, x, y) is None,
    ensures
        b.with_sprites(row, n, y).len() == NATIVE_WIDTH,
        b.with_sprites(row, n, y)[x] == b.sprite_color(s, x, y)->Some_0,
    decreases n,
{
    let below = b.with_sprites(row, (n - 1) as nat, y);
    lemma_sprites_len(b, row, (n - 1) as nat, y);
    if s == 32 - n {
    } else {
        law_lower_sprites_land_on_top(b, row, (n - 1) as nat, s, x, y);
        assert(b.sprite_color(32 - n, x, y) is None);
    }
}

proof fn lemma_sprites_len(b: CongoView, row: Seq<Rgb>, n: nat, y: int)
    ensures
        b.with_sprites(row, n, y).len() == row.len(),
    decreases n,
{
    if n > 0 {
        lemma_sprites_len(b, row, (n - 1) as nat, y);
    }
}

/// The skew moves the background one column left every two rows.
pub proof fn law_skew_steps_left(x: int, y: int)
    requires
        0 <= x < 256,
        0 <= y,
    ensures
        src_x(y + 2, x) == (src_x(y, x) - 1) % 256,
{
    let t = x + 0x3F - y / 2;
    assert((y + 2) / 2 == y / 2 + 1);
    assert(t == 256 * (t / 256) + t % 256);
    assert((t - 1) % 256 == (t % 256 - 1) % 256);
}

/// The lower half of the drawn-out map repeats the upper.
pub proof fn law_map_repeats(b: CongoView, x: int, y: int)
    requires
        0 <= x < 256,
        0 <= y,
    ensures
        b.map_pen(x, y + 2048) == b.map_pen(x, y),
{
    let tile = (y / 8) * 32 + x / 8;
    assert((y + 2048) / 8 == y / 8 + 256);
    assert((y / 8 + 256) * 32 + x / 8 == tile + 0x2000);
    assert((tile + 0x2000) % 0x2000 == tile % 0x2000);
    assert((y + 2048) % 8 == y % 8);
}

/// Drawing a row touches only that row of the raster.
pub proof fn law_row_touches_only_itself(b: CongoView, y: int, k: int)
    requires
        b.wf(),
        0 <= y < NATIVE_HEIGHT,
        0 <= k < b.scanline_buffer.len(),
        k / 768 != y,
    ensures
        b.after_row(y).scanline_buffer[k] == b.scanline_buffer[k],
{
    if b.sprite_cache.spec_count() != 0 {
        lemma_sprites_len(b, b.with_background(Seq::new(256, |x: int| (0u8, 0u8, 0u8)), y), 32, y);
    }
}

/// The sound CPU is owed exactly its share: whatever is credited is either
/// taken in steps or stays on the accumulator, and after the steps that are due
/// less than one step stays.
pub proof fn law_sound_credit_is_conserved(b: CongoView, steps: nat)
    requires
        b.sound_cycle_accum >= steps * CPU_CLOCK_HZ,
    ensures
        sound_steps(b, steps).sound_cycle_accum == b.sound_cycle_accum - steps * CPU_CLOCK_HZ,
    decreases steps,
{
    if steps > 0 {
        assert(steps * CPU_CLOCK_HZ == (steps - 1) * CPU_CLOCK_HZ + CPU_CLOCK_HZ)
            by (nonlinear_arith);
        law_sound_credit_is_conserved(b, (steps - 1) as nat);
    }
}

/// The board after `steps` sound-CPU steps.
pub open spec fn sound_steps(b: CongoView, steps: nat) -> CongoView
    decreases steps,
{
    if steps == 0 {
        b
    } else {
        sound_steps(b, (steps - 1) as nat).after_sound_step()
    }
}

/// The periodic sound interrupt rises within one period of steps.
pub proof fn law_sound_interrupt_is_periodic(b: CongoView, steps: nat)
    requires
        b.sound_irq_counter < SOUND_IRQ_PERIOD,
        steps <= SOUND_IRQ_PERIOD - b.sound_irq_counter,
    ensures
        steps < SOUND_IRQ_PERIOD - b.sound_irq_counter ==> sound_steps(b, steps).sound_irq_counter
            == b.sound_irq_counter + steps && sound_steps(b, steps).sound_irq_pending
            == b.sound_irq_pending,
        steps == SOUND_IRQ_PERIOD - b.sound_irq_counter ==> sound_steps(b, steps).sound_irq_pending
            && sound_steps(b, steps).sound_irq_counter == 0,
    decreases steps,
{
    if steps > 0 {
        law_sound_interrupt_is_periodic(b, (steps - 1) as nat);
    }
}

} // verus!
