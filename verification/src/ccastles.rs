//! Crystal Castles (Atari, 1983): a 6502, a scrolled bitmap with PROM
//! write protection and pixel access latches, and a sprite layer merged over it
//! through a priority PROM.

use vstd::prelude::*;

use crate::bits::{bit, bit_is_set, drive_bit, group_mask_bounds, lemma_with_bit, set_bit_active_low, with_bit};
use crate::dip::{
    BankTable, DipOption, DipSwitchBank, all_immediate, apply_mask, choice, masked, option, tables, valid_bank,
};
use crate::gfx::{GfxCache, GfxLayout, decode_gfx, planar_pen, put_row, with_row};
use crate::input::{
    AnalogAxisKind, DefaultBinding, DefaultBindings, Direction, InputControl, InputEvent, InputKind,
    KeyId, MouseControl, PadButton, PadControl, SharedBindings, control, control_of,
};
use crate::machine::{InterruptState, TimingConfig};
use crate::memory::{SaveError, copied_range, fill, overlaid, overlay, zeroed, zeros};
use crate::rom::{RomEntry, RomRegion, RomTable, chip, chips_fit};
use crate::state::{
    StateReader, StateWriter, flag, le64, lemma_append, lemma_le64, lemma_nothing_appended, of_le64,
    u64_at,
};

verus! {

broadcast use group_mask_bounds;

/// Main cycles in one frame.
pub const FRAME_CYCLES: u64 = 80 * 256;

/// Visible rows.
pub const VISIBLE_ROWS: usize = 232;

/// Raster timing: 320 pixel clocks by 256 lines, 232 of them visible.
pub open spec fn spec_timing() -> TimingConfig {
    TimingConfig {
        cpu_clock_hz: 1_250_000,
        cycles_per_scanline: 80,
        total_scanlines: 256,
        display_width: 256,
        display_height: 232,
        display_aspect: Some((4u32, 3u32)),
    }
}

pub fn timing() -> (t: TimingConfig)
    ensures
        t == spec_timing(),
        t.frame_cycles() == FRAME_CYCLES,
{
    TimingConfig {
        cpu_clock_hz: 1_250_000,
        cycles_per_scanline: 80,
        total_scanlines: 256,
        display_width: 256,
        display_height: 232,
        display_aspect: Some((4, 3)),
    }
}

/// Everything the 6502 talks to, apart from the two POKEYs.
pub struct CrystalCastlesBoard {
    /// Bitmap, two pixels a byte, left pixel in the low nibble.
    pub video_ram: Vec<u8>,
    pub sram: Vec<u8>,
    /// Two motion-object buffers.
    pub sprite_ram: Vec<u8>,
    pub nvram: Vec<u8>,
    pub rom_bank0: Vec<u8>,
    pub rom_bank1: Vec<u8>,
    pub rom_fixed: Vec<u8>,
    pub gfx_rom: Vec<u8>,
    pub sprite_cache: GfxCache,
    /// Per scanline: bit 0 vertical blank, bit 3 interrupt clock.
    pub sync_prom: Vec<u8>,
    /// Which nibbles of a bitmap write are protected.
    pub wp_prom: Vec<u8>,
    /// Which layer shows.
    pub pri_prom: Vec<u8>,
    /// Pixel access latches.
    pub bitmode_x: u8,
    pub bitmode_y: u8,
    pub hscroll: u8,
    pub vscroll: u8,
    pub palette_ram: Vec<u8>,
    pub palette_rgb: Vec<(u8, u8, u8)>,
    /// Output level of the colour ladder, one per code.
    pub dac: Vec<u8>,
    /// Lamps, NVRAM strobes, coin counters, ROM bank.
    pub outlatch0: u8,
    /// Pixel access direction, flip, sprite buffer.
    pub outlatch1: u8,
    pub in0: u8,
    pub dip_switches: u8,
    /// The four trackball counters.
    pub leta: Vec<u8>,
    pub irq_state: bool,
    pub clock: u64,
    pub watchdog_frame_count: u8,
    /// First visible scanline.
    pub vblank_end: u8,
    /// The picture, 256 by 232 RGB24.
    pub scanline_buffer: Vec<u8>,
    pub scanline_buffer_valid: bool,
    /// Sprite layer, 256 by 256.
    pub sprite_buffer: Vec<u8>,
}

/// The board as a mathematical value: memories as sequences.
#[verifier::ext_equal]
pub struct CastlesView {
    pub video_ram: Seq<u8>,
    pub sram: Seq<u8>,
    pub sprite_ram: Seq<u8>,
    pub nvram: Seq<u8>,
    pub rom_bank0: Seq<u8>,
    pub rom_bank1: Seq<u8>,
    pub rom_fixed: Seq<u8>,
    pub gfx_rom: Seq<u8>,
    pub sprite_cache: GfxCache,
    pub sync_prom: Seq<u8>,
    pub wp_prom: Seq<u8>,
    pub pri_prom: Seq<u8>,
    pub bitmode_x: u8,
    pub bitmode_y: u8,
    pub hscroll: u8,
    pub vscroll: u8,
    pub palette_ram: Seq<u8>,
    pub palette_rgb: Seq<(u8, u8, u8)>,
    pub dac: Seq<u8>,
    pub outlatch0: u8,
    pub outlatch1: u8,
    pub in0: u8,
    pub dip_switches: u8,
    pub leta: Seq<u8>,
    pub irq_state: bool,
    pub clock: u64,
    pub watchdog_frame_count: u8,
    pub vblank_end: u8,
    pub scanline_buffer: Seq<u8>,
    pub scanline_buffer_valid: bool,
    pub sprite_buffer: Seq<u8>,
}

impl View for CrystalCastlesBoard {
    type V = CastlesView;

    open spec fn view(&self) -> CastlesView {
        CastlesView {
            video_ram: self.video_ram@,
            sram: self.sram@,
            sprite_ram: self.sprite_ram@,
            nvram: self.nvram@,
            rom_bank0: self.rom_bank0@,
            rom_bank1: self.rom_bank1@,
            rom_fixed: self.rom_fixed@,
            gfx_rom: self.gfx_rom@,
            sprite_cache: self.sprite_cache,
            sync_prom: self.sync_prom@,
            wp_prom: self.wp_prom@,
            pri_prom: self.pri_prom@,
            bitmode_x: self.bitmode_x,
            bitmode_y: self.bitmode_y,
            hscroll: self.hscroll,
            vscroll: self.vscroll,
            palette_ram: self.palette_ram@,
            palette_rgb: self.palette_rgb@,
            dac: self.dac@,
            outlatch0: self.outlatch0,
            outlatch1: self.outlatch1,
            in0: self.in0,
            dip_switches: self.dip_switches,
            leta: self.leta@,
            irq_state: self.irq_state,
            clock: self.clock,
            watchdog_frame_count: self.watchdog_frame_count,
            vblank_end: self.vblank_end,
            scanline_buffer: self.scanline_buffer@,
            scanline_buffer_valid: self.scanline_buffer_valid,
            sprite_buffer: self.sprite_buffer@,
        }
    }
}

/// What a read addresses.
#[derive(Clone, Copy, Debug, PartialEq, Eq, Structural)]
pub enum CastlesRead {
    Value(u8),
    Pokey1(u8),
    Pokey2(u8),
}

/// What a write leaves for a chip.
#[derive(Clone, Copy, Debug, PartialEq, Eq, Structural)]
pub enum CastlesWrite {
    Done,
    Pokey1 { register: u8, data: u8 },
    Pokey2 { register: u8, data: u8 },
}

/// What an input event asks of a trackball counter.
#[derive(Clone, Copy, Debug, PartialEq, Eq, Structural)]
pub enum TrackballInput {
    Nothing,
    /// A direction key of a counter is held or let go.
    Held { counter: usize, up: bool, pressed: bool },
    /// The ball turned.
    Turned { counter: usize, delta: i32 },
}

/// Byte `v` with its nibbles replaced by those of `data` where writable.
pub open spec fn nibbles(v: u8, data: u8, low: bool, high: bool) -> u8 {
    ((if high { data as int / 16 } else { v as int / 16 }) * 16 + (if low {
        data as int % 16
    } else {
        v as int % 16
    })) as u8
}

/// Write-protect PROM entry of a bitmap access: the first 4 KB flag, address
/// lines 11 and 10, the inverted pixel-mode flag, address line 0 and the pixel
/// lines.
pub open spec fn wp_index(addr: int, bitmd: bool, pixba: int) -> int {
    (if addr < 0x1000 { 128int } else { 0 }) + ((addr / 0x400) % 4) * 32 + (if bitmd {
        0int
    } else {
        16
    }) + (addr % 2) * 4 + pixba % 4
}

/// Colour of palette entry `offset`: inverted bits through the colour ladder.
/// Line 5 of the offset is the top bit of red.
pub open spec fn palette_color(dac: Seq<u8>, offset: int, data: u8) -> (u8, u8, u8) {
    let r = data as int / 64 + 4 * ((offset / 32) % 2);
    let b = (data as int / 8) % 8;
    let g = data as int % 8;
    (dac[7 - r], dac[7 - g], dac[7 - b])
}

impl CastlesView {
    pub open spec fn wf(&self) -> bool {
        &&& self.video_ram.len() == 0x8000
        &&& self.sram.len() == 0xE00
        &&& self.sprite_ram.len() == 0x200
        &&& self.nvram.len() == 0x100
        &&& self.rom_bank0.len() == 0x4000
        &&& self.rom_bank1.len() == 0x4000
        &&& self.rom_fixed.len() == 0x2000
        &&& self.gfx_rom.len() == 0x4000
        &&& self.sprite_cache.wf()
        &&& self.sprite_cache.spec_count() == 256
        &&& self.sprite_cache.spec_width() == 8
        &&& self.sprite_cache.spec_height() == 16
        &&& self.sync_prom.len() == 0x100
        &&& self.wp_prom.len() == 0x100
        &&& self.pri_prom.len() == 0x100
        &&& self.palette_ram.len() == 64
        &&& self.palette_rgb.len() == 32
        &&& self.dac.len() == 8
        &&& self.leta.len() == 4
        &&& self.scanline_buffer.len() == 3 * 256 * 232
        &&& self.sprite_buffer.len() == 0x10000
    }

    /// Scanline that the beam is on.
    pub open spec fn scanline(&self) -> int {
        (self.clock % FRAME_CYCLES) as int / 80
    }

    pub open spec fn blanked(&self, scanline: int) -> bool {
        self.sync_prom[scanline] & 1 != 0
    }

    /// The board after a bitmap write through the protection PROM.
    pub open spec fn with_vram(self, addr: int, data: u8, bitmd: bool, pixba: int) -> CastlesView {
        let at = (addr % 0x8000) / 2 * 2;
        let wp = self.wp_prom[wp_index(addr, bitmd, pixba)];
        CastlesView {
            video_ram: self.video_ram.update(
                at,
                nibbles(self.video_ram[at], data, wp & 1 == 0, wp & 2 == 0),
            ).update(at + 1, nibbles(self.video_ram[at + 1], data, wp & 4 == 0, wp & 8 == 0)),
            ..self
        }
    }

    /// Address that the pixel access latches select.
    pub open spec fn pixel_addr(&self) -> int {
        self.bitmode_y * 128 + self.bitmode_x as int / 2
    }

    /// The board after the latches step: each moves unless its hold line is
    /// high, down where its direction line is high.
    pub open spec fn after_autoinc(self) -> CastlesView {
        CastlesView {
            bitmode_x: stepped(self.bitmode_x, bit(self.outlatch1, 0), bit(self.outlatch1, 2)),
            bitmode_y: stepped(self.bitmode_y, bit(self.outlatch1, 1), bit(self.outlatch1, 3)),
            ..self
        }
    }

    /// The pixel that the latches select, in the upper nibble.
    pub open spec fn pixel_byte(&self) -> u8 {
        let v = self.video_ram[self.pixel_addr()];
        ((if self.bitmode_x % 2 == 0 { v as int % 16 } else { v as int / 16 }) * 16 + 15) as u8
    }

    /// Byte of program ROM behind an address of the banked or fixed window.
    pub open spec fn rom_byte(&self, addr: int) -> u8 {
        if addr >= 0xE000 {
            self.rom_fixed[addr - 0xE000]
        } else if bit(self.outlatch0, 7) {
            self.rom_bank1[addr - 0xA000]
        } else {
            self.rom_bank0[addr - 0xA000]
        }
    }

    /// What a read addresses.
    pub open spec fn read_access(&self, addr: u16) -> CastlesRead {
        if addr == 0x0002 {
            CastlesRead::Value(self.pixel_byte())
        } else if addr < 0x8000 {
            CastlesRead::Value(self.video_ram[addr as int])
        } else if addr < 0x8E00 {
            CastlesRead::Value(self.sram[addr - 0x8000])
        } else if addr < 0x9000 {
            CastlesRead::Value(self.sprite_ram[addr - 0x8E00])
        } else if addr < 0x9400 {
            CastlesRead::Value(self.nvram[addr as int % 256])
        } else if addr < 0x9600 {
            CastlesRead::Value(self.leta[addr as int % 4])
        } else if addr < 0x9800 {
            CastlesRead::Value(self.in0)
        } else if addr < 0x9A00 {
            CastlesRead::Pokey1((addr % 16) as u8)
        } else if addr < 0x9C00 {
            if addr % 16 == 8 {
                CastlesRead::Value(self.dip_switches)
            } else {
                CastlesRead::Pokey2((addr % 16) as u8)
            }
        } else if addr < 0xA000 {
            CastlesRead::Value(0xFF)
        } else {
            CastlesRead::Value(self.rom_byte(addr as int))
        }
    }

    /// The board after a read: reading a pixel steps the latches.
    pub open spec fn after_read(self, addr: u16) -> CastlesView {
        if addr == 0x0002 {
            self.after_autoinc()
        } else {
            self
        }
    }

    /// The board after a write.
    pub open spec fn after_write(self, addr: u16, data: u8) -> CastlesView {
        if addr == 0x0000 {
            CastlesView { bitmode_x: data, ..self.with_vram(0, data, false, 0) }
        } else if addr == 0x0001 {
            CastlesView { bitmode_y: data, ..self.with_vram(1, data, false, 0) }
        } else if addr == 0x0002 {
            self.with_vram(
                self.pixel_addr(),
                ((data as int / 16) * 17) as u8,
                true,
                self.bitmode_x as int % 4,
            ).after_autoinc()
        } else if addr < 0x8000 {
            self.with_vram(addr as int, data, false, 0)
        } else if addr < 0x8E00 {
            CastlesView { sram: self.sram.update(addr - 0x8000, data), ..self }
        } else if addr < 0x9000 {
            CastlesView { sprite_ram: self.sprite_ram.update(addr - 0x8E00, data), ..self }
        } else if addr < 0x9400 {
            CastlesView { nvram: self.nvram.update(addr as int % 256, data), ..self }
        } else if addr < 0x9C80 {
            self
        } else if addr < 0x9D00 {
            CastlesView { hscroll: data, ..self }
        } else if addr < 0x9D80 {
            CastlesView { vscroll: data, ..self }
        } else if addr < 0x9E00 {
            CastlesView { irq_state: false, ..self }
        } else if addr < 0x9E80 {
            CastlesView { watchdog_frame_count: 0, ..self }
        } else if addr < 0x9F00 {
            CastlesView {
                outlatch0: with_bit(self.outlatch0, (addr % 8) as u8, data & 1 != 0),
                ..self
            }
        } else if addr < 0x9F80 {
            CastlesView {
                outlatch1: with_bit(self.outlatch1, (addr % 8) as u8, data & 0x08 != 0),
                ..self
            }
        } else if addr < 0xA000 {
            let offset = addr as int % 64;
            CastlesView {
                palette_ram: self.palette_ram.update(offset, data),
                palette_rgb: self.palette_rgb.update(
                    offset % 32,
                    palette_color(self.dac, offset, data),
                ),
                ..self
            }
        } else {
            self
        }
    }

    // -- Sprites ------------------------------------------------------------

    /// Byte `k` of sprite `s` in the displayed buffer.
    pub open spec fn sprite_byte(&self, s: int, k: int) -> u8 {
        self.sprite_ram[(if bit(self.outlatch1, 7) { 256int } else { 0 }) + 4 * s + k]
    }

    /// Sprite-layer value of sprite `s` at (`x`, `y`), if it covers it with a
    /// visible pen. Positions wrap at 256; pen 7 is transparent.
    #[verifier::opaque]
    pub open spec fn sprite_pixel(&self, s: int, x: int, y: int) -> Option<u8> {
        let row = (y - (240 - self.sprite_byte(s, 1))) % 256;
        let col = (x - self.sprite_byte(s, 3)) % 256;
        let flip = bit(self.outlatch1, 4);
        let pen = self.sprite_cache.at(
            self.sprite_byte(s, 0) as int,
            if flip { 7 - col } else { col },
            if flip { 15 - row } else { row },
        );
        if row < 16 && col < 8 && pen != 7 {
            Some(((self.sprite_byte(s, 2) as int / 128) * 8) as u8 | pen)
        } else {
            None
        }
    }

    /// The sprite layer with sprite `s` drawn over it.
    pub open spec fn with_sprite(&self, layer: Seq<u8>, s: int) -> Seq<u8> {
        Seq::new(
            layer.len(),
            |k: int|
                match self.sprite_pixel(s, k % 256, k / 256) {
                    Some(v) => v,
                    None => layer[k],
                },
        )
    }

    /// The sprite layer after the first `n` sprites, over transparent.
    pub open spec fn sprite_layer(&self, n: nat) -> Seq<u8>
        decreases n,
    {
        if n == 0 {
            Seq::new(0x10000, |k: int| 0x0Fu8)
        } else {
            self.with_sprite(self.sprite_layer((n - 1) as nat), n - 1)
        }
    }

    // -- Composition --------------------------------------------------------

    /// Bitmap row shown on a scanline, scrolled unless flipped and never above
    /// the first visible one.
    pub open spec fn bitmap_row(&self, scanline: int) -> int {
        let line = (scanline - self.vblank_end) % 256;
        let y = if bit(self.outlatch1, 4) { 255 - line } else { (line + self.vscroll) % 256 };
        if y < self.vblank_end {
            self.vblank_end as int
        } else {
            y
        }
    }

    /// Bitmap pixel at column `x` of a scanline.
    pub open spec fn bitmap_pixel(&self, scanline: int, x: int) -> int {
        let col = (self.hscroll + (if bit(self.outlatch1, 4) { 255 - x } else { x })) % 256;
        let v = self.video_ram[self.bitmap_row(scanline) * 128 + col / 2];
        if col % 2 == 0 {
            v as int % 16
        } else {
            v as int / 16
        }
    }

    /// Palette pen at column `x` of a scanline: the priority PROM picks the
    /// layer and the upper half of the palette.
    pub open spec fn pen_at(&self, scanline: int, x: int) -> int {
        let pix = self.bitmap_pixel(scanline, x);
        let mo = self.sprite_buffer[scanline * 256 + x] as int;
        let pr = self.pri_prom[0x40 + (mo % 8) * 4 + ((mo / 8) % 2) * 2 + pix / 8] as int;
        (if (pr / 2) % 2 == 1 { mo % 16 } else { pix }) + 16 * (pr % 2)
    }

    pub open spec fn row_colors(&self, scanline: int) -> Seq<(u8, u8, u8)> {
        Seq::new(256, |x: int| self.palette_rgb[self.pen_at(scanline, x)])
    }

    /// Picture row of a scanline; past the visible ones there is none.
    pub open spec fn screen_row(&self, scanline: int) -> int {
        (scanline - self.vblank_end) % 256
    }

    /// The board after a scanline is composed. Blanked lines and lines past the
    /// picture draw nothing.
    pub open spec fn after_compose(self, scanline: int) -> CastlesView {
        if self.blanked(scanline) || self.screen_row(scanline) >= 232 {
            self
        } else {
            CastlesView {
                scanline_buffer: with_row(
                    self.scanline_buffer,
                    self.screen_row(scanline) * 768,
                    self.row_colors(scanline),
                ),
                ..self
            }
        }
    }

    /// Whether the interrupt clock rises on a scanline.
    pub open spec fn irq_edge(&self, scanline: int) -> bool {
        let prev = if scanline == 0 { 255 } else { scanline - 1 };
        self.sync_prom[prev] & 8 == 0 && self.sync_prom[scanline] & 8 != 0
    }

    /// The board after the beam reaches the start of a scanline: the interrupt
    /// clock, the sprite layer at the top of the frame, and the row.
    pub open spec fn after_scanline(self, scanline: int) -> CastlesView {
        let clocked = CastlesView { irq_state: self.irq_state || self.irq_edge(scanline), ..self };
        let layered = if scanline == 0 {
            CastlesView { sprite_buffer: clocked.sprite_layer(40), ..clocked }
        } else {
            clocked
        };
        layered.after_compose(scanline)
    }

    /// The board after the work that leads a CPU cycle.
    pub open spec fn after_lead(self) -> CastlesView {
        let line = self.scanline();
        let begun = if (self.clock % FRAME_CYCLES) % 80 == 0 {
            self.after_scanline(line)
        } else {
            self
        };
        CastlesView { in0: with_bit(self.in0, 5, self.blanked(line)), ..begun }
    }

    /// The board after a frame ends: the watchdog counts, and the picture is
    /// whole.
    pub open spec fn after_frame_end(self) -> CastlesView {
        CastlesView {
            scanline_buffer_valid: true,
            watchdog_frame_count: (self.watchdog_frame_count + 1) as u8,
            ..self
        }
    }

    /// Whether the coming frame end resets the machine.
    pub open spec fn watchdog_expires(&self) -> bool {
        self.watchdog_frame_count + 1 >= 8
    }

    /// The CPU's interrupt lines.
    pub open spec fn interrupts(&self) -> InterruptState {
        InterruptState::lines(false, self.irq_state)
    }
}

/// A pixel access latch after a step.
pub open spec fn stepped(v: u8, hold: bool, down: bool) -> u8 {
    if hold {
        v
    } else if down {
        ((v - 1) % 256) as u8
    } else {
        ((v + 1) % 256) as u8
    }
}

/// A counterpart of `stepped`.
fn step_latch(v: u8, hold: bool, down: bool) -> (r: u8)
    ensures
        r == stepped(v, hold, down),
{
    if hold {
        v
    } else if down {
        if v == 0 {
            255
        } else {
            v - 1
        }
    } else if v == 255 {
        0
    } else {
        v + 1
    }
}

fn merge_nibbles(v: u8, data: u8, low: bool, high: bool) -> (r: u8)
    ensures
        r == nibbles(v, data, low, high),
{
    let h: u8 = if high {
        data / 16
    } else {
        v / 16
    };
    let l: u8 = if low {
        data % 16
    } else {
        v % 16
    };
    h * 16 + l
}

/// Bit offset of sprite column `x`: two four-pixel halves.
pub open spec fn sprite_column(x: int) -> int {
    if x < 4 {
        x
    } else {
        x + 4
    }
}

/// Sprites: 8 by 16, three planes over the two halves of the ROM. The top plane
/// is the low nibble of the first half, the others the nibbles of the second.
fn sprite_layout() -> (l: GfxLayout)
    ensures
        l.plane_offsets@ == seq![0x10004usize, 0x10000, 4],
        l.x_offsets@ == Seq::new(8, |x: int| sprite_column(x) as usize),
        l.y_offsets@ == Seq::new(16, |y: int| (16 * y) as usize),
        l.char_increment == 256,
{
    let plane_offsets: Vec<usize> = vec![0x10004, 0x10000, 4];
    let x_offsets: Vec<usize> = vec![0, 1, 2, 3, 8, 9, 10, 11];
    let y_offsets: Vec<usize> = vec![
        0, 16, 32, 48, 64, 80, 96, 112, 128, 144, 160, 176, 192, 208, 224, 240,
    ];
    assert(plane_offsets@ =~= seq![0x10004usize, 0x10000, 4]);
    assert(x_offsets@ =~= Seq::new(8, |x: int| sprite_column(x) as usize));
    assert(y_offsets@ =~= Seq::new(16, |y: int| (16 * y) as usize));
    GfxLayout { plane_offsets, x_offsets, y_offsets, char_increment: 256 }
}

/// The cache holds the 256 sprites of the graphics ROM.
pub open spec fn decodes_sprites(cache: GfxCache, rom: Seq<u8>) -> bool {
    &&& cache.wf()
    &&& cache.spec_count() == 256
    &&& cache.spec_width() == 8
    &&& cache.spec_height() == 16
    &&& forall|c: int, x: int, y: int|
        0 <= c < 256 && 0 <= x < 8 && 0 <= y < 16 ==> #[trigger] cache.at(c, x, y) == planar_pen(
            rom,
            256 * c + 16 * y + sprite_column(x),
            seq![0x10004usize, 0x10000, 4],
            3,
        )
}

impl CrystalCastlesBoard {
    pub open spec fn wf(&self) -> bool {
        self@.wf()
    }

    /// Write to the bitmap through the write-protect PROM. The bitmap repeats
    /// every 32 KB, and the PROM sees the low two pixel lines.
    pub fn write_vram(&mut self, addr: u16, data: u8, bitmd: bool, pixba: u8)
        requires
            old(self).wf(),
        ensures
            final(self).wf(),
            final(self)@ == old(self)@.with_vram(addr as int, data, bitmd, pixba as int),
    {
        let at: usize = (addr % 0x8000) as usize / 2 * 2;
        let first: usize = if addr < 0x1000 {
            128
        } else {
            0
        };
        let mode: usize = if bitmd {
            0
        } else {
            16
        };
        let index: usize = first + ((addr / 0x400) % 4) as usize * 32 + mode + (addr % 2) as usize
            * 4 + (pixba % 4) as usize;
        let wp: u8 = self.wp_prom[index];
        let left: u8 = merge_nibbles(self.video_ram[at], data, wp & 1 == 0, wp & 2 == 0);
        let right: u8 = merge_nibbles(self.video_ram[at + 1], data, wp & 4 == 0, wp & 8 == 0);
        self.video_ram[at] = left;
        self.video_ram[at + 1] = right;
    }

    /// Step the pixel access latches after an access.
    fn bitmode_autoinc(&mut self)
        ensures
            final(self)@ == old(self)@.after_autoinc(),
    {
        self.bitmode_x = step_latch(
            self.bitmode_x,
            bit_is_set(self.outlatch1, 0),
            bit_is_set(self.outlatch1, 2),
        );
        self.bitmode_y = step_latch(
            self.bitmode_y,
            bit_is_set(self.outlatch1, 1),
            bit_is_set(self.outlatch1, 3),
        );
    }

    /// Read one pixel at the latches.
    fn bitmode_r(&mut self) -> (v: u8)
        requires
            old(self).wf(),
        ensures
            final(self).wf(),
            v == old(self)@.pixel_byte(),
            final(self)@ == old(self)@.after_autoinc(),
    {
        let addr: usize = self.bitmode_y as usize * 128 + self.bitmode_x as usize / 2;
        let byte: u8 = self.video_ram[addr];
        let pen: u8 = if self.bitmode_x % 2 == 0 {
            byte % 16
        } else {
            byte / 16
        };
        self.bitmode_autoinc();
        pen * 16 + 15
    }

    /// Write one pixel at the latches.
    fn bitmode_w(&mut self, data: u8)
        requires
            old(self).wf(),
        ensures
            final(self).wf(),
            final(self)@ == old(self)@.after_write(2, data),
    {
        let addr: u16 = self.bitmode_y as u16 * 128 + self.bitmode_x as u16 / 2;
        let pixba: u8 = self.bitmode_x % 4;
        self.write_vram(addr, (data / 16) * 17, true, pixba);
        self.bitmode_autoinc();
    }

    /// Set a pixel access latch; the write goes through to the bitmap too.
    fn bitmode_addr_w(&mut self, offset: u16, data: u8)
        requires
            old(self).wf(),
            offset < 2,
        ensures
            final(self).wf(),
            final(self)@ == old(self)@.after_write(offset, data),
    {
        self.write_vram(offset, data, false, 0);
        if offset == 0 {
            self.bitmode_x = data;
        } else {
            self.bitmode_y = data;
        }
    }

    /// Recompute the colour of one palette entry.
    pub fn update_palette_entry(&mut self, offset: usize)
        requires
            old(self).wf(),
            offset < 64,
        ensures
            final(self).wf(),
            final(self)@ == (CastlesView {
                palette_rgb: old(self)@.palette_rgb.update(
                    offset as int % 32,
                    palette_color(old(self)@.dac, offset as int, old(self)@.palette_ram[offset as int]),
                ),
                ..old(self)@
            }),
    {
        let data: u8 = self.palette_ram[offset];
        let r: usize = (data / 64) as usize + 4 * ((offset / 32) % 2);
        let b: usize = ((data / 8) % 8) as usize;
        let g: usize = (data % 8) as usize;
        self.palette_rgb[offset % 32] = (self.dac[7 - r], self.dac[7 - g], self.dac[7 - b]);
    }

    /// Draw one sprite of the displayed buffer into the sprite layer.
    fn draw_sprite(&mut self, s: usize)
        requires
            old(self).wf(),
            s < 40,
        ensures
            final(self).wf(),
            final(self)@ == (CastlesView {
                sprite_buffer: old(self)@.with_sprite(old(self)@.sprite_buffer, s as int),
                ..old(self)@
            }),
    {
        let ghost start = self@;
        let buf: usize = if bit_is_set(self.outlatch1, 7) {
            256
        } else {
            0
        };
        let flip: bool = bit_is_set(self.outlatch1, 4);
        let offs: usize = buf + 4 * s;
        let which: usize = self.sprite_ram[offs] as usize;
        let sy: usize = (496 - self.sprite_ram[offs + 1] as usize) % 256;
        let base: u8 = (self.sprite_ram[offs + 2] / 128) * 8;
        let sx: usize = self.sprite_ram[offs + 3] as usize;
        proof {
            lemma_cells_in_range(sy as int, sx as int);
        }
        let mut row: usize = 0;
        while row < 16
            invariant
                row <= 16,
                s < 40,
                start.wf(),
                flip == bit(start.outlatch1, 4),
                which == start.sprite_byte(s as int, 0),
                sy == (240 - start.sprite_byte(s as int, 1)) % 256,
                base == (start.sprite_byte(s as int, 2) as int / 128) * 8,
                sx == start.sprite_byte(s as int, 3),
                self@ == (CastlesView { sprite_buffer: self@.sprite_buffer, ..start }),
                self@.sprite_buffer.len() == 0x10000,
                forall|k: int|
                    0 <= k < 0x10000 ==> #[trigger] self@.sprite_buffer[k] == if line_of(sy as int, k) < row {
                        start.with_sprite(start.sprite_buffer, s as int)[k]
                    } else {
                        start.sprite_buffer[k]
                    },
            decreases 16 - row,
        {
            proof {
                lemma_cells_in_range(sy as int, sx as int);
            }
            let mut col: usize = 0;
            while col < 8
                invariant
                    row < 16,
                    col <= 8,
                    s < 40,
                    start.wf(),
                    flip == bit(start.outlatch1, 4),
                    which == start.sprite_byte(s as int, 0),
                    sy == (240 - start.sprite_byte(s as int, 1)) % 256,
                    base == (start.sprite_byte(s as int, 2) as int / 128) * 8,
                    sx == start.sprite_byte(s as int, 3),
                    self@ == (CastlesView { sprite_buffer: self@.sprite_buffer, ..start }),
                    self@.sprite_buffer.len() == 0x10000,
                    forall|k: int|
                        0 <= k < 0x10000 ==> #[trigger] self@.sprite_buffer[k] == if line_of(sy as int, k) < row || (line_of(sy as int, k) == row && column_of(sx as int, k) < col) {
                            start.with_sprite(start.sprite_buffer, s as int)[k]
                        } else {
                            start.sprite_buffer[k]
                        },
                decreases 8 - col,
            {
                let r: usize = if flip {
                    15 - row
                } else {
                    row
                };
                let c: usize = if flip {
                    7 - col
                } else {
                    col
                };
                let pen: u8 = self.sprite_cache.pixel(which, c, r);
                let dy: usize = (sy + row) % 256;
                let dx: usize = (sx + col) % 256;
                proof {
                    lemma_sprite_cell(sy as int, sx as int, row as int, col as int);
                    start.lemma_sprite_pixel(s as int, sy as int, sx as int, dy * 256 + dx);
                    assert(start.sprite_buffer[dy * 256 + dx] == self@.sprite_buffer[dy * 256 + dx]);
                }
                if pen != 7 {
                    self.sprite_buffer[dy * 256 + dx] = base | pen;
                }
                col += 1;
            }
            proof {
                assert forall|k: int| 0 <= k < 0x10000 && line_of(sy as int, k) == row && column_of(sx as int, k) >= 8 implies
                    #[trigger] start.with_sprite(start.sprite_buffer, s as int)[k] == start.sprite_buffer[k] by {
                    start.lemma_sprite_pixel(s as int, sy as int, sx as int, k);
                }
                assert forall|k: int| 0 <= k < 0x10000 implies #[trigger] self@.sprite_buffer[k] == if line_of(sy as int, k) < row + 1 {
                    start.with_sprite(start.sprite_buffer, s as int)[k]
                } else {
                    start.sprite_buffer[k]
                } by {
                    if line_of(sy as int, k) == row && column_of(sx as int, k) >= 8 {
                        assert(start.with_sprite(start.sprite_buffer, s as int)[k] == start.sprite_buffer[k]);
                    }
                }
            }
            row += 1;
        }
        proof {
            assert forall|k: int| 0 <= k < 0x10000 implies #[trigger] self@.sprite_buffer[k]
                == start.with_sprite(start.sprite_buffer, s as int)[k] by {
                if line_of(sy as int, k) >= 16 {
                    start.lemma_sprite_pixel(s as int, sy as int, sx as int, k);
                }
            }
            assert(self@.sprite_buffer =~= start.with_sprite(start.sprite_buffer, s as int));
        }
    }

    /// Draw the displayed buffer's forty sprites into the sprite layer.
    pub fn render_sprites_to_buffer(&mut self)
        requires
            old(self).wf(),
        ensures
            final(self).wf(),
            final(self)@ == (CastlesView { sprite_buffer: old(self)@.sprite_layer(40), ..old(self)@ }),
    {
        let ghost start = self@;
        fill(&mut self.sprite_buffer, 0x0F);
        assert(self@.sprite_buffer =~= start.sprite_layer(0));
        let mut s: usize = 0;
        while s < 40
            invariant
                s <= 40,
                start.wf(),
                self.wf(),
                self@ == (CastlesView { sprite_buffer: start.sprite_layer(s as nat), ..start }),
            decreases 40 - s,
        {
            let ghost layer = self@.sprite_buffer;
            let ghost before = self@;
            self.draw_sprite(s);
            proof {
                assert(self@.sprite_buffer =~= start.with_sprite(layer, s as int)) by {
                    assert forall|k: int| 0 <= k < 0x10000 implies before.sprite_pixel(s as int, k % 256, k / 256)
                        == #[trigger] start.sprite_pixel(s as int, k % 256, k / 256) by {
                        reveal(CastlesView::sprite_pixel);
                    }
                }
            }
            s += 1;
        }
    }

    /// Compose one scanline into the picture.
    pub fn render_scanline_to_buffer(&mut self, hw_scanline: u8)
        requires
            old(self).wf(),
        ensures
            final(self).wf(),
            final(self)@ == old(self)@.after_compose(hw_scanline as int),
    {
        if self.sync_prom[hw_scanline as usize] & 1 != 0 {
            return;
        }
        let line: usize = (hw_scanline as usize + 256 - self.vblank_end as usize) % 256;
        assert(line == self@.screen_row(hw_scanline as int));
        if line >= VISIBLE_ROWS {
            return;
        }
        let flip: bool = bit_is_set(self.outlatch1, 4);
        let mut effy: usize = if flip {
            255 - line
        } else {
            (line + self.vscroll as usize) % 256
        };
        if effy < self.vblank_end as usize {
            effy = self.vblank_end as usize;
        }
        assert(effy == self@.bitmap_row(hw_scanline as int));
        let mut colors: Vec<(u8, u8, u8)> = Vec::new();
        let mut x: usize = 0;
        while x < 256
            invariant
                x <= 256,
                self.wf(),
                flip == bit(self@.outlatch1, 4),
                effy == self@.bitmap_row(hw_scanline as int),
                effy <= 255,
                colors@ == self@.row_colors(hw_scanline as int).take(x as int),
            decreases 256 - x,
        {
            let shown: usize = if flip {
                255 - x
            } else {
                x
            };
            let effx: usize = (self.hscroll as usize + shown) % 256;
            let byte: u8 = self.video_ram[effy * 128 + effx / 2];
            let pix: u8 = if effx % 2 == 0 {
                byte % 16
            } else {
                byte / 16
            };
            let mopix: u8 = self.sprite_buffer[hw_scanline as usize * 256 + x];
            let prindex: usize = 0x40 + (mopix % 8) as usize * 4 + ((mopix / 8) % 2) as usize * 2 + (
            pix / 8) as usize;
            let pr: u8 = self.pri_prom[prindex];
            let base: u8 = if (pr / 2) % 2 == 1 {
                mopix % 16
            } else {
                pix
            };
            let pen: usize = base as usize + 16 * (pr % 2) as usize;
            colors.push(self.palette_rgb[pen]);
            x += 1;
            assert(colors@ =~= self@.row_colors(hw_scanline as int).take(x as int));
        }
        assert(colors@ =~= self@.row_colors(hw_scanline as int));
        put_row(&mut self.scanline_buffer, line * 768, &colors);
    }
}

/// Row of layer cell `k` counted down from `sy`, wrapping.
#[verifier::opaque]
pub open spec fn line_of(sy: int, k: int) -> int {
    (k / 256 - sy) % 256
}

/// Column of layer cell `k` counted right from `sx`, wrapping.
#[verifier::opaque]
pub open spec fn column_of(sx: int, k: int) -> int {
    (k % 256 - sx) % 256
}

proof fn lemma_cells_in_range(sy: int, sx: int)
    ensures
        forall|k: int| 0 <= #[trigger] line_of(sy, k) < 256,
        forall|k: int| 0 <= #[trigger] column_of(sx, k) < 256,
{
    reveal(line_of);
    reveal(column_of);
}

/// Exactly one layer cell lies at a given row and column of a sprite.
proof fn lemma_sprite_cell(sy: int, sx: int, row: int, col: int)
    requires
        0 <= sy < 256,
        0 <= sx < 256,
        0 <= row < 256,
        0 <= col < 256,
    ensures
        ({
            let k = ((sy + row) % 256) * 256 + (sx + col) % 256;
            &&& 0 <= k < 0x10000
            &&& line_of(sy, k) == row
            &&& column_of(sx, k) == col
        }),
        forall|k: int|
            0 <= k < 0x10000 && #[trigger] line_of(sy, k) == row && #[trigger] column_of(sx, k) == col ==> k
                == ((sy + row) % 256) * 256 + (sx + col) % 256,
{
    reveal(line_of);
    reveal(column_of);
    let dy = (sy + row) % 256;
    let dx = (sx + col) % 256;
    let cell = dy * 256 + dx;
    assert(cell / 256 == dy && cell % 256 == dx);
    assert((dy - sy) % 256 == row);
    assert((dx - sx) % 256 == col);
    assert forall|k: int|
        0 <= k < 0x10000 && #[trigger] line_of(sy, k) == row && #[trigger] column_of(sx, k) == col implies k
        == cell by {
        lemma_unwrap(k / 256, sy, row);
        lemma_unwrap(k % 256, sx, col);
    }
}

proof fn lemma_unwrap(a: int, s: int, d: int)
    requires
        0 <= a < 256,
        0 <= s < 256,
        0 <= d < 256,
        (a - s) % 256 == d,
    ensures
        a == (s + d) % 256,
{
}

impl CastlesView {
    /// A sprite's pixel in terms of the cell's place within it.
    proof fn lemma_sprite_pixel(&self, s: int, sy: int, sx: int, k: int)
        requires
            sy == (240 - self.sprite_byte(s, 1)) % 256,
            sx == self.sprite_byte(s, 3),
            0 <= k < 0x10000,
        ensures
            ({
                let row = line_of(sy, k);
                let col = column_of(sx, k);
                let flip = bit(self.outlatch1, 4);
                let pen = self.sprite_cache.at(
                    self.sprite_byte(s, 0) as int,
                    if flip { 7 - col } else { col },
                    if flip { 15 - row } else { row },
                );
                &&& 0 <= row < 256
                &&& 0 <= col < 256
                &&& self.sprite_pixel(s, k % 256, k / 256) == if row < 16 && col < 8 && pen != 7 {
                    Some(((self.sprite_byte(s, 2) as int / 128) * 8) as u8 | pen)
                } else {
                    None
                }
            }),
    {
        reveal(CastlesView::sprite_pixel);
        reveal(line_of);
        reveal(column_of);
        let v = self.sprite_byte(s, 1) as int;
        let y = k / 256;
        assert((y - (240 - v)) % 256 == (y - (240 - v) % 256) % 256) by {
            assert((240 - v) == 256 * ((240 - v) / 256) + (240 - v) % 256);
        }
    }
}

impl CastlesView {
    /// The state a board powers on in.
    pub open spec fn powered_on(&self, dac: Seq<u8>) -> bool {
        &&& self.video_ram == zeros(0x8000)
        &&& self.sram == zeros(0xE00)
        &&& self.sprite_ram == zeros(0x200)
        &&& self.nvram == zeros(0x100)
        &&& self.rom_bank0 == zeros(0x4000)
        &&& self.rom_bank1 == zeros(0x4000)
        &&& self.rom_fixed == zeros(0x2000)
        &&& self.gfx_rom == zeros(0x4000)
        &&& forall|c: int, x: int, y: int|
            0 <= c < 256 && 0 <= x < 8 && 0 <= y < 16 ==> #[trigger] self.sprite_cache.at(c, x, y) == 0
        &&& self.sync_prom == zeros(0x100)
        &&& self.wp_prom == zeros(0x100)
        &&& self.pri_prom == zeros(0x100)
        &&& self.palette_ram == zeros(64)
        &&& self.palette_rgb == Seq::new(32, |i: int| (0u8, 0u8, 0u8))
        &&& self.dac == dac
        &&& self.bitmode_x == 0
        &&& self.bitmode_y == 0
        &&& self.hscroll == 0
        &&& self.vscroll == 0
        &&& self.outlatch0 == 0
        &&& self.outlatch1 == 0
        &&& self.in0 == 0xDF
        &&& self.dip_switches == 0
        &&& self.leta == zeros(4)
        &&& !self.irq_state
        &&& self.clock == 0
        &&& self.watchdog_frame_count == 0
        &&& self.vblank_end == 24
        &&& self.scanline_buffer == zeros(3 * 256 * 232)
        &&& !self.scanline_buffer_valid
        &&& self.sprite_buffer == zeros(0x10000)
    }
}

/// First scanline that the sync PROM does not blank, 24 if it blanks all.
pub open spec fn first_visible(sync: Seq<u8>, from: int) -> int
    decreases 256 - from,
{
    if from >= 256 {
        24
    } else if sync[from] & 1 == 0 {
        from
    } else {
        first_visible(sync, from + 1)
    }
}

/// The region images of a ROM set.
pub struct CastlesRoms {
    pub program: Vec<u8>,
    pub gfx: Vec<u8>,
    pub sync: Vec<u8>,
    pub wp: Vec<u8>,
    pub pri: Vec<u8>,
}

impl CastlesRoms {
    /// Every image has its region's size.
    pub open spec fn wf(&self) -> bool {
        &&& self.program@.len() == 0xA000
        &&& self.gfx@.len() == 0x4000
        &&& self.sync@.len() == 0x100
        &&& self.wp@.len() == 0x100
        &&& self.pri@.len() == 0x100
    }
}

impl CrystalCastlesBoard {
    /// A board as it powers on. `dac` holds the colour ladder's output levels.
    pub fn new(dac: Vec<u8>) -> (b: CrystalCastlesBoard)
        requires
            dac@.len() == 8,
        ensures
            b.wf(),
            b@.powered_on(dac@),
    {
        let mut palette_rgb: Vec<(u8, u8, u8)> = Vec::new();
        let mut i: usize = 0;
        while i < 32
            invariant
                i <= 32,
                palette_rgb@.len() == i,
                forall|k: int| 0 <= k < i ==> #[trigger] palette_rgb@[k] == (0u8, 0u8, 0u8),
            decreases 32 - i,
        {
            palette_rgb.push((0, 0, 0));
            i += 1;
        }
        assert(palette_rgb@ =~= Seq::new(32, |i: int| (0u8, 0u8, 0u8)));
        CrystalCastlesBoard {
            video_ram: zeroed(0x8000),
            sram: zeroed(0xE00),
            sprite_ram: zeroed(0x200),
            nvram: zeroed(0x100),
            rom_bank0: zeroed(0x4000),
            rom_bank1: zeroed(0x4000),
            rom_fixed: zeroed(0x2000),
            gfx_rom: zeroed(0x4000),
            sprite_cache: GfxCache::new(256, 8, 16),
            sync_prom: zeroed(0x100),
            wp_prom: zeroed(0x100),
            pri_prom: zeroed(0x100),
            bitmode_x: 0,
            bitmode_y: 0,
            hscroll: 0,
            vscroll: 0,
            palette_ram: zeroed(64),
            palette_rgb,
            dac,
            outlatch0: 0,
            outlatch1: 0,
            in0: 0xDF,
            dip_switches: 0,
            leta: zeroed(4),
            irq_state: false,
            clock: 0,
            watchdog_frame_count: 0,
            vblank_end: 24,
            scanline_buffer: zeroed(3 * 256 * 232),
            scanline_buffer_valid: false,
            sprite_buffer: zeroed(0x10000),
        }
    }

    /// Scanline that the beam is on.
    pub fn current_scanline(&self) -> (n: u16)
        ensures
            n == self@.scanline(),
            n < 256,
    {
        ((self.clock % FRAME_CYCLES) / 80) as u16
    }

    /// Decode the sprites out of the graphics ROM.
    pub fn decode_sprite_cache(&mut self)
        requires
            old(self).wf(),
        ensures
            final(self).wf(),
            decodes_sprites(final(self)@.sprite_cache, old(self)@.gfx_rom),
            final(self)@ == (CastlesView { sprite_cache: final(self)@.sprite_cache, ..old(self)@ }),
    {
        let layout: GfxLayout = sprite_layout();
        proof {
            assert(layout.plane_offsets@.len() == 3);
            assert forall|x: int, y: int, p: int|
                0 <= x < layout.x_offsets@.len() && 0 <= y < layout.y_offsets@.len() && 0 <= p
                    < layout.plane_offsets@.len() implies #[trigger] layout.x_offsets@[x]
                + #[trigger] layout.y_offsets@[y] + #[trigger] layout.plane_offsets@[p] < 0x10100 by {
                assert(layout.plane_offsets@[p] <= 0x10004);
                assert(layout.x_offsets@[x] <= 11);
            }
            layout.lemma_fits(0x4000, 256, 256, 0x10100);
        }
        self.sprite_cache = decode_gfx(self.gfx_rom.as_slice(), 256, &layout);
        proof {
            assert forall|c: int, x: int, y: int|
                0 <= c < 256 && 0 <= x < 8 && 0 <= y < 16 implies #[trigger] self@.sprite_cache.at(c, x, y)
                == planar_pen(
                old(self)@.gfx_rom,
                256 * c + 16 * y + sprite_column(x),
                seq![0x10004usize, 0x10000, 4],
                3,
            ) by {
                assert(layout.pixel_bit(c, x, y) == 256 * c + 16 * y + sprite_column(x));
            }
        }
    }

    /// Put the region images into the board, decode the sprites and find the
    /// first visible scanline.
    pub fn load_rom_set(&mut self, roms: CastlesRoms)
        requires
            old(self).wf(),
            roms.wf(),
        ensures
            final(self).wf(),
            decodes_sprites(final(self)@.sprite_cache, roms.gfx@),
            final(self)@.vblank_end == first_visible(roms.sync@, 0),
            final(self)@ == (CastlesView {
                rom_bank0: roms.program@.subrange(0x0000, 0x4000),
                rom_fixed: roms.program@.subrange(0x4000, 0x6000),
                rom_bank1: roms.program@.subrange(0x6000, 0xA000),
                gfx_rom: roms.gfx@,
                sprite_cache: final(self)@.sprite_cache,
                sync_prom: roms.sync@,
                wp_prom: roms.wp@,
                pri_prom: roms.pri@,
                vblank_end: final(self)@.vblank_end,
                ..old(self)@
            }),
    {
        self.rom_bank0 = copied_range(roms.program.as_slice(), 0x0000, 0x4000);
        self.rom_fixed = copied_range(roms.program.as_slice(), 0x4000, 0x6000);
        self.rom_bank1 = copied_range(roms.program.as_slice(), 0x6000, 0xA000);
        self.gfx_rom = roms.gfx;
        self.decode_sprite_cache();
        self.wp_prom = roms.wp;
        self.pri_prom = roms.pri;
        let sync: Vec<u8> = roms.sync;
        let mut i: usize = 0;
        while i < 256 && sync[i] & 1 != 0
            invariant
                i <= 256,
                sync@.len() == 256,
                first_visible(sync@, 0) == first_visible(sync@, i as int),
            decreases 256 - i,
        {
            i += 1;
        }
        self.vblank_end = if i < 256 {
            i as u8
        } else {
            24
        };
        self.sync_prom = sync;
    }

    /// A CPU read. What a POKEY is to answer is handed back.
    pub fn read(&mut self, addr: u16) -> (r: CastlesRead)
        requires
            old(self).wf(),
        ensures
            final(self).wf(),
            r == old(self)@.read_access(addr),
            final(self)@ == old(self)@.after_read(addr),
    {
        let a: usize = addr as usize;
        if addr == 0x0002 {
            return CastlesRead::Value(self.bitmode_r());
        }
        if a < 0x8000 {
            CastlesRead::Value(self.video_ram[a])
        } else if a < 0x8E00 {
            CastlesRead::Value(self.sram[a - 0x8000])
        } else if a < 0x9000 {
            CastlesRead::Value(self.sprite_ram[a - 0x8E00])
        } else if a < 0x9400 {
            CastlesRead::Value(self.nvram[a % 256])
        } else if a < 0x9600 {
            CastlesRead::Value(self.leta[a % 4])
        } else if a < 0x9800 {
            CastlesRead::Value(self.in0)
        } else if a < 0x9A00 {
            CastlesRead::Pokey1((addr % 16) as u8)
        } else if a < 0x9C00 {
            if addr % 16 == 8 {
                CastlesRead::Value(self.dip_switches)
            } else {
                CastlesRead::Pokey2((addr % 16) as u8)
            }
        } else if a < 0xA000 {
            CastlesRead::Value(0xFF)
        } else if a >= 0xE000 {
            CastlesRead::Value(self.rom_fixed[a - 0xE000])
        } else if bit_is_set(self.outlatch0, 7) {
            CastlesRead::Value(self.rom_bank1[a - 0xA000])
        } else {
            CastlesRead::Value(self.rom_bank0[a - 0xA000])
        }
    }

    /// A write to the control registers at the top of the I/O window.
    fn write_control(&mut self, addr: u16, data: u8)
        requires
            old(self).wf(),
            0x9C80 <= addr < 0xA000,
        ensures
            final(self).wf(),
            final(self)@ == old(self)@.after_write(addr, data),
    {
        if addr < 0x9D00 {
            self.hscroll = data;
        } else if addr < 0x9D80 {
            self.vscroll = data;
        } else if addr < 0x9E00 {
            self.irq_state = false;
        } else if addr < 0x9E80 {
            self.watchdog_frame_count = 0;
        } else if addr < 0x9F00 {
            self.outlatch0 = drive_bit(self.outlatch0, (addr % 8) as u8, data & 1 != 0);
        } else if addr < 0x9F80 {
            self.outlatch1 = drive_bit(self.outlatch1, (addr % 8) as u8, data & 0x08 != 0);
        } else {
            let offset: usize = (addr % 64) as usize;
            self.palette_ram[offset] = data;
            self.update_palette_entry(offset);
        }
    }

    /// A CPU write. What goes to a POKEY is handed back.
    pub fn write(&mut self, addr: u16, data: u8) -> (w: CastlesWrite)
        requires
            old(self).wf(),
        ensures
            final(self).wf(),
            w == if 0x9800 <= addr < 0x9A00 {
                CastlesWrite::Pokey1 { register: (addr % 16) as u8, data }
            } else if 0x9A00 <= addr < 0x9C00 {
                CastlesWrite::Pokey2 { register: (addr % 16) as u8, data }
            } else {
                CastlesWrite::Done
            },
            final(self)@ == old(self)@.after_write(addr, data),
    {
        let a: usize = addr as usize;
        if a < 2 {
            self.bitmode_addr_w(addr, data);
        } else if a == 2 {
            self.bitmode_w(data);
        } else if a < 0x8000 {
            self.write_vram(addr, data, false, 0);
        } else if a < 0x8E00 {
            self.sram[a - 0x8000] = data;
        } else if a < 0x9000 {
            self.sprite_ram[a - 0x8E00] = data;
        } else if a < 0x9400 {
            self.nvram[a % 256] = data;
        } else if 0x9800 <= a && a < 0x9A00 {
            return CastlesWrite::Pokey1 { register: (addr % 16) as u8, data };
        } else if 0x9A00 <= a && a < 0x9C00 {
            return CastlesWrite::Pokey2 { register: (addr % 16) as u8, data };
        } else if 0x9C80 <= a && a < 0xA000 {
            self.write_control(addr, data);
        }
        CastlesWrite::Done
    }

    /// No device stops the CPU.
    pub fn is_halted(&self) -> (halted: bool)
        ensures
            !halted,
    {
        false
    }

    pub fn check_interrupts(&self) -> (s: InterruptState)
        ensures
            s == InterruptState::lines(false, self@.irq_state),
            s == self@.interrupts(),
    {
        InterruptState::of_lines(false, self.irq_state)
    }

    /// Whether the trackball counters move on in the coming cycle.
    pub fn trackballs_due(&self) -> (due: bool)
        ensures
            due == (self@.clock % 200 == 0),
    {
        self.clock % 200 == 0
    }

    /// Board work that leads one CPU cycle.
    pub fn begin_cycle(&mut self)
        requires
            old(self).wf(),
        ensures
            final(self).wf(),
            final(self)@ == old(self)@.after_lead(),
    {
        let ghost start = self@;
        let frame_cycle: u64 = self.clock % FRAME_CYCLES;
        let line: u8 = (frame_cycle / 80) as u8;
        if frame_cycle % 80 == 0 {
            let prev: u8 = if line == 0 {
                255
            } else {
                line - 1
            };
            if self.sync_prom[prev as usize] & 8 == 0 && self.sync_prom[line as usize] & 8 != 0 {
                self.irq_state = true;
            }
            assert(self@ == (CastlesView { irq_state: start.irq_state || start.irq_edge(line as int), ..start }));
            if line == 0 {
                self.render_sprites_to_buffer();
            }
            self.render_scanline_to_buffer(line);
            assert(self@ == start.after_scanline(line as int));
        }
        self.in0 = drive_bit(self.in0, 5, self.sync_prom[line as usize] & 1 != 0);
    }

    /// Count a CPU cycle.
    pub fn end_cycle(&mut self)
        requires
            old(self)@.clock < u64::MAX,
        ensures
            final(self)@ == (CastlesView { clock: (old(self)@.clock + 1) as u64, ..old(self)@ }),
    {
        self.clock = self.clock + 1;
    }

    /// Frame end: the picture is complete, and the watchdog counts. Whether the
    /// machine must reset.
    pub fn end_frame(&mut self) -> (expired: bool)
        requires
            old(self)@.watchdog_frame_count < 255,
        ensures
            final(self)@ == (CastlesView {
                scanline_buffer_valid: true,
                watchdog_frame_count: (old(self)@.watchdog_frame_count + 1) as u8,
                ..old(self)@
            }),
            expired == (old(self)@.watchdog_frame_count + 1 >= 8),
            final(self)@ == old(self)@.after_frame_end(),
            expired == old(self)@.watchdog_expires(),
    {
        self.scanline_buffer_valid = true;
        self.watchdog_frame_count = self.watchdog_frame_count + 1;
        self.watchdog_frame_count >= 8
    }

    /// The picture, black before the first frame is complete.
    pub fn render_frame(&self, buffer: &mut Vec<u8>)
        requires
            self.wf(),
            old(buffer)@.len() == self@.scanline_buffer.len(),
        ensures
            final(buffer)@ == if self@.scanline_buffer_valid {
                self@.scanline_buffer
            } else {
                zeros(3 * 256 * 232)
            },
    {
        if self.scanline_buffer_valid {
            overlay(buffer, self.scanline_buffer.as_slice());
            assert(buffer@ =~= self@.scanline_buffer);
        } else {
            fill(buffer, 0);
            assert(buffer@ =~= zeros(3 * 256 * 232));
        }
    }

    /// Reset the board. Memories, palette and switches stay.
    pub fn reset(&mut self)
        requires
            old(self).wf(),
        ensures
            final(self).wf(),
            final(self)@ == (CastlesView {
                irq_state: false,
                watchdog_frame_count: 0,
                outlatch0: 0,
                outlatch1: 0,
                bitmode_x: 0,
                bitmode_y: 0,
                hscroll: 0,
                vscroll: 0,
                in0: 0xDF,
                scanline_buffer: zeros(3 * 256 * 232),
                scanline_buffer_valid: false,
                sprite_buffer: zeros(0x10000),
                ..old(self)@
            }),
    {
        self.irq_state = false;
        self.watchdog_frame_count = 0;
        self.outlatch0 = 0;
        self.outlatch1 = 0;
        self.bitmode_x = 0;
        self.bitmode_y = 0;
        self.hscroll = 0;
        self.vscroll = 0;
        self.in0 = 0xDF;
        self.scanline_buffer = zeroed(3 * 256 * 232);
        self.scanline_buffer_valid = false;
        self.sprite_buffer = zeroed(0x10000);
    }

    /// Work every palette colour out again after a load, and mark the picture
    /// stale. The upper half of the palette RAM is applied last.
    pub fn after_load(&mut self)
        requires
            old(self).wf(),
        ensures
            final(self).wf(),
            final(self)@ == (CastlesView {
                palette_rgb: Seq::new(
                    32,
                    |i: int| palette_color(old(self)@.dac, i + 32, old(self)@.palette_ram[i + 32]),
                ),
                scanline_buffer_valid: false,
                ..old(self)@
            }),
    {
        let ghost start = self@;
        let mut i: usize = 0;
        while i < 64
            invariant
                i <= 64,
                start.wf(),
                self.wf(),
                self@ == (CastlesView { palette_rgb: self@.palette_rgb, ..start }),
                forall|k: int|
                    0 <= k < 32 && k + 32 < i ==> #[trigger] self@.palette_rgb[k] == palette_color(
                        start.dac,
                        k + 32,
                        start.palette_ram[k + 32],
                    ),
            decreases 64 - i,
        {
            self.update_palette_entry(i);
            i += 1;
        }
        self.scanline_buffer_valid = false;
        assert(self@.palette_rgb =~= Seq::new(
            32,
            |i: int| palette_color(start.dac, i + 32, start.palette_ram[i + 32]),
        ));
    }

    /// The battery-backed memory.
    pub fn save_nvram(&self) -> (b: &[u8])
        ensures
            b@ == self@.nvram,
    {
        self.nvram.as_slice()
    }

    /// Copy saved bytes into it; what does not fit is dropped.
    pub fn load_nvram(&mut self, data: &[u8])
        ensures
            final(self)@ == (CastlesView { nvram: overlaid(old(self)@.nvram, data@), ..old(self)@ }),
    {
        overlay(&mut self.nvram, data);
    }
}

/// Bytes of this part of a saved state.
pub const MEMORY_LEN: usize = 37191;

impl CastlesView {
    /// The first part of a saved state: memories, registers, latches and inputs.
    pub open spec fn memory_bytes(&self) -> Seq<u8> {
        Seq::<u8>::empty() + self.video_ram + self.sram + self.sprite_ram + self.nvram + seq![self.bitmode_x] + seq![self.bitmode_y] + seq![self.hscroll] + seq![self.vscroll] + self.palette_ram + seq![self.outlatch0] + seq![self.outlatch1] + seq![self.in0]
    }

    /// The board with that part replaced by saved bytes.
    pub open spec fn with_memory(self, b: Seq<u8>) -> CastlesView {
        CastlesView {
            video_ram: b.subrange(0, 32768),
            sram: b.subrange(32768, 36352),
            sprite_ram: b.subrange(36352, 36864),
            nvram: b.subrange(36864, 37120),
            bitmode_x: b[37120],
            bitmode_y: b[37121],
            hscroll: b[37122],
            vscroll: b[37123],
            palette_ram: b.subrange(37124, 37188),
            outlatch0: b[37188],
            outlatch1: b[37189],
            in0: b[37190],
            ..self
        }
    }
}

impl CrystalCastlesBoard {
    /// The first part of a saved state: memories, registers, latches and inputs.
    pub fn save_memory(&self, w: &mut StateWriter)
        ensures
            final(w)@ == old(w)@ + self@.memory_bytes(),
    {
        let ghost start = w@;
        let ghost g0 = Seq::<u8>::empty();
        proof {
            lemma_nothing_appended(start);
        }
        w.write_bytes(self.video_ram.as_slice());
        proof {
            lemma_append(start, g0, self@.video_ram);
        }
        let ghost g1 = g0 + self@.video_ram;
        w.write_bytes(self.sram.as_slice());
        proof {
            lemma_append(start, g1, self@.sram);
        }
        let ghost g2 = g1 + self@.sram;
        w.write_bytes(self.sprite_ram.as_slice());
        proof {
            lemma_append(start, g2, self@.sprite_ram);
        }
        let ghost g3 = g2 + self@.sprite_ram;
        w.write_bytes(self.nvram.as_slice());
        proof {
            lemma_append(start, g3, self@.nvram);
        }
        let ghost g4 = g3 + self@.nvram;
        w.write_u8(self.bitmode_x);
        proof {
            lemma_append(start, g4, seq![self@.bitmode_x]);
        }
        let ghost g5 = g4 + seq![self@.bitmode_x];
        w.write_u8(self.bitmode_y);
        proof {
            lemma_append(start, g5, seq![self@.bitmode_y]);
        }
        let ghost g6 = g5 + seq![self@.bitmode_y];
        w.write_u8(self.hscroll);
        proof {
            lemma_append(start, g6, seq![self@.hscroll]);
        }
        let ghost g7 = g6 + seq![self@.hscroll];
        w.write_u8(self.vscroll);
        proof {
            lemma_append(start, g7, seq![self@.vscroll]);
        }
        let ghost g8 = g7 + seq![self@.vscroll];
        w.write_bytes(self.palette_ram.as_slice());
        proof {
            lemma_append(start, g8, self@.palette_ram);
        }
        let ghost g9 = g8 + self@.palette_ram;
        w.write_u8(self.outlatch0);
        proof {
            lemma_append(start, g9, seq![self@.outlatch0]);
        }
        let ghost g10 = g9 + seq![self@.outlatch0];
        w.write_u8(self.outlatch1);
        proof {
            lemma_append(start, g10, seq![self@.outlatch1]);
        }
        let ghost g11 = g10 + seq![self@.outlatch1];
        w.write_u8(self.in0);
        proof {
            lemma_append(start, g11, seq![self@.in0]);
        }
        let ghost g12 = g11 + seq![self@.in0];
    }

    /// The board with that part replaced by saved bytes.
    /// Fails, changing nothing of the board, where the bytes end too early.
    pub fn load_memory(&mut self, r: &mut StateReader) -> (res: Result<(), SaveError>)
        ensures
            old(r)@.len() >= MEMORY_LEN ==> res is Ok && final(self)@ == old(self)@.with_memory(old(r)@.take(MEMORY_LEN as int)) && final(r)@ == old(r)@.skip(MEMORY_LEN as int),
            old(r)@.len() < MEMORY_LEN ==> res == Err::<(), SaveError>(SaveError::UnexpectedEnd) && final(self)@ == old(self)@ && final(r)@ == old(r)@,
    {
        let b: Vec<u8> = match r.take_bytes(MEMORY_LEN) {
            Ok(v) => v,
            Err(e) => {
                return Err(e);
            },
        };
        assert(b.len() == MEMORY_LEN);
        self.video_ram = copied_range(b.as_slice(), 0, 32768);
        self.sram = copied_range(b.as_slice(), 32768, 36352);
        self.sprite_ram = copied_range(b.as_slice(), 36352, 36864);
        self.nvram = copied_range(b.as_slice(), 36864, 37120);
        self.bitmode_x = b[37120];
        self.bitmode_y = b[37121];
        self.hscroll = b[37122];
        self.vscroll = b[37123];
        self.palette_ram = copied_range(b.as_slice(), 37124, 37188);
        self.outlatch0 = b[37188];
        self.outlatch1 = b[37189];
        self.in0 = b[37190];
        Ok(())
    }
}

/// Loading the saved memories and registers gives them back, and leaves
/// everything else alone.
pub proof fn law_memory_round_trip(a: CastlesView, b: CastlesView)
    requires
        a.video_ram.len() == 32768,
        a.sram.len() == 3584,
        a.sprite_ram.len() == 512,
        a.nvram.len() == 256,
        a.palette_ram.len() == 64,
    ensures
        a.memory_bytes().len() == MEMORY_LEN,
        b.with_memory(a.memory_bytes()) == (CastlesView {
            video_ram: a.video_ram,
            sram: a.sram,
            sprite_ram: a.sprite_ram,
            nvram: a.nvram,
            bitmode_x: a.bitmode_x,
            bitmode_y: a.bitmode_y,
            hscroll: a.hscroll,
            vscroll: a.vscroll,
            palette_ram: a.palette_ram,
            outlatch0: a.outlatch0,
            outlatch1: a.outlatch1,
            in0: a.in0,
            ..b
        }),
{
    let s = a.memory_bytes();
    assert(s.subrange(0, 32768) =~= a.video_ram);
    assert(s.subrange(32768, 36352) =~= a.sram);
    assert(s.subrange(36352, 36864) =~= a.sprite_ram);
    assert(s.subrange(36864, 37120) =~= a.nvram);
    assert(s[37120] == a.bitmode_x);
    assert(s[37121] == a.bitmode_y);
    assert(s[37122] == a.hscroll);
    assert(s[37123] == a.vscroll);
    assert(s.subrange(37124, 37188) =~= a.palette_ram);
    assert(s[37188] == a.outlatch0);
    assert(s[37189] == a.outlatch1);
    assert(s[37190] == a.in0);
}

/// Bytes of this part of a saved state.
pub const POSITION_LEN: usize = 11;

impl CastlesView {
    /// The last part of a saved state, after the trackball counters.
    pub open spec fn position_bytes(&self) -> Seq<u8> {
        Seq::<u8>::empty() + seq![flag(self.irq_state)] + le64(self.clock) + seq![self.watchdog_frame_count] + seq![self.dip_switches]
    }

    /// The board with that part replaced by saved bytes.
    pub open spec fn with_position(self, b: Seq<u8>) -> CastlesView {
        CastlesView {
            irq_state: b[0] != 0,
            clock: of_le64(b.subrange(1, 9)),
            watchdog_frame_count: b[9],
            dip_switches: b[10],
            ..self
        }
    }
}

impl CrystalCastlesBoard {
    /// The last part of a saved state, after the trackball counters.
    pub fn save_position(&self, w: &mut StateWriter)
        ensures
            final(w)@ == old(w)@ + self@.position_bytes(),
    {
        let ghost start = w@;
        let ghost g0 = Seq::<u8>::empty();
        proof {
            lemma_nothing_appended(start);
        }
        w.write_bool(self.irq_state);
        proof {
            lemma_append(start, g0, seq![flag(self@.irq_state)]);
        }
        let ghost g1 = g0 + seq![flag(self@.irq_state)];
        w.write_u64_le(self.clock);
        proof {
            lemma_append(start, g1, le64(self@.clock));
        }
        let ghost g2 = g1 + le64(self@.clock);
        w.write_u8(self.watchdog_frame_count);
        proof {
            lemma_append(start, g2, seq![self@.watchdog_frame_count]);
        }
        let ghost g3 = g2 + seq![self@.watchdog_frame_count];
        w.write_u8(self.dip_switches);
        proof {
            lemma_append(start, g3, seq![self@.dip_switches]);
        }
        let ghost g4 = g3 + seq![self@.dip_switches];
    }

    /// The board with that part replaced by saved bytes.
    /// Fails, changing nothing of the board, where the bytes end too early.
    pub fn load_position(&mut self, r: &mut StateReader) -> (res: Result<(), SaveError>)
        ensures
            old(r)@.len() >= POSITION_LEN ==> res is Ok && final(self)@ == old(self)@.with_position(old(r)@.take(POSITION_LEN as int)) && final(r)@ == old(r)@.skip(POSITION_LEN as int),
            old(r)@.len() < POSITION_LEN ==> res == Err::<(), SaveError>(SaveError::UnexpectedEnd) && final(self)@ == old(self)@ && final(r)@ == old(r)@,
    {
        let b: Vec<u8> = match r.take_bytes(POSITION_LEN) {
            Ok(v) => v,
            Err(e) => {
                return Err(e);
            },
        };
        assert(b.len() == POSITION_LEN);
        self.irq_state = b[0] != 0;
        self.clock = u64_at(&b, 1);
        self.watchdog_frame_count = b[9];
        self.dip_switches = b[10];
        Ok(())
    }
}

/// Loading the saved interrupt, clock, watchdog and switches gives them back.
pub proof fn law_position_round_trip(a: CastlesView, b: CastlesView)
    ensures
        a.position_bytes().len() == POSITION_LEN,
        b.with_position(a.position_bytes()) == (CastlesView {
            irq_state: a.irq_state,
            clock: a.clock,
            watchdog_frame_count: a.watchdog_frame_count,
            dip_switches: a.dip_switches,
            ..b
        }),
{
    let s = a.position_bytes();
    assert(s[0] == flag(a.irq_state));
    assert(s.subrange(1, 9) =~= le64(a.clock));
    lemma_le64(a.clock);
    assert(s[9] == a.watchdog_frame_count);
    assert(s[10] == a.dip_switches);
}

/// Program ROM: bank 0, the fixed part, then bank 1.
pub open spec fn program_rom_chips() -> Seq<RomTable> {
    seq![
        ("136022-403.1k", 0x2000int, 0x0000int, seq![0x81471ae5u32, 0x10e39fceu32, 0x348a96f0u32, 0x9d10e314u32, 0x0d911ef4u32]),
        ("136022-404.1l", 0x2000int, 0x2000int, seq![0x820daf29u32, 0x74510f72u32, 0xd48d8c1fu32, 0xfe2647a4u32, 0x246079deu32]),
        ("136022-405.1n", 0x2000int, 0x4000int, seq![0x4befc296u32, 0x9418cf8au32, 0x69b8d906u32, 0xb833936eu32, 0x8585b4d1u32, 0x0e4883ccu32, 0x5a13af07u32, 0x3beec4f3u32]),
        ("136022-102.1h", 0x2000int, 0x6000int, seq![0xf6ccfbd4u32]),
        ("136022-101.1f", 0x2000int, 0x8000int, seq![0xe2e17236u32]),
    ]
}

/// Program ROM: bank 0, the fixed part, then bank 1.
pub fn ccastles_program_rom() -> (r: RomRegion)
    ensures
        r.size == 0xA000,
        r.table() == program_rom_chips(),
        chips_fit(r.size as int, r.table()),
{
    let c0: RomEntry = chip("136022-403.1k", 0x2000, 0x0000, vec![0x81471ae5, 0x10e39fce, 0x348a96f0, 0x9d10e314, 0x0d911ef4]);
    assert(c0.crc32@ =~= program_rom_chips()[0].3);
    let c1: RomEntry = chip("136022-404.1l", 0x2000, 0x2000, vec![0x820daf29, 0x74510f72, 0xd48d8c1f, 0xfe2647a4, 0x246079de]);
    assert(c1.crc32@ =~= program_rom_chips()[1].3);
    let c2: RomEntry = chip("136022-405.1n", 0x2000, 0x4000, vec![0x4befc296, 0x9418cf8a, 0x69b8d906, 0xb833936e, 0x8585b4d1, 0x0e4883cc, 0x5a13af07, 0x3beec4f3]);
    assert(c2.crc32@ =~= program_rom_chips()[2].3);
    let c3: RomEntry = chip("136022-102.1h", 0x2000, 0x6000, vec![0xf6ccfbd4]);
    assert(c3.crc32@ =~= program_rom_chips()[3].3);
    let c4: RomEntry = chip("136022-101.1f", 0x2000, 0x8000, vec![0xe2e17236]);
    assert(c4.crc32@ =~= program_rom_chips()[4].3);
    let r: RomRegion = RomRegion { size: 0xA000, entries: vec![c0, c1, c2, c3, c4] };
    assert(r.table() =~= program_rom_chips());
    r
}

/// Sprite graphics.
pub open spec fn gfx_rom_chips() -> Seq<RomTable> {
    seq![
        ("136022-106.8d", 0x2000int, 0x0000int, seq![0x9d1d89fcu32]),
        ("136022-107.8b", 0x2000int, 0x2000int, seq![0x39960b7du32]),
    ]
}

/// Sprite graphics.
pub fn ccastles_gfx_rom() -> (r: RomRegion)
    ensures
        r.size == 0x4000,
        r.table() == gfx_rom_chips(),
        chips_fit(r.size as int, r.table()),
{
    let c0: RomEntry = chip("136022-106.8d", 0x2000, 0x0000, vec![0x9d1d89fc]);
    assert(c0.crc32@ =~= gfx_rom_chips()[0].3);
    let c1: RomEntry = chip("136022-107.8b", 0x2000, 0x2000, vec![0x39960b7d]);
    assert(c1.crc32@ =~= gfx_rom_chips()[1].3);
    let r: RomRegion = RomRegion { size: 0x4000, entries: vec![c0, c1] };
    assert(r.table() =~= gfx_rom_chips());
    r
}

/// Blanking and interrupt timing, one entry per scanline.
pub open spec fn sync_prom_chips() -> Seq<RomTable> {
    seq![
        ("82s129-136022-108.7k", 0x0100int, 0x0000int, seq![0x6ed31e3bu32]),
    ]
}

/// Blanking and interrupt timing, one entry per scanline.
pub fn ccastles_sync_prom() -> (r: RomRegion)
    ensures
        r.size == 0x0100,
        r.table() == sync_prom_chips(),
        chips_fit(r.size as int, r.table()),
{
    let c0: RomEntry = chip("82s129-136022-108.7k", 0x0100, 0x0000, vec![0x6ed31e3b]);
    assert(c0.crc32@ =~= sync_prom_chips()[0].3);
    let r: RomRegion = RomRegion { size: 0x0100, entries: vec![c0] };
    assert(r.table() =~= sync_prom_chips());
    r
}

/// Bitmap write protection.
pub open spec fn wp_prom_chips() -> Seq<RomTable> {
    seq![
        ("82s129-136022-110.11l", 0x0100int, 0x0000int, seq![0x068bdc7eu32]),
    ]
}

/// Bitmap write protection.
pub fn ccastles_wp_prom() -> (r: RomRegion)
    ensures
        r.size == 0x0100,
        r.table() == wp_prom_chips(),
        chips_fit(r.size as int, r.table()),
{
    let c0: RomEntry = chip("82s129-136022-110.11l", 0x0100, 0x0000, vec![0x068bdc7e]);
    assert(c0.crc32@ =~= wp_prom_chips()[0].3);
    let r: RomRegion = RomRegion { size: 0x0100, entries: vec![c0] };
    assert(r.table() =~= wp_prom_chips());
    r
}

/// Layer priority.
pub open spec fn pri_prom_chips() -> Seq<RomTable> {
    seq![
        ("82s129-136022-111.10k", 0x0100int, 0x0000int, seq![0xc29c18d9u32]),
    ]
}

/// Layer priority.
pub fn ccastles_pri_prom() -> (r: RomRegion)
    ensures
        r.size == 0x0100,
        r.table() == pri_prom_chips(),
        chips_fit(r.size as int, r.table()),
{
    let c0: RomEntry = chip("82s129-136022-111.10k", 0x0100, 0x0000, vec![0xc29c18d9]);
    assert(c0.crc32@ =~= pri_prom_chips()[0].3);
    let r: RomRegion = RomRegion { size: 0x0100, entries: vec![c0] };
    assert(r.table() =~= pri_prom_chips());
    r
}

pub const INPUT_COIN_L: u8 = 0;

pub const INPUT_COIN_R: u8 = 1;

pub const INPUT_JUMP_LEFT: u8 = 2;

pub const INPUT_JUMP_RIGHT: u8 = 3;

pub const INPUT_TRACK_L: u8 = 4;

pub const INPUT_TRACK_R: u8 = 5;

pub const INPUT_TRACK_U: u8 = 6;

pub const INPUT_TRACK_D: u8 = 7;

pub const ANALOG_TRACKBALL_X: u8 = 0;

pub const ANALOG_TRACKBALL_Y: u8 = 1;

/// Control number of the trackball's horizontal axis.
pub const CTRL_TRACKBALL_X: u16 = 8;

/// Control number of the trackball's vertical axis.
pub const CTRL_TRACKBALL_Y: u16 = 9;

/// The cabinet's controls.
pub open spec fn control_table() -> Seq<InputControl> {
    seq![
        control_of(INPUT_COIN_L as u16, "coin", "Coin", InputKind::Coin, None, DefaultBindings::Shared(SharedBindings::Coin)),
        control_of(INPUT_COIN_R as u16, "coin2", "Coin 2", InputKind::Coin, None, DefaultBindings::Unbound),
        control_of(INPUT_JUMP_LEFT as u16, "jump_left", "Jump L / P1 Start", InputKind::Button, Some(1u8), DefaultBindings::Four(DefaultBinding::Key(KeyId::Num1), DefaultBinding::Key(KeyId::Space), DefaultBinding::Pad(PadControl::Button(PadButton::Start)), DefaultBinding::Mouse(MouseControl::Left))),
        control_of(INPUT_JUMP_RIGHT as u16, "jump_right", "Jump R / P2 Start", InputKind::Button, Some(2u8), DefaultBindings::Three(DefaultBinding::Key(KeyId::Num2), DefaultBinding::Key(KeyId::LShift), DefaultBinding::Mouse(MouseControl::Right))),
        control_of(INPUT_TRACK_L as u16, "p1_left", "P1 Left", InputKind::DigitalDirection(Direction::Left), Some(1u8), DefaultBindings::Shared(SharedBindings::P1Left)),
        control_of(INPUT_TRACK_R as u16, "p1_right", "P1 Right", InputKind::DigitalDirection(Direction::Right), Some(1u8), DefaultBindings::Shared(SharedBindings::P1Right)),
        control_of(INPUT_TRACK_U as u16, "p1_up", "P1 Up", InputKind::DigitalDirection(Direction::Up), Some(1u8), DefaultBindings::Shared(SharedBindings::P1Up)),
        control_of(INPUT_TRACK_D as u16, "p1_down", "P1 Down", InputKind::DigitalDirection(Direction::Down), Some(1u8), DefaultBindings::Shared(SharedBindings::P1Down)),
        control_of(CTRL_TRACKBALL_X as u16, "trackball_x", "Trackball X", InputKind::AnalogAxis(AnalogAxisKind::X), Some(1u8), DefaultBindings::One(DefaultBinding::Mouse(MouseControl::AxisX))),
        control_of(CTRL_TRACKBALL_Y as u16, "trackball_y", "Trackball Y", InputKind::AnalogAxis(AnalogAxisKind::Y), Some(1u8), DefaultBindings::One(DefaultBinding::Mouse(MouseControl::AxisY))),
    ]
}

fn controls() -> (v: Vec<InputControl>)
    ensures
        v@ == control_table(),
{
    let v: Vec<InputControl> = vec![
        control(INPUT_COIN_L as u16, "coin", "Coin", InputKind::Coin, None, DefaultBindings::Shared(SharedBindings::Coin)),
        control(INPUT_COIN_R as u16, "coin2", "Coin 2", InputKind::Coin, None, DefaultBindings::Unbound),
        control(INPUT_JUMP_LEFT as u16, "jump_left", "Jump L / P1 Start", InputKind::Button, Some(1), DefaultBindings::Four(DefaultBinding::Key(KeyId::Num1), DefaultBinding::Key(KeyId::Space), DefaultBinding::Pad(PadControl::Button(PadButton::Start)), DefaultBinding::Mouse(MouseControl::Left))),
        control(INPUT_JUMP_RIGHT as u16, "jump_right", "Jump R / P2 Start", InputKind::Button, Some(2), DefaultBindings::Three(DefaultBinding::Key(KeyId::Num2), DefaultBinding::Key(KeyId::LShift), DefaultBinding::Mouse(MouseControl::Right))),
        control(INPUT_TRACK_L as u16, "p1_left", "P1 Left", InputKind::DigitalDirection(Direction::Left), Some(1), DefaultBindings::Shared(SharedBindings::P1Left)),
        control(INPUT_TRACK_R as u16, "p1_right", "P1 Right", InputKind::DigitalDirection(Direction::Right), Some(1), DefaultBindings::Shared(SharedBindings::P1Right)),
        control(INPUT_TRACK_U as u16, "p1_up", "P1 Up", InputKind::DigitalDirection(Direction::Up), Some(1), DefaultBindings::Shared(SharedBindings::P1Up)),
        control(INPUT_TRACK_D as u16, "p1_down", "P1 Down", InputKind::DigitalDirection(Direction::Down), Some(1), DefaultBindings::Shared(SharedBindings::P1Down)),
        control(CTRL_TRACKBALL_X as u16, "trackball_x", "Trackball X", InputKind::AnalogAxis(AnalogAxisKind::X), Some(1), DefaultBindings::One(DefaultBinding::Mouse(MouseControl::AxisX))),
        control(CTRL_TRACKBALL_Y as u16, "trackball_y", "Trackball Y", InputKind::AnalogAxis(AnalogAxisKind::Y), Some(1), DefaultBindings::One(DefaultBinding::Mouse(MouseControl::AxisY))),
    ];
    assert(v@ =~= control_table());
    v
}

/// Option switches. The game keeps its other settings in NVRAM.
pub open spec fn options_table() -> BankTable {
    (
        "Options",
        seq![
            (
                "Cabinet",
                0x20u8,
                seq![
                    ("Upright", 0x00u8),
                    ("Cocktail", 0x20u8),
                ],
            ),
        ],
    )
}

fn options_bank() -> (bank: DipSwitchBank)
    ensures
        bank.table() == options_table(),
        bank.immediate(),
{
    let o0: DipOption = option(
        "Cabinet",
        0x20,
        vec![
            choice("Upright", 0x00),
            choice("Cocktail", 0x20),
        ],
    );
    assert(o0.table().2 =~= options_table().1[0].2);
    let bank: DipSwitchBank = DipSwitchBank { name: "Options", options: vec![o0] };
    assert(bank.table().1 =~= options_table().1);
    bank
}

/// Choices lie under their mask and the power-on byte selects one.
pub proof fn law_dip_tables_are_valid()
    ensures
        valid_bank(options_table(), 0x00),
{
    assert({
        &&& 0x20u8 != 0
        &&& 0x00u8 & !0x20u8 == 0
        &&& 0x20u8 & !0x20u8 == 0
        &&& 0x00u8 & 0x20u8 == 0x00
    }) by (bit_vector);
    assert(options_table().1[0].2[0].1 == 0x00u8 & options_table().1[0].1);
}

/// The switch banks of the machine.
pub open spec fn dip_tables() -> Seq<BankTable> {
    seq![options_table()]
}

/// The board after a button changes. Coin and jump lines are grounded when
/// pressed.
pub open spec fn after_button(b: CastlesView, id: u8, pressed: bool) -> CastlesView {
    if id == INPUT_COIN_L {
        CastlesView { in0: with_bit(b.in0, 1, !pressed), ..b }
    } else if id == INPUT_COIN_R {
        CastlesView { in0: with_bit(b.in0, 0, !pressed), ..b }
    } else if id == INPUT_JUMP_LEFT {
        CastlesView { in0: with_bit(b.in0, 6, !pressed), ..b }
    } else if id == INPUT_JUMP_RIGHT {
        CastlesView { in0: with_bit(b.in0, 7, !pressed), ..b }
    } else {
        b
    }
}

/// What an event asks of the trackball: counter 1 is horizontal, counter 0
/// vertical. The vertical axis is inverted.
pub open spec fn trackball_input(event: InputEvent) -> TrackballInput {
    match event {
        InputEvent::Button { id, pressed } => {
            let code = id.0 as u8;
            if code == INPUT_TRACK_L {
                TrackballInput::Held { counter: 1, up: false, pressed }
            } else if code == INPUT_TRACK_R {
                TrackballInput::Held { counter: 1, up: true, pressed }
            } else if code == INPUT_TRACK_U {
                TrackballInput::Held { counter: 0, up: false, pressed }
            } else if code == INPUT_TRACK_D {
                TrackballInput::Held { counter: 0, up: true, pressed }
            } else {
                TrackballInput::Nothing
            }
        },
        InputEvent::Relative { id, delta } => if id.0 == CTRL_TRACKBALL_X {
            TrackballInput::Turned { counter: 1, delta }
        } else if id.0 == CTRL_TRACKBALL_Y {
            TrackballInput::Turned { counter: 0, delta: (-delta) as i32 }
        } else {
            TrackballInput::Nothing
        },
        InputEvent::Absolute { id, position } => TrackballInput::Nothing,
    }
}

/// Crystal Castles: the board as the cabinet sees it.
pub struct CrystalCastlesSystem {
    pub board: CrystalCastlesBoard,
}

impl View for CrystalCastlesSystem {
    type V = CastlesView;

    open spec fn view(&self) -> CastlesView {
        self.board@
    }
}

impl CrystalCastlesSystem {
    pub fn new(dac: Vec<u8>) -> (sys: CrystalCastlesSystem)
        requires
            dac@.len() == 8,
        ensures
            sys.board.wf(),
            sys@.powered_on(dac@),
    {
        CrystalCastlesSystem { board: CrystalCastlesBoard::new(dac) }
    }

    /// Put the region images into the board.
    pub fn load_rom_set(&mut self, roms: CastlesRoms)
        requires
            old(self).board.wf(),
            roms.wf(),
        ensures
            final(self).board.wf(),
            decodes_sprites(final(self)@.sprite_cache, roms.gfx@),
            final(self)@.vblank_end == first_visible(roms.sync@, 0),
            final(self)@ == (CastlesView {
                rom_bank0: roms.program@.subrange(0x0000, 0x4000),
                rom_fixed: roms.program@.subrange(0x4000, 0x6000),
                rom_bank1: roms.program@.subrange(0x6000, 0xA000),
                gfx_rom: roms.gfx@,
                sprite_cache: final(self)@.sprite_cache,
                sync_prom: roms.sync@,
                wp_prom: roms.wp@,
                pri_prom: roms.pri@,
                vblank_end: final(self)@.vblank_end,
                ..old(self)@
            }),
    {
        self.board.load_rom_set(roms);
    }

    /// Read the bus, side effects and all.
    pub fn bus_read(&mut self, addr: u16) -> (r: CastlesRead)
        requires
            old(self).board.wf(),
        ensures
            final(self).board.wf(),
            r == old(self)@.read_access(addr),
            final(self)@ == old(self)@.after_read(addr),
    {
        self.board.read(addr)
    }

    /// Write the bus, side effects and all.
    pub fn bus_write(&mut self, addr: u16, data: u8) -> (w: CastlesWrite)
        requires
            old(self).board.wf(),
        ensures
            final(self).board.wf(),
            w == if 0x9800 <= addr < 0x9A00 {
                CastlesWrite::Pokey1 { register: (addr % 16) as u8, data }
            } else if 0x9A00 <= addr < 0x9C00 {
                CastlesWrite::Pokey2 { register: (addr % 16) as u8, data }
            } else {
                CastlesWrite::Done
            },
            final(self)@ == old(self)@.after_write(addr, data),
    {
        self.board.write(addr, data)
    }

    pub fn machine_id(&self) -> (id: &'static str)
        ensures
            id@ == "ccastles"@,
    {
        "ccastles"
    }

    pub fn input_controls(&self) -> (v: Vec<InputControl>)
        ensures
            v@ == control_table(),
    {
        controls()
    }

    /// Apply an input event. What it asks of a trackball counter is handed back.
    pub fn handle_input(&mut self, event: InputEvent) -> (t: TrackballInput)
        requires
            event matches InputEvent::Relative { id, delta } ==> id.0 == CTRL_TRACKBALL_Y ==> delta
                > i32::MIN,
        ensures
            t == trackball_input(event),
            final(self)@ == match event {
                InputEvent::Button { id, pressed } => after_button(old(self)@, id.0 as u8, pressed),
                _ => old(self)@,
            },
    {
        match event {
            InputEvent::Button { id, pressed } => {
                let code: u8 = id.0 as u8;
                if code == INPUT_COIN_L {
                    set_bit_active_low(&mut self.board.in0, 1, pressed);
                } else if code == INPUT_COIN_R {
                    set_bit_active_low(&mut self.board.in0, 0, pressed);
                } else if code == INPUT_JUMP_LEFT {
                    set_bit_active_low(&mut self.board.in0, 6, pressed);
                } else if code == INPUT_JUMP_RIGHT {
                    set_bit_active_low(&mut self.board.in0, 7, pressed);
                } else if code == INPUT_TRACK_L {
                    return TrackballInput::Held { counter: 1, up: false, pressed };
                } else if code == INPUT_TRACK_R {
                    return TrackballInput::Held { counter: 1, up: true, pressed };
                } else if code == INPUT_TRACK_U {
                    return TrackballInput::Held { counter: 0, up: false, pressed };
                } else if code == INPUT_TRACK_D {
                    return TrackballInput::Held { counter: 0, up: true, pressed };
                }
                TrackballInput::Nothing
            },
            InputEvent::Relative { id, delta } => if id.0 == CTRL_TRACKBALL_X {
                TrackballInput::Turned { counter: 1, delta }
            } else if id.0 == CTRL_TRACKBALL_Y {
                TrackballInput::Turned { counter: 0, delta: -delta }
            } else {
                TrackballInput::Nothing
            },
            InputEvent::Absolute { id: _, position: _ } => TrackballInput::Nothing,
        }
    }

    pub fn dip_banks(&self) -> (banks: Vec<DipSwitchBank>)
        ensures
            tables(banks@) == dip_tables(),
            all_immediate(banks@),
    {
        let banks: Vec<DipSwitchBank> = vec![options_bank()];
        assert(tables(banks@) =~= dip_tables());
        banks
    }

    pub fn dip_bank_value(&self, bank: usize) -> (v: u8)
        ensures
            v == if bank == 0 { self@.dip_switches } else { 0 },
    {
        if bank == 0 {
            self.board.dip_switches
        } else {
            0
        }
    }

    pub fn set_dip_bank_value(&mut self, bank: usize, value: u8)
        ensures
            final(self)@ == if bank == 0 {
                CastlesView { dip_switches: value, ..old(self)@ }
            } else {
                old(self)@
            },
    {
        if bank == 0 {
            self.board.dip_switches = value;
        }
    }

    /// Choose a setting of one option.
    pub fn set_dip_option(&mut self, bank: usize, option: usize, value: u8)
        requires
            bank < dip_tables().len(),
            option < dip_tables()[bank as int].1.len(),
        ensures
            final(self)@ == (CastlesView {
                dip_switches: masked(
                    old(self)@.dip_switches,
                    dip_tables()[bank as int].1[option as int].1,
                    value,
                ),
                ..old(self)@
            }),
    {
        let banks: Vec<DipSwitchBank> = self.dip_banks();
        assert(tables(banks@)[bank as int] == banks@[bank as int].table());
        assert(banks@[bank as int].table().1[option as int]
            == banks@[bank as int].options@[option as int].table());
        let mask: u8 = banks[bank].options[option].mask;
        let current: u8 = self.dip_bank_value(bank);
        self.set_dip_bank_value(bank, apply_mask(current, mask, value));
    }
}

/// RAM reads back what was written, and NVRAM also at its mirrors.
pub proof fn law_ram_read_after_write(b: CastlesView, addr: u16, mirror: u16, data: u8)
    requires
        b.wf(),
        0x8000 <= addr < 0x9000 && mirror == addr || 0x9000 <= addr < 0x9400 && 0x9000 <= mirror
            < 0x9400 && addr % 256 == mirror % 256,
    ensures
        b.after_write(addr, data).read_access(mirror) == CastlesRead::Value(data),
{
}

/// The ROM bank line selects which bank the window shows; the fixed part shows
/// either way.
pub proof fn law_bank_line_selects_the_window(b: CastlesView, addr: u16, data: u8)
    requires
        b.wf(),
        addr >= 0xA000,
    ensures
        addr >= 0xE000 ==> b.after_write(0x9E87, data).read_access(addr) == b.read_access(addr),
        addr < 0xE000 ==> b.after_write(0x9E87, data).read_access(addr) == CastlesRead::Value(
            if data & 1 != 0 { b.rom_bank1[addr - 0xA000] } else { b.rom_bank0[addr - 0xA000] },
        ),
{
    lemma_with_bit(b.outlatch0, 7, 7, data & 1 != 0);
    assert(0x9E87u16 % 8 == 7);
}

/// A bitmap write changes at most the two bytes of its pair, and in them only
/// the nibbles the PROM leaves writable.
pub proof fn law_protected_nibbles_stay(b: CastlesView, addr: int, data: u8, bitmd: bool, pixba: int, k: int)
    requires
        b.wf(),
        0 <= addr < 0x10000,
        0 <= k < 0x8000,
    ensures
        k / 2 != (addr % 0x8000) / 2 ==> b.with_vram(addr, data, bitmd, pixba).video_ram[k] == b.video_ram[k],
        k / 2 == (addr % 0x8000) / 2 ==> ({
            let wp = b.wp_prom[wp_index(addr, bitmd, pixba)];
            let after = b.with_vram(addr, data, bitmd, pixba).video_ram[k];
            let low = if k % 2 == 0 { wp & 1 == 0 } else { wp & 4 == 0 };
            let high = if k % 2 == 0 { wp & 2 == 0 } else { wp & 8 == 0 };
            &&& after as int % 16 == if low { data as int % 16 } else { b.video_ram[k] as int % 16 }
            &&& after as int / 16 == if high { data as int / 16 } else { b.video_ram[k] as int / 16 }
        }),
{
}

/// The interrupt rises with the sync PROM's clock and holds until it is
/// acknowledged.
pub proof fn law_interrupt_holds_until_acknowledged(b: CastlesView, scanline: int, addr: u16, data: u8)
    requires
        0 <= scanline < 256,
        0x9D80 <= addr < 0x9E00,
    ensures
        b.after_scanline(scanline).irq_state == (b.irq_state || b.irq_edge(scanline)),
        !b.after_write(addr, data).irq_state,
{
}

/// Composing a scanline touches only its own row of the picture.
pub proof fn law_scanline_touches_only_its_row(b: CastlesView, scanline: int, k: int)
    requires
        b.wf(),
        0 <= scanline < 256,
        0 <= k < b.scanline_buffer.len(),
        k / 768 != b.screen_row(scanline),
    ensures
        b.after_compose(scanline).scanline_buffer[k] == b.scanline_buffer[k],
{
}

/// Where sprites overlap, the last one that covers a cell shows.
pub proof fn law_later_sprites_land_on_top(b: CastlesView, n: nat, s: int, k: int)
    requires
        0 <= k < 0x10000,
        0 <= s < n,
        b.sprite_pixel(s, k % 256, k / 256) is Some,
        forall|t: int| s < t < n ==> #[trigger] b.sprite_pixel(t, k % 256, k / 256) is None,
    ensures
        b.sprite_layer(n).len() == 0x10000,
        b.sprite_layer(n)[k] == b.sprite_pixel(s, k % 256, k / 256)->Some_0,
    decreases n,
{
    lemma_layer_len(b, (n - 1) as nat);
    if s < n - 1 {
        law_later_sprites_land_on_top(b, (n - 1) as nat, s, k);
        assert(b.sprite_pixel(n - 1, k % 256, k / 256) is None);
    }
}

proof fn lemma_layer_len(b: CastlesView, n: nat)
    ensures
        b.sprite_layer(n).len() == 0x10000,
    decreases n,
{
    if n > 0 {
        lemma_layer_len(b, (n - 1) as nat);
    }
}

/// A latch stepped one way and then the other is where it was.
pub proof fn law_latch_steps_undo(v: u8, hold: bool)
    ensures
        stepped(stepped(v, hold, false), hold, true) == v,
        stepped(stepped(v, hold, true), hold, false) == v,
{
}

} // verus!
