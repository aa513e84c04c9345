//! What Congo Bongo shows, stated over places on the screen and over sequences
//! of accesses: the drawn-out map, its scroll and skew, sprites, foreground,
//! sprite transfers, switches and coins.

use vstd::prelude::*;

use crate::arith::{lemma_wrap_plus, lemma_wrap_small};
use crate::bits::{bit, lemma_lines, lemma_with_bit, lemma_word_fields};
use crate::congo_bongo::{
    CongoDac, CongoView, INPUT_COIN1, INPUT_COIN2, INPUT_P1_BUTTON, INPUT_P1_DOWN, INPUT_P1_LEFT,
    INPUT_P1_RIGHT, INPUT_P1_START, INPUT_P1_UP, INPUT_P2_BUTTON, INPUT_P2_DOWN, INPUT_P2_LEFT,
    INPUT_P2_RIGHT, INPUT_P2_START, INPUT_P2_UP, INPUT_SERVICE, NATIVE_WIDTH, Rgb, after_button,
    cell_column, cell_row, decodes_cells, law_lower_sprites_land_on_top, min_x, min_y, plane_starts,
    src_x,
};
use crate::gfx::GfxCache;
use crate::gfx_laws::law_planes_are_the_lines_of_a_pen;

verus! {

// -- The drawn-out map ------------------------------------------------------

/// Which way a map tile faces: cell `col`, `row` of the 32 by 512 map shows its
/// tile upright, column for column and row for row, with the upper half of its
/// attribute byte as colour. The tile number is the map byte with the low two
/// lines of the attribute above it; the map repeats after 256 rows of cells.
pub proof fn law_map_tile_stands_upright(b: CongoView, col: int, row: int, px: int, py: int)
    requires
        b.wf(),
        0 <= col < 32,
        0 <= row < 512,
        0 <= px < 8,
        0 <= py < 8,
    ensures
        ({
            let t = 32 * (if row < 256 { row } else { row - 256 }) + col;
            let attr = b.tilemap_dat[0x2000 + t] as int;
            let code = b.tilemap_dat[t] + 256 * (attr % 4);
            b.map_pixels()[256 * (8 * row + py) + 8 * col + px] == (8 * (attr / 16) + b.bg_cache.at(
                code,
                px,
                py,
            )) as u8
        }),
{
    let x = 8 * col + px;
    let y = 8 * row + py;
    let k = 256 * y + x;
    assert(0 <= k < 256 * 4096);
    assert(k % 256 == x && k / 256 == y);
    assert(x / 8 == col && x % 8 == px && y / 8 == row && y % 8 == py);
    let t = 32 * (if row < 256 { row } else { row - 256 }) + col;
    assert((row * 32 + col) % 0x2000 == t);
    lemma_lines(b.tilemap_dat[0x2000 + t]);
    assert(b.map_pixels()[k] == b.map_pen(x, y));
}

/// A tile of the background ROM, decoded: line `p` of the pen at column `px`,
/// row `py` is line `7 - px` of byte `8 * code + py` of plane `p`, planes 8 KB
/// apart. A byte lights one line of pixels across.
pub proof fn law_background_bytes_are_lines_across(
    cache: GfxCache,
    rom: Seq<u8>,
    code: int,
    px: int,
    py: int,
    p: int,
)
    requires
        decodes_cells(cache, rom, 1024, 3, 0x2000, 8),
        rom.len() == 0x6000,
        0 <= code < 1024,
        0 <= px < 8,
        0 <= py < 8,
        0 <= p < 8,
    ensures
        bit(cache.at(code, px, py), p as u8) == (p < 3 && bit(
            rom[0x2000 * p + 8 * code + py],
            (7 - px) as u8,
        )),
{
    let at = code * (8 * 8) + cell_row(py, 1) + cell_column(px);
    assert(8int / 8 == 1);
    assert(cache.at(code, px, py) == crate::gfx::planar_pen(rom, at, plane_starts(3, 0x2000), 3));
    lemma_small_cell(px, py);
    assert(code * (8 * 8) == 64 * code) by (nonlinear_arith);
    law_planes_are_the_lines_of_a_pen(rom, at, plane_starts(3, 0x2000), 3, p);
    if p < 3 {
        let from = at + plane_starts(3, 0x2000)[p];
        assert(from == 8 * (0x2000 * p + 8 * code + py) + px);
        assert(from / 8 == 0x2000 * p + 8 * code + py && from % 8 == px);
    }
}

/// A foreground tile, decoded: two planes 2 KB apart, a byte to a line.
pub proof fn law_foreground_bytes_are_lines_across(
    cache: GfxCache,
    rom: Seq<u8>,
    code: int,
    px: int,
    py: int,
    p: int,
)
    requires
        decodes_cells(cache, rom, 256, 2, 0x800, 8),
        rom.len() == 0x1000,
        0 <= code < 256,
        0 <= px < 8,
        0 <= py < 8,
        0 <= p < 8,
    ensures
        bit(cache.at(code, px, py), p as u8) == (p < 2 && bit(
            rom[0x800 * p + 8 * code + py],
            (7 - px) as u8,
        )),
{
    let at = code * (8 * 8) + cell_row(py, 1) + cell_column(px);
    assert(8int / 8 == 1);
    assert(cache.at(code, px, py) == crate::gfx::planar_pen(rom, at, plane_starts(2, 0x800), 2));
    lemma_small_cell(px, py);
    assert(code * (8 * 8) == 64 * code) by (nonlinear_arith);
    law_planes_are_the_lines_of_a_pen(rom, at, plane_starts(2, 0x800), 2, p);
    if p < 2 {
        let from = at + plane_starts(2, 0x800)[p];
        assert(from == 8 * (0x800 * p + 8 * code + py) + px);
        assert(from / 8 == 0x800 * p + 8 * code + py && from % 8 == px);
    }
}

/// A sprite, decoded: 4 by 4 cells of eight bytes, left to right and then down,
/// three planes 16 KB apart; a byte is a line of eight pixels across.
pub proof fn law_sprite_cells_run_across_then_down(
    cache: GfxCache,
    rom: Seq<u8>,
    code: int,
    cx: int,
    cy: int,
    px: int,
    py: int,
    p: int,
)
    requires
        decodes_cells(cache, rom, 128, 3, 0x4000, 32),
        rom.len() == 0xC000,
        0 <= code < 128,
        0 <= cx < 4,
        0 <= cy < 4,
        0 <= px < 8,
        0 <= py < 8,
        0 <= p < 8,
    ensures
        bit(cache.at(code, 8 * cx + px, 8 * cy + py), p as u8) == (p < 3 && bit(
            rom[0x4000 * p + 128 * code + 32 * cy + 8 * cx + py],
            (7 - px) as u8,
        )),
{
    let x = 8 * cx + px;
    let y = 8 * cy + py;
    let at = code * (32 * 32) + cell_row(y, 4) + cell_column(x);
    assert(32int / 8 == 4);
    assert(x / 8 == cx && x % 8 == px && y / 8 == cy && y % 8 == py);
    lemma_large_cell(cx, cy, px, py);
    assert(code * (32 * 32) == 1024 * code) by (nonlinear_arith);
    assert(cache.at(code, x, y) == crate::gfx::planar_pen(rom, at, plane_starts(3, 0x4000), 3));
    law_planes_are_the_lines_of_a_pen(rom, at, plane_starts(3, 0x4000), 3, p);
    if p < 3 {
        let from = at + plane_starts(3, 0x4000)[p];
        let byte = 0x4000 * p + 128 * code + 32 * cy + 8 * cx + py;
        assert(from == 8 * byte + px);
        assert(from / 8 == byte && from % 8 == px);
    }
}

proof fn lemma_small_cell(px: int, py: int)
    requires
        0 <= px < 8,
        0 <= py < 8,
    ensures
        cell_row(py, 1) == 8 * py,
        cell_column(px) == px,
{
    assert(py / 8 == 0 && py % 8 == py && px / 8 == 0 && px % 8 == px);
    assert(0 * (64 * 1) == 0) by (nonlinear_arith);
}

proof fn lemma_large_cell(cx: int, cy: int, px: int, py: int)
    requires
        0 <= px < 8,
        0 <= py < 8,
    ensures
        cell_row(8 * cy + py, 4) == 256 * cy + 8 * py,
        cell_column(8 * cx + px) == 64 * cx + px,
{
    assert((8 * cy + py) / 8 == cy && (8 * cy + py) % 8 == py);
    assert((8 * cx + px) / 8 == cx && (8 * cx + px) % 8 == px);
    assert(cy * (64 * 4) == 256 * cy) by (nonlinear_arith);
}

// -- Background scroll and skew ---------------------------------------------

/// Colour of a background-only screen at column `x` of row `y`.
pub open spec fn backdrop(b: CongoView, x: int, y: int) -> Rgb {
    b.with_background(Seq::new(NATIVE_WIDTH as nat, |k: int| (0u8, 0u8, 0u8)), y)[x]
}

/// The screen at scroll position 0: row `y` shows map row `y`, the columns
/// shifted by 63 less half the row, wrapping at 256. Line 3 of the second latch
/// adds 128 to the colour and line 7 adds 256.
pub proof fn law_unscrolled_background_is_skewed(b: CongoView, x: int, y: int)
    requires
        b.wf(),
        b.bg_enabled,
        b.bg_pixmap.len() == 256 * 4096,
        b.bg_position[0] == 0,
        b.bg_position[1] as int % 8 == 0,
        0 <= x < 256,
        0 <= y < 240,
    ensures
        ({
            let column = (x + 63 - y / 2) % 256;
            let pen = b.bg_pixmap[256 * y + column] + (if bit(b.latch2, 3) { 128int } else { 0 }) + (if bit(
                b.latch2,
                7,
            ) {
                256int
            } else {
                0
            });
            backdrop(b, x, y) == b.palette_rgb[pen % 512]
        }),
{
    lemma_lines(b.latch2);
    lemma_lines(b.bg_position[1]);
    lemma_lines((b.latch2 >> 3) as u8);
    assert(b.scroll() == 0);
    lemma_wrap_small(y, 4096);
    assert(b.src_y(y) == y);
    assert(src_x(y, x) == (x + 63 - y / 2) % 256);
    assert(((b.latch2 >> 3) & 1) == if bit(b.latch2, 3) { 1u8 } else { 0u8 });
    lemma_lines((b.latch2 >> 7) as u8);
    assert(((b.latch2 >> 7) & 1) == if bit(b.latch2, 7) { 1u8 } else { 0u8 });
}

/// Which way the background scrolls: one step of the scroll position moves the
/// picture two rows down, along the skew: what stood at column `x - 1` of row
/// `y - 2` comes to column `x` of row `y`.
pub proof fn law_scroll_step_moves_the_background_down(a: CongoView, b: CongoView, x: int, y: int)
    requires
        a.wf(),
        b.wf(),
        a.bg_enabled,
        a.bg_pixmap.len() == 256 * 4096,
        b == (CongoView { bg_position: b.bg_position, ..a }),
        b.bg_position[0] + 256 * (b.bg_position[1] as int % 8) == a.bg_position[0] + 256 * (a.bg_position[1] as int
            % 8) + 1,
        1 <= x < 256,
        2 <= y < 240,
    ensures
        backdrop(b, x, y) == backdrop(a, x - 1, y - 2),
{
    lemma_lines(a.bg_position[1]);
    lemma_lines(b.bg_position[1]);
    assert(b.scroll() == a.scroll() + 1);
    assert(y - 2 * b.scroll() == (y - 2) - 2 * a.scroll());
    assert(b.src_y(y) == a.src_y(y - 2));
    assert((y - 2) / 2 == y / 2 - 1);
    assert(src_x(y, x) == src_x(y - 2, x - 1));
}

/// The scroll registers: the first holds the low byte of the position, the
/// second its upper three lines.
pub proof fn law_scroll_registers_hold_the_position(b: CongoView, low: u8, high: u8)
    requires
        b.wf(),
    ensures
        ({
            let after = b.after_main_write(0xC028, low).after_main_write(0xC029, high);
            &&& after.bg_position[0] == low
            &&& after.bg_position[1] == high
            &&& after.scroll() == low + 256 * (high as int % 8)
            &&& after == (CongoView { bg_position: after.bg_position, ..b })
        }),
{
    lemma_word_fields(0xC028);
    lemma_word_fields(0xC029);
    lemma_lines(high);
    let after = b.after_main_write(0xC028, low).after_main_write(0xC029, high);
    assert(0xC028u16 % 64 == 0x28 && 0xC029u16 % 64 == 0x29);
    assert(after.bg_position =~= seq![low, high]);
}

/// While the background is off, or before the map is drawn, nothing shows.
pub proof fn law_background_can_be_off(b: CongoView, row: Seq<Rgb>, y: int)
    requires
        !b.bg_enabled || b.bg_pixmap.len() == 0,
    ensures
        b.with_background(row, y) == row,
{
}

// -- Sprites ----------------------------------------------------------------

/// Where a sprite stands: the pixel `c` columns in and `r` rows down stands at
/// its horizontal byte less 16 plus `c` and at 239 less its vertical byte plus
/// `r`, wrapping at 256. It shows that pixel of the tile, mirrored across when
/// line 7 of the colour byte is set and top to bottom when line 7 of the tile
/// byte is; pen 0 shows nothing. The low five lines of the colour byte are the
/// colour, eight pens each.
#[verifier::spinoff_prover]
pub proof fn law_sprite_stands_at_its_position(b: CongoView, s: int, c: int, r: int)
    requires
        b.wf(),
        0 <= s < 64,
        0 <= c < 32,
        0 <= r < 32,
    ensures
        ({
            let tile = b.sprite_ram[4 * s + 1];
            let color = b.sprite_ram[4 * s + 2];
            let x = (b.sprite_ram[4 * s + 3] - 16 + c) % 256;
            let y = (239 - b.sprite_ram[4 * s] + r) % 256;
            let pen = b.sprite_cache.at(
                tile as int % 128,
                if bit(color, 7) { 31 - c } else { c },
                if bit(tile, 7) { 31 - r } else { r },
            );
            b.sprite_color(s, x, y) == if pen == 0 {
                None::<Rgb>
            } else {
                Some(
                    b.palette_rgb[(8 * (color as int % 32) + pen + (if bit(b.latch2, 7) {
                        256int
                    } else {
                        0
                    })) % 512],
                )
            }
        }),
{
    let tile = b.sprite_ram[4 * s + 1];
    let color = b.sprite_ram[4 * s + 2];
    lemma_lines(tile);
    lemma_lines(color);
    lemma_lines(b.latch2);
    lemma_lines((b.latch2 >> 7) as u8);
    let left = b.sprite_ram[4 * s + 3] - 16;
    let top = 239 - b.sprite_ram[4 * s];
    let x = (left + c) % 256;
    let y = (top + r) % 256;
    lemma_wrap_plus(top, 0, 256);
    lemma_place(left, min_x(b.sprite_ram[4 * s + 3], false), c);
    lemma_place(top, min_y(b.sprite_ram[4 * s], false), r);
    assert(b.color_bank() == if bit(b.latch2, 7) { 1int } else { 0 });
    let pen = b.sprite_cache.at(
        tile as int % 128,
        if bit(color, 7) { 31 - c } else { c },
        if bit(tile, 7) { 31 - r } else { r },
    );
    assert(((color & 0x1F) + 32 * b.color_bank()) * 8 + pen == 8 * (color as int % 32) + pen + 256
        * b.color_bank());
}

proof fn lemma_place(at: int, start: int, k: int)
    requires
        start == at % 256 || start == (at + 256) % 256,
        0 <= k < 256,
    ensures
        ((at + k) % 256 - start) % 256 == k,
{
    lemma_wrap_plus(at + 256, 0, 256);
    lemma_wrap_plus(at, 256, 256);
    assert((at + 256) % 256 == at % 256);
    lemma_wrap_plus(at, (at + k) % 256, 256);
    lemma_wrap_plus(at + k, at, 256);
    lemma_wrap_small(k, 256);
}

/// A sprite shows nothing outside its 32 by 32 pixels.
pub proof fn law_sprite_stays_in_its_square(b: CongoView, s: int, x: int, y: int)
    requires
        b.sprite_color(s, x, y) is Some,
    ensures
        (x - (b.sprite_ram[4 * s + 3] - 16)) % 256 < 32,
        (y - (239 - b.sprite_ram[4 * s])) % 256 < 32,
{
    let left = b.sprite_ram[4 * s + 3] - 16;
    let top = 239 - b.sprite_ram[4 * s];
    lemma_wrap_plus(left + 256, x, 256);
    lemma_wrap_plus(top, y, 256);
    assert((x - (left + 256)) % 256 == (x - left) % 256) by {
        lemma_wrap_plus(x - left, 256, 256);
        lemma_shift(x - left);
    }
}

proof fn lemma_shift(d: int)
    ensures
        (d - 256) % 256 == d % 256,
{
}

// -- Foreground and layer order ---------------------------------------------

/// Where a foreground tile stands: cell `32 * row + col` at column `8 * col`,
/// row `8 * row`, upright; pen 0 shows what is below. Line 6 of the second latch
/// picks the upper 256 tiles, line 1 adds 128 to the colour and line 7 adds 256.
#[verifier::spinoff_prover]
pub proof fn law_foreground_tile_stands_in_its_cell(b: CongoView, col: int, row: int, px: int, py: int)
    requires
        b.wf(),
        b.tx_cache.spec_count() > 0,
        0 <= col < 32,
        0 <= row < 32,
        0 <= px < 8,
        0 <= py < 8,
    ensures
        ({
            let cell = 32 * row + col;
            let code = (b.video_ram[cell] + (if bit(b.latch2, 6) { 256int } else { 0 })) % b.tx_cache.spec_count() as int;
            let pen = b.tx_cache.at(code, px, py);
            let base = 8 * (b.color_ram[cell] as int % 32) + (if bit(b.latch2, 1) { 128int } else { 0 }) + (if bit(
                b.latch2,
                7,
            ) {
                256int
            } else {
                0
            });
            b.text_color(8 * col + px, 8 * row + py) == if pen == 0 {
                None::<Rgb>
            } else {
                Some(b.palette_rgb[(base + pen) % 512])
            }
        }),
{
    let x = 8 * col + px;
    let y = 8 * row + py;
    assert(x / 8 == col && x % 8 == px && y / 8 == row && y % 8 == py);
    let cell = 32 * row + col;
    lemma_lines(b.latch2);
    lemma_lines((b.latch2 >> 1) as u8);
    lemma_lines((b.latch2 >> 6) as u8);
    lemma_lines((b.latch2 >> 7) as u8);
    lemma_lines(b.color_ram[cell]);
    assert(b.color_bank() == if bit(b.latch2, 7) { 1int } else { 0 });
    assert(((b.latch2 >> 6) & 1) == if bit(b.latch2, 6) { 1u8 } else { 0u8 });
    assert(((b.latch2 >> 1) & 1) == if bit(b.latch2, 1) { 1u8 } else { 0u8 });
}

/// Layer order: foreground over sprites over background, the lowest sprite of
/// those that cover a place in front.
pub proof fn law_layers_cover_in_order(b: CongoView, s: int, x: int, y: int)
    requires
        b.wf(),
        b.tx_cache.spec_count() > 0,
        b.sprite_cache.spec_count() > 0,
        0 <= x < 256,
        0 <= y < 240,
        0 <= s < 32,
    ensures
        b.text_color(x, y) is Some ==> b.screen_row(y)[x] == b.text_color(x, y)->Some_0,
        b.text_color(x, y) is None && b.sprite_color(s, x, y) is Some && (forall|t: int| 0 <= t < s ==> #[trigger] b.sprite_color(t, x, y) is None)
            ==> b.screen_row(y)[x] == b.sprite_color(s, x, y)->Some_0,
        b.text_color(x, y) is None && (forall|t: int| 0 <= t < 32 ==> #[trigger] b.sprite_color(t, x, y) is None)
            ==> b.screen_row(y)[x] == backdrop(b, x, y),
{
    let black = Seq::new(NATIVE_WIDTH as nat, |k: int| (0u8, 0u8, 0u8));
    let background = b.with_background(black, y);
    lemma_rows_keep_length(b, background, 32, y);
    if b.sprite_color(s, x, y) is Some && (forall|t: int| 0 <= t < s ==> #[trigger] b.sprite_color(t, x, y) is None) {
        law_lower_sprites_land_on_top(b, background, 32, s, x, y);
    }
    if forall|t: int| 0 <= t < 32 ==> #[trigger] b.sprite_color(t, x, y) is None {
        lemma_bare_place(b, background, 32, x, y);
    }
}

proof fn lemma_rows_keep_length(b: CongoView, row: Seq<Rgb>, n: nat, y: int)
    ensures
        b.with_sprites(row, n, y).len() == row.len(),
    decreases n,
{
    if n > 0 {
        lemma_rows_keep_length(b, row, (n - 1) as nat, y);
    }
}

proof fn lemma_bare_place(b: CongoView, row: Seq<Rgb>, n: nat, x: int, y: int)
    requires
        n <= 32,
        0 <= x < row.len(),
        forall|t: int| 0 <= t < 32 ==> #[trigger] b.sprite_color(t, x, y) is None,
    ensures
        b.with_sprites(row, n, y)[x] == row[x],
    decreases n,
{
    if n > 0 {
        lemma_bare_place(b, row, (n - 1) as nat, x, y);
        lemma_rows_keep_length(b, row, (n - 1) as nat, y);
        assert(b.sprite_color(32 - n, x, y) is None);
    }
}

/// A finished row stands in the picture at its own height, red first.
pub proof fn law_row_stands_in_the_picture(b: CongoView, x: int, y: int)
    requires
        b.wf(),
        0 <= x < 256,
        0 <= y < 240,
        b.screen_row(y).len() == 256,
    ensures
        ({
            let after = b.after_row(y).scanline_buffer;
            let at = 768 * y + 3 * x;
            &&& after[at] == b.screen_row(y)[x].0
            &&& after[at + 1] == b.screen_row(y)[x].1
            &&& after[at + 2] == b.screen_row(y)[x].2
        }),
{
    crate::gfx_laws::law_row_is_stored_in_order(b.scanline_buffer, 768 * y, b.screen_row(y), x, 0);
    assert(y * NATIVE_WIDTH * 3 == 768 * y);
}

/// A palette byte: red is its low three lines, green the next three, blue the
/// top two.
pub proof fn law_palette_levels(dac: CongoDac, r: int, g: int, bl: int)
    requires
        0 <= r < 8,
        0 <= g < 8,
        0 <= bl < 4,
    ensures
        dac.color((r + 8 * g + 64 * bl) as u8) == (dac.rg@[r], dac.rg@[g], dac.b@[bl]),
{
    let v = (r + 8 * g + 64 * bl) as u8;
    lemma_lines(v);
    lemma_lines((v >> 3) as u8);
    lemma_lines((v >> 6) as u8);
    assert(v as int % 8 == r && (v as int / 8) % 8 == g && v as int / 64 == bl);
}

// -- Sprite transfer --------------------------------------------------------

/// One descriptor: its first byte names a slot modulo 64, and the four bytes
/// after it fill that slot in order; the other slots stay.
pub proof fn law_descriptor_fills_its_slot(b: CongoView, ram: Seq<u8>, from: int, slot: int, k: int)
    requires
        b.wf(),
        ram.len() == 256,
        0 <= from <= 0xFFF0,
        0 <= slot < 64,
        0 <= k < 4,
    ensures
        ({
            let after = b.with_descriptor(ram, from);
            &&& after.len() == 256
            &&& after[4 * slot + k] == if b.memory_byte(from as u16) as int % 64 == slot {
                b.memory_byte((from + 1 + k) as u16)
            } else {
                ram[4 * slot + k]
            }
        }),
{
    let at = 4 * slot + k;
    assert(at / 4 == slot && at % 4 == k);
    lemma_wrap_small(from, 0x10000);
    lemma_wrap_small(from + 1 + k, 0x10000);
}

/// A transfer: writing 1 to the last register moves one descriptor more than
/// the count register says, from the address in the first two, low byte first,
/// one every 32 bytes, in order. Nothing else starts one.
pub proof fn law_transfer_moves_its_descriptors(b: CongoView, data: u8, n: nat)
    requires
        b.wf(),
        n <= b.sprite_dma[2],
    ensures
        ({
            let from = b.sprite_dma[0] + 256 * b.sprite_dma[1];
            let after = b.after_main_write(0xC033, 1);
            &&& after.sprite_ram == transferred(after, b.sprite_ram, from, (b.sprite_dma[2] + 1) as nat)
            &&& transferred(after, b.sprite_ram, from, n + 1) == after.with_descriptor(
                transferred(after, b.sprite_ram, from, n),
                from + 32 * n,
            )
            &&& data != 1 ==> b.after_main_write(0xC033, data).sprite_ram == b.sprite_ram
            &&& b.after_main_write(0xC030, data).sprite_ram == b.sprite_ram
            &&& b.after_main_write(0xC031, data).sprite_ram == b.sprite_ram
            &&& b.after_main_write(0xC032, data).sprite_ram == b.sprite_ram
            &&& b.after_main_write(0xC030, data).sprite_dma == b.sprite_dma.update(0, data)
            &&& b.after_main_write(0xC031, data).sprite_dma == b.sprite_dma.update(1, data)
            &&& b.after_main_write(0xC032, data).sprite_dma == b.sprite_dma.update(2, data)
        }),
{
    lemma_word_fields(0xC030);
    lemma_word_fields(0xC031);
    lemma_word_fields(0xC032);
    lemma_word_fields(0xC033);
    assert(0xC030u16 % 64 == 0x30 && 0xC031u16 % 64 == 0x31 && 0xC032u16 % 64 == 0x32 && 0xC033u16 % 64 == 0x33);
    assert(0xC030u16 % 4 == 0 && 0xC031u16 % 4 == 1 && 0xC032u16 % 4 == 2 && 0xC033u16 % 4 == 3);
    let from = b.sprite_dma[0] + 256 * b.sprite_dma[1];
    let after = b.after_main_write(0xC033, 1);
    let written = CongoView { sprite_dma: b.sprite_dma.update(3, 1), ..b };
    lemma_transferred(written, after, b.sprite_ram, from, (b.sprite_dma[2] + 1) as nat);
}

/// Sprite RAM after `n` descriptors from `from` on.
pub open spec fn transferred(b: CongoView, ram: Seq<u8>, from: int, n: nat) -> Seq<u8>
    decreases n,
{
    if n == 0 {
        ram
    } else {
        b.with_descriptor(transferred(b, ram, from, (n - 1) as nat), from + 32 * (n - 1))
    }
}

proof fn lemma_transferred(a: CongoView, b: CongoView, ram: Seq<u8>, from: int, n: nat)
    requires
        a.main_rom == b.main_rom,
        a.ram == b.ram,
        a.video_ram == b.video_ram,
        a.color_ram == b.color_ram,
    ensures
        a.after_descriptors(ram, from, n) == transferred(b, ram, from, n),
    decreases n,
{
    if n > 0 {
        lemma_transferred(a, b, ram, from, (n - 1) as nat);
        let before = transferred(b, ram, from, (n - 1) as nat);
        assert(a.with_descriptor(before, from + 0x20 * (n - 1)) =~= b.with_descriptor(before, from + 32 * (n - 1)));
    }
}

// -- Controls ---------------------------------------------------------------

/// Line `k` of an input port as the program reads it.
pub open spec fn line_of(b: CongoView, port: u16, k: u8) -> bool {
    bit(b.main_read(port), k)
}

/// Stick and button lines: a control drives its own line of its player's port
/// high while held, and no other line. Player 1 reads at the first port, player
/// 2 at the second, right, left, up, down, button from line 0 up.
pub proof fn law_sticks_drive_their_own_line(b: CongoView, pressed: bool, k: u8)
    requires
        k < 8,
    ensures
        line_of(after_button(b, INPUT_P1_RIGHT, pressed), 0xC000, k) == if k == 0 { pressed } else { line_of(b, 0xC000, k) },
        line_of(after_button(b, INPUT_P1_LEFT, pressed), 0xC000, k) == if k == 1 { pressed } else { line_of(b, 0xC000, k) },
        line_of(after_button(b, INPUT_P1_UP, pressed), 0xC000, k) == if k == 2 { pressed } else { line_of(b, 0xC000, k) },
        line_of(after_button(b, INPUT_P1_DOWN, pressed), 0xC000, k) == if k == 3 { pressed } else { line_of(b, 0xC000, k) },
        line_of(after_button(b, INPUT_P1_BUTTON, pressed), 0xC000, k) == if k == 4 { pressed } else { line_of(b, 0xC000, k) },
        line_of(after_button(b, INPUT_P2_RIGHT, pressed), 0xC001, k) == if k == 0 { pressed } else { line_of(b, 0xC001, k) },
        line_of(after_button(b, INPUT_P2_LEFT, pressed), 0xC001, k) == if k == 1 { pressed } else { line_of(b, 0xC001, k) },
        line_of(after_button(b, INPUT_P2_UP, pressed), 0xC001, k) == if k == 2 { pressed } else { line_of(b, 0xC001, k) },
        line_of(after_button(b, INPUT_P2_DOWN, pressed), 0xC001, k) == if k == 3 { pressed } else { line_of(b, 0xC001, k) },
        line_of(after_button(b, INPUT_P2_BUTTON, pressed), 0xC001, k) == if k == 4 { pressed } else { line_of(b, 0xC001, k) },
{
    lemma_word_fields(0xC000);
    lemma_word_fields(0xC001);
    assert(0xC000u16 % 64 == 0 && 0xC001u16 % 64 == 1);
    lemma_with_bit(b.in0, 0, k, pressed);
    lemma_with_bit(b.in0, 1, k, pressed);
    lemma_with_bit(b.in0, 2, k, pressed);
    lemma_with_bit(b.in0, 3, k, pressed);
    lemma_with_bit(b.in0, 4, k, pressed);
    lemma_with_bit(b.in1, 0, k, pressed);
    lemma_with_bit(b.in1, 1, k, pressed);
    lemma_with_bit(b.in1, 2, k, pressed);
    lemma_with_bit(b.in1, 3, k, pressed);
    lemma_with_bit(b.in1, 4, k, pressed);
}

} // verus!
