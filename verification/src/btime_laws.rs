//! What the btime board shows, stated over places on the screen: where sprites,
//! characters and background tiles stand, which way they face, and which layer
//! covers which.

use vstd::prelude::*;

use crate::arith::{lemma_wrap_plus, lemma_wrap_small};
use crate::bits::{bit, group_mask_bounds, lemma_lines};
use crate::btime::{BG_PALETTE_BASE, BtimeView, CROP_LO, VISIBLE_DIM, blitted, palette_color};

verus! {

broadcast use group_mask_bounds;

/// Colour of the picture at native column `x` of native row `y`; the picture is
/// the middle 240 by 240 of the native screen.
pub open spec fn shown(b: BtimeView, x: int, y: int) -> (u8, u8, u8) {
    let at = 720 * (y - 8) + 3 * (x - 8);
    (b.framebuffer[at], b.framebuffer[at + 1], b.framebuffer[at + 2])
}

/// A scanline shows the palette colour of every pen of its native row, in place.
pub proof fn law_scanline_shows_the_row_in_place(b: BtimeView, x: int, y: int)
    requires
        b.wf(),
        8 <= x < 248,
        8 <= y < 248,
    ensures
        shown(b.after_scanline(y), x, y) == b.palette_rgb[b.native_row(y)[x] as int % 16],
{
    let k = x - 8;
    assert((3 * k) / 3 == k && (3 * k) % 3 == 0);
    assert((3 * k + 1) / 3 == k && (3 * k + 1) % 3 == 1);
    assert((3 * k + 2) / 3 == k && (3 * k + 2) % 3 == 2);
    lemma_lines(b.native_row(y)[x]);
    assert(b.visible_row(y)[k] == b.palette_rgb[(b.native_row(y)[k + CROP_LO] & 0x0F) as int]);
    assert((y - CROP_LO) * VISIBLE_DIM * 3 == 720 * (y - 8));
}

// -- Sprites ----------------------------------------------------------------

/// The four bytes of sprite `i`: attributes, tile, vertical and horizontal
/// position.
pub open spec fn sprite_byte(b: BtimeView, i: int, k: int) -> int {
    b.videoram[0x80 * i + 0x20 * k] as int
}

proof fn lemma_blit_inside(
    row: Seq<u8>,
    b: BtimeView,
    code: int,
    sx: int,
    sy: int,
    flipx: bool,
    flipy: bool,
    x: int,
    y: int,
)
    requires
        b.wf(),
        0 <= x < row.len(),
    ensures
        ({
            let after = blitted(row, b.sprites, code, sx, sy, flipx, flipy, 0, true, y);
            let c = x - sx;
            let r = y - sy;
            let pen = b.sprites.at(code, if flipx { 15 - c } else { c }, if flipy { 15 - r } else { r });
            &&& after.len() == row.len()
            &&& after[x] == if code < b.sprites.spec_count() && 0 <= c < 16 && 0 <= r < 16 && pen != 0 {
                pen
            } else {
                row[x]
            }
        }),
{
    reveal(blitted);
}

/// Where a sprite stands: with the screen not flipped, sprite `i` covers the 16
/// columns from 240 less its horizontal byte and the 16 rows from 239 less its
/// vertical byte, rows wrapping at 256. A pixel `c` columns in and `r` rows
/// down shows that pixel of the tile, mirrored across when line 2 of the
/// attributes is set and top to bottom when line 1 is; pen 0 shows what is
/// below, and so does a sprite whose line 0 is clear.
#[verifier::spinoff_prover]
pub proof fn law_sprite_stands_at_its_position(b: BtimeView, row: Seq<u8>, i: int, x: int, y: int)
    requires
        b.wf(),
        !b.flip_screen,
        row.len() == 256,
        0 <= i < 8,
        0 <= x < 256,
        0 <= y < 256,
    ensures
        ({
            let attr = b.videoram[0x80 * i];
            let c = x - (240 - sprite_byte(b, i, 3));
            let r = (y - (239 - sprite_byte(b, i, 2))) % 256;
            let pen = b.sprites.at(
                sprite_byte(b, i, 1),
                if bit(attr, 2) { 15 - c } else { c },
                if bit(attr, 1) { 15 - r } else { r },
            );
            b.with_sprite(row, i, y)[x] == if bit(attr, 0) && 0 <= c < 16 && r < 16 && sprite_byte(b, i, 1)
                < b.sprites.spec_count() && pen != 0 {
                pen
            } else {
                row[x]
            }
        }),
{
    let attr = b.videoram[0x80 * i];
    lemma_lines(attr);
    let sx = 240 - sprite_byte(b, i, 3);
    let sy = 239 - sprite_byte(b, i, 2);
    let code = sprite_byte(b, i, 1);
    let flipx = attr & 0x04 != 0;
    let flipy = attr & 0x02 != 0;
    let near = blitted(row, b.sprites, code, sx, sy, flipx, flipy, 0, true, y);
    lemma_blit_inside(row, b, code, sx, sy, flipx, flipy, x, y);
    lemma_blit_inside(near, b, code, sx, sy + 256, flipx, flipy, x, y);
    lemma_row_wraps(y - sy);
    let off = 0x80 * i;
    assert(b.videoram[off + 0x60] as int == sprite_byte(b, i, 3));
    assert(b.videoram[off + 0x40] as int == sprite_byte(b, i, 2));
    assert(b.videoram[off + 0x20] as int == sprite_byte(b, i, 1));
}

proof fn lemma_row_wraps(d: int)
    requires
        -239 <= d < 272,
    ensures
        (d % 256 < 16) == (0 <= d < 16 || 0 <= d - 256 < 16),
        0 <= d < 16 ==> d % 256 == d,
        0 <= d - 256 < 16 ==> d % 256 == d - 256,
{
}

/// On a flipped screen a sprite stands at its horizontal byte, one row above
/// its vertical byte, and again 256 rows higher, turned half round.
#[verifier::spinoff_prover]
pub proof fn law_flipped_sprite_stands_mirrored(b: BtimeView, row: Seq<u8>, i: int, x: int, y: int)
    requires
        b.wf(),
        b.flip_screen,
        row.len() == 256,
        0 <= i < 8,
        0 <= x < 256,
        0 <= y < 256,
    ensures
        ({
            let attr = b.videoram[0x80 * i];
            let c = x - sprite_byte(b, i, 3);
            let d = y - (sprite_byte(b, i, 2) - 1);
            let r = if d < 0 { d + 256 } else { d };
            let pen = b.sprites.at(
                sprite_byte(b, i, 1),
                if bit(attr, 2) { c } else { 15 - c },
                if bit(attr, 1) { r } else { 15 - r },
            );
            b.with_sprite(row, i, y)[x] == if bit(attr, 0) && 0 <= c < 16 && r < 16 && sprite_byte(b, i, 1)
                < b.sprites.spec_count() && pen != 0 {
                pen
            } else {
                row[x]
            }
        }),
{
    let attr = b.videoram[0x80 * i];
    lemma_lines(attr);
    let sx = sprite_byte(b, i, 3);
    let sy = sprite_byte(b, i, 2) - 1;
    let code = sprite_byte(b, i, 1);
    let flipx = !(attr & 0x04 != 0);
    let flipy = !(attr & 0x02 != 0);
    let near = blitted(row, b.sprites, code, sx, sy, flipx, flipy, 0, true, y);
    lemma_blit_inside(row, b, code, sx, sy, flipx, flipy, x, y);
    lemma_blit_inside(near, b, code, sx, sy - 256, flipx, flipy, x, y);
    let off = 0x80 * i;
    assert(b.videoram[off + 0x60] as int == sprite_byte(b, i, 3));
    assert(b.videoram[off + 0x40] as int == sprite_byte(b, i, 2));
    assert(b.videoram[off + 0x20] as int == sprite_byte(b, i, 1));
}

/// Layer order: sprites cover the tiles, a later sprite covers an earlier one,
/// and where no sprite shows the tile layers do.
pub proof fn law_later_sprites_cover_earlier(b: BtimeView, row: Seq<u8>, n: nat, x: int, y: int)
    requires
        b.wf(),
        row.len() == 256,
        0 <= x < 256,
        0 <= y < 256,
        n < 8,
    ensures
        b.with_sprites(row, n, y).len() == 256,
        b.with_sprites(row, n + 1, y) == b.with_sprite(b.with_sprites(row, n, y), n as int, y),
        b.with_sprites(row, 0, y) == row,
    decreases n,
{
    if n > 0 {
        law_later_sprites_cover_earlier(b, row, (n - 1) as nat, x, y);
    }
    lemma_sprite_row_len(b, b.with_sprites(row, n, y), n as int, y);
    if n > 0 {
        lemma_sprite_row_len(b, b.with_sprites(row, (n - 1) as nat, y), n - 1, y);
    }
}

proof fn lemma_sprite_row_len(b: BtimeView, row: Seq<u8>, i: int, y: int)
    ensures
        b.with_sprite(row, i, y).len() == row.len(),
{
    reveal(blitted);
}

// -- Characters -------------------------------------------------------------

/// Where a character stands and which way it faces: video cell `32 * col + row`
/// shows at character column `31 - col` from the left and character row `row`,
/// upright. The tile number is the video byte with the low two lines of the
/// color byte above it.
pub proof fn law_character_stands_in_its_cell(b: BtimeView, col: int, row: int, px: int, py: int)
    requires
        b.wf(),
        !b.flip_screen,
        0 <= col < 32,
        0 <= row < 32,
        0 <= px < 8,
        0 <= py < 8,
    ensures
        ({
            let cell = 32 * col + row;
            let code = b.videoram[cell] + 256 * (b.colorram[cell] as int % 4);
            b.char_pen(8 * (31 - col) + px, 8 * row + py) == if code < b.chars.spec_count() {
                Some(b.chars.at(code, px, py))
            } else {
                None::<u8>
            }
        }),
{
    let cell = 32 * col + row;
    let x = 8 * (31 - col) + px;
    let y = 8 * row + py;
    assert(x / 8 == 31 - col && x % 8 == px && y / 8 == row && y % 8 == py);
    assert(b.char_cell(x, y) == cell);
    lemma_lines(b.colorram[cell]);
}

/// Flipping the screen turns the characters half round.
pub proof fn law_flip_turns_characters_half_round(b: BtimeView, x: int, y: int)
    requires
        b.wf(),
        0 <= x < 256,
        0 <= y < 256,
    ensures
        (BtimeView { flip_screen: true, ..b }).char_pen(x, y) == (BtimeView { flip_screen: false, ..b }).char_pen(
            255 - x,
            255 - y,
        ),
{
    assert((255 - x) / 8 == 31 - x / 8 && (255 - x) % 8 == 7 - x % 8);
    assert((255 - y) / 8 == 31 - y / 8 && (255 - y) % 8 == 7 - y % 8);
}

// -- Background -------------------------------------------------------------

/// Where a background tile stands: with the screen not flipped, tile column
/// `col` of the page in view starts at column `239 - 16 * col`, tile row `row`
/// at row `16 * row`, upright; the map is stored column by column. The page in
/// view is the one after the scroll register's low two lines, in the half that
/// its line 2 picks.
#[verifier::spinoff_prover]
pub proof fn law_background_tile_stands_in_its_place(
    b: BtimeView,
    ctrl: u8,
    col: int,
    row: int,
    px: int,
    py: int,
)
    requires
        b.wf(),
        !b.flip_screen,
        0 <= col < 16,
        0 <= row < 16,
        0 <= px < 16,
        0 <= py < 16,
        0 <= 239 - 16 * col + px,
    ensures
        ({
            let page = (ctrl as int % 4 + 1) % 4 + 4 * ((ctrl as int / 4) % 2);
            let code = b.bg_map[256 * page + 16 * col + row] as int;
            b.bg_pen(ctrl, 239 - 16 * col + px, 16 * row + py) == if code < b.bg_tiles.spec_count() {
                Some(b.bg_tiles.at(code, px, py))
            } else {
                None::<u8>
            }
        }),
{
    let x = 239 - 16 * col + px;
    let y = 16 * row + py;
    lemma_page(b, ctrl, ctrl as int % 4);
    lemma_lines(ctrl);
    let d = 254 - x;
    assert(d == 16 * col + (15 - px));
    lemma_wrap_small(d, 256);
    assert(d / 16 == col && d % 16 == 15 - px);
    assert(y / 16 == row && y % 16 == py);
}

/// On a flipped screen tile column `col` of the page in view starts at column
/// `1 + 16 * col`, tile row `row` at row `240 - 16 * row`, turned half round,
/// and the page in view is the one the register names.
#[verifier::spinoff_prover]
pub proof fn law_flipped_background_tile_stands_mirrored(
    b: BtimeView,
    ctrl: u8,
    col: int,
    row: int,
    px: int,
    py: int,
)
    requires
        b.wf(),
        b.flip_screen,
        0 <= col < 16,
        0 <= row < 16,
        0 <= px < 16,
        0 <= py < 16,
        1 + 16 * col + px < 256,
    ensures
        ({
            let page = ctrl as int % 4 + 4 * ((ctrl as int / 4) % 2);
            let code = b.bg_map[256 * page + 16 * col + row] as int;
            b.bg_pen(ctrl, 1 + 16 * col + px, 240 - 16 * row + py) == if code < b.bg_tiles.spec_count() {
                Some(b.bg_tiles.at(code, 15 - px, 15 - py))
            } else {
                None::<u8>
            }
        }),
{
    let x = 1 + 16 * col + px;
    let y = 240 - 16 * row + py;
    lemma_page(b, ctrl, ctrl as int % 4);
    lemma_lines(ctrl);
    let d = x - 1;
    lemma_wrap_small(d, 256);
    assert(d / 16 == col && d % 16 == px);
    let yy = 255 - y;
    assert(yy == 16 * row + (15 - py));
    assert(yy / 16 == row && yy % 16 == 15 - py);
}

proof fn lemma_page(b: BtimeView, ctrl: u8, block: int)
    requires
        0 <= block < 4,
    ensures
        b.bg_page(ctrl, block) == if b.flip_screen {
            block + 4 * ((ctrl as int / 4) % 2)
        } else {
            (block + 1) % 4 + 4 * ((ctrl as int / 4) % 2)
        },
{
    let start: int = if b.flip_screen { 0 } else { 1 };
    let k = ((start + block) % 4) as u8;
    assert(k < 4);
    assert((k | (ctrl & 0x04)) == k + 4 * ((ctrl / 4) % 2)) by (bit_vector)
        requires
            k < 4,
    ;
}

/// Layers of a row without sprites: while line 4 of the scroll register is set
/// the background shows in the upper half of the palette and characters cover
/// it except where their pen is 0; while it is clear characters show alone, pen
/// 0 among them. What no tile covers is pen 0.
pub proof fn law_characters_cover_the_background(b: BtimeView, x: int, y: int)
    requires
        b.wf(),
        0 <= x < 256,
        0 <= y < 256,
        forall|i: int| 0 <= i < 8 ==> !bit(#[trigger] b.videoram[0x80 * i], 0),
    ensures
        ({
            let text = b.char_pen(x, y);
            let below = match b.bg_pen(b.bnj_scroll0, x, y) {
                Some(pen) => (8 + pen) as u8,
                None => 0u8,
            };
            b.native_row(y)[x] == if bit(b.bnj_scroll0, 4) {
                match text {
                    Some(pen) => if pen == 0 { below } else { pen },
                    None => below,
                }
            } else {
                match text {
                    Some(pen) => pen,
                    None => 0u8,
                }
            }
        }),
{
    lemma_lines(b.bnj_scroll0);
    let backdrop = Seq::new(256, |k: int| 0u8);
    let tiles = if b.bnj_scroll0 & 0x10 != 0 {
        b.with_chars(b.with_background(backdrop, b.bnj_scroll0, y), true, y)
    } else {
        b.with_chars(backdrop, false, y)
    };
    lemma_no_sprites(b, tiles, 8, y);
    assert(BG_PALETTE_BASE == 8);
}

proof fn lemma_no_sprites(b: BtimeView, row: Seq<u8>, n: nat, y: int)
    requires
        b.wf(),
        n <= 8,
        forall|i: int| 0 <= i < 8 ==> !bit(#[trigger] b.videoram[0x80 * i], 0),
    ensures
        b.with_sprites(row, n, y) == row,
    decreases n,
{
    if n > 0 {
        lemma_no_sprites(b, row, (n - 1) as nat, y);
        let attr = b.videoram[0x80 * (n - 1)];
        assert(!bit(attr, 0));
        lemma_lines(attr);
        assert(b.videoram[(n - 1) * 0x80] == attr);
    }
}

/// Sprites cover both: the finished row is the tile layers with the eight
/// sprites drawn over them, so a pixel of the last sprite that shows there is
/// what the row holds.
pub proof fn law_last_sprite_shows(b: BtimeView, x: int, y: int)
    requires
        b.wf(),
        !b.flip_screen,
        0 <= x < 256,
        0 <= y < 256,
        bit(b.videoram[0x380], 0),
        sprite_byte(b, 7, 1) < b.sprites.spec_count(),
        0 <= x - (240 - sprite_byte(b, 7, 3)) < 16,
        (y - (239 - sprite_byte(b, 7, 2))) % 256 < 16,
    ensures
        ({
            let attr = b.videoram[0x380];
            let c = x - (240 - sprite_byte(b, 7, 3));
            let r = (y - (239 - sprite_byte(b, 7, 2))) % 256;
            let pen = b.sprites.at(
                sprite_byte(b, 7, 1),
                if bit(attr, 2) { 15 - c } else { c },
                if bit(attr, 1) { 15 - r } else { r },
            );
            pen != 0 ==> b.native_row(y)[x] == pen
        }),
{
    let backdrop = Seq::new(256, |k: int| 0u8);
    let tiles = if b.bnj_scroll0 & 0x10 != 0 {
        b.with_chars(b.with_background(backdrop, b.bnj_scroll0, y), true, y)
    } else {
        b.with_chars(backdrop, false, y)
    };
    law_later_sprites_cover_earlier(b, tiles, 7, x, y);
    law_sprite_stands_at_its_position(b, b.with_sprites(tiles, 7, y), 7, x, y);
}

// -- Palette ----------------------------------------------------------------

/// A palette byte written with inverted levels of three bits of red, three of
/// green and two of blue, red lowest, shows each level spread evenly from 0 to
/// 255.
pub proof fn law_palette_levels(b: BtimeView, e: u16, r: u8, g: u8, bl: u8)
    requires
        b.wf(),
        e < 16,
        r < 8,
        g < 8,
        bl < 4,
    ensures
        ({
            let data = (255 - (r + 8 * g + 64 * bl)) as u8;
            let rgb = b.after_main_write((0x0C00 + e) as u16, data).palette_rgb[e as int];
            &&& rgb.0 as int == (510 * r + 7) / 14
            &&& rgb.1 as int == (510 * g + 7) / 14
            &&& rgb.2 as int == 85 * bl
        }),
{
    let data = (255 - (r + 8 * g + 64 * bl)) as u8;
    assert({
        let red = !data & 7;
        let green = (!data >> 3u8) & 7;
        let blue = (!data >> 6u8) & 3;
        &&& ((red << 5u8) | (red << 2u8) | (red >> 1u8)) == (510 * r + 7) / 14
        &&& ((green << 5u8) | (green << 2u8) | (green >> 1u8)) == (510 * g + 7) / 14
        &&& ((blue << 6u8) | (blue << 4u8) | (blue << 2u8) | blue) == 85 * bl
    }) by (bit_vector)
        requires
            data == 255 - (r + 8 * g + 64 * bl),
            r < 8,
            g < 8,
            bl < 4,
    ;
    assert(palette_color(data).0 as int == (510 * r + 7) / 14);
}

} // verus!
