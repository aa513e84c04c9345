//! What the Crystal Castles board shows and what its pixel port does, stated
//! over whole pictures and over sequences of CPU accesses.

use vstd::prelude::*;

use crate::arith::{lemma_wrap_nested, lemma_wrap_plus, lemma_wrap_small};
use crate::bits::{bit, lemma_lines, lemma_with_bit, with_bit};
use crate::ccastles::{
    CTRL_TRACKBALL_X, CTRL_TRACKBALL_Y, CastlesRead, CastlesView, INPUT_COIN_L, INPUT_COIN_R,
    INPUT_JUMP_LEFT, INPUT_JUMP_RIGHT, TrackballInput, after_button, law_later_sprites_land_on_top,
    nibbles, trackball_input, wp_index,
};
use crate::input::{InputEvent, InputId};

verus! {

/// Colour of the picture at column `x` of row `row`.
pub open spec fn shown(b: CastlesView, row: int, x: int) -> (u8, u8, u8) {
    (
        b.scanline_buffer[768 * row + 3 * x],
        b.scanline_buffer[768 * row + 3 * x + 1],
        b.scanline_buffer[768 * row + 3 * x + 2],
    )
}

/// Whether a scanline puts a row into the picture.
pub open spec fn visible(b: CastlesView, scanline: int) -> bool {
    &&& 0 <= scanline < 256
    &&& b.sync_prom[scanline] & 1 == 0
    &&& (scanline - b.vblank_end) % 256 < 232
}

/// Colour that scanline `n` puts into column `x` of its picture row.
#[verifier::opaque]
pub open spec fn beam(b: CastlesView, n: int, x: int) -> (u8, u8, u8) {
    shown(b.after_compose(n), (n - b.vblank_end) % 256, x)
}

/// The pixel that sits at column `x` of bitmap row `y`: two to a byte, the even
/// one in the low half.
pub open spec fn plotted(b: CastlesView, x: int, y: int) -> int {
    let byte = b.video_ram[128 * y + x / 2] as int;
    if x % 2 == 0 {
        byte - 16 * (byte / 16)
    } else {
        byte / 16
    }
}

proof fn lemma_beam(b: CastlesView, n: int, x: int)
    requires
        b.wf(),
        visible(b, n),
        0 <= x < 256,
    ensures
        beam(b, n, x) == b.palette_rgb[b.pen_at(n, x)],
{
    reveal(beam);
    let row = (n - b.vblank_end) % 256;
    assert(b.screen_row(n) == row);
    let after = b.after_compose(n);
    assert(0 <= 768 * row + 3 * x && 768 * row + 3 * x + 2 < 3 * 256 * 232);
    assert((3 * x) / 3 == x && (3 * x) % 3 == 0);
    assert((3 * x + 1) / 3 == x && (3 * x + 1) % 3 == 1);
    assert((3 * x + 2) / 3 == x && (3 * x + 2) % 3 == 2);
    assert(b.row_colors(n)[x] == b.palette_rgb[b.pen_at(n, x)]);
}

/// Vertical scroll against the unscrolled picture: with the screen not flipped,
/// scanline `n` under scroll `s` shows what scanline `n + s` shows without
/// scroll, wherever the sprite layer is the same on both. Raising the scroll
/// moves the bitmap up.
#[verifier::spinoff_prover]
pub proof fn law_vertical_scroll_moves_the_bitmap_up(b: CastlesView, n: int, x: int)
    requires
        b.wf(),
        !bit(b.outlatch1, 4),
        0 <= x < 256,
        visible(b, n),
        visible(b, (n + b.vscroll) % 256),
        b.sprite_buffer[256 * n + x] == b.sprite_buffer[256 * ((n + b.vscroll) % 256) + x],
    ensures
        beam(b, n, x) == beam(CastlesView { vscroll: 0, ..b }, (n + b.vscroll) % 256, x),
{
    let still = CastlesView { vscroll: 0, ..b };
    let m = (n + b.vscroll) % 256;
    lemma_beam(b, n, x);
    lemma_beam(still, m, x);
    lemma_scrolled_row(b, n);
    lemma_same_pen(b, still, n, m, x, x);
}

proof fn lemma_scrolled_row(b: CastlesView, n: int)
    requires
        !bit(b.outlatch1, 4),
        0 <= n < 256,
    ensures
        b.bitmap_row(n) == (CastlesView { vscroll: 0, ..b }).bitmap_row((n + b.vscroll) % 256),
{
    lemma_wrapped_line(n, b.vscroll as int, b.vblank_end as int);
    let line = (n - b.vblank_end) % 256;
    lemma_wrap_plus(line + b.vscroll, 0, 256);
}

proof fn lemma_wrapped_line(n: int, s: int, first: int)
    requires
        0 <= n < 256,
        0 <= s < 256,
        0 <= first < 256,
    ensures
        ((n + s) % 256 - first) % 256 == ((n - first) % 256 + s) % 256,
        ((n - first) % 256 + 0) % 256 == (n - first) % 256,
{
    lemma_wrap_plus(n + s, first, 256);
    lemma_wrap_plus(n - first, s, 256);
    lemma_wrap_plus(n - first, 0, 256);
    assert(n + s - first == n - first + s);
}

/// Two beams that see the same bitmap pixel and sprite value show the same pen.
proof fn lemma_same_pen(a: CastlesView, b: CastlesView, n: int, m: int, x: int, at: int)
    requires
        a.bitmap_row(n) == b.bitmap_row(m),
        a.video_ram == b.video_ram,
        a.pri_prom == b.pri_prom,
        a.sprite_buffer[256 * n + x] == b.sprite_buffer[256 * m + at],
        (a.hscroll + (if bit(a.outlatch1, 4) { 255 - x } else { x })) % 256 == (b.hscroll + (if bit(
            b.outlatch1,
            4,
        ) {
            255 - at
        } else {
            at
        })) % 256,
    ensures
        a.pen_at(n, x) == b.pen_at(m, at),
{
    assert(a.bitmap_pixel(n, x) == b.bitmap_pixel(m, at));
}

/// A flipped screen does not scroll vertically.
pub proof fn law_flipped_screen_ignores_vertical_scroll(b: CastlesView, n: int, x: int)
    requires
        b.wf(),
        bit(b.outlatch1, 4),
        0 <= x < 256,
        visible(b, n),
    ensures
        beam(b, n, x) == beam(CastlesView { vscroll: 0, ..b }, n, x),
{
    lemma_beam(b, n, x);
    lemma_beam(CastlesView { vscroll: 0, ..b }, n, x);
}

/// Horizontal scroll against the unscrolled picture: column `x` under scroll `s`
/// shows what column `x + s` shows without scroll, and column `x - s` when the
/// screen is flipped, wherever the sprite layer is the same in both. Raising the
/// scroll moves the bitmap left, or right when flipped.
#[verifier::spinoff_prover]
pub proof fn law_horizontal_scroll_moves_the_bitmap_left(b: CastlesView, n: int, x: int)
    requires
        b.wf(),
        0 <= x < 256,
        visible(b, n),
        b.sprite_buffer[256 * n + x] == b.sprite_buffer[256 * n + (if bit(b.outlatch1, 4) {
            (x - b.hscroll) % 256
        } else {
            (x + b.hscroll) % 256
        })],
    ensures
        beam(b, n, x) == beam(
            CastlesView { hscroll: 0, ..b },
            n,
            if bit(b.outlatch1, 4) {
                (x - b.hscroll) % 256
            } else {
                (x + b.hscroll) % 256
            },
        ),
{
    let still = CastlesView { hscroll: 0, ..b };
    let at = if bit(b.outlatch1, 4) { (x - b.hscroll) % 256 } else { (x + b.hscroll) % 256 };
    lemma_beam(b, n, x);
    lemma_beam(still, n, at);
    lemma_wrapped_column(x, b.hscroll as int);
    lemma_same_pen(b, still, n, n, x, at);
}

proof fn lemma_wrapped_column(x: int, h: int)
    requires
        0 <= x < 256,
        0 <= h < 256,
    ensures
        0 <= (x - h) % 256 < 256,
        0 <= (x + h) % 256 < 256,
        (0 + (255 - (x - h) % 256)) % 256 == (h + (255 - x)) % 256,
        (0 + (x + h) % 256) % 256 == (h + x) % 256,
{
    lemma_wrap_plus(x - h, 255, 256);
    lemma_wrap_plus(x + h, 0, 256);
    assert(255 - (x - h) == h + (255 - x));
}

/// What the unscrolled, unflipped screen shows: where the priority PROM passes
/// the bitmap through, picture row `r` shows bitmap row `r`, column for column,
/// and rows above the first visible one repeat that one.
pub proof fn law_unscrolled_bitmap_stands_in_place(b: CastlesView, n: int, x: int)
    requires
        b.wf(),
        !bit(b.outlatch1, 4),
        b.hscroll == 0,
        b.vscroll == 0,
        0 <= x < 256,
        visible(b, n),
        forall|k: int| 0 <= k < 256 ==> #[trigger] b.pri_prom[k] == 0,
    ensures
        ({
            let r = (n - b.vblank_end) % 256;
            let y = if r < b.vblank_end { b.vblank_end as int } else { r };
            beam(b, n, x) == b.palette_rgb[plotted(b, x, y)]
        }),
{
    lemma_beam(b, n, x);
    let pix = b.bitmap_pixel(n, x);
    let mo = b.sprite_buffer[n * 256 + x] as int;
    assert(b.pri_prom[0x40 + (mo % 8) * 4 + ((mo / 8) % 2) * 2 + pix / 8] == 0);
}

/// The flipped screen, unscrolled, shows the bitmap turned half round.
pub proof fn law_flipped_bitmap_is_turned_half_round(b: CastlesView, n: int, x: int)
    requires
        b.wf(),
        bit(b.outlatch1, 4),
        b.hscroll == 0,
        0 <= x < 256,
        visible(b, n),
        forall|k: int| 0 <= k < 256 ==> #[trigger] b.pri_prom[k] == 0,
    ensures
        ({
            let r = (n - b.vblank_end) % 256;
            let y = if 255 - r < b.vblank_end { b.vblank_end as int } else { 255 - r };
            beam(b, n, x) == b.palette_rgb[plotted(b, 255 - x, y)]
        }),
{
    lemma_beam(b, n, x);
    let pix = b.bitmap_pixel(n, x);
    let mo = b.sprite_buffer[n * 256 + x] as int;
    assert(b.pri_prom[0x40 + (mo % 8) * 4 + ((mo / 8) % 2) * 2 + pix / 8] == 0);
}

/// The priority PROM decides: line 1 of its entry shows the sprite layer in
/// place of the bitmap, line 0 moves either to the upper half of the palette.
/// The entry is picked by the sprite's pen, its colour group and the top line
/// of the bitmap pixel.
pub proof fn law_priority_prom_picks_the_layer(b: CastlesView, n: int, x: int, pix: int, mo: u8)
    requires
        b.wf(),
        0 <= x < 256,
        visible(b, n),
        !bit(b.outlatch1, 4),
        b.hscroll == 0,
        b.vscroll == 0,
        (n - b.vblank_end) % 256 >= b.vblank_end,
        pix == plotted(b, x, (n - b.vblank_end) % 256),
        mo == b.sprite_buffer[256 * n + x],
        mo < 16,
    ensures
        ({
            let group = if mo >= 8 { 2int } else { 0 };
            let top = if pix >= 8 { 1int } else { 0 };
            let pr = b.pri_prom[64 + 4 * (mo as int % 8) + group + top];
            let layer = if bit(pr, 1) { mo as int } else { pix };
            let half = if bit(pr, 0) { 16int } else { 0 };
            beam(b, n, x) == b.palette_rgb[layer + half]
        }),
{
    lemma_beam(b, n, x);
    let group = if mo >= 8 { 2int } else { 0 };
    let top = if pix >= 8 { 1int } else { 0 };
    let pr = b.pri_prom[64 + 4 * (mo as int % 8) + group + top];
    lemma_lines(pr);
    assert(pix == b.bitmap_pixel(n, x));
    assert(((mo as int / 8) % 2) * 2 == group);
    assert(pix / 8 == top);
}

/// The pixel port agrees with the picture: a read at port 2 gives, in the upper
/// half of the byte, the pixel at the latched column and row of the bitmap.
pub proof fn law_pixel_port_reads_the_plotted_pixel(b: CastlesView)
    requires
        b.wf(),
    ensures
        b.read_access(0x0002) == CastlesRead::Value(
            (16 * plotted(b, b.bitmode_x as int, b.bitmode_y as int) + 15) as u8,
        ),
{
}

/// A pixel written through the port, where the protection PROM leaves it
/// writable, is what the port reads there and what the bitmap holds there; the
/// other pixels of its group of four change only where the PROM leaves them
/// writable, and no pixel outside the group changes. Line `x % 4` of the PROM's
/// entry guards the pixel in that place of the group.
pub proof fn law_pixel_port_writes_one_pixel(b: CastlesView, data: u8, x: int, y: int)
    requires
        b.wf(),
        0 <= x < 256,
        0 <= y < 256,
    ensures
        ({
            let at = 128 * b.bitmode_y + b.bitmode_x as int / 2;
            let entry = (if at < 4096 { 128int } else { 0 }) + 32 * ((at / 1024) % 4) + 4 * ((b.bitmode_x as int / 2) % 2)
                + b.bitmode_x as int % 4;
            let open = !bit(b.wp_prom[entry], (x % 4) as u8);
            let after = b.after_write(0x0002, data);
            plotted(after, x, y) == if y == b.bitmode_y && x / 4 == b.bitmode_x as int / 4 && open {
                data as int / 16
            } else {
                plotted(b, x, y)
            }
        }),
{
    let at = 128 * b.bitmode_y + b.bitmode_x as int / 2;
    let entry = (if at < 4096 { 128int } else { 0 }) + 32 * ((at / 1024) % 4) + 4 * ((b.bitmode_x as int / 2) % 2)
        + b.bitmode_x as int % 4;
    let wp = b.wp_prom[entry];
    assert(at % 2 == (b.bitmode_x as int / 2) % 2);
    lemma_lines(wp);
    let pair = 128 * b.bitmode_y + 2 * (b.bitmode_x as int / 4);
    lemma_pixel_pair(b.bitmode_x as int, b.bitmode_y as int, x, y);
    let k = 128 * y + x / 2;
    let doubled = ((data as int / 16) * 17) as u8;
    let t = data as int / 16;
    assert(doubled as int == 17 * t);
    assert((17 * t) / 16 == t && (17 * t) % 16 == t) by {
        assert(17 * t == 16 * t + t);
    }
    let after = b.after_write(0x0002, data);
    assert(b.pixel_addr() == at);
    assert(wp_index(at, true, b.bitmode_x as int % 4) == entry);
    let left = nibbles(b.video_ram[pair], doubled, wp & 1 == 0, wp & 2 == 0);
    let right = nibbles(b.video_ram[pair + 1], doubled, wp & 4 == 0, wp & 8 == 0);
    assert(after.video_ram == b.video_ram.update(pair, left).update(pair + 1, right));
    lemma_halves(b.video_ram[pair], doubled, wp & 1 == 0, wp & 2 == 0);
    lemma_halves(b.video_ram[pair + 1], doubled, wp & 4 == 0, wp & 8 == 0);
    if k == pair {
        assert(after.video_ram[k] == left);
    } else if k == pair + 1 {
        assert(after.video_ram[k] == right);
    } else {
        assert(after.video_ram[k] == b.video_ram[k]);
    }
}

/// The two halves of a merged byte.
proof fn lemma_halves(v: u8, data: u8, low: bool, high: bool)
    ensures
        nibbles(v, data, low, high) as int / 16 == if high { data as int / 16 } else { v as int / 16 },
        nibbles(v, data, low, high) as int - 16 * (nibbles(v, data, low, high) as int / 16) == if low {
            data as int % 16
        } else {
            v as int - 16 * (v as int / 16)
        },
{
}

/// Which pixels lie in the byte pair that a pixel access reaches.
proof fn lemma_pixel_pair(px: int, py: int, x: int, y: int)
    requires
        0 <= px < 256,
        0 <= py < 256,
        0 <= x < 256,
        0 <= y < 256,
    ensures
        ((128 * py + px / 2) % 0x8000) / 2 * 2 == 128 * py + 2 * (px / 4),
        (128 * y + x / 2 == 128 * py + 2 * (px / 4)) == (y == py && x / 4 == px / 4 && x % 4 < 2),
        (128 * y + x / 2 == 128 * py + 2 * (px / 4) + 1) == (y == py && x / 4 == px / 4 && x % 4 >= 2),
        x % 4 < 2 ==> x % 4 == x % 2,
        x % 4 >= 2 ==> x % 4 == x % 2 + 2,
        0 <= 128 * y + x / 2 < 0x8000,
{
}

/// Writing a pixel and reading it back at the same place returns it, where it is
/// writable, for every value and column.
pub proof fn law_pixel_port_reads_back(b: CastlesView, data: u8)
    requires
        b.wf(),
        ({
            let at = 128 * b.bitmode_y + b.bitmode_x as int / 2;
            let entry = (if at < 4096 { 128int } else { 0 }) + 32 * ((at / 1024) % 4) + 4 * ((b.bitmode_x as int / 2) % 2)
                + b.bitmode_x as int % 4;
            !bit(b.wp_prom[entry], b.bitmode_x % 4)
        }),
    ensures
        ({
            let back = CastlesView {
                bitmode_x: b.bitmode_x,
                bitmode_y: b.bitmode_y,
                ..b.after_write(0x0002, data)
            };
            back.read_access(0x0002) == CastlesRead::Value((16 * (data as int / 16) + 15) as u8)
        }),
{
    law_pixel_port_writes_one_pixel(b, data, b.bitmode_x as int, b.bitmode_y as int);
    let back = CastlesView {
        bitmode_x: b.bitmode_x,
        bitmode_y: b.bitmode_y,
        ..b.after_write(0x0002, data)
    };
    assert(plotted(back, b.bitmode_x as int, b.bitmode_y as int) == plotted(
        b.after_write(0x0002, data),
        b.bitmode_x as int,
        b.bitmode_y as int,
    ));
    assert(back.wf());
    law_pixel_port_reads_the_plotted_pixel(back);
}

/// How the latches walk: an access at port 2 moves the column latch by one,
/// unless line 0 of the control latch holds it, to the right while line 2 is
/// low and to the left while it is high; the row latch likewise under lines 1
/// and 3, down the screen while line 3 is low. Reads and writes walk alike, and
/// no other access walks.
pub proof fn law_latches_walk_with_the_accesses(b: CastlesView, data: u8, addr: u16)
    requires
        b.wf(),
    ensures
        ({
            let dx = if bit(b.outlatch1, 0) { 0int } else if bit(b.outlatch1, 2) { 255 } else { 1 };
            let dy = if bit(b.outlatch1, 1) { 0int } else if bit(b.outlatch1, 3) { 255 } else { 1 };
            let read = b.after_read(0x0002);
            let written = b.after_write(0x0002, data);
            &&& read.bitmode_x as int == (b.bitmode_x + dx) % 256
            &&& read.bitmode_y as int == (b.bitmode_y + dy) % 256
            &&& written.bitmode_x as int == (b.bitmode_x + dx) % 256
            &&& written.bitmode_y as int == (b.bitmode_y + dy) % 256
            &&& read == (CastlesView { bitmode_x: read.bitmode_x, bitmode_y: read.bitmode_y, ..b })
        }),
        addr != 2 ==> b.after_read(addr) == b,
        addr > 2 ==> b.after_write(addr, data).bitmode_x == b.bitmode_x && b.after_write(
            addr,
            data,
        ).bitmode_y == b.bitmode_y,
        b.after_write(0, data).bitmode_x == data,
        b.after_write(0, data).bitmode_y == b.bitmode_y,
        b.after_write(1, data).bitmode_y == data,
        b.after_write(1, data).bitmode_x == b.bitmode_x,
{
}

/// The control latch takes line 3 of the byte written, one line per address,
/// and the output latch line 0: driving the column-hold line stops the walk,
/// letting it go starts it, and the direction line turns it round.
#[verifier::spinoff_prover]
pub proof fn law_control_latch_steers_the_walk(b: CastlesView, data: u8)
    requires
        b.wf(),
    ensures
        bit(data, 3) ==> b.after_write(0x9F00, data).after_read(2).bitmode_x == b.bitmode_x,
        bit(data, 3) ==> b.after_write(0x9F01, data).after_read(2).bitmode_y == b.bitmode_y,
        !bit(b.outlatch1, 0) ==> b.after_write(0x9F02, data).after_read(2).bitmode_x as int == (
        b.bitmode_x + if bit(data, 3) { 255int } else { 1 }) % 256,
        !bit(b.outlatch1, 1) ==> b.after_write(0x9F03, data).after_read(2).bitmode_y as int == (
        b.bitmode_y + if bit(data, 3) { 255int } else { 1 }) % 256,
{
    lemma_control_line(b, 0x9F00, data);
    lemma_control_line(b, 0x9F01, data);
    lemma_control_line(b, 0x9F02, data);
    lemma_control_line(b, 0x9F03, data);
    lemma_with_bit(b.outlatch1, 0, 0, bit(data, 3));
    lemma_with_bit(b.outlatch1, 1, 1, bit(data, 3));
    lemma_with_bit(b.outlatch1, 2, 2, bit(data, 3));
    lemma_with_bit(b.outlatch1, 2, 0, bit(data, 3));
    lemma_with_bit(b.outlatch1, 3, 3, bit(data, 3));
    lemma_with_bit(b.outlatch1, 3, 1, bit(data, 3));
    law_latches_walk_with_the_accesses(b.after_write(0x9F00, data), 0, 0);
    law_latches_walk_with_the_accesses(b.after_write(0x9F01, data), 0, 0);
    law_latches_walk_with_the_accesses(b.after_write(0x9F02, data), 0, 0);
    law_latches_walk_with_the_accesses(b.after_write(0x9F03, data), 0, 0);
}

proof fn lemma_control_line(b: CastlesView, addr: u16, data: u8)
    requires
        b.wf(),
        0x9F00 <= addr < 0x9F08,
    ensures
        b.after_write(addr, data) == (CastlesView {
            outlatch1: with_bit(b.outlatch1, (addr - 0x9F00) as u8, bit(data, 3)),
            ..b
        }),
        b.after_write(addr, data).wf(),
{
    lemma_lines(data);
    assert(addr % 8 == addr - 0x9F00);
}

// -- Sprites ----------------------------------------------------------------

/// Where a sprite stands: with its table bytes naming tile, vertical position,
/// attributes and column, the pixel `c` columns into the sprite and `r` rows
/// down stands at that column plus `c` and at row 240 minus the vertical
/// position plus `r`, wrapping at 256, and shows that pixel of the tile, or the
/// opposite one when the screen is flipped. Pen 7 shows nothing; the top line
/// of the attributes is the colour group.
pub proof fn law_sprite_stands_at_its_position(b: CastlesView, s: int, c: int, r: int)
    requires
        b.wf(),
        0 <= s < 40,
        0 <= c < 8,
        0 <= r < 16,
    ensures
        ({
            let base = (if bit(b.outlatch1, 7) { 256int } else { 0 }) + 4 * s;
            let x = (b.sprite_ram[base + 3] + c) % 256;
            let y = (240 - b.sprite_ram[base + 1] + r) % 256;
            let pen = if bit(b.outlatch1, 4) {
                b.sprite_cache.at(b.sprite_ram[base] as int, 7 - c, 15 - r)
            } else {
                b.sprite_cache.at(b.sprite_ram[base] as int, c, r)
            };
            b.sprite_pixel(s, x, y) == if pen == 7 {
                None::<u8>
            } else if bit(b.sprite_ram[base + 2], 7) {
                Some(8u8 | pen)
            } else {
                Some(0u8 | pen)
            }
        }),
{
    reveal(CastlesView::sprite_pixel);
    let base = (if bit(b.outlatch1, 7) { 256int } else { 0 }) + 4 * s;
    lemma_lines(b.sprite_ram[base + 2]);
    lemma_offset(b.sprite_ram[base + 3] as int, c);
    lemma_offset(240 - b.sprite_ram[base + 1], r);
}

proof fn lemma_offset(at: int, k: int)
    requires
        0 <= k < 256,
    ensures
        ((at + k) % 256 - at) % 256 == k,
{
    lemma_wrap_plus(at + k, at, 256);
    lemma_wrap_small(k, 256);
}

/// A sprite shows nothing outside its 8 by 16 pixels.
pub proof fn law_sprite_stays_in_its_rectangle(b: CastlesView, s: int, x: int, y: int)
    requires
        b.sprite_pixel(s, x, y) is Some,
    ensures
        ({
            let base = (if bit(b.outlatch1, 7) { 256int } else { 0 }) + 4 * s;
            &&& (x - b.sprite_ram[base + 3]) % 256 < 8
            &&& (y - 240 + b.sprite_ram[base + 1]) % 256 < 16
        }),
{
    reveal(CastlesView::sprite_pixel);
    let base = (if bit(b.outlatch1, 7) { 256int } else { 0 }) + 4 * s;
    assert(y - (240 - b.sprite_ram[base + 1]) == y - 240 + b.sprite_ram[base + 1]);
}

/// The sprite layer is drawn once, at the top of a frame, row by row: a cell
/// holds the last of the forty sprites that covers it, and 15 where none does.
pub proof fn law_sprite_layer_is_drawn_at_the_top(b: CastlesView, x: int, y: int, s: int, n: int)
    requires
        b.wf(),
        0 <= x < 256,
        0 <= y < 256,
        0 <= s < 40,
        0 < n < 256,
    ensures
        b.sprite_pixel(s, x, y) is Some && (forall|t: int| s < t < 40 ==> #[trigger] b.sprite_pixel(t, x, y) is None)
            ==> b.after_scanline(0).sprite_buffer[256 * y + x] == b.sprite_pixel(s, x, y)->Some_0,
        (forall|t: int| 0 <= t < 40 ==> #[trigger] b.sprite_pixel(t, x, y) is None) ==> b.after_scanline(
            0,
        ).sprite_buffer[256 * y + x] == 15,
        b.after_scanline(n).sprite_buffer == b.sprite_buffer,
{
    let clocked = CastlesView { irq_state: b.irq_state || b.irq_edge(0), ..b };
    let k = 256 * y + x;
    assert(k % 256 == x && k / 256 == y);
    assert forall|t: int| #[trigger] clocked.sprite_pixel(t, x, y) == b.sprite_pixel(t, x, y) by {
        reveal(CastlesView::sprite_pixel);
    }
    if b.sprite_pixel(s, x, y) is Some && (forall|t: int| s < t < 40 ==> #[trigger] b.sprite_pixel(t, x, y) is None) {
        assert forall|t: int| s < t < 40 implies #[trigger] clocked.sprite_pixel(t, k % 256, k / 256) is None by {
            assert(b.sprite_pixel(t, x, y) is None);
        }
        law_later_sprites_land_on_top(clocked, 40, s, k);
    }
    if forall|t: int| 0 <= t < 40 ==> #[trigger] b.sprite_pixel(t, x, y) is None {
        assert forall|t: int| 0 <= t < 40 implies #[trigger] clocked.sprite_pixel(t, x, y) is None by {
            assert(b.sprite_pixel(t, x, y) is None);
        }
        lemma_bare_cell(clocked, 40, x, y);
    }
}

proof fn lemma_bare_cell(b: CastlesView, n: nat, x: int, y: int)
    requires
        0 <= x < 256,
        0 <= y < 256,
        forall|t: int| 0 <= t < n ==> #[trigger] b.sprite_pixel(t, x, y) is None,
    ensures
        b.sprite_layer(n).len() == 0x10000,
        b.sprite_layer(n)[256 * y + x] == 15,
    decreases n,
{
    let k = 256 * y + x;
    assert(k % 256 == x && k / 256 == y);
    if n > 0 {
        lemma_bare_cell(b, (n - 1) as nat, x, y);
        assert(b.sprite_pixel(n - 1, x, y) is None);
    }
}

// -- Registers --------------------------------------------------------------

/// The scroll registers scroll: writing the first moves the bitmap left, the
/// second up, against the same register written to zero.
pub proof fn law_scroll_registers_scroll(b: CastlesView, a: u16, data: u8, n: int, x: int)
    requires
        b.wf(),
        !bit(b.outlatch1, 4),
        0 <= x < 256,
        visible(b, n),
        forall|k: int| 0 <= k < 0x10000 ==> #[trigger] b.sprite_buffer[k] == 15,
    ensures
        0x9C80 <= a < 0x9D00 ==> beam(b.after_write(a, data), n, x) == beam(
            b.after_write(a, 0),
            n,
            (x + data) % 256,
        ),
        0x9D00 <= a < 0x9D80 && visible(b, (n + data) % 256) ==> beam(b.after_write(a, data), n, x)
            == beam(b.after_write(a, 0), (n + data) % 256, x),
{
    let moved = b.after_write(a, data);
    let still = b.after_write(a, 0);
    if 0x9C80 <= a < 0x9D00 {
        assert(moved.sprite_buffer[256 * n + x] == 15);
        assert(moved.sprite_buffer[256 * n + (x + data) % 256] == 15);
        law_horizontal_scroll_moves_the_bitmap_left(moved, n, x);
        assert(still == (CastlesView { hscroll: 0, ..moved }));
    }
    if 0x9D00 <= a < 0x9D80 && visible(b, (n + data) % 256) {
        assert(moved.sprite_buffer[256 * n + x] == 15);
        assert(moved.sprite_buffer[256 * ((n + data) % 256) + x] == 15);
        law_vertical_scroll_moves_the_bitmap_up(moved, n, x);
        assert(still == (CastlesView { vscroll: 0, ..moved }));
    }
}

/// The palette: an entry written with inverted levels `r`, `g` and `bl` of
/// three bits each shows the ladder's outputs for them. Green is the low three
/// lines of the byte, blue the next three, red the top two with line 5 of the
/// address above them. No other entry changes.
pub proof fn law_palette_levels(b: CastlesView, half: u16, e: u16, r: u8, g: u8, bl: u8, other: int)
    requires
        b.wf(),
        half < 2,
        e < 32,
        r < 8,
        g < 8,
        bl < 8,
        0 <= other < 32,
    ensures
        ({
            let data = (64 * (r as int % 4) + 8 * bl + g) as u8;
            let addr = (0x9F80 + 64 * half + 32 * (r as int / 4) + e) as u16;
            let after = b.after_write(addr, data);
            &&& after.palette_rgb[e as int] == (b.dac[7 - r], b.dac[7 - g], b.dac[7 - bl])
            &&& other != e ==> after.palette_rgb[other] == b.palette_rgb[other]
            &&& after.palette_ram[32 * (r as int / 4) + e] == data
        }),
{
    let data = (64 * (r as int % 4) + 8 * bl + g) as u8;
    let addr = (0x9F80 + 64 * half + 32 * (r as int / 4) + e) as u16;
    let offset = addr as int % 64;
    assert(offset == 32 * (r as int / 4) + e);
    assert(offset % 32 == e && (offset / 32) % 2 == r as int / 4);
    assert(data as int / 64 == r as int % 4);
    assert((data as int / 8) % 8 == bl);
    assert(data as int % 8 == g);
    assert(r as int % 4 + 4 * (r as int / 4) == r);
}

/// The interrupt rises exactly where line 3 of the sync PROM goes from low on
/// one scanline to high on the next, the last scanline coming before the first.
pub proof fn law_interrupt_follows_the_sync_prom(b: CastlesView, n: int)
    requires
        b.wf(),
        0 <= n < 256,
        !b.irq_state,
    ensures
        b.after_scanline(n).irq_state == (!bit(b.sync_prom[(n + 255) % 256], 3) && bit(b.sync_prom[n], 3)),
{
    lemma_lines(b.sync_prom[(n + 255) % 256]);
    lemma_lines(b.sync_prom[n]);
}

/// Line 5 of the switch port is high exactly while the beam is blanked; the
/// other lines stay.
pub proof fn law_switch_port_shows_blanking(b: CastlesView, k: u8)
    requires
        b.wf(),
        k < 8,
    ensures
        ({
            let line = (b.clock as int % 20480) / 80;
            bit(b.after_lead().in0, k) == if k == 5 {
                bit(b.sync_prom[line], 0)
            } else {
                bit(b.in0, k)
            }
        }),
{
    let line = (b.clock as int % 20480) / 80;
    assert(b.scanline() == line);
    lemma_lines(b.sync_prom[line]);
    lemma_with_bit(b.in0, 5, k, b.sync_prom[line] & 1 != 0);
}

/// A scanline begins every 80 cycles and draws itself then; in between nothing
/// is drawn.
pub proof fn law_scanlines_begin_every_eighty_cycles(b: CastlesView)
    requires
        b.wf(),
    ensures
        b.clock as int % 80 != 0 ==> b.after_lead() == (CastlesView { in0: b.after_lead().in0, ..b }),
        b.clock as int % 80 == 0 ==> b.after_lead() == (CastlesView {
            in0: b.after_lead().in0,
            ..b.after_scanline((b.clock as int / 80) % 256)
        }),
{
    lemma_frame_lines(b.clock as int);
}

proof fn lemma_frame_lines(clock: int)
    requires
        0 <= clock,
    ensures
        (clock % 20480) % 80 == clock % 80,
        (clock % 20480) / 80 == (clock / 80) % 256,
{
    lemma_wrap_nested(clock, 80, 256);
}

// -- Controls ---------------------------------------------------------------

/// What a press does, as the program sees it at the switch port: a coin or jump
/// button pulls its own line low while it is held and lets it go after; no
/// other line moves.
pub proof fn law_buttons_pull_their_own_line(b: CastlesView, pressed: bool, k: u8)
    requires
        b.wf(),
        k < 8,
    ensures
        line_of(after_button(b, INPUT_COIN_L, pressed), k) == if k == 1 { !pressed } else { line_of(b, k) },
        line_of(after_button(b, INPUT_COIN_R, pressed), k) == if k == 0 { !pressed } else { line_of(b, k) },
        line_of(after_button(b, INPUT_JUMP_LEFT, pressed), k) == if k == 6 { !pressed } else { line_of(b, k) },
        line_of(after_button(b, INPUT_JUMP_RIGHT, pressed), k) == if k == 7 { !pressed } else { line_of(b, k) },
{
    lemma_with_bit(b.in0, 1, k, !pressed);
    lemma_with_bit(b.in0, 0, k, !pressed);
    lemma_with_bit(b.in0, 6, k, !pressed);
    lemma_with_bit(b.in0, 7, k, !pressed);
}

/// Line `k` of the switch port as the program reads it.
pub open spec fn line_of(b: CastlesView, k: u8) -> bool {
    match b.read_access(0x9600) {
        CastlesRead::Value(v) => bit(v, k),
        _ => false,
    }
}

/// The trackball: turning it right counts the horizontal counter up and left
/// down by the same amount; the vertical counter counts against the turn.
pub proof fn law_trackball_axes(delta: i32)
    requires
        delta > i32::MIN,
    ensures
        ({
            let x = trackball_input(InputEvent::Relative { id: InputId(CTRL_TRACKBALL_X), delta });
            let y = trackball_input(InputEvent::Relative { id: InputId(CTRL_TRACKBALL_Y), delta });
            &&& x matches TrackballInput::Turned { counter, delta: turned } && counter == 1 && turned == delta
            &&& y matches TrackballInput::Turned { counter, delta: turned } && counter == 0 && turned + delta == 0
        }),
{
}

} // verus!
