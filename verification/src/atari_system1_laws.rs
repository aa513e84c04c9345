//! What a System 1 board shows, stated over places on the screen: playfield
//! scroll and tile placement, text, motion objects, their merging, and the
//! palette.

use vstd::prelude::*;

use crate::arith::{lemma_wrap_plus, lemma_wrap_small};
use crate::atari_system1::{
    PRIORITY_BIT, System1View, VISIBLE_WIDTH, expand4, irgb4444, merged, mo_height, mo_offset, timer_line, word,
};
use crate::bits::{bit, lemma_lines, lemma_with_bit, lemma_word_fields};
use crate::gfx_laws::law_row_is_stored_in_order;

verus! {

// -- Playfield --------------------------------------------------------------

/// Scroll against the unscrolled picture: what a board with scroll (`xscroll`,
/// `yscroll`) shows at (`x`, `y`) is what the same board without scroll shows
/// at (`x + xscroll`, `y + yscroll`). Raising either moves the playfield left
/// or up.
pub proof fn law_playfield_scrolls_left_and_up(b: System1View, x: int, y: int)
    ensures
        b.pf_index(x, y) == (System1View { xscroll: 0, yscroll: 0, ..b }).pf_index(
            x + b.xscroll,
            y + b.yscroll,
        ),
{
}

/// The playfield map repeats every 512 pixels both ways.
pub proof fn law_playfield_repeats(b: System1View, x: int, y: int)
    ensures
        b.pf_index(x + 512, y) == b.pf_index(x, y),
        b.pf_index(x, y + 512) == b.pf_index(x, y),
{
    lemma_wrap_once(x + b.xscroll);
    lemma_wrap_once(y + b.yscroll);
    assert(x + 512 + b.xscroll == x + b.xscroll + 512);
    assert(y + 512 + b.yscroll == y + b.yscroll + 512);
}

proof fn lemma_wrap_once(a: int)
    ensures
        (a + 512) % 512 == a % 512,
{
}

/// Where a playfield tile stands and which way it faces: without scroll, cell
/// `col`, `row` of the 64 by 64 map stands at column `8 * col`, row `8 * row`,
/// upright, mirrored across when the top line of its first byte is set. The
/// rest of that byte picks the remap word, with the bank line above it; the
/// second byte is the low byte of the tile number and the remap word's low byte
/// is above it. The colour, in the remap word's top nibble, starts as many
/// entries on as the tile has pens.
#[verifier::spinoff_prover]
pub proof fn law_playfield_tile_stands_in_its_cell(b: System1View, col: int, row: int, px: int, py: int)
    requires
        b.wf(),
        b.xscroll == 0,
        b.yscroll == 0,
        0 <= col < 64,
        0 <= row < 64,
        0 <= px < 8,
        0 <= py < 8,
    ensures
        ({
            let first = b.playfield_ram[128 * row + 2 * col] as int;
            let second = b.playfield_ram[128 * row + 2 * col + 1] as int;
            let l = b.playfield.lookup@[(if first >= 128 { first - 128 } else { first }) + (if bit(b.bankselect, 2) {
                128int
            } else {
                0
            })] as int;
            let id = (l / 256) % 16;
            let bank = b.playfield.banks@[id];
            let code = (256 * (l % 256) + second) % bank.cache.spec_count() as int;
            let pen = bank.cache.at(code, if first >= 128 { 7 - px } else { px }, py);
            let pens: int = if bank.bpp == 4 { 16 } else if bank.bpp == 5 { 32 } else { 64 };
            b.pf_index(8 * col + px, 8 * row + py) == if id < b.playfield.banks@.len() {
                Some(((512 + pens * (l / 4096) + pen) % 1024) as u16)
            } else {
                None::<u16>
            }
        }),
{
    let x = 8 * col + px;
    let y = 8 * row + py;
    lemma_wrap_small(x, 512);
    lemma_wrap_small(y, 512);
    assert(x / 8 == col && x % 8 == px && y / 8 == row && y % 8 == py);
    let first = b.playfield_ram[128 * row + 2 * col] as int;
    let second = b.playfield_ram[128 * row + 2 * col + 1] as int;
    let w = row * 64 + col;
    let data = word(b.playfield_ram, w);
    assert(2 * w == 128 * row + 2 * col);
    lemma_word_parts(b.playfield_ram, w);
    assert((data as int / 256) % 128 == if first >= 128 { first - 128 } else { first });
    lemma_lines(b.bankselect);
    assert((b.bankselect as int / 4) % 2 == if bit(b.bankselect, 2) { 1int } else { 0 });
    let l = b.playfield.lookup@[(if first >= 128 { first - 128 } else { first }) + (if bit(b.bankselect, 2) {
        128int
    } else {
        0
    })] as int;
    let n = l / 4096;
    assert((0x20 + n * 2) * 8 == 256 + 16 * n);
    assert((0x20 + n * 4) * 8 == 256 + 32 * n);
    assert((0x20 + n * 8) * 8 == 256 + 64 * n);
}

proof fn lemma_word_parts(mem: Seq<u8>, w: int)
    ensures
        word(mem, w) == 256 * mem[2 * w] + mem[2 * w + 1],
        word(mem, w) as int / 256 == mem[2 * w],
        word(mem, w) as int % 256 == mem[2 * w + 1],
        (word(mem, w) >= 0x8000) == (mem[2 * w] >= 128),
{
}

/// Writing a map word changes the picture in its own cell only: a write at the
/// word of cell `col`, `row` leaves every other cell of the unscrolled playfield
/// as it was.
pub proof fn law_map_word_shows_in_its_own_cell(b: System1View, col: int, row: int, data: u16, x: int, y: int)
    requires
        b.wf(),
        b.xscroll == 0,
        b.yscroll == 0,
        0 <= col < 64,
        0 <= row < 64,
        0 <= x < 512,
        0 <= y < 512,
        x / 8 != col || y / 8 != row,
    ensures
        b.after_write((0xA0_0000 + 128 * row + 2 * col) as u32, data).pf_index(x, y) == b.pf_index(x, y),
{
    let addr = (0xA0_0000 + 128 * row + 2 * col) as u32;
    let after = b.after_write(addr, data);
    lemma_wrap_small(x, 512);
    lemma_wrap_small(y, 512);
    let w = (y / 8) * 64 + x / 8;
    assert(2 * w != 128 * row + 2 * col);
    assert(after.playfield_ram[2 * w] == b.playfield_ram[2 * w]);
    assert(after.playfield_ram[2 * w + 1] == b.playfield_ram[2 * w + 1]);
    assert(word(after.playfield_ram, w) == word(b.playfield_ram, w));
}

/// The scroll registers: writing the first moves the playfield left, the second
/// up, against the same register written to zero.
pub proof fn law_scroll_registers_scroll(b: System1View, data: u16, x: int, y: int)
    ensures
        b.after_write(0x80_0000, data).pf_index(x, y) == b.after_write(0x80_0000, 0).pf_index(x + data, y),
        b.after_write(0x82_0000, data).pf_index(x, y) == b.after_write(0x82_0000, 0).pf_index(x, y + data),
{
    assert(x + data + 0 == x + data);
}

// -- Text -------------------------------------------------------------------

/// Where a text tile stands: cell `col`, `row` of the text map, 64 cells to a
/// row, at column `8 * col`, row `8 * row`, upright, whatever the scroll. Its
/// number is the low nine lines of its word, its colour lines 10 to 12, four
/// pens each; pen 0 shows what is below unless line 13 makes the tile opaque.
#[verifier::spinoff_prover]
pub proof fn law_text_tile_stands_in_its_cell(b: System1View, col: int, row: int, px: int, py: int)
    requires
        b.wf(),
        0 <= col < 42,
        0 <= row < 30,
        0 <= px < 8,
        0 <= py < 8,
    ensures
        ({
            let first = b.alpha[128 * row + 2 * col] as int;
            let second = b.alpha[128 * row + 2 * col + 1] as int;
            let pen = b.alpha_cache.at(256 * (first % 2) + second, px, py);
            b.alpha_index(8 * col + px, 8 * row + py) == if pen == 0 && (first / 32) % 2 == 0 {
                None::<u16>
            } else {
                Some((4 * ((first / 4) % 8) + pen) as u16)
            }
        }),
{
    let x = 8 * col + px;
    let y = 8 * row + py;
    assert(x / 8 == col && x % 8 == px && y / 8 == row && y % 8 == py);
    let w = row * 64 + col;
    assert(2 * w == 128 * row + 2 * col);
    let first = b.alpha[128 * row + 2 * col] as int;
    let second = b.alpha[128 * row + 2 * col + 1] as int;
    let data = word(b.alpha, w);
    lemma_word_parts(b.alpha, w);
    lemma_text_word(first, second);
    assert(data & 0x2000 == 8192 * ((data / 8192) % 2)) by {
        lemma_word_fields(data);
    }
}

proof fn lemma_text_word(first: int, second: int)
    requires
        0 <= first < 256,
        0 <= second < 256,
    ensures
        (256 * first + second) % 512 == 256 * (first % 2) + second,
        ((256 * first + second) / 1024) % 8 == (first / 4) % 8,
        ((256 * first + second) / 8192) % 2 == (first / 32) % 2,
{
    assert((256 * first + second) / 1024 == first / 4);
    assert((256 * first + second) / 8192 == first / 32);
    assert((256 * first + second) / 512 == first / 2);
}

// -- Motion objects ---------------------------------------------------------

/// The words of an object: word `k` of entry `e` in list bank `n` is the pair of
/// bytes at `512 * n + 128 * k + 2 * e`, high byte first; lines 3 to 5 of the
/// control latch pick the bank.
pub proof fn law_object_words_lie_apart(b: System1View, e: int, k: int)
    ensures
        ({
            let bank = (b.bankselect as int / 8) % 8;
            let at = 512 * bank + 128 * k + 2 * e;
            b.mo_word_of(e, k) == 256 * b.mob[at] + b.mob[at + 1]
        }),
{
    let bank = (b.bankselect as int / 8) % 8;
    lemma_word_parts(b.mob, bank * 256 + 0x40 * k + e);
}

/// Where an object stands: eight columns from its horizontal position and, for
/// `h` rows, with its lower edge at row 256 less its vertical position, both
/// wrapping at 512. Eight rows down the next tile follows. The top line of the
/// first word mirrors it across; pen 0 shows nothing; the top line of the third
/// word marks its pixels.
#[verifier::spinoff_prover]
pub proof fn law_object_stands_at_its_position(b: System1View, e: int, c: int, r: int)
    requires
        b.wf(),
        0 <= e < 64,
        0 <= c < 8,
        0 <= r < 8 * (b.mo_word_of(e, 0) as int % 16 + 1),
    ensures
        ({
            let w0 = b.mo_word_of(e, 0) as int;
            let w1 = b.mo_word_of(e, 1) as int;
            let w2 = b.mo_word_of(e, 2) as int;
            let h = 8 * (w0 % 16 + 1);
            let x = ((w2 / 32) % 512 + c) % 512;
            let y = (256 - (w0 / 32) % 512 - h + r) % 512;
            let l = b.playfield.mo_lookup@[w1 / 256] as int;
            let id = (l / 256) % 16;
            let bank = b.playfield.banks@[id];
            let code = (256 * (l % 256) + w1 % 256 + r / 8) % bank.cache.spec_count() as int;
            let pen = bank.cache.at(code, if w0 >= 0x8000 { 7 - c } else { c }, r % 8);
            b.mo_pixel(e, x, y) == if id < b.playfield.banks@.len() && pen != 0 {
                Some(
                    (256 + 16 * (l / 4096) + pen) as u16 | (if w2 >= 0x8000 { PRIORITY_BIT } else { 0u16 }),
                )
            } else {
                None::<u16>
            }
        }),
{
    reveal(System1View::mo_pixel);
    let w0 = b.mo_word_of(e, 0);
    let w2 = b.mo_word_of(e, 2);
    let h = 8 * (w0 as int % 16 + 1);
    let left = (w2 as int / 32) % 512;
    let yp = (w0 as int / 32) % 512;
    let y = (256 - yp - h + r) % 512;
    assert(mo_height(w0) == h);
    lemma_wrap_plus(left + c, left, 512);
    lemma_wrap_small(c, 512);
    lemma_wrap_plus(256 - yp - h + r, yp + 256 + h, 512);
    assert((256 - yp - h + r) + (yp + 256 + h) == r + 512);
    lemma_wrap_once(r);
    lemma_wrap_small(r, 512);
    assert(mo_offset(w0, y) == r);
}

/// An object shows nothing outside its columns and rows.
pub proof fn law_object_stays_in_its_rectangle(b: System1View, e: int, x: int, y: int)
    requires
        b.mo_pixel(e, x, y) is Some,
    ensures
        ({
            let w0 = b.mo_word_of(e, 0) as int;
            let h = 8 * (w0 % 16 + 1);
            &&& (x - (b.mo_word_of(e, 2) as int / 32) % 512) % 512 < 8
            &&& (y - (256 - (w0 / 32) % 512 - h)) % 512 < h
        }),
{
    reveal(System1View::mo_pixel);
    let w0 = b.mo_word_of(e, 0) as int;
    let h = 8 * (w0 % 16 + 1);
    let d = y - (256 - (w0 / 32) % 512 - h);
    lemma_wrap_once(d);
    assert(d + 512 == y + (w0 / 32) % 512 + 256 + h);
}

/// The list: it starts at entry 0, each entry's fourth word names the next in
/// its low six lines, and it ends at an entry already seen.
pub proof fn law_list_follows_its_links(b: System1View, seen: Set<int>, link: int, n: nat, k: int)
    requires
        0 <= k < b.chain(seen, link, n).len(),
    ensures
        k == 0 ==> b.chain(seen, link, n)[k] == link,
        k > 0 ==> b.chain(seen, link, n)[k] == b.mo_word_of(b.chain(seen, link, n)[k - 1], 3) as int % 64,
    decreases n,
{
    let next = b.mo_word_of(link, 3) as int % 64;
    let rest = b.chain(seen.insert(link), next, (n - 1) as nat);
    assert(b.chain(seen, link, n) == seq![link] + rest);
    if k > 0 {
        law_list_follows_its_links(b, seen.insert(link), next, (n - 1) as nat, k - 1);
        assert(b.chain(seen, link, n)[k] == rest[k - 1]);
        if k > 1 {
            assert(b.chain(seen, link, n)[k - 1] == rest[k - 2]);
        }
    }
}

/// Where objects overlap, the one later in the list shows; where none covers,
/// there is no object pixel.
pub proof fn law_later_objects_cover_earlier(b: System1View, entries: Seq<int>, k: int, x: int, y: int)
    requires
        0 <= x < VISIBLE_WIDTH,
        0 <= k < entries.len(),
    ensures
        b.object_row(entries, y).len() == VISIBLE_WIDTH,
        b.mo_pixel(entries[k], x, y) is Some && (forall|j: int| k < j < entries.len() ==> b.mo_pixel(#[trigger] entries[j], x, y) is None)
            ==> b.object_row(entries, y)[x] == b.mo_pixel(entries[k], x, y),
        (forall|j: int| 0 <= j < entries.len() ==> b.mo_pixel(#[trigger] entries[j], x, y) is None) ==> b.object_row(
            entries,
            y,
        )[x] is None,
    decreases entries.len(),
{
    let before = entries.drop_last();
    assert(entries.last() == entries[entries.len() - 1]);
    if before.len() > 0 {
        let i = if k < before.len() { k } else { 0 };
        law_later_objects_cover_earlier(b, before, i, x, y);
        assert(forall|j: int| 0 <= j < before.len() ==> before[j] == entries[j]);
    }
}

/// Merging: an unmarked object pixel covers the playfield, except where the
/// playfield shows one of the first eight pens of a colour group and the
/// priority register marks that pen. A marked one with pen 1 shows nothing, and
/// with any other pen it shows the translucent colour that the playfield's low
/// four lines and the pen pick.
pub proof fn law_objects_merge_by_priority(pf: u16, m: u16, pens: u16)
    requires
        m < 0x1000,
        pf < 0x400,
    ensures
        merged(pf, m, pens) == if (pf as int / 8) % 32 == 0 && (pens >> (pf % 8)) & 1 == 1 {
            pf
        } else {
            m
        },
        merged(pf, (m + 0x1000) as u16, pens) == if m as int % 16 == 1 {
            pf
        } else {
            (768 + 16 * (pf as int % 16) + m as int % 16) as u16
        },
{
    let marked = (m + 0x1000) as u16;
    assert(m & PRIORITY_BIT == 0) by {
        lemma_word_fields(m);
    }
    assert(marked & PRIORITY_BIT != 0 && marked & 0x0F == m % 16) by {
        lemma_word_fields(marked);
        assert(marked as int / 4096 == 1);
        assert((m + 4096) % 16 == m as int % 16);
    }
    assert(pf & 0x0F == pf % 16 && pf & 0x07 == pf % 8 && pf & 0xF8 == 8 * ((pf / 8) % 32)) by {
        lemma_word_fields(pf);
    }
    let k = pf % 8;
    assert((pens & (1u16 << k) == 0) == !((pens >> k) & 1 == 1)) by (bit_vector)
        requires
            k < 8,
    ;
}

// -- The finished row -------------------------------------------------------

/// Layer order: text over objects over playfield, and colour 0 where no layer
/// has anything.
pub proof fn law_layers_cover_in_order(b: System1View, x: int, y: int)
    requires
        b.wf(),
        0 <= x < 336,
        0 <= y < 240,
    ensures
        ({
            let below = match b.pf_index(x, y) {
                Some(v) => v,
                None => 0u16,
            };
            b.index_row(y)[x] == match b.alpha_index(x, y) {
                Some(v) => v,
                None => match b.object_row(b.chain(Set::empty(), 0, 56), y)[x] {
                    Some(m) => merged(below, m, b.priority_pens),
                    None => below,
                },
            }
        }),
{
}

/// A scanline shows its row in place: the pixel at column `x` of row `y` is the
/// colour of the palette word that its index names, red first.
pub proof fn law_scanline_shows_its_row_in_place(b: System1View, x: int, y: int)
    requires
        b.wf(),
        0 <= x < 336,
        0 <= y < 240,
    ensures
        ({
            let at = 3 * (336 * y + x);
            let e = b.index_row(y)[x] as int % 1024;
            let color = irgb4444((256 * b.palette[2 * e] + b.palette[2 * e + 1]) as u16);
            let after = b.after_scanline(y).framebuffer;
            &&& after[at] == color.0
            &&& after[at + 1] == color.1
            &&& after[at + 2] == color.2
        }),
{
    let e = b.index_row(y)[x] as int % 1024;
    lemma_word_parts(b.palette, e);
    law_row_is_stored_in_order(b.framebuffer, 1008 * y, b.screen_row(y), x, 0);
    assert(y * VISIBLE_WIDTH * 3 == 1008 * y);
    assert(b.screen_row(y)[x] == irgb4444(word(b.palette, e)));
}

/// A palette word: intensity in the top nibble, then red, green and blue; each
/// component is its nibble spread over a byte, scaled by the intensity spread
/// over a byte.
pub proof fn law_palette_components(i: int, r: int, g: int, bl: int)
    requires
        0 <= i < 16,
        0 <= r < 16,
        0 <= g < 16,
        0 <= bl < 16,
    ensures
        ({
            let rgb = irgb4444((4096 * i + 256 * r + 16 * g + bl) as u16);
            &&& rgb.0 as int == (289 * (i * r)) / 256
            &&& rgb.1 as int == (289 * (i * g)) / 256
            &&& rgb.2 as int == (289 * (i * bl)) / 256
        }),
{
    lemma_nibbles(i, r, g, bl);
    lemma_scaled(i, r);
    lemma_scaled(i, g);
    lemma_scaled(i, bl);
}

proof fn lemma_nibbles(i: int, r: int, g: int, bl: int)
    requires
        0 <= i < 16,
        0 <= r < 16,
        0 <= g < 16,
        0 <= bl < 16,
    ensures
        ({
            let raw = 4096 * i + 256 * r + 16 * g + bl;
            &&& 0 <= raw < 0x10000
            &&& expand4(raw / 4096) == i * 17
            &&& expand4(raw / 256) == r * 17
            &&& expand4(raw / 16) == g * 17
            &&& expand4(raw) == bl * 17
        }),
{
    let raw = 4096 * i + 256 * r + 16 * g + bl;
    assert(raw / 4096 == i);
    assert(raw / 256 == 16 * i + r);
    assert(raw / 16 == 256 * i + 16 * r + g);
    assert((16 * i + r) % 16 == r);
    assert((16 * (16 * i + r) + g) % 16 == g);
    assert((16 * (256 * i + 16 * r + g) + bl) % 16 == bl);
}

proof fn lemma_scaled(i: int, c: int)
    requires
        0 <= i < 16,
        0 <= c < 16,
    ensures
        (i * 17) * (c * 17) == 289 * (i * c),
        0 <= 289 * (i * c) <= 255 * 255,
{
    assert((i * 17) * (c * 17) == 289 * (i * c)) by (nonlinear_arith);
    assert(0 <= i * c <= 225) by (nonlinear_arith)
        requires
            0 <= i < 16,
            0 <= c < 16,
    ;
}

/// A timer entry asks for the line just above where an object of its size and
/// position would start.
pub proof fn law_timer_line_is_above_the_object(w0: u16)
    ensures
        timer_line(w0) == (256 - w0 as int / 32 - 8 * (w0 as int % 16 + 1) - 1) % 512,
        mo_offset(w0, timer_line(w0) + 1 + 512 * ((w0 as int / 32) / 512)) == 0,
{
    let yp = w0 as int / 32;
    let h = 8 * (w0 as int % 16 + 1);
    let t = 256 - yp - h - 1;
    let q = yp / 512;
    assert(yp == 512 * q + yp % 512);
    let s = 1 + 512 * q + yp % 512 + 256 + h;
    lemma_wrap_plus(t, s, 512);
    assert(t + s == 512) by {
        assert(256 - yp - h - 1 + 1 + 512 * q + yp % 512 + 256 + h == 512);
    }
    assert(mo_offset(w0, t % 512 + 1 + 512 * q) == (t % 512 + s) % 512);
}

// -- Switches ---------------------------------------------------------------

/// The switch port: line 4 is low exactly while the beam is below the picture,
/// line 7 high exactly while a sound command waits, the other lines are the
/// switches, and the upper byte is high.
pub proof fn law_switch_port_lines(b: System1View, bank: u8, k: u8)
    requires
        b.wf(),
        k < 8,
    ensures
        ({
            let v = b.read_word(0xF6_0000, bank);
            let line = (b.clock as int % 119472) / 456;
            &&& v >= 0xFF00
            &&& bit((v - 0xFF00) as u8, k) == if k == 4 {
                line < 240
            } else if k == 7 {
                b.sound.command_pending
            } else {
                bit(b.f60000_buttons, k)
            }
        }),
{
    let line = (b.clock as int % 119472) / 456;
    assert(b.scanline() == line);
    let first = crate::bits::with_bit(b.f60000_buttons, 4, !b.vblank());
    let low = crate::bits::with_bit(first, 7, b.sound.command_pending);
    lemma_with_bit(b.f60000_buttons, 4, k, !b.vblank());
    lemma_with_bit(first, 7, k, b.sound.command_pending);
    assert(0xFF00u16 | low as u16 == 0xFF00 + low) by (bit_vector);
    assert(b.read_word(0xF6_0000, bank) == 0xFF00u16 | low as u16);
}

} // verus!
