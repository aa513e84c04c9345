//! What the Crystal Castles bus promises: where each memory, counter and chip
//! answers, which entry of the protection PROM guards a write, what each
//! register sets, and how the graphics ROM holds the sprites.

use vstd::prelude::*;

use crate::bits::{bit, lemma_lines, lemma_with_bit};
use crate::ccastles::{
    CastlesRead, CastlesView, INPUT_TRACK_D, INPUT_TRACK_L, INPUT_TRACK_R, INPUT_TRACK_U,
    TrackballInput, decodes_sprites, first_visible, nibbles, sprite_column, trackball_input, wp_index,
};
use crate::gfx::{GfxCache, planar_pen};
use crate::gfx_laws::law_planes_are_the_lines_of_a_pen;
use crate::input::InputEvent;

verus! {

// -- Memory -----------------------------------------------------------------

/// Each memory stands at its own place, in order.
pub proof fn law_memories_stand_in_order(b: CastlesView, i: int)
    requires
        0 <= i,
    ensures
        i < 0x8000 && i != 2 ==> b.read_access(i as u16) == CastlesRead::Value(b.video_ram[i]),
        i < 0xE00 ==> b.read_access((0x8000 + i) as u16) == CastlesRead::Value(b.sram[i]),
        i < 0x200 ==> b.read_access((0x8E00 + i) as u16) == CastlesRead::Value(b.sprite_ram[i]),
        i < 0x4000 && !bit(b.outlatch0, 7) ==> b.read_access((0xA000 + i) as u16)
            == CastlesRead::Value(b.rom_bank0[i]),
        i < 0x4000 && bit(b.outlatch0, 7) ==> b.read_access((0xA000 + i) as u16)
            == CastlesRead::Value(b.rom_bank1[i]),
        i < 0x2000 ==> b.read_access((0xE000 + i) as u16) == CastlesRead::Value(b.rom_fixed[i]),
        i < 0x400 ==> b.read_access((0x9C00 + i) as u16) == CastlesRead::Value(0xFF),
{
}

/// The score memory's 256 bytes show four times over; the four trackball
/// counters repeat every four addresses; the button port fills its window.
pub proof fn law_repeated_windows(b: CastlesView, i: int, copy: int)
    requires
        0 <= copy < 4,
        0 <= i < 0x100,
    ensures
        b.read_access((0x9000 + 0x100 * copy + i) as u16) == CastlesRead::Value(b.nvram[i]),
        b.read_access((0x9400 + 0x80 * copy + i % 0x80) as u16) == CastlesRead::Value(b.leta[i % 4]),
        b.read_access((0x9600 + 0x80 * copy + i % 0x80) as u16) == CastlesRead::Value(b.in0),
{
    let n = 0x9000 + 0x100 * copy + i;
    assert(n % 256 == i);
    let l = 0x9400 + 0x80 * copy + i % 0x80;
    assert(l % 4 == i % 4);
}

/// The sound chips' sixteen registers repeat; register 8 of the second is the
/// option switches.
pub proof fn law_sound_chip_registers(b: CastlesView, n: int, copy: int)
    requires
        0 <= n < 16,
        0 <= copy < 32,
    ensures
        b.read_access((0x9800 + 16 * copy + n) as u16) == CastlesRead::Pokey1(n as u8),
        b.read_access((0x9A00 + 16 * copy + n) as u16) == if n == 8 {
            CastlesRead::Value(b.dip_switches)
        } else {
            CastlesRead::Pokey2(n as u8)
        },
{
    let one = (0x9800 + 16 * copy + n) as u16;
    let two = (0x9A00 + 16 * copy + n) as u16;
    assert(one % 16 == n && two % 16 == n);
}

/// A write to the work RAM, the sprite RAM or the score memory changes what one
/// of its locations reads, and no other location.
pub proof fn law_ram_write_touches_one_byte(b: CastlesView, addr: u16, other: u16, data: u8)
    requires
        b.wf(),
        0x8000 <= addr < 0x9400,
        other != addr,
        addr >= 0x9000 && 0x9000 <= other < 0x9400 ==> addr % 256 != other % 256,
    ensures
        b.after_write(addr, data).read_access(addr) == CastlesRead::Value(data),
        b.after_write(addr, data).read_access(other) == b.read_access(other),
{
}

// -- The protection PROM ----------------------------------------------------

/// Which entry of the PROM guards a bitmap access: line 7 is high in the first
/// 4 KB, lines 6 and 5 are address lines 11 and 10, line 4 is high for a plain
/// access, line 2 is address line 0, lines 1 and 0 count the pixel.
pub proof fn law_protection_entry(k4: int, k1: int, half: int, odd: int, bitmd: bool, pixba: int)
    requires
        0 <= k4 < 8,
        0 <= k1 < 4,
        0 <= half < 0x200,
        0 <= odd < 2,
        0 <= pixba < 4,
    ensures
        wp_index(0x1000 * k4 + 0x400 * k1 + 2 * half + odd, bitmd, pixba) == (if k4 == 0 {
            128int
        } else {
            0
        }) + 32 * k1 + (if bitmd { 0int } else { 16 }) + 4 * odd + pixba,
{
    let addr = 0x1000 * k4 + 0x400 * k1 + 2 * half + odd;
    assert(addr / 0x400 == 4 * k4 + k1);
    assert((4 * k4 + k1) % 4 == k1);
    assert(addr % 2 == odd);
}

/// A plain bitmap write: the byte goes to both bytes of its pair, nibble by
/// nibble, where a PROM line is low: lines 0 and 1 for the low and high nibble
/// of the even byte, 2 and 3 for the odd byte. Nothing else of the bitmap moves.
pub proof fn law_protected_bitmap_write(b: CastlesView, pair: int, odd: int, data: u8, k: int)
    requires
        b.wf(),
        2 <= pair < 0x4000,
        0 <= odd < 2,
        0 <= k < 0x8000,
    ensures
        ({
            let addr = 2 * pair + odd;
            let wp = b.wp_prom[wp_index(addr, false, 0)] as int;
            let after = b.after_write(addr as u16, data);
            let even = after.video_ram[2 * pair] as int;
            let last = after.video_ram[2 * pair + 1] as int;
            &&& even % 16 == if wp % 2 == 0 { data as int % 16 } else { b.video_ram[2 * pair] as int % 16 }
            &&& even / 16 == if (wp / 2) % 2 == 0 { data as int / 16 } else { b.video_ram[2 * pair] as int
                / 16 }
            &&& last % 16 == if (wp / 4) % 2 == 0 { data as int % 16 } else { b.video_ram[2 * pair + 1] as int
                % 16 }
            &&& last / 16 == if (wp / 8) % 2 == 0 { data as int / 16 } else { b.video_ram[2 * pair + 1] as int
                / 16 }
            &&& k / 2 != pair ==> after.video_ram[k] == b.video_ram[k]
        }),
{
    let addr = 2 * pair + odd;
    lemma_lines(b.wp_prom[wp_index(addr, false, 0)]);
    assert((addr % 0x8000) / 2 * 2 == 2 * pair);
    lemma_nibble_parts(b.video_ram[2 * pair], data, true, true);
    lemma_nibble_parts(b.video_ram[2 * pair], data, true, false);
    lemma_nibble_parts(b.video_ram[2 * pair], data, false, true);
    lemma_nibble_parts(b.video_ram[2 * pair], data, false, false);
    lemma_nibble_parts(b.video_ram[2 * pair + 1], data, true, true);
    lemma_nibble_parts(b.video_ram[2 * pair + 1], data, true, false);
    lemma_nibble_parts(b.video_ram[2 * pair + 1], data, false, true);
    lemma_nibble_parts(b.video_ram[2 * pair + 1], data, false, false);
}

proof fn lemma_nibble_parts(v: u8, data: u8, low: bool, high: bool)
    ensures
        nibbles(v, data, low, high) as int % 16 == if low { data as int % 16 } else { v as int % 16 },
        nibbles(v, data, low, high) as int / 16 == if high { data as int / 16 } else { v as int / 16 },
{
    let h = if high { data as int / 16 } else { v as int / 16 };
    let l = if low { data as int % 16 } else { v as int % 16 };
    assert(0 <= h < 16 && 0 <= l < 16);
    assert((h * 16 + l) % 16 == l && (h * 16 + l) / 16 == h);
}

// -- Registers --------------------------------------------------------------

/// The registers between the chips and the ROM: each fills 128 addresses and
/// sets its own thing only.
pub proof fn law_registers(b: CastlesView, addr: u16, data: u8)
    requires
        0x9400 <= addr < 0x9F80,
    ensures
        ({
            let after = b.after_write(addr, data);
            &&& after.hscroll == if 0x9C80 <= addr < 0x9D00 { data } else { b.hscroll }
            &&& after.vscroll == if 0x9D00 <= addr < 0x9D80 { data } else { b.vscroll }
            &&& after.irq_state == (b.irq_state && !(0x9D80 <= addr < 0x9E00))
            &&& after.watchdog_frame_count == if 0x9E00 <= addr < 0x9E80 {
                0
            } else {
                b.watchdog_frame_count
            }
            &&& after.palette_ram == b.palette_ram
            &&& after.palette_rgb == b.palette_rgb
            &&& after.video_ram == b.video_ram
            &&& after.in0 == b.in0
            &&& after.leta == b.leta
        }),
{
}

/// The output latch takes data line 0 and the control latch data line 3, each
/// address its own line, and neither moves the other's lines.
pub proof fn law_addressable_latches(b: CastlesView, n: u8, copy: int, data: u8, k: u8)
    requires
        n < 8,
        0 <= copy < 16,
        k < 8,
    ensures
        ({
            let out = b.after_write((0x9E80 + 8 * copy + n) as u16, data);
            let control = b.after_write((0x9F00 + 8 * copy + n) as u16, data);
            &&& bit(out.outlatch0, k) == if k == n { data % 2 == 1 } else { bit(b.outlatch0, k) }
            &&& bit(control.outlatch1, k) == if k == n {
                (data / 8) % 2 == 1
            } else {
                bit(b.outlatch1, k)
            }
            &&& out == (CastlesView { outlatch0: out.outlatch0, ..b })
            &&& control == (CastlesView { outlatch1: control.outlatch1, ..b })
        }),
{
    let o = (0x9E80 + 8 * copy + n) as u16;
    let c = (0x9F00 + 8 * copy + n) as u16;
    assert(o % 8 == n && c % 8 == n);
    lemma_lines(data);
    lemma_with_bit(b.outlatch0, n, k, data % 2 == 1);
    lemma_with_bit(b.outlatch1, n, k, (data / 8) % 2 == 1);
}

// -- The trackball ----------------------------------------------------------

/// Left and right hold the horizontal counter, up and down the vertical one;
/// right and down count up.
pub proof fn law_trackball_keys(pressed: bool, event: InputEvent, code: u8)
    requires
        event matches InputEvent::Button { id, pressed: p } && id.0 as u8 == code && p == pressed,
    ensures
        code == INPUT_TRACK_L ==> trackball_input(event) == (TrackballInput::Held {
            counter: 1,
            up: false,
            pressed,
        }),
        code == INPUT_TRACK_R ==> trackball_input(event) == (TrackballInput::Held {
            counter: 1,
            up: true,
            pressed,
        }),
        code == INPUT_TRACK_U ==> trackball_input(event) == (TrackballInput::Held {
            counter: 0,
            up: false,
            pressed,
        }),
        code == INPUT_TRACK_D ==> trackball_input(event) == (TrackballInput::Held {
            counter: 0,
            up: true,
            pressed,
        }),
{
}

// -- The beam ---------------------------------------------------------------

/// The first visible line is not blanked, every line before it is, and a PROM
/// that blanks everything leaves line 24.
pub proof fn law_first_visible_line(sync: Seq<u8>, from: int, k: int)
    requires
        0 <= from <= 256,
    ensures
        ({
            let first = first_visible(sync, from);
            let lit = |n: int| sync[n] as int % 2 == 0;
            &&& (from <= k < 256 && lit(k)) ==> from <= first <= k
            &&& (from <= k < 256 && lit(k)) ==> lit(first)
            &&& (forall|n: int| from <= n < 256 ==> !#[trigger] lit(n)) ==> first == 24
        }),
    decreases 256 - from,
{
    let lit = |n: int| sync[n] as int % 2 == 0;
    if from < 256 {
        lemma_lines(sync[from]);
        assert((sync[from] & 1 == 0) == lit(from));
        law_first_visible_line(sync, from + 1, k);
    }
}

/// `n` frames end without a write to the watchdog.
pub open spec fn frames_after(b: CastlesView, n: nat) -> CastlesView
    decreases n,
{
    if n == 0 {
        b
    } else {
        frames_after(b, (n - 1) as nat).after_frame_end()
    }
}

/// Clearing the watchdog holds the reset off for seven frame ends; it is due at
/// the eighth.
pub proof fn law_watchdog_allows_eight_frames(b: CastlesView, data: u8, n: nat)
    requires
        n < 8,
    ensures
        ({
            let cleared = b.after_write(0x9E00, data);
            &&& frames_after(cleared, n).watchdog_frame_count == n
            &&& frames_after(cleared, n).watchdog_expires() == (n == 7)
        }),
    decreases n,
{
    if n > 0 {
        law_watchdog_allows_eight_frames(b, data, (n - 1) as nat);
    }
}

/// The interrupt reaches the CPU as an IRQ from the edge until it is
/// acknowledged, and never as an NMI.
pub proof fn law_interrupt_reaches_the_cpu(b: CastlesView, n: int, data: u8)
    ensures
        b.irq_edge(n) ==> b.after_scanline(n).interrupts().irq,
        !b.after_write(0x9D80, data).interrupts().irq,
        !b.interrupts().nmi,
        !b.interrupts().firq,
{
}

// -- The graphics ROM -------------------------------------------------------

/// A sprite, decoded: two bytes a line in each half of the ROM, four pixels a
/// byte, left first. The low line of a pen is the lower nibble of the second
/// half, the middle one its upper nibble, the top one the lower nibble of the
/// first half.
pub proof fn law_sprite_nibbles(cache: GfxCache, rom: Seq<u8>, code: int, half: int, px: int, py: int, p: int)
    requires
        decodes_sprites(cache, rom),
        0 <= code < 256,
        0 <= half < 2,
        0 <= px < 4,
        0 <= py < 16,
        0 <= p < 8,
    ensures
        ({
            let byte = 32 * code + 2 * py + half;
            let pen = cache.at(code, 4 * half + px, py);
            bit(pen, p as u8) == if p == 0 {
                bit(rom[0x2000 + byte], (3 - px) as u8)
            } else if p == 1 {
                bit(rom[0x2000 + byte], (7 - px) as u8)
            } else {
                p == 2 && bit(rom[byte], (3 - px) as u8)
            }
        }),
{
    let planes = seq![0x10004usize, 0x10000, 4];
    let at = 256 * code + 16 * py + sprite_column(4 * half + px);
    assert(sprite_column(4 * half + px) == 8 * half + px);
    assert(cache.at(code, 4 * half + px, py) == planar_pen(rom, at, planes, 3));
    law_planes_are_the_lines_of_a_pen(rom, at, planes, 3, p);
    let byte = 32 * code + 2 * py + half;
    assert(at == 8 * byte + px);
    assert((8 * byte + px + 4) / 8 == byte && (8 * byte + px + 4) % 8 == px + 4);
    assert((8 * (0x2000 + byte) + px + 4) / 8 == 0x2000 + byte && (8 * (0x2000 + byte) + px + 4) % 8 == px
        + 4);
    assert((8 * (0x2000 + byte) + px) / 8 == 0x2000 + byte && (8 * (0x2000 + byte) + px) % 8 == px);
}

} // verus!
