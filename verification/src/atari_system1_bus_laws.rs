//! What the System 1 buses promise: where each memory and register answers on
//! the main board and the sound board, what the mapping PROMs select, and how
//! the ROMs hold the tiles.

use vstd::prelude::*;

use crate::atari_system1::{
    GfxBank, System1View, alpha_column, bank_base, decodes_font, mo_word, pf_word, prom_bank,
    prom_depth, tile_planes, timer_line, word,
};
use crate::atari_system1_sound::{
    SoundStep, System1SoundRead, System1SoundView, System1SoundWrite, port_b_pins, tms_clock,
};
use crate::bits::{bit, lemma_lines, lemma_with_bit, lemma_word_fields};
use crate::gfx::{GfxCache, planar_pen};
use crate::gfx_laws::law_planes_are_the_lines_of_a_pen;

verus! {

// -- The main bus -----------------------------------------------------------

/// Each memory stands at its own place, big-endian words in order.
pub proof fn law_memories_stand_in_order(b: System1View, w: int, bank: u8)
    requires
        0 <= w,
    ensures
        w < 0x4_0000 ==> b.read_word((2 * w) as u32, bank) == word(b.rom, w),
        w < 0x1000 ==> b.read_word((0x40_0000 + 2 * w) as u32, bank) == word(b.ram, w),
        w < 0x8_0000 ==> b.read_word((0x90_0000 + 2 * w) as u32, bank) == word(b.cart_ram, w),
        w < 0x1000 ==> b.read_word((0xA0_0000 + 2 * w) as u32, bank) == word(b.playfield_ram, w),
        w < 0x800 ==> b.read_word((0xA0_2000 + 2 * w) as u32, bank) == word(b.mob, w),
        w < 0x800 ==> b.read_word((0xA0_3000 + 2 * w) as u32, bank) == word(b.alpha, w),
        w < 0x400 ==> b.read_word((0xB0_0000 + 2 * w) as u32, bank) == word(b.palette, w),
{
}

/// A word is its even byte above its odd byte.
pub proof fn law_words_are_big_endian(mem: Seq<u8>, w: int)
    ensures
        word(mem, w) as int / 256 == mem[2 * w],
        word(mem, w) as int % 256 == mem[2 * w + 1],
{
    assert(0 <= mem[2 * w] * 256 + mem[2 * w + 1] < 65536);
}

/// A word write changes one word of one memory: every other word of the map
/// reads as before.
pub proof fn law_word_write_touches_one_word(b: System1View, addr: u32, other: u32, data: u16, bank: u8)
    requires
        b.wf(),
        addr % 2 == 0,
        other % 2 == 0,
        addr != other,
        0x40_0000 <= addr < 0x40_2000 || 0x90_0000 <= addr < 0xA0_4000 || 0xB0_0000 <= addr < 0xB0_0800,
        bank < 4,
    ensures
        b.after_write(addr, data).read_word(other, bank) == b.read_word(other, bank),
{
}

/// The protected window: 8 KB of the bank that the chip presents, four times
/// over.
pub proof fn law_protected_window(b: System1View, w: int, copy: int, bank: u8)
    requires
        0 <= w < 0x1000,
        0 <= copy < 4,
        bank < 4,
    ensures
        b.read_word((0x8_0000 + 0x2000 * copy + 2 * w) as u32, bank) == word(
            b.slapstic_rom,
            0x1000 * bank + w,
        ),
{
    let addr = (0x8_0000 + 0x2000 * copy + 2 * w) as u32;
    assert(addr as int % 0x2000 == 2 * w);
    assert((bank * 0x2000 + 2 * w) / 2 == 0x1000 * bank + w);
}

/// The registers of the main board: each word address sets its own thing only.
pub proof fn law_registers(b: System1View, addr: u32, data: u16)
    requires
        0x80_0000 <= addr < 0x90_0000,
        addr % 2 == 0,
    ensures
        ({
            let after = b.after_write(addr, data);
            &&& after.xscroll == if addr == 0x80_0000 { data } else { b.xscroll }
            &&& after.yscroll == if addr == 0x82_0000 { data } else { b.yscroll }
            &&& after.priority_pens == if addr == 0x84_0000 { data } else { b.priority_pens }
            &&& after.bankselect as int == if addr == 0x86_0000 {
                data as int % 256
            } else {
                b.bankselect as int
            }
            &&& after.watchdog_count == if addr == 0x88_0000 { 0 } else { b.watchdog_count }
            &&& after.video_int == (b.video_int && addr != 0x8A_0000)
            &&& after.eeprom_unlocked == (b.eeprom_unlocked || addr == 0x8C_0000)
            &&& after.sound.held_reset == if addr == 0x86_0000 {
                (data as int / 128) % 2 == 0
            } else {
                b.sound.held_reset
            }
            &&& after.ram == b.ram && after.palette == b.palette && after.eeprom == b.eeprom
        }),
{
    lemma_lines((data % 256) as u8);
    assert((data % 256) / 128 == (data / 128) % 2);
}

/// The score memory stands on the odd bytes: word `n` of its window is its byte
/// `n`, and an unlocked write changes that byte only.
pub proof fn law_score_memory(b: System1View, n: int, k: int, data: u16, bank: u8)
    requires
        b.wf(),
        0 <= n < 512,
        0 <= k < 512,
    ensures
        b.read_word((0xF0_0000 + 2 * n) as u32, bank) == b.eeprom[n],
        b.after_write(0x8C_0000, 0).after_write((0xF0_0000 + 2 * n) as u32, data).read_word(
            (0xF0_0000 + 2 * k) as u32,
            bank,
        ) == if k == n { (data % 256) as int } else { b.eeprom[k] as int },
        b.after_write(0x8C_0000, 0).after_write((0xF0_0000 + 2 * n) as u32, data).eeprom_writes
            == (b.eeprom_writes + 1) as u64,
{
    let a = (0xF0_0000 + 2 * n) as u32;
    let o = (0xF0_0000 + 2 * k) as u32;
    assert((a as int / 2) % 512 == n);
    assert((o as int / 2) % 512 == k);
}

/// The two boards' mailboxes: a command sent by the main CPU is the byte the
/// sound CPU reads, a response is the byte the main CPU reads, and reading it
/// takes the request down.
pub proof fn law_mailboxes(b: System1View, command: u16, response: u8, bank: u8)
    ensures
        b.after_write(0xFE_0000, command).sound.read_access(0x1810) == System1SoundRead::Value(
            (command % 256) as u8,
        ),
        ({
            let sent = System1View { sound: b.sound.after_write(0x1810, response), ..b };
            &&& sent.read_word(0xFC_0000, bank) == response
            &&& sent.level() == 6
            &&& !sent.after_read(0xFC_0000).sound.response_pending
            &&& sent.after_read(0xFC_0000).read_word(0xFC_0000, bank) == response
        }),
{
    lemma_word_fields(0x1810);
}

/// The lowest request asks for its own level when it is alone.
pub proof fn law_converter_interrupt(b: System1View)
    requires
        !b.sound.response_pending,
        !b.video_int,
        !b.scanline_int,
    ensures
        b.level() == if b.int2 { 2int } else { 0 },
{
}

/// The timer interrupt shows on line 7 of its port, and nothing else does.
pub proof fn law_timer_port(b: System1View, bank: u8)
    ensures
        b.read_word(0x2E_0000, bank) == if b.scanline_int { 0x80u16 } else { 0 },
{
}

/// A frame is 262 lines of 456 cycles, blanked from line 240 on, and the
/// blanking interrupt rises at line 240 only.
pub proof fn law_beam(b: System1View, line: int, cycle: int, n: int)
    requires
        b.clock % 119_472 == 456 * line + cycle,
        0 <= line < 262,
        0 <= cycle < 456,
    ensures
        b.scanline() == line,
        b.vblank() == (line >= 240),
        b.after_scanline(n).video_int == (b.video_int || n == 240),
{
    assert((456 * line + cycle) / 456 == line);
}

/// The timer interrupt: an entry among the first 64 of the list whose second
/// word is all ones asks for the line above its own; the interrupt is up on the
/// lines that some entry asks for, and down again on the next that none does.
pub proof fn law_timer_entries_interrupt(b: System1View, k: int, line: int)
    requires
        b.has_scanline_int,
    ensures
        ({
            let list = b.chain(Set::empty(), 0, 64);
            &&& 0 <= k < list.len() && b.mo_word_of(list[k], 1) == 65_535 ==> b.after_scanline(
                timer_line(b.mo_word_of(list[k], 0)),
            ).scanline_int
            &&& b.after_scanline(line).scanline_int ==> exists|j: int|
                0 <= j < list.len() && b.mo_word_of(#[trigger] list[j], 1) == 65_535 && timer_line(
                    b.mo_word_of(list[j], 0),
                ) == line
        }),
{
    let list = b.chain(Set::empty(), 0, 64);
    if 0 <= k < list.len() && b.mo_word_of(list[k], 1) == 65_535 {
        assert(b.is_timer_for(list[k], timer_line(b.mo_word_of(list[k], 0))));
    }
    if b.after_scanline(line).scanline_int {
        let j = choose|j: int|
            0 <= j < b.chain(Set::empty(), 0, 64).len() && b.is_timer_for(
                #[trigger] b.chain(Set::empty(), 0, 64)[j],
                line,
            );
        assert(b.is_timer_for(list[j], line));
    }
}

/// `n` frames end without a write to the watchdog.
pub open spec fn frames_after(b: System1View, n: nat) -> System1View
    decreases n,
{
    if n == 0 {
        b
    } else {
        frames_after(b, (n - 1) as nat).after_watchdog()
    }
}

/// Clearing the watchdog holds the reset off for seven frame ends; it is due
/// from the eighth on.
pub proof fn law_watchdog_allows_eight_frames(b: System1View, data: u16, n: nat)
    ensures
        ({
            let cleared = b.after_write(0x88_0000, data);
            &&& frames_after(cleared, n).watchdog_count == if n < 255 { n } else { 255 }
            &&& frames_after(cleared, n).watchdog_expires() == (n >= 7)
        }),
    decreases n,
{
    if n > 0 {
        law_watchdog_allows_eight_frames(b, data, (n - 1) as nat);
    }
}

// -- The mapping PROMs ------------------------------------------------------

/// The bank lines are active low and the first low one wins: lines 4 to 7 of the
/// first PROM are banks 1 to 4, line 6 of the second bank 5, line 7 bank 6, or 7
/// with line 3 low too.
pub proof fn law_bank_lines(p1: u8, p2: u8)
    ensures
        !bit(p1, 4) ==> prom_bank(p1, p2) == 1,
        bit(p1, 4) && !bit(p1, 5) ==> prom_bank(p1, p2) == 2,
        bit(p1, 4) && bit(p1, 5) && !bit(p1, 6) ==> prom_bank(p1, p2) == 3,
        bit(p1, 4) && bit(p1, 5) && bit(p1, 6) && !bit(p1, 7) ==> prom_bank(p1, p2) == 4,
        p1 >= 0xF0 && !bit(p2, 6) ==> prom_bank(p1, p2) == 5,
        p1 >= 0xF0 && bit(p2, 6) && !bit(p2, 7) && bit(p2, 3) ==> prom_bank(p1, p2) == 6,
        p1 >= 0xF0 && bit(p2, 6) && !bit(p2, 7) && !bit(p2, 3) ==> prom_bank(p1, p2) == 7,
        p1 >= 0xF0 && p2 >= 0xC0 ==> prom_bank(p1, p2) == 0,
{
    lemma_lines(p1);
    lemma_lines(p2);
}

/// Line 4 of the second PROM low is four bits a pixel, line 5 low five, neither
/// six. Banks start 512 KB apart, from the first on.
pub proof fn law_depth_lines(p2: u8, index: u8)
    requires
        index < 255,
    ensures
        !bit(p2, 4) ==> prom_depth(p2) == 4,
        bit(p2, 4) && !bit(p2, 5) ==> prom_depth(p2) == 5,
        bit(p2, 4) && bit(p2, 5) ==> prom_depth(p2) == 6,
        bank_base(1) == 0,
        bank_base((index + 1) as u8) == bank_base(index) + 0x8_0000,
{
    lemma_lines(p2);
}

proof fn lemma_remap_words(p1: u8, p2: u8, id: u8, s: u8)
    requires
        id < 16,
        s < 3,
    ensures
        ({
            let w = (p1 & 0x0F) as u16 | (id as u16) << 8 | (((!p2 & 0x0F) >> s) as u16) << 12;
            let m = (p1 & 0x0F) as u16 | (id as u16) << 8 | (((!p2 & 0x07) >> s) as u16) << 12;
            let d = if s == 0 { 1int } else if s == 1 { 2 } else { 4 };
            &&& w % 256 == p1 % 16 && (w / 256) % 16 == id && w / 4096 == (15 - p2 % 16) / d
            &&& m % 256 == p1 % 16 && (m / 256) % 16 == id && m / 4096 == (7 - p2 % 8) / d
        }),
        1u16 << 8 == 256,
{
    assert({
        let w = (p1 & 0x0F) as u16 | (id as u16) << 8 | (((!p2 & 0x0F) >> s) as u16) << 12;
        let m = (p1 & 0x0F) as u16 | (id as u16) << 8 | (((!p2 & 0x07) >> s) as u16) << 12;
        &&& w % 256 == p1 % 16 && (w / 256) % 16 == id
        &&& m % 256 == p1 % 16 && (m / 256) % 16 == id
        &&& w / 4096 == (15 - p2 % 16) / (if s == 0 { 1 } else if s == 1 { 2 } else { 4 })
        &&& m / 4096 == (7 - p2 % 8) / (if s == 0 { 1 } else if s == 1 { 2 } else { 4 })
        &&& 1u16 << 8 == 256
    }) by (bit_vector)
        requires
            id < 16,
            s < 3,
    ;
}

/// A remap word of the playfield: the tile offset in its low byte, the bank in
/// the next four lines, the colour in the top four. The colour comes inverted
/// from the second PROM, one line fewer for each plane past four. Without a bank
/// the word is 256.
pub proof fn law_playfield_remap_word(p1: u8, p2: u8, id: u8)
    requires
        0 < id < 16,
    ensures
        pf_word(p1, p2, id) as int % 256 == p1 as int % 16,
        (pf_word(p1, p2, id) as int / 256) % 16 == id,
        pf_word(p1, p2, id) as int / 4096 == (15 - p2 as int % 16) / if prom_depth(p2) == 4 {
            1int
        } else if prom_depth(p2) == 5 {
            2
        } else {
            4
        },
        pf_word(p1, p2, 0) == 256,
{
    lemma_remap_words(p1, p2, id, (prom_depth(p2) - 4) as u8);
}

/// A remap word of the motion objects: the same, with three colour lines, and
/// without a bank it names the placeholder.
pub proof fn law_object_remap_word(p1: u8, p2: u8, id: u8)
    requires
        id < 16,
    ensures
        mo_word(p1, p2, id) as int % 256 == p1 as int % 16,
        (mo_word(p1, p2, id) as int / 256) % 16 == id,
        mo_word(p1, p2, id) as int / 4096 == (7 - p2 as int % 8) / if prom_depth(p2) == 4 {
            1int
        } else if prom_depth(p2) == 5 {
            2
        } else {
            4
        },
{
    lemma_remap_words(p1, p2, id, (prom_depth(p2) - 4) as u8);
}

// -- Tile ROMs --------------------------------------------------------------

/// A tile, decoded: line `p` of the pen at column `px`, row `py` is line
/// `7 - px` of byte `8 * code + py` of plane `p` of its bank, planes 64 KB apart.
pub proof fn law_tile_bytes_are_lines_across(
    g: GfxBank,
    tiles: Seq<u8>,
    bpp: u8,
    index: u8,
    code: int,
    px: int,
    py: int,
    p: int,
)
    requires
        g.decodes(tiles, (bpp, index)),
        4 <= bpp <= 6,
        1 <= index <= 7,
        0x8_0000 * (index - 1) + 0x1_0000 * (bpp - 1) + 0x8000 <= tiles.len(),
        0 <= code < 4096,
        0 <= px < 8,
        0 <= py < 8,
        0 <= p < 8,
    ensures
        bit(g.cache.at(code, px, py), p as u8) == (p < bpp && bit(
            tiles[0x8_0000 * (index - 1) + 0x1_0000 * p + 8 * code + py],
            (7 - px) as u8,
        )),
{
    let at = 64 * code + 8 * py + px;
    let rom = tiles.skip(bank_base(index));
    assert(g.cache.at(code, px, py) == planar_pen(rom, at, tile_planes(bpp as int), bpp as nat));
    law_planes_are_the_lines_of_a_pen(rom, at, tile_planes(bpp as int), bpp as nat, p);
    if p < bpp {
        let from = at + tile_planes(bpp as int)[p];
        let byte = 0x1_0000 * p + 8 * code + py;
        assert(from == 8 * byte + px);
        assert(from / 8 == byte && from % 8 == px);
        assert(rom[byte] == tiles[bank_base(index) + byte]);
    }
}

/// A text tile, decoded: two bytes a line, four pixels a byte, left first. The
/// low line of a pen is the lower nibble, the high line the upper one.
pub proof fn law_font_nibbles(cache: GfxCache, rom: Seq<u8>, code: int, half: int, px: int, py: int, p: int)
    requires
        decodes_font(cache, rom),
        0 <= code < 512,
        0 <= half < 2,
        0 <= px < 4,
        0 <= py < 8,
        0 <= p < 8,
    ensures
        ({
            let byte = rom[16 * code + 2 * py + half];
            bit(cache.at(code, 4 * half + px, py), p as u8) == (p == 0 && bit(byte, (3 - px) as u8) || p
                == 1 && bit(byte, (7 - px) as u8))
        }),
{
    let planes = seq![4usize, 0];
    let at = 128 * code + 16 * py + alpha_column(4 * half + px);
    assert(alpha_column(4 * half + px) == 8 * half + px);
    assert(cache.at(code, 4 * half + px, py) == planar_pen(rom, at, planes, 2));
    law_planes_are_the_lines_of_a_pen(rom, at, planes, 2, p);
    let byte = 16 * code + 2 * py + half;
    assert(at == 8 * byte + px);
    assert((8 * byte + px + 4) / 8 == byte && (8 * byte + px + 4) % 8 == px + 4);
    assert((8 * byte + px) / 8 == byte && (8 * byte + px) % 8 == px);
}

// -- The sound board --------------------------------------------------------

proof fn lemma_status_lines(coins: u8, command: u8, response: u8, k: u8)
    requires
        command == 0 || command == 8,
        response == 0 || response == 16,
        k < 8,
    ensures
        bit((0x87 & !(coins & 0x07)) | command | response, k) == if k < 3 {
            !bit(coins, k)
        } else if k == 3 {
            command == 8
        } else if k == 4 {
            response == 16
        } else {
            k == 7
        },
        0u8 | 0u8 == 0 && 0u8 | 8u8 == 8 && 4u8 | 0u8 == 4 && 4u8 | 8u8 == 12,
{
    assert({
        &&& ((((0x87 & !(coins & 0x07)) | command | response) >> k) & 1 == 1) == if k < 3 {
            !((coins >> k) & 1 == 1)
        } else if k == 3 {
            command == 8
        } else if k == 4 {
            response == 16
        } else {
            k == 7
        }
        &&& 0u8 | 0u8 == 0 && 0u8 | 8u8 == 8 && 4u8 | 0u8 == 4 && 4u8 | 8u8 == 12
    }) by (bit_vector)
        requires
            command == 0 || command == 8,
            response == 0 || response == 16,
            k < 8,
    ;
}

/// The status port, line by line: the three coin switches low while held, a
/// waiting command on line 3, a waiting response on line 4, line 7 high.
pub proof fn law_status_port_lines(b: System1SoundView, k: u8)
    requires
        k < 8,
    ensures
        b.read_access(0x1820) is Value,
        bit(b.read_access(0x1820)->Value_0, k) == if k < 3 {
            !bit(b.coin_inputs, k)
        } else if k == 3 {
            b.command_pending
        } else if k == 4 {
            b.response_pending
        } else {
            k == 7
        },
{
    lemma_word_fields(0x1820);
    lemma_status_lines(
        b.coin_inputs,
        if b.command_pending { 8u8 } else { 0u8 },
        if b.response_pending { 16u8 } else { 0u8 },
        k,
    );
}

/// The speech chip's two lines on its port: line 2 low while it is ready, line 3
/// low while it interrupts, the others low. Its clock is 7.159090 MHz divided by
/// nine, or by eleven.
pub proof fn law_speech_lines(ready: bool, interrupting: bool)
    ensures
        port_b_pins(ready, interrupting) == (if ready { 0int } else { 4 }) + (if interrupting {
            0int
        } else {
            8
        }),
        7_159_090 - 9 < 9 * tms_clock(true) <= 7_159_090,
        7_159_090 - 11 < 11 * tms_clock(false) <= 7_159_090,
{
    lemma_status_lines(0, 0, 0, 0);
}

/// The chips of the sound board, register by register: the synthesizer's two at
/// 0x1800, the sound generator's sixteen at 0x1870, the speech interface's
/// sixteen at 0x1000 where fitted; the ROM from 0x4000 up.
pub proof fn law_sound_chip_registers(b: System1SoundView, n: u8, data: u8, i: int)
    requires
        n < 16,
        0 <= i < 0xC000,
    ensures
        n < 2 ==> b.read_access((0x1800 + n) as u16) == System1SoundRead::Ym(n),
        n < 2 ==> b.write_access((0x1800 + n) as u16, data) == (System1SoundWrite::Ym {
            register: n,
            data,
        }),
        b.read_access((0x1870 + n) as u16) == System1SoundRead::Pokey(n),
        b.write_access((0x1870 + n) as u16, data) == (System1SoundWrite::Pokey { register: n, data }),
        b.speech is Some ==> b.read_access((0x1000 + n) as u16) == System1SoundRead::Speech(n),
        b.speech is Some ==> b.write_access((0x1000 + n) as u16, data) == (System1SoundWrite::Speech {
            register: n,
            data,
        }),
        b.read_access((0x4000 + i) as u16) == System1SoundRead::Value(b.sound_rom[i]),
        b.write_access((0x4000 + i) as u16, data) == System1SoundWrite::Done,
{
    lemma_chip_fields(0x1800, n);
    lemma_chip_fields(0x1870, n);
    lemma_chip_fields(0x1000, n);
}

proof fn lemma_chip_fields(base: int, n: u8)
    requires
        base == 0x1800 || base == 0x1870 || base == 0x1000,
        n < 16,
    ensures
        ({
            let a = (base + n) as u16;
            &&& a & 0x0F == n
            &&& a & 1 == n % 2
            &&& (base != 0x1000 ==> a & 0x1800 == 0x1800)
            &&& (base != 0x1000 ==> a & 0x70 == base - 0x1800)
        }),
{
    let a = (base + n) as u16;
    lemma_word_fields(a);
    assert(a % 16 == n && a % 2 == n % 2);
    assert((a / 16) % 8 == (base / 16) % 8);
    assert((a / 2048) % 4 == (base / 2048) % 4);
}

/// The output latch: each of its eight addresses drives its own line from data
/// line 0, and nothing else moves.
pub proof fn law_sound_output_latch(b: System1SoundView, n: u8, data: u8, k: u8)
    requires
        n < 8,
        k < 8,
    ensures
        ({
            let after = b.after_write((0x1820 + n) as u16, data);
            &&& bit(after.outlatch, k) == if k == n { data % 2 == 1 } else { bit(b.outlatch, k) }
            &&& after == (System1SoundView { outlatch: after.outlatch, ..b })
        }),
{
    let a = (0x1820 + n) as u16;
    lemma_word_fields(a);
    lemma_lines(data);
    assert(a % 8 == n && (a / 16) % 8 == 2 && (a / 2048) % 4 == 3);
    lemma_with_bit(b.outlatch, n, k, data % 2 == 1);
}

/// The sound RAM: a write at any of its addresses changes the byte behind the
/// low twelve lines and no other.
pub proof fn law_sound_ram(b: System1SoundView, i: int, k: int, data: u8)
    requires
        b.wf(),
        0 <= i < 0x1000,
        0 <= k < 0x1000,
    ensures
        b.read_access(i as u16) == System1SoundRead::Value(b.sound_ram[i]),
        b.after_write(i as u16, data).read_access(k as u16) == if k == i {
            System1SoundRead::Value(data)
        } else {
            b.read_access(k as u16)
        },
{
    lemma_word_fields(i as u16);
    lemma_word_fields(k as u16);
}

/// The reset line: a held CPU that is let go boots once, a running one does not,
/// and holding it takes down a waiting response but leaves a waiting command.
pub proof fn law_reset_line(b: System1SoundView)
    ensures
        b.held_reset ==> b.after_reset_line(false).reset_pending,
        !b.held_reset && !b.reset_pending ==> !b.after_reset_line(false).reset_pending,
        !b.held_reset && !b.reset_pending ==> b.after_reset_line(true).after_reset_line(false).reset_pending,
        !b.after_reset_line(true).response_pending,
        b.after_reset_line(false).response_pending == b.response_pending,
        b.after_reset_line(true).command_pending == b.command_pending,
        b.after_reset_line(true).held_reset,
        !b.after_reset_line(false).held_reset,
        b.after_reset_line(true).next_step() == SoundStep::Held,
        b.held_reset ==> b.after_reset_line(false).next_step() == SoundStep::Boot,
        b.held_reset ==> b.after_reset_line(false).after_begin_tick().next_step() == SoundStep::Run,
        b.after_reset_line(true).after_begin_tick().reset_pending == b.reset_pending,
{
}

/// The sound CPU's interrupts: a command is an NMI, each fitted chip an IRQ; a
/// board without speech ignores the speech chip's line.
pub proof fn law_sound_interrupts(b: System1SoundView, data: u8)
    requires
        !b.held_reset,
    ensures
        b.after_command(data).interrupts(false, false, false).nmi,
        !b.interrupts(false, false, false).irq,
        b.interrupts(true, false, false).irq,
        b.interrupts(false, true, false).irq,
        b.interrupts(false, false, true).irq == b.speech is Some,
        b.interrupts(true, true, true).nmi == b.sound_nmi,
{
}

} // verus!
