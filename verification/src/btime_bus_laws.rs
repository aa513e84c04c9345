//! What the btime board promises at its two buses: which switch shows on which
//! line, what each register does, when the beam drives which line, and how the
//! ROMs hold the tiles.

use vstd::prelude::*;

use crate::bits::{bit, lemma_lines, lemma_with_bit};
use crate::btime::{
    AyWrite, BtimeView, ay_write, decodes_chars, decodes_wide, mixed, planes_of, wide_column,
};
use crate::burgertime::{after_button, with_bank};
use crate::gfx::{GfxCache, planar_pen};
use crate::gfx_laws::law_planes_are_the_lines_of_a_pen;
use crate::machine::BusMaster;

verus! {

// -- Switches ---------------------------------------------------------------

/// Where a control is read: its port and line.
pub open spec fn control_line(id: u8) -> Option<(u16, u8)> {
    if id < 5 {
        Some((0x4000u16, id))
    } else if id < 10 {
        Some((0x4001u16, (id - 5) as u8))
    } else if id == 10 {
        Some((0x4002u16, 6u8))
    } else if id == 11 {
        Some((0x4002u16, 0u8))
    } else if id == 12 {
        Some((0x4002u16, 1u8))
    } else if id == 13 {
        Some((0x4002u16, 7u8))
    } else if id == 14 {
        Some((0x4002u16, 2u8))
    } else {
        None
    }
}

/// A control grounds its own line while it is held, except a coin, which drives
/// it high; no other line of its port moves, and no other address reads
/// anything else.
pub proof fn law_control_shows_on_its_line(b: BtimeView, id: u8, pressed: bool, addr: u16, k: u8)
    requires
        k < 8,
    ensures
        control_line(id) matches Some((port, line)) ==> bit(
            after_button(b, id, pressed).main_byte(port),
            k,
        ) == if k == line {
            pressed == (id == 10 || id == 13)
        } else {
            bit(b.main_byte(port), k)
        },
        (control_line(id) matches Some((port, line)) ==> addr != port) ==> after_button(
            b,
            id,
            pressed,
        ).main_byte(addr) == b.main_byte(addr),
{
    if id < 5 {
        lemma_with_bit(b.p1, id, k, !pressed);
    } else if id < 10 {
        lemma_with_bit(b.p2, (id - 5) as u8, k, !pressed);
    } else {
        lemma_with_bit(b.system, 0, k, !pressed);
        lemma_with_bit(b.system, 1, k, !pressed);
        lemma_with_bit(b.system, 2, k, !pressed);
        lemma_with_bit(b.system, 6, k, pressed);
        lemma_with_bit(b.system, 7, k, pressed);
    }
}

/// Only a coin that goes from open to closed raises the interrupt.
pub proof fn law_only_a_new_coin_interrupts(b: BtimeView, id: u8, pressed: bool)
    ensures
        after_button(b, id, pressed).main_irq == (b.main_irq || pressed && (id == 10 && !bit(
            b.main_byte(0x4002),
            6,
        ) || id == 13 && !bit(b.main_byte(0x4002), 7))),
{
}

/// The byte under a blanking line.
proof fn lemma_under_the_top_line(v: u8, top: bool, k: u8)
    requires
        k < 8,
    ensures
        bit((v & 0x7F) | (if top { 0x80u8 } else { 0u8 }), k) == if k == 7 { top } else { bit(v, k) },
        bit((v & 0x7F), k) == (k != 7 && bit(v, k)),
{
    assert({
        &&& ((((v & 0x7F) | 0x80u8) >> k) & 1 == 1) == (k == 7 || (v >> k) & 1 == 1)
        &&& ((((v & 0x7F) | 0u8) >> k) & 1 == 1) == (k != 7 && (v >> k) & 1 == 1)
        &&& ((((v & 0x7F)) >> k) & 1 == 1) == (k != 7 && (v >> k) & 1 == 1)
    }) by (bit_vector)
        requires
            k < 8,
    ;
}

/// The switch banks are read as they were set; the first shows the blanking
/// line in place of its top switch.
pub proof fn law_switch_banks_read_back(b: BtimeView, value: u8, k: u8)
    requires
        k < 8,
    ensures
        with_bank(b, 1, value).main_byte(0x4004) == value,
        bit(with_bank(b, 0, value).main_byte(0x4003), k) == if k == 7 {
            b.vblank()
        } else {
            bit(value, k)
        },
        with_bank(b, 0, value).main_byte(0x4004) == b.main_byte(0x4004),
        with_bank(b, 1, value).main_byte(0x4003) == b.main_byte(0x4003),
{
    lemma_under_the_top_line(value, b.vblank(), k);
    lemma_under_the_top_line(value & 0x7F, b.vblank(), k);
}

// -- The beam ---------------------------------------------------------------

/// A frame is 272 lines of 96 cycles. The blanking line is low on lines 8 to
/// 247; the sound NMI, if let through, is high on the second eight of every
/// sixteen lines.
pub proof fn law_beam_drives_its_lines(b: BtimeView, line: int, cycle: int)
    requires
        b.clock % 26_112 == 96 * line + cycle,
        0 <= line < 272,
        0 <= cycle < 96,
    ensures
        bit(b.main_byte(0x4003), 7) == !(8 <= line < 248),
        b.sound_nmi() == (b.audio_nmi_enable && line % 16 >= 8),
{
    assert((96 * line + cycle) / 96 == line);
    lemma_under_the_top_line(b.dsw1, b.vblank(), 7);
}

// -- Registers --------------------------------------------------------------

/// The three registers of the main CPU and what each sets; no other address
/// sets any of them.
pub proof fn law_registers(b: BtimeView, addr: u16, data: u8)
    ensures
        ({
            let after = b.after_main_write(addr, data);
            &&& after.flip_screen == if addr == 0x4002 { data % 2 == 1 } else { b.flip_screen }
            &&& after.sound_latch == if addr == 0x4003 { data } else { b.sound_latch }
            &&& after.sound_irq == (b.sound_irq || addr == 0x4003)
            &&& after.bnj_scroll0 == if addr == 0x4004 { data } else { b.bnj_scroll0 }
            &&& after.p1 == b.p1 && after.p2 == b.p2 && after.system == b.system
            &&& after.dsw1 == b.dsw1 && after.dsw2 == b.dsw2
            &&& after.main_rom == b.main_rom
        }),
{
    lemma_lines(data);
}

/// Each memory stands at its own place on the main bus.
pub proof fn law_memories_stand_in_order(b: BtimeView, i: int)
    requires
        0 <= i,
    ensures
        i < 0x800 ==> b.main_byte(i as u16) == b.ram[i],
        i < 0x10 ==> b.main_byte((0x0C00 + i) as u16) == b.palette_ram[i],
        i < 0x400 ==> b.main_byte((0x1000 + i) as u16) == b.videoram[i],
        i < 0x400 ==> b.main_byte((0x1400 + i) as u16) == b.colorram[i],
        i < 0x5000 ==> b.main_byte((0xB000 + i) as u16) == b.main_rom[i],
{
}

/// The turned window: cell `row`, `col` of the upright window is cell `col`,
/// `row` of the turned one, in both memories.
pub proof fn law_turned_window(b: BtimeView, row: int, col: int)
    requires
        0 <= row < 32,
        0 <= col < 32,
    ensures
        b.main_byte((0x1800 + 32 * row + col) as u16) == b.main_byte((0x1000 + 32 * col + row) as u16),
        b.main_byte((0x1C00 + 32 * row + col) as u16) == b.main_byte((0x1400 + 32 * col + row) as u16),
{
    let off = 32 * row + col;
    assert(off % 32 == col && off / 32 == row);
}

/// A write below the registers changes one location: everywhere else outside
/// the turned windows reads as before.
pub proof fn law_write_touches_one_location(b: BtimeView, addr: u16, other: u16, data: u8)
    requires
        b.wf(),
        addr < 0x1800,
        !(0x1800 <= other < 0x2000),
        other != addr,
    ensures
        b.after_main_write(addr, data).main_byte(other) == b.main_byte(other),
{
}

/// The descrambler is in the way only of an opcode fetched after a write from
/// an address whose lines 2 and 8 are both high.
pub proof fn law_descrambled_fetches(b: BtimeView, addr: u16, data: u8)
    ensures
        addr & 0x0104 != 0x0104 ==> b.main_read(addr) == b.main_byte(addr),
        !b.main_had_written || !b.main_is_sync ==> b.main_read(addr) == b.main_byte(addr),
        b.main_had_written && b.main_is_sync && addr & 0x0104 == 0x0104 ==> b.main_read(addr)
            == crate::btime::deco_cpu7(b.main_byte(addr)),
        b.after_main_write(addr, data).main_had_written,
{
}

/// The interrupts as the CPUs see them: a new coin interrupts the main CPU until
/// it fetches its vector; a command interrupts the sound CPU until it reads the
/// latch; the beam drives the sound CPU's NMI, and nothing the main CPU's.
pub proof fn law_interrupts_reach_their_cpu(b: BtimeView, data: u8)
    ensures
        !bit(b.main_byte(0x4002), 6) ==> after_button(b, 10, true).interrupts(BusMaster::Cpu(0)).irq,
        !b.after_main_read(0xFFFE).interrupts(BusMaster::Cpu(0)).irq,
        !b.interrupts(BusMaster::Cpu(0)).nmi,
        b.after_main_write(0x4003, data).interrupts(BusMaster::Cpu(1)).irq,
        !b.after_sound_read(0xA000).interrupts(BusMaster::Cpu(1)).irq,
        b.interrupts(BusMaster::Cpu(1)).nmi == b.sound_nmi(),
        b.after_main_write(0x4003, data).interrupts(BusMaster::Cpu(0)) == b.interrupts(
            BusMaster::Cpu(0),
        ),
{
}

// -- The sound side ---------------------------------------------------------

/// The sound RAM repeats every 1 KB of its 8 KB and reads back what was
/// written; a write changes one byte of it.
pub proof fn law_sound_ram(b: BtimeView, addr: u16, other: u16, data: u8)
    requires
        b.wf(),
        addr < 0x2000,
        other < 0x2000,
    ensures
        b.after_sound_write(addr, data).sound_byte(other) == if addr % 0x400 == other % 0x400 {
            data
        } else {
            b.sound_byte(other)
        },
{
}

/// The command latch answers in its 8 KB, the ROM repeats every 4 KB of the top
/// 8 KB, and the NMI enable follows data line 0 of a write between them.
pub proof fn law_sound_map(b: BtimeView, i: int, data: u8)
    requires
        0 <= i < 0x2000,
    ensures
        b.sound_byte((0xA000 + i) as u16) == b.sound_latch,
        !b.after_sound_read((0xA000 + i) as u16).sound_irq,
        b.after_sound_read((0xE000 + i) as u16) == b,
        b.sound_byte((0xE000 + i) as u16) == b.sound_rom[i % 0x1000],
        b.after_sound_write((0xC000 + i) as u16, data) == (BtimeView {
            audio_nmi_enable: data % 2 == 1,
            ..b
        }),
        b.after_sound_write((0xA000 + i) as u16, data) == b,
        b.after_sound_write((0xE000 + i) as u16, data) == b,
{
    lemma_lines(data);
    let a = (0xE000 + i) as u16;
    assert(a % 0x1000 == i % 0x1000);
}

/// The two generators: four windows of 8 KB from 0x2000 on, data then address
/// of the first, data then address of the second, with the byte unchanged.
pub proof fn law_generator_windows(i: int, data: u8)
    requires
        0 <= i < 0x2000,
    ensures
        ay_write((0x2000 + i) as u16, data) == Some(AyWrite { chip: 0, address: false, data }),
        ay_write((0x4000 + i) as u16, data) == Some(AyWrite { chip: 0, address: true, data }),
        ay_write((0x6000 + i) as u16, data) == Some(AyWrite { chip: 1, address: false, data }),
        ay_write((0x8000 + i) as u16, data) == Some(AyWrite { chip: 1, address: true, data }),
        ay_write(i as u16, data) is None,
        ay_write((0xA000 + i) as u16, data) is None,
        ay_write((0xC000 + i) as u16, data) is None,
        ay_write((0xE000 + i) as u16, data) is None,
{
}

/// The mixed stream is as long as the first; sample by sample it is the sum
/// where that fits, the nearest sample where it does not, and the first stream
/// alone past the end of the second.
pub proof fn law_mixed_streams_add(a: Seq<i16>, b: Seq<i16>, i: int)
    requires
        0 <= i < a.len(),
    ensures
        mixed(a, b).len() == a.len(),
        i < b.len() && i16::MIN <= a[i] + b[i] <= i16::MAX ==> mixed(a, b)[i] == a[i] + b[i],
        i < b.len() && a[i] + b[i] > i16::MAX ==> mixed(a, b)[i] == i16::MAX,
        i < b.len() && a[i] + b[i] < i16::MIN ==> mixed(a, b)[i] == i16::MIN,
        i >= b.len() ==> mixed(a, b)[i] == a[i],
{
}

// -- Tile ROMs --------------------------------------------------------------

/// A character, decoded: line `p` of the pen at column `px`, row `py` is line
/// `7 - px` of byte `8 * code + py` of plane `p`, planes 8 KB apart.
pub proof fn law_character_bytes_are_lines_across(
    cache: GfxCache,
    rom: Seq<u8>,
    code: int,
    px: int,
    py: int,
    p: int,
)
    requires
        decodes_chars(cache, rom),
        0 <= code < 1024,
        0 <= px < 8,
        0 <= py < 8,
        0 <= p < 8,
    ensures
        bit(cache.at(code, px, py), p as u8) == (p < 3 && bit(
            rom[0x2000 * p + 8 * code + py],
            (7 - px) as u8,
        )),
{
    let at = 64 * code + 8 * py + px;
    assert(cache.at(code, px, py) == planar_pen(rom, at, planes_of(0x2000), 3));
    law_planes_are_the_lines_of_a_pen(rom, at, planes_of(0x2000), 3, p);
    if p < 3 {
        let from = at + planes_of(0x2000)[p];
        assert(from == 8 * (0x2000 * p + 8 * code + py) + px);
        assert(from / 8 == 0x2000 * p + 8 * code + py && from % 8 == px);
    }
}

/// Where plane `p` starts.
proof fn lemma_third(third: int, p: int)
    requires
        0 <= third <= 0x2000,
        0 <= p < 3,
    ensures
        planes_of(third)[p] == 8 * (third * p),
        0 <= third * p <= 2 * third,
{
    if p == 0 {
        assert(third * p == 0) by (nonlinear_arith)
            requires
                p == 0,
        ;
        assert(planes_of(third)[0] == 0);
    } else if p == 1 {
        assert(third * p == third) by (nonlinear_arith)
            requires
                p == 1,
        ;
        assert(planes_of(third)[1] == 8 * third);
    } else {
        assert(third * p == 2 * third) by (nonlinear_arith)
            requires
                p == 2,
        ;
        assert(planes_of(third)[2] == 16 * third);
    }
}

/// A sprite or background tile, decoded: 32 bytes a plane, the right half's
/// sixteen lines first and the left half's after them, planes a third of the
/// region apart.
#[verifier::spinoff_prover]
pub proof fn law_wide_tile_halves(
    cache: GfxCache,
    rom: Seq<u8>,
    count: int,
    third: int,
    code: int,
    px: int,
    py: int,
    p: int,
)
    requires
        decodes_wide(cache, rom, count, third),
        0 <= third <= 0x2000,
        0 <= code < count,
        0 <= px < 8,
        0 <= py < 16,
        0 <= p < 8,
    ensures
        bit(cache.at(code, 8 + px, py), p as u8) == (p < 3 && bit(
            rom[third * p + 32 * code + py],
            (7 - px) as u8,
        )),
        bit(cache.at(code, px, py), p as u8) == (p < 3 && bit(
            rom[third * p + 32 * code + 16 + py],
            (7 - px) as u8,
        )),
{
    let planes = planes_of(third);
    let right = 256 * code + 8 * py + px;
    let left = 256 * code + 8 * py + 128 + px;
    assert(wide_column(8 + px) == px && wide_column(px) == 128 + px);
    assert(cache.at(code, 8 + px, py) == planar_pen(rom, right, planes, 3));
    assert(cache.at(code, px, py) == planar_pen(rom, left, planes, 3));
    law_planes_are_the_lines_of_a_pen(rom, right, planes, 3, p);
    law_planes_are_the_lines_of_a_pen(rom, left, planes, 3, p);
    if p < 3 {
        let shift = third * p;
        lemma_third(third, p);
        let byte = shift + 32 * code + py;
        assert(right + planes[p] == 8 * byte + px);
        assert(left + planes[p] == 8 * (byte + 16) + px);
        assert((8 * byte + px) / 8 == byte && (8 * byte + px) % 8 == px);
        assert((8 * (byte + 16) + px) / 8 == byte + 16 && (8 * (byte + 16) + px) % 8 == px);
    }
}

} // verus!
