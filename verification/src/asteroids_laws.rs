//! What the two Asteroids games promise at their buses: which address shows
//! which switch, what the generator sees of the memories, and what a sound
//! write does to the circuit's inputs.

use vstd::prelude::*;

use crate::astdelux::{DeluxeRead, DeluxeView, DeluxeWrite};
use crate::asteroids::{AsteroidsView, AsteroidsWrite};
use crate::asteroids_sound::{SoundDrive, SoundView, divider_of};
use crate::atari_dvg::{DvgView, lemma_undriven_lines_read_high, swapped_by_ramsel};
use crate::bits::{bit, lemma_lines, lemma_with_bit, with_bit};
use crate::dip::law_option_changes_only_its_bits;

verus! {

/// The address at which a button is read. The shield sits where the first game
/// has hyperspace.
pub open spec fn switch_address(id: u8) -> Option<u16> {
    if id == 0 {
        Some(0x2400u16)
    } else if id == 1 {
        Some(0x2403u16)
    } else if id == 2 {
        Some(0x2404u16)
    } else if id == 3 {
        Some(0x2405u16)
    } else if id == 4 {
        Some(0x2004u16)
    } else if id == 5 {
        Some(0x2003u16)
    } else if id == 6 {
        Some(0x2407u16)
    } else if id == 7 {
        Some(0x2406u16)
    } else {
        None
    }
}

/// The level that a switch puts on the top data line.
pub open spec fn top_line(high: bool) -> u8 {
    if high {
        0x80
    } else {
        0x00
    }
}

/// A button changes what its own address reads, the top line high while it is
/// pressed, and nothing else on the bus.
pub proof fn law_button_shows_at_its_address(
    m: AsteroidsView,
    id: u8,
    pressed: bool,
    addr: u16,
    dvg_halted: bool,
)
    requires
        addr < 0x8000,
    ensures
        m.after_button(id, pressed).read_value(addr, dvg_halted) == if switch_address(id) == Some(
            addr,
        ) {
            top_line(pressed)
        } else {
            m.read_value(addr, dvg_halted)
        },
        m.after_button(id, pressed).board == m.board,
        m.after_button(id, pressed).sound == m.sound,
{
    let k = (addr as int % 8) as u8;
    assert(addr as int % 0x8000 == addr);
    lemma_with_bit(m.in0, 3, k, pressed);
    lemma_with_bit(m.in0, 4, k, pressed);
    lemma_with_bit(m.in1, 0, k, pressed);
    lemma_with_bit(m.in1, 3, k, pressed);
    lemma_with_bit(m.in1, 4, k, pressed);
    lemma_with_bit(m.in1, 5, k, pressed);
    lemma_with_bit(m.in1, 6, k, pressed);
    lemma_with_bit(m.in1, 7, k, pressed);
}

/// The same on the later board.
pub proof fn law_deluxe_button_shows_at_its_address(
    m: DeluxeView,
    id: u8,
    pressed: bool,
    addr: u16,
    dvg_halted: bool,
)
    requires
        addr < 0x8000,
    ensures
        m.after_button(id, pressed).read_access(addr, dvg_halted) == if switch_address(id) == Some(
            addr,
        ) {
            DeluxeRead::Value(top_line(pressed))
        } else {
            m.read_access(addr, dvg_halted)
        },
        m.after_button(id, pressed).board == m.board,
        m.after_button(id, pressed).pots == m.pots,
{
    let k = (addr as int % 8) as u8;
    assert(addr as int % 0x8000 == addr);
    lemma_with_bit(m.in0, 3, k, pressed);
    lemma_with_bit(m.in0, 4, k, pressed);
    lemma_with_bit(m.in1, 0, k, pressed);
    lemma_with_bit(m.in1, 3, k, pressed);
    lemma_with_bit(m.in1, 4, k, pressed);
    lemma_with_bit(m.in1, 5, k, pressed);
    lemma_with_bit(m.in1, 6, k, pressed);
    lemma_with_bit(m.in1, 7, k, pressed);
}

/// The second line of the first port shows whether the generator runs, whatever
/// the switches are, and no other address does.
pub proof fn law_running_generator_shows(m: AsteroidsView, d: DeluxeView, addr: u16)
    requires
        addr < 0x8000,
    ensures
        m.read_value(0x2002, true) == 0x00,
        m.read_value(0x2002, false) == 0x80,
        d.read_access(0x2002, true) == DeluxeRead::Value(0x00),
        d.read_access(0x2002, false) == DeluxeRead::Value(0x80),
        addr != 0x2002 ==> m.read_value(addr, true) == m.read_value(addr, false),
        addr != 0x2002 ==> d.read_access(addr, true) == d.read_access(addr, false),
{
    assert(addr as int % 0x8000 == addr);
}

/// The first line is a square wave off the CPU clock: low for the first 256
/// cycles, the other way for the next 256, and so on.
pub proof fn law_clock_line_is_a_square_wave(
    m: AsteroidsView,
    d: DeluxeView,
    clock: u64,
    n: u64,
    dvg_halted: bool,
)
    requires
        n < 0x100,
        clock % 0x100 == 0,
        clock < 0x1_0000_0000_0000,
    ensures
        ({
            let m_at = |c: int|
                AsteroidsView {
                    board: DvgView { clock: c as u64, ..m.board },
                    ..m
                }.read_value(0x2001, dvg_halted);
            let d_at = |c: int|
                DeluxeView {
                    board: DvgView { clock: c as u64, ..d.board },
                    ..d
                }.read_access(0x2001, dvg_halted);
            &&& m_at(n as int) == 0x00
            &&& m_at(clock + n) == m_at(clock as int)
            &&& m_at(clock + 0x100) == (0x80 - m_at(clock as int)) as u8
            &&& d_at(clock + n) == DeluxeRead::Value(m_at(clock + n))
        }),
{
    assert(((clock + n) as u64) / 0x100 == clock / 0x100);
    assert(((clock + 0x100) as u64) / 0x100 == clock / 0x100 + 1);
}

/// The generator sees the vector RAM from its address 0 and the vector ROM from
/// its address 0x1000, byte for byte as the CPU sees them at 0x4000 and 0x5000.
pub proof fn law_generator_sees_the_vector_memories(m: AsteroidsView, i: int, dvg_halted: bool)
    requires
        m.board.vrom_dvg_offset == 0x1000,
        m.board.vrom_size == 0x0800,
        0 <= i < 0x0800,
    ensures
        m.board.dvg_memory().len() == 0x2000,
        m.board.dvg_memory()[i] == m.read_value((0x4000 + i) as u16, dvg_halted),
        m.board.dvg_memory()[0x1000 + i] == m.read_value((0x5000 + i) as u16, dvg_halted),
        m.board.dvg_memory()[0x0800 + i] == 0,
        m.board.dvg_memory()[0x1800 + i] == 0,
{
}

/// On the later board the ROM follows the RAM directly, and the whole window
/// from 0x4000 shows in the generator's order.
pub proof fn law_deluxe_generator_sees_the_vector_memories(m: DeluxeView, i: int, dvg_halted: bool)
    requires
        m.board.vrom_dvg_offset == 0x0800,
        m.board.vrom_size == 0x1000,
        0 <= i < 0x2000,
    ensures
        i < 0x1800 ==> DeluxeRead::Value(m.board.dvg_memory()[i]) == m.read_access(
            (0x4000 + i) as u16,
            dvg_halted,
        ),
        i >= 0x1800 ==> m.board.dvg_memory()[i] == 0,
{
}

/// Where the two ROMs are read, and that power-on wires the generator's ROM
/// window and shows blank memory.
pub proof fn law_program_roms_end_at_the_vectors(m: AsteroidsView, d: DeluxeView, i: int, dvg_halted: bool)
    requires
        m.board.program_rom.len() == 0x1800,
        d.board.program_rom.len() == 0x2000,
    ensures
        0 <= i < 0x1800 ==> m.read_value((0x10000 - 0x1800 + i) as u16, dvg_halted)
            == m.board.program_rom[i],
        0 <= i < 0x2000 ==> d.read_access((0x10000 - 0x2000 + i) as u16, dvg_halted)
            == DeluxeRead::Value(d.board.program_rom[i]),
        m.read_value(0xFFFF, dvg_halted) == m.board.program_rom.last(),
        d.read_access(0xFFFF, dvg_halted) == DeluxeRead::Value(d.board.program_rom.last()),
{
}

/// A write reaches one RAM byte at most: every other address of the RAM reads
/// as before.
pub proof fn law_ram_write_touches_one_byte(
    m: AsteroidsView,
    addr: u16,
    other: u16,
    data: u8,
    dvg_halted: bool,
)
    requires
        m.board.ram.len() == 0x400,
        m.board.vector_ram.len() == 0x800,
        addr < 0x0800 || 0x4000 <= addr < 0x4800,
        other < 0x8000,
        other != addr,
        other < 0x0800 ==> addr >= 0x4000 || other % 0x400 != addr % 0x400,
    ensures
        m.after_write(addr, data).read_value(other, dvg_halted) == m.read_value(other, dvg_halted),
{
    assert(addr as int % 0x8000 == addr);
    assert(other as int % 0x8000 == other);
    if addr < 0x0800 && other < 0x0800 {
        lemma_swap_is_one_to_one(addr, other, m.ramsel);
    }
}

proof fn lemma_swap_is_one_to_one(a: u16, b: u16, ramsel: bool)
    requires
        a < 0x800,
        b < 0x800,
        a % 0x400 != b % 0x400,
    ensures
        swapped_by_ramsel(a, ramsel) % 0x400 != swapped_by_ramsel(b, ramsel) % 0x400,
{
    assert(a % 0x400 == if a < 0x400 { a as int } else { a - 0x400 });
    assert(b % 0x400 == if b < 0x400 { b as int } else { b - 0x400 });
}

/// The same on the later board.
pub proof fn law_deluxe_ram_write_touches_one_byte(
    m: DeluxeView,
    addr: u16,
    other: u16,
    data: u8,
    dvg_halted: bool,
)
    requires
        m.board.ram.len() == 0x400,
        m.board.vector_ram.len() == 0x800,
        addr < 0x8000,
        other < 0x8000,
        other != addr,
    ensures
        m.after_write(addr, data).read_access(other, dvg_halted) == m.read_access(other, dvg_halted),
{
    assert(addr as int % 0x8000 == addr);
    assert(other as int % 0x8000 == other);
}

/// A write of the explosion register sets its volume, its pitch, and no other
/// effect. Lines 0 and 1 are not wired.
pub proof fn law_explosion_write(m: AsteroidsView, volume: u8, pitch: u8, low: u8)
    requires
        volume < 16,
        pitch < 4,
        low < 4,
    ensures
        ({
            let after = m.after_write(0x3600, (64 * pitch + 4 * volume + low) as u8);
            after.sound.drive() == (SoundDrive {
                explosion_vol: volume,
                explosion_pitch: seq![12u8, 6u8, 3u8, 5u8][pitch as int],
                ..m.sound.drive()
            })
        }),
{
}

/// A write of the thump register sets its enable from line 4 and its pitch code
/// from the low lines, and no other effect. The top lines are not wired.
pub proof fn law_thump_write(m: AsteroidsView, enable: bool, code: u8, top: u8)
    requires
        code < 16,
        top < 8,
    ensures
        ({
            let data = 32 * top + (if enable { 16int } else { 0 }) + code;
            m.after_write(0x3A00, data as u8).sound.drive() == (SoundDrive {
                thump_en: enable,
                thump_data: code,
                ..m.sound.drive()
            })
        }),
{
    lemma_lines((32 * top + (if enable { 16int } else { 0 }) + code) as u8);
}

/// Each address of the audio latch switches its own effect, high when the top
/// data line is, and no other effect.
pub proof fn law_effect_latch(m: AsteroidsView, n: u8, data: u8)
    requires
        n < 8,
    ensures
        m.after_write((0x3C00 + n) as u16, data).sound.drive() == with_effect(
            m.sound.drive(),
            n,
            data >= 0x80,
        ),
{
    let on = data >= 0x80;
    lemma_lines(data);
    assert(((0x3C00 + n) as u16) as int % 0x8000 == 0x3C00 + n);
    assert((0x3C00 + n) % 8 == n);
    lemma_latch_write(m.sound, n, on);
}

/// A drive with one effect switched, the effects in the latch's order.
pub open spec fn with_effect(d: SoundDrive, n: u8, on: bool) -> SoundDrive {
    if n == 0 {
        SoundDrive { saucer_en: on, ..d }
    } else if n == 1 {
        SoundDrive { saucer_fire: on, ..d }
    } else if n == 2 {
        SoundDrive { saucer_sel: on, ..d }
    } else if n == 3 {
        SoundDrive { thrust_en: on, ..d }
    } else if n == 4 {
        SoundDrive { ship_fire: on, ..d }
    } else if n == 5 {
        SoundDrive { life_en: on, ..d }
    } else {
        d
    }
}

proof fn lemma_latch_write(s: SoundView, n: u8, on: bool)
    requires
        n < 8,
    ensures
        ({
            let l = with_bit(s.audio_latch, n, on);
            &&& bit(l, 0) == if n == 0 { on } else { bit(s.audio_latch, 0) }
            &&& bit(l, 1) == if n == 1 { on } else { bit(s.audio_latch, 1) }
            &&& bit(l, 2) == if n == 2 { on } else { bit(s.audio_latch, 2) }
            &&& bit(l, 3) == if n == 3 { on } else { bit(s.audio_latch, 3) }
            &&& bit(l, 4) == if n == 4 { on } else { bit(s.audio_latch, 4) }
            &&& bit(l, 5) == if n == 5 { on } else { bit(s.audio_latch, 5) }
        }),
{
    lemma_with_bit(s.audio_latch, n, 0, on);
    lemma_with_bit(s.audio_latch, n, 1, on);
    lemma_with_bit(s.audio_latch, n, 2, on);
    lemma_with_bit(s.audio_latch, n, 3, on);
    lemma_with_bit(s.audio_latch, n, 4, on);
    lemma_with_bit(s.audio_latch, n, 5, on);
}

/// The noise strobe asks for one reset and changes no level; no other write
/// asks for one.
pub proof fn law_noise_strobe(m: AsteroidsView, addr: u16, data: u8)
    requires
        addr < 0x8000,
    ensures
        m.after_write(0x3E00, data).sound.noise_reset,
        m.after_write(0x3E00, data).sound.drive() == m.sound.drive(),
        addr != 0x3E00 ==> m.after_write(addr, data).sound.noise_reset == m.sound.noise_reset,
{
    assert(addr as int % 0x8000 == addr);
}

/// Only the sound registers' addresses change a level.
pub proof fn law_other_writes_are_silent(m: AsteroidsView, addr: u16, data: u8)
    requires
        addr < 0x8000,
        addr != 0x3600,
        addr != 0x3A00,
        !(0x3C00 <= addr < 0x3C08),
    ensures
        m.after_write(addr, data).sound.drive() == m.sound.drive(),
{
    assert(addr as int % 0x8000 == addr);
}

/// A shorter divider is a higher pitch: the first three steps each double it.
pub proof fn law_pitch_steps_double(low: u8)
    requires
        low < 64,
    ensures
        divider_of(low) == 2 * divider_of((low + 64) as u8),
        divider_of((low + 64) as u8) == 2 * divider_of((low + 128) as u8),
        divider_of(low) == 12,
        divider_of((low + 192) as u8) == 5,
{
}

/// The option bank set by hand is the one that the option reads give back, the
/// top pair first.
pub proof fn law_options_set_are_options_read(
    m: AsteroidsView,
    d: DeluxeView,
    p0: u8,
    p1: u8,
    p2: u8,
    p3: u8,
    dvg_halted: bool,
)
    requires
        p0 < 4,
        p1 < 4,
        p2 < 4,
        p3 < 4,
    ensures
        ({
            let value = (64 * p0 + 16 * p1 + 4 * p2 + p3) as u8;
            let set = m.with_bank(0, value);
            let d_set = d.with_bank(0, value);
            &&& set.read_value(0x2800, dvg_halted) == 0xFC + p0
            &&& set.read_value(0x2801, dvg_halted) == 0xFC + p1
            &&& set.read_value(0x2802, dvg_halted) == 0xFC + p2
            &&& set.read_value(0x2803, dvg_halted) == 0xFC + p3
            &&& d_set.read_access(0x2800, dvg_halted) == DeluxeRead::Value(p0)
            &&& d_set.read_access(0x2801, dvg_halted) == DeluxeRead::Value(p1)
            &&& d_set.read_access(0x2802, dvg_halted) == DeluxeRead::Value(p2)
            &&& d_set.read_access(0x2803, dvg_halted) == DeluxeRead::Value(p3)
            &&& set.bank(0) == value && d_set.bank(0) == value
        }),
{
    let value = (64 * p0 + 16 * p1 + 4 * p2 + p3) as u8;
    assert(value / 64 == p0 && (value / 16) % 4 == p1 && (value / 4) % 4 == p2 && value % 4 == p3);
    lemma_undriven_lines_read_high();
}

/// The self-test switch is read at 0x2007, and setting it moves no other
/// switch.
pub proof fn law_self_test_switch_is_read(m: AsteroidsView, value: u8, dvg_halted: bool)
    ensures
        m.with_bank(1, value).read_value(0x2007, dvg_halted) == top_line(value >= 0x80),
        m.with_bank(1, value).in1 == m.in1,
        m.with_bank(1, value).dip_switches == m.dip_switches,
{
    law_option_changes_only_its_bits(m.in0, 0x80, value);
    lemma_lines(m.with_bank(1, value).in0);
    lemma_lines(value);
}

/// Setting the self-test switch gates the NMI from the next cycle on, and
/// clearing it lets the NMI through again.
pub proof fn law_self_test_gates_the_nmi(m: AsteroidsView, value: u8)
    ensures
        m.with_bank(1, value).after_begin_cycle().board.test_asserted == (value >= 0x80),
        m.after_begin_cycle().in0 == m.in0,
        m.after_begin_cycle().board.ram == m.board.ram,
        value >= 0x80 ==> !m.with_bank(1, value).after_begin_cycle().board.nmi_due(),
{
    law_option_changes_only_its_bits(m.in0, 0x80, value);
    lemma_lines(m.with_bank(1, value).in0);
    lemma_lines(value);
}

/// Each coinage toggle has its own pot input: a set toggle leaves it at ground,
/// a clear one pulls it high.
pub proof fn law_each_coinage_toggle_has_its_pot(m: DeluxeView, value: u8, n: u8, level: bool, k: int)
    requires
        n < 8,
        0 <= k < 8,
    ensures
        m.with_bank(1, value).pots.len() == 8,
        m.with_bank(1, with_bit(value, n, level)).pots[k] == if k == n {
            if level {
                0x00u8
            } else {
                0x80u8
            }
        } else {
            m.with_bank(1, value).pots[k]
        },
{
    lemma_with_bit(value, n, k as u8, level);
}

/// The sound chip's sixteen registers and the score memory's 64 cells answer in
/// order, at one address each, for reads and writes.
pub proof fn law_deluxe_devices_in_order(m: DeluxeView, n: u8, data: u8, dvg_halted: bool)
    requires
        n < 64,
    ensures
        n < 16 ==> m.read_access((0x2C00 + n) as u16, dvg_halted) == (DeluxeRead::Pokey { register: n }),
        n < 16 ==> DeluxeView::write_access((0x2C00 + n) as u16, data) == (DeluxeWrite::Pokey {
            register: n,
            data,
        }),
        m.read_access((0x2C40 + n) as u16, dvg_halted) == (DeluxeRead::Earom { offset: n }),
        DeluxeView::write_access((0x3200 + n) as u16, data) == (DeluxeWrite::EaromLatch {
            offset: n,
            data,
        }),
{
}

/// The score memory's control lines: clock on line 0, the first mode line
/// inverted from line 1, the second from line 2, select on line 3.
pub proof fn law_score_memory_control(data: u8)
    ensures
        ({
            let w = DeluxeView::write_access(0x3A00, data);
            &&& w is EaromControl
            &&& w->clock == ((data as int) % 2 == 1)
            &&& w->c1 == ((data as int / 2) % 2 == 0)
            &&& w->c2 == ((data as int / 4) % 2 == 1)
            &&& w->cs1 == ((data as int / 8) % 2 == 1)
        }),
{
    lemma_lines(data);
}

/// The one address that starts the generator and the one that clears the
/// watchdog.
pub proof fn law_start_and_watchdog_addresses(m: AsteroidsView, d: DeluxeView, addr: u16, data: u8)
    requires
        addr < 0x8000,
    ensures
        (DeluxeView::write_access(addr, data) == DeluxeWrite::StartDvg) == (addr == 0x3000),
        (AsteroidsView::write_access(addr) == AsteroidsWrite::StartDvg) == (addr == 0x3000),
        m.after_write(addr, data).board.watchdog_frame_count == if addr == 0x3400 {
            0
        } else {
            m.board.watchdog_frame_count
        },
        d.after_write(addr, data).board.watchdog_frame_count == if addr == 0x3400 {
            0
        } else {
            d.board.watchdog_frame_count
        },
{
    assert(addr as int % 0x8000 == addr);
}

/// A reset silences the effects and leaves memories, switches and options as
/// they were; a frame end does too, unless the watchdog resets the machine.
pub proof fn law_reset_keeps_the_memories(m: AsteroidsView, addr: u16, dvg_halted: bool)
    ensures
        m.after_reset().read_value(addr, dvg_halted) == m.read_value(addr, dvg_halted),
        m.after_reset().sound == SoundView::silent(),
        !m.after_reset().board.nmi_pending,
        m.after_reset().board.nmi_counter == 0,
        m.board.watchdog_frame_count < 7 ==> m.after_frame().sound == m.sound,
        m.board.watchdog_frame_count == 7 ==> m.after_frame().sound == SoundView::silent(),
        !m.after_frame().board.nmi_pending,
        m.after_frame().read_value(addr, dvg_halted) == m.read_value(addr, dvg_halted),
{
}

} // verus!
