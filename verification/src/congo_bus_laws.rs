//! What Congo Bongo's two buses promise: where each switch, latch and chip
//! answers, when the interrupts rise, and what the percussion lines gate.

use vstd::prelude::*;

use crate::arith::lemma_wrap_nested;
use crate::bits::{bit, lemma_lines, lemma_with_bit, lemma_word_fields, with_bit};
use crate::congo_bongo::{
    CongoRead, CongoView, CongoWrite, INPUT_COIN1, INPUT_COIN2, INPUT_P1_START, INPUT_P2_START,
    INPUT_SERVICE, after_button, chip_access, line_selected, min_x, min_y, psg_mix, sound_access, with_bank,
};
use crate::congo_sound::{CongoSound, law_noise_never_stops, next_noise_register};
use crate::gfx_laws::law_quarter_turn_moves_right_edge_up;
use crate::machine::BusMaster;
use crate::state::flag;

verus! {

// -- Switches ---------------------------------------------------------------

/// A byte with three flags laid over its top lines.
proof fn lemma_flags_on_top(v: u8, a: u8, b: u8, c: u8, k: u8)
    requires
        v < 0x20,
        a <= 1,
        b <= 1,
        c <= 1,
        k < 8,
    ensures
        bit(v | (a << 5) | (b << 6) | (c << 7), k) == if k == 5 {
            a == 1
        } else if k == 6 {
            b == 1
        } else if k == 7 {
            c == 1
        } else {
            bit(v, k)
        },
{
    assert((((v | (a << 5) | (b << 6) | (c << 7)) >> k) & 1 == 1) == if k == 5 {
        a == 1
    } else if k == 6 {
        b == 1
    } else if k == 7 {
        c == 1
    } else {
        (v >> k) & 1 == 1
    }) by (bit_vector)
        requires
            v < 0x20,
            a <= 1,
            b <= 1,
            c <= 1,
            k < 8,
    ;
}

/// Driving a low line leaves the top lines low.
proof fn lemma_low_line_stays_low(v: u8, n: u8, level: bool)
    requires
        v < 0x20,
        n < 5,
    ensures
        with_bit(v, n, level) < 0x20,
{
    lemma_lines(v);
    lemma_lines(with_bit(v, n, level));
    lemma_with_bit(v, n, 5, level);
    lemma_with_bit(v, n, 6, level);
    lemma_with_bit(v, n, 7, level);
}

/// The coin and start port: start buttons on lines 2 and 3, high while held;
/// the latched coins on lines 5, 6 and 7. A control moves its own line only.
pub proof fn law_starts_show_on_their_lines(b: CongoView, pressed: bool, k: u8)
    requires
        b.in2 < 0x20,
        k < 8,
    ensures
        bit(after_button(b, INPUT_P1_START, pressed).main_read(0xC008), k) == if k == 2 {
            pressed
        } else {
            bit(b.main_read(0xC008), k)
        },
        bit(after_button(b, INPUT_P2_START, pressed).main_read(0xC008), k) == if k == 3 {
            pressed
        } else {
            bit(b.main_read(0xC008), k)
        },
{
    lemma_word_fields(0xC008);
    let one = after_button(b, INPUT_P1_START, pressed);
    let two = after_button(b, INPUT_P2_START, pressed);
    lemma_low_line_stays_low(b.in2, 2, pressed);
    lemma_low_line_stays_low(b.in2, 3, pressed);
    lemma_flags_on_top(b.in2, flag(b.coin_a), flag(b.coin_b), flag(b.coin_service), k);
    lemma_flags_on_top(one.in2, flag(b.coin_a), flag(b.coin_b), flag(b.coin_service), k);
    lemma_flags_on_top(two.in2, flag(b.coin_a), flag(b.coin_b), flag(b.coin_service), k);
    lemma_with_bit(b.in2, 2, k, pressed);
    lemma_with_bit(b.in2, 3, k, pressed);
}

/// A coin shows on its line once pressed while its enable line is high; letting
/// go changes nothing, and no other line moves.
pub proof fn law_coins_show_on_their_lines(b: CongoView, n: u8, k: u8)
    requires
        b.in2 < 0x20,
        n < 3,
        k < 8,
    ensures
        ({
            let id = seq![INPUT_COIN1, INPUT_COIN2, INPUT_SERVICE][n as int];
            &&& bit(after_button(b, id, true).main_read(0xC008), k) == (bit(b.main_read(0xC008), k)
                || k == 5 + n && bit(b.latch1, n))
            &&& after_button(b, id, false) == b
        }),
{
    lemma_word_fields(0xC008);
    let id = seq![INPUT_COIN1, INPUT_COIN2, INPUT_SERVICE][n as int];
    let c = after_button(b, id, true);
    lemma_flags_on_top(b.in2, flag(b.coin_a), flag(b.coin_b), flag(b.coin_service), k);
    lemma_flags_on_top(c.in2, flag(c.coin_a), flag(c.coin_b), flag(c.coin_service), k);
}

/// What the port decoder takes from an address repeats every 64 addresses.
proof fn lemma_port_lines(addr: u16, other: u16)
    requires
        addr % 64 == other % 64,
    ensures
        addr & 0x3F == other & 0x3F,
        addr & 7 == other & 7,
        addr & 3 == other & 3,
        addr & 1 == other & 1,
{
    assert(addr & 0x3F == addr % 64 && addr & 7 == addr % 8 && addr & 3 == addr % 4 && addr & 1 == addr
        % 2) by {
        lemma_word_fields(addr);
    }
    assert(other & 0x3F == other % 64 && other & 7 == other % 8 && other & 3 == other % 4 && other & 1
        == other % 2) by {
        lemma_word_fields(other);
    }
    lemma_wrap_nested(addr as int, 8, 8);
    lemma_wrap_nested(addr as int, 4, 16);
    lemma_wrap_nested(addr as int, 2, 32);
    lemma_wrap_nested(other as int, 8, 8);
    lemma_wrap_nested(other as int, 4, 16);
    lemma_wrap_nested(other as int, 2, 32);
}

/// The ports repeat every 64 addresses of their window, for reads and writes.
pub proof fn law_ports_repeat(b: CongoView, addr: u16, other: u16, data: u8)
    requires
        0xC000 <= addr < 0xE000,
        0xC000 <= other < 0xE000,
        addr % 64 == other % 64,
    ensures
        b.main_read(addr) == b.main_read(other),
        b.after_main_write(addr, data) == b.after_main_write(other, data),
{
    lemma_port_lines(addr, other);
}

/// The switch banks read at the third and fourth port as they were set; the
/// other ports do not see them.
pub proof fn law_switch_banks_read_back(b: CongoView, value: u8, addr: u16)
    requires
        0xC000 <= addr < 0xC040,
    ensures
        with_bank(b, 0, value).main_read(addr) == if addr == 0xC002 {
            value
        } else {
            b.main_read(addr)
        },
        with_bank(b, 1, value).main_read(addr) == if addr == 0xC003 {
            value
        } else {
            b.main_read(addr)
        },
        addr >= 0xC009 ==> b.main_read(addr) == 0xFF,
        0xC004 <= addr < 0xC008 ==> b.main_read(addr) == 0xFF,
{
    lemma_word_fields(addr);
}

// -- Latches ----------------------------------------------------------------

/// The first latch: each address drives its own line from data line 0. Line 5
/// shows the background, line 7 lets the blanking interrupt through, and a coin
/// is kept only while its own line is high.
pub proof fn law_first_latch(b: CongoView, n: u8, data: u8, k: u8)
    requires
        n < 8,
        k < 8,
    ensures
        ({
            let on = data % 2 == 1;
            let after = b.after_main_write((0xC018 + n) as u16, data);
            &&& bit(after.latch1, k) == if k == n { on } else { bit(b.latch1, k) }
            &&& after.bg_enabled == if n == 5 { on } else { b.bg_enabled }
            &&& after.int_enabled == if n == 7 { on } else { b.int_enabled }
            &&& after.coin_a == (b.coin_a && bit(after.latch1, 0))
            &&& after.coin_b == (b.coin_b && bit(after.latch1, 1))
            &&& after.coin_service == (b.coin_service && bit(after.latch1, 2))
            &&& after.vblank_irq_pending == (b.vblank_irq_pending && (n != 7 || on))
            &&& after.latch2 == b.latch2
        }),
{
    let addr = (0xC018 + n) as u16;
    lemma_word_fields(addr);
    lemma_lines(data);
    assert(addr % 64 == 0x18 + n && addr % 8 == n);
    lemma_with_bit(b.latch1, n, k, data % 2 == 1);
}

/// The second latch: each address drives its own line from data line 0, and
/// nothing else changes.
pub proof fn law_second_latch(b: CongoView, n: u8, data: u8, k: u8)
    requires
        n < 8,
        k < 8,
    ensures
        ({
            let after = b.after_main_write((0xC020 + n) as u16, data);
            &&& bit(after.latch2, k) == if k == n { data % 2 == 1 } else { bit(b.latch2, k) }
            &&& after == (CongoView { latch2: after.latch2, ..b })
        }),
{
    let addr = (0xC020 + n) as u16;
    lemma_word_fields(addr);
    lemma_lines(data);
    assert(addr % 64 == 0x20 + n && addr % 8 == n);
    lemma_with_bit(b.latch2, n, k, data % 2 == 1);
}

/// A sound command is latched from the last eight ports, and from no other, and
/// is at once driven onto the sound board.
pub proof fn law_sound_command(b: CongoView, addr: u16, data: u8)
    requires
        0xC000 <= addr < 0xC040,
    ensures
        b.after_main_write(addr, data).sound_latch == if addr >= 0xC038 {
            data
        } else {
            b.sound_latch
        },
        chip_access(BusMaster::Cpu(0), addr, data) == if addr >= 0xC038 {
            CongoWrite::SoundCommand(data)
        } else {
            CongoWrite::Done
        },
{
    lemma_word_fields(addr);
}

// -- Memory -----------------------------------------------------------------

/// Video RAM and colour RAM stand one after the other and repeat every 2 KB of
/// their window; the program reads from address 0, the work RAM behind it.
pub proof fn law_memory_stands_in_order(b: CongoView, i: int, copy: int)
    requires
        0 <= copy < 4,
    ensures
        0 <= i < 0x400 ==> b.main_read((0xA000 + 0x800 * copy + i) as u16) == b.video_ram[i],
        0 <= i < 0x400 ==> b.main_read((0xA400 + 0x800 * copy + i) as u16) == b.color_ram[i],
        0 <= i < 0x8000 ==> b.main_read(i as u16) == b.main_rom[i],
        0 <= i < 0x1000 ==> b.main_read((0x8000 + i) as u16) == b.ram[i],
        0 <= i < 0x1000 ==> b.main_read((0x9000 + i) as u16) == 0xFF,
        0 <= i < 0x2000 ==> b.main_read((0xE000 + i) as u16) == 0xFF,
{
    if 0 <= i < 0x400 {
        let v = (0xA000 + 0x800 * copy + i) as u16;
        let c = (0xA400 + 0x800 * copy + i) as u16;
        lemma_word_fields(v);
        lemma_word_fields(c);
        assert(v % 2048 == i);
        assert(c % 2048 == 0x400 + i);
    }
}

/// A write in the window of a memory changes one byte of it and no latch.
pub proof fn law_memory_write_touches_one_byte(b: CongoView, i: int, k: int, data: u8)
    requires
        b.wf(),
        0 <= i < 0x400,
        0 <= k < 0x400,
    ensures
        b.after_main_write((0xA000 + i) as u16, data).video_ram[k] == if k == i {
            data
        } else {
            b.video_ram[k]
        },
        b.after_main_write((0xA000 + i) as u16, data).color_ram == b.color_ram,
        b.after_main_write((0xA400 + i) as u16, data).color_ram[k] == if k == i {
            data
        } else {
            b.color_ram[k]
        },
        b.after_main_write((0xA400 + i) as u16, data).video_ram == b.video_ram,
{
    let v = (0xA000 + i) as u16;
    let c = (0xA400 + i) as u16;
    lemma_word_fields(v);
    lemma_word_fields(c);
    assert(v % 2048 == i);
    assert(c % 2048 == 0x400 + i);
}

/// The sound CPU's RAM reads back what was written, also 2 KB up, and a write
/// changes one byte of it.
pub proof fn law_sound_ram(b: CongoView, i: int, other: int, data: u8)
    requires
        b.wf(),
        0 <= i < 0x1000,
        0 <= other < 0x1000,
    ensures
        sound_access(b.after_sound_write((0x4000 + i) as u16, data), (0x4000 + other) as u16) == if i
            % 0x800 == other % 0x800 {
            CongoRead::Value(data)
        } else {
            sound_access(b, (0x4000 + other) as u16)
        },
        0 <= i < 0x2000 ==> sound_access(b, i as u16) == CongoRead::Value(b.sound_rom[i]),
        sound_access(b, (0x2000 + i) as u16) == CongoRead::Value(0xFF),
        sound_access(b, (0x5000 + i) as u16) == CongoRead::Value(0xFF),
{
    let v = (0x4000 + i) as u16;
    let w = (0x4000 + other) as u16;
    lemma_word_fields(v);
    lemma_word_fields(w);
    assert(v % 2048 == i % 0x800);
    assert(w % 2048 == other % 0x800);
}

/// The sound CPU's chips: the first generator below 0x8000, the interface chip
/// with its four ports repeating, the second generator above it. The main CPU
/// reaches none of them.
pub proof fn law_sound_chips(b: CongoView, i: int, data: u8)
    requires
        0 <= i < 0x2000,
    ensures
        chip_access(BusMaster::Cpu(1), (0x6000 + i) as u16, data) == CongoWrite::Sn1(data),
        chip_access(BusMaster::Cpu(1), (0x8000 + i) as u16, data) == (CongoWrite::Ppi {
            port: (i % 4) as u8,
            data,
        }),
        sound_access(b, (0x8000 + i) as u16) == CongoRead::Ppi((i % 4) as u8),
        chip_access(BusMaster::Cpu(1), (0xA000 + i) as u16, data) == CongoWrite::Sn2(data),
        chip_access(BusMaster::Cpu(1), (0x4000 + i) as u16, data) == CongoWrite::Done,
        chip_access(BusMaster::Cpu(0), (0x6000 + i) as u16, data) == CongoWrite::Done,
        chip_access(BusMaster::Cpu(0), (0x8000 + i) as u16, data) == CongoWrite::Done,
        chip_access(BusMaster::Cpu(0), (0xA000 + i) as u16, data) == CongoWrite::Done,
{
    let v = (0x8000 + i) as u16;
    lemma_word_fields(v);
    assert(v % 4 == i % 4);
}

// -- Time -------------------------------------------------------------------

/// In a frame of 264 lines of 192 cycles, line `y` is drawn on its first cycle
/// if it is one of the 240 visible ones, and never between; the blanking
/// interrupt rises on the first cycle of line 240, if it is let through.
pub proof fn law_frame_schedule(b: CongoView, line: int, cycle: int)
    requires
        b.clock % 50_688 == 192 * line + cycle,
        0 <= line < 264,
        0 <= cycle < 192,
    ensures
        b.after_lead().scanline_buffer == if cycle == 0 && line < 240 {
            b.after_row(line).scanline_buffer
        } else {
            b.scanline_buffer
        },
        b.after_lead().vblank_irq_pending == (b.vblank_irq_pending || line == 240 && cycle == 0
            && b.int_enabled),
        b.after_lead().clock == b.clock,
{
    assert((192 * line + cycle) / 192 == line);
    assert((192 * line + cycle) % 192 == cycle);
}

/// The interrupts as the CPUs see them: the blanking interrupt reaches the main
/// CPU from line 240 until its latch line goes low, the periodic one the sound
/// CPU until it is taken. Neither is an NMI.
pub proof fn law_interrupts_reach_their_cpu(b: CongoView, data: u8)
    ensures
        b.clock % 50_688 == 192 * 240 && b.int_enabled ==> b.after_lead().interrupts(
            BusMaster::Cpu(0),
        ).irq,
        data % 2 == 0 ==> !b.after_main_write(0xC01F, data).interrupts(BusMaster::Cpu(0)).irq,
        b.interrupts(BusMaster::Cpu(1)).irq == b.sound_irq_pending,
        !b.after_sound_step_end(true, false).interrupts(BusMaster::Cpu(1)).irq,
        b.after_sound_step_end(true, true) == b,
        b.after_sound_step_end(false, false) == b,
        b.after_sound_step_end(false, true) == b,
        !b.interrupts(BusMaster::Cpu(0)).nmi,
        !b.interrupts(BusMaster::Cpu(1)).nmi,
        b.after_sound_step_end(true, false).interrupts(BusMaster::Cpu(0)) == b.interrupts(
            BusMaster::Cpu(0),
        ),
{
    assert(46_080int / 192 == 240 && 46_080int % 192 == 0);
    lemma_word_fields(0xC01F);
    lemma_lines(data);
}

// -- Positions --------------------------------------------------------------

/// Where a drawn pixel is shown: the picture is 224 wide and 256 high; column
/// `x` of drawn row `y`, from row 16 on, stands at column `y - 16`, row
/// `255 - x`.
pub proof fn law_picture_stands_upright(b: CongoView, x: int, y: int, c: int)
    requires
        b.wf(),
        0 <= x < 256,
        16 <= y < 240,
        0 <= c < 3,
    ensures
        b.picture()[3 * (224 * (255 - x) + (y - 16)) + c] == b.scanline_buffer[3 * (256 * y + x) + c],
{
    let src = b.scanline_buffer.skip(12_288);
    law_quarter_turn_moves_right_edge_up(src, 256, 224, x, y - 16, c);
    assert((256 - 1 - x) * 224 == 224 * (255 - x)) by (nonlinear_arith);
    assert((y - 16) * 256 == 256 * y - 16 * 256) by (nonlinear_arith);
    assert(src[3 * (256 * (y - 16) + x) + c] == b.scanline_buffer[3 * (256 * y + x) + c]);
}

/// Turning the screen half round carries a sprite's 32 columns and 32 rows to
/// the opposite place: its left edge is where its right edge would fall, its top
/// where its bottom would.
pub proof fn law_flipped_sprite_stands_opposite(value: u8)
    ensures
        min_x(value, true) == (255 - (min_x(value, false) + 31)) % 256,
        min_y(value, true) == (255 - (min_y(value, false) + 31)) % 256,
        min_x(value, false) == (value - 16) % 256,
        min_y(value, false) == (239 - value) % 256,
{
}

/// The comparator selects the 32 lines that start one above the sprite's top,
/// wrapping at 256, whichever way the screen is turned.
pub proof fn law_comparator_selects_the_sprite(value: u8, flip: bool, y: int)
    requires
        0 <= y < 256,
    ensures
        line_selected(value, flip, y) == ((y + 1 - min_y(value, flip)) % 256 < 32),
{
    reveal(line_selected);
}

// -- Sound ------------------------------------------------------------------

/// Each percussion voice has its own line, and sounds while the line is low: the
/// gorilla line 1 of the second port, bass, low conga, high conga and rim lines 0
/// to 3 of the third.
pub proof fn law_percussion_lines(b: u8, c: u8)
    ensures
        CongoSound::gates(b, c).gorilla == !bit(b, 1),
        CongoSound::gates(b, c).bass == !bit(c, 0),
        CongoSound::gates(b, c).conga_low == !bit(c, 1),
        CongoSound::gates(b, c).conga_high == !bit(c, 2),
        CongoSound::gates(b, c).rim == !bit(c, 3),
{
    lemma_lines(b);
    lemma_lines(c);
}

/// The noise register after `n` steps.
pub open spec fn noise_after(lfsr: u32, n: nat) -> u32
    decreases n,
{
    if n == 0 {
        lfsr
    } else {
        next_noise_register(noise_after(lfsr, (n - 1) as nat))
    }
}

/// The noise after `n` steps.
pub open spec fn noise_level(lfsr: u32, n: nat) -> bool {
    noise_after(lfsr, n) & 1 == 1
}

proof fn lemma_noise_feeds_back(s: Seq<u32>)
    requires
        s.len() == 18,
        0 < s[0] < 0x2_0000,
        forall|i: int| 1 <= i < 18 ==> #[trigger] s[i] == next_noise_register(s[i - 1]),
    ensures
        (s[17] & 1 == 1) == ((s[0] & 1 == 1) != (s[3] & 1 == 1)),
{
    let (a, b, c, d, e, f) = (s[0], s[1], s[2], s[3], s[4], s[5]);
    let (g, h, i, j, k, l) = (s[6], s[7], s[8], s[9], s[10], s[11]);
    let (m, n, o, p, q, r) = (s[12], s[13], s[14], s[15], s[16], s[17]);
    assert((r & 1 == 1) == ((a & 1 == 1) != (d & 1 == 1))) by (bit_vector)
        requires
            a < 0x2_0000,
            b == next_noise_register(a),
            c == next_noise_register(b),
            d == next_noise_register(c),
            e == next_noise_register(d),
            f == next_noise_register(e),
            g == next_noise_register(f),
            h == next_noise_register(g),
            i == next_noise_register(h),
            j == next_noise_register(i),
            k == next_noise_register(j),
            l == next_noise_register(k),
            m == next_noise_register(l),
            n == next_noise_register(m),
            o == next_noise_register(n),
            p == next_noise_register(o),
            q == next_noise_register(p),
            r == next_noise_register(q),
    ;
}

/// A running register stays within its 17 lines.
proof fn lemma_noise_runs_on(lfsr: u32, n: nat)
    requires
        0 < lfsr < 0x2_0000,
    ensures
        0 < noise_after(lfsr, n) < 0x2_0000,
    decreases n,
{
    if n > 0 {
        lemma_noise_runs_on(lfsr, (n - 1) as nat);
        law_noise_never_stops(noise_after(lfsr, (n - 1) as nat));
    }
}

/// The noise as a stream: every level is the exclusive or of the levels
/// seventeen and fourteen steps before it.
pub proof fn law_noise_feeds_back(lfsr: u32, n: nat)
    requires
        0 < lfsr < 0x2_0000,
    ensures
        noise_level(lfsr, n + 17) == (noise_level(lfsr, n) != noise_level(lfsr, n + 3)),
{
    lemma_noise_runs_on(lfsr, n);
    let s = Seq::new(18, |i: int| noise_after(lfsr, (n + i) as nat));
    assert forall|i: int| 1 <= i < 18 implies #[trigger] s[i] == next_noise_register(s[i - 1]) by {
        assert(((n + i) as nat - 1) as nat == (n + (i - 1)) as nat);
    }
    lemma_noise_feeds_back(s);
}

/// Mixing the two generators adds them and holds the sum to the sample range:
/// the result is the sum where it fits, never further from it than the range's
/// end, and does not depend on the order.
pub proof fn law_generators_add(a: i16, b: i16)
    ensures
        i16::MIN <= a + b <= i16::MAX ==> psg_mix(a, b) == a + b,
        a + b > i16::MAX ==> psg_mix(a, b) == i16::MAX,
        a + b < i16::MIN ==> psg_mix(a, b) == i16::MIN,
        psg_mix(a, b) == psg_mix(b, a),
{
}

} // verus!
