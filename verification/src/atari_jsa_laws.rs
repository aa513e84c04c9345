//! What the sound board promises at its bus: where each chip, latch and switch
//! answers, and what the volume register does to the output stage.

use vstd::prelude::*;

use crate::atari_jsa::{JsaRead, JsaView, JsaWrite};

verus! {

/// The chips register by register, the RAM and the fixed ROM, in order.
pub proof fn law_chips_and_memories_stand_in_order(b: JsaView, n: u8, i: int, data: u8)
    requires
        n < 16,
        0 <= i,
    ensures
        i < 0x2000 ==> b.read_access(i as u16) == JsaRead::Value(b.ram[i]),
        i < 0x400 ==> b.read_access((0x2000 + 2 * i) as u16) == (JsaRead::Ym { port: 0 }),
        i < 0x400 ==> b.read_access((0x2001 + 2 * i) as u16) == (JsaRead::Ym { port: 1 }),
        i < 0x400 ==> b.write_access((0x2000 + 2 * i) as u16, data) == (JsaWrite::Ym { port: 0, data }),
        i < 0x400 ==> b.write_access((0x2001 + 2 * i) as u16, data) == (JsaWrite::Ym { port: 1, data }),
        b.pokey_fitted ==> b.read_access((0x2C00 + n) as u16) == (JsaRead::Pokey { register: n }),
        b.pokey_fitted ==> b.write_access((0x2C00 + n) as u16, data) == (JsaWrite::Pokey {
            register: n,
            data,
        }),
        i < 0x3F0 ==> b.read_access((0x2C10 + i) as u16) == JsaRead::Value(0xFF),
        i < 0x1000 ==> b.read_access((0x3000 + i) as u16) == JsaRead::Value(
            b.bank_pages[0x1000 * b.bank + i],
        ),
        i < 0xC000 ==> b.read_access((0x4000 + i) as u16) == JsaRead::Value(b.rom[i]),
{
    if i < 0x400 {
        let even = (0x2000 + 2 * i) as u16;
        let odd = (0x2001 + 2 * i) as u16;
        assert(even % 2 == 0 && odd % 2 == 1);
    }
    let p = (0x2C00 + n) as u16;
    assert(p % 16 == n);
}

/// A RAM write changes one byte, and nothing that is not RAM.
pub proof fn law_ram_write_touches_one_byte(b: JsaView, addr: u16, other: u16, data: u8)
    requires
        b.wf(),
        addr < 0x2000,
        other != addr,
    ensures
        b.after_write(addr, data).read_access(addr) == JsaRead::Value(data),
        b.after_write(addr, data).read_access(other) == b.read_access(other),
        b.after_write(addr, data) == (JsaView { ram: b.after_write(addr, data).ram, ..b }),
{
}

/// What the strobes decode: an address of the block, its line 9 `upper`, its
/// lines 2 and 1 `n`.
proof fn lemma_strobe(addr: u16, upper: int, rest: int, n: int, low: int)
    requires
        addr == 0x2800 + 0x200 * upper + 8 * rest + 2 * n + low,
        0 <= upper < 2,
        0 <= rest < 64,
        0 <= n < 4,
        0 <= low < 2,
    ensures
        (addr as int / 0x200) % 2 == upper,
        (addr as int / 2) % 4 == n,
        0x2800 <= addr < 0x2C00,
{
    assert(addr as int / 0x200 == 20 + upper);
    assert(addr as int / 2 == 4 * (0x500 + 0x40 * upper + rest) + n);
}

/// The strobes of the lower half: the command latch at line pattern 1, the
/// switch port at 2, the interrupt acknowledge at 3; pattern 0 is open bus.
/// Reading the command takes down its flag and the NMI.
pub proof fn law_lower_strobes(b: JsaView, rest: int, low: int)
    requires
        0 <= rest < 64,
        0 <= low < 2,
    ensures
        ({
            let at = |n: int| (0x2800 + 8 * rest + 2 * n + low) as u16;
            &&& b.read_access(at(0)) == JsaRead::Value(0xFF)
            &&& b.read_access(at(1)) == JsaRead::Value(b.soundlatch)
            &&& b.after_read(at(1)) == (JsaView { command_pending: false, sound_nmi: false, ..b })
            &&& b.read_access(at(2)) == JsaRead::Value(b.rdio() as u8)
            &&& b.after_read(at(2)) == b
            &&& b.read_access(at(3)) == JsaRead::Value(0xFF)
            &&& b.after_read(at(3)) == (JsaView { timed_int: false, ..b })
        }),
{
    lemma_strobe((0x2800 + 8 * rest + low) as u16, 0, rest, 0, low);
    lemma_strobe((0x2800 + 8 * rest + 2 + low) as u16, 0, rest, 1, low);
    lemma_strobe((0x2800 + 8 * rest + 4 + low) as u16, 0, rest, 2, low);
    lemma_strobe((0x2800 + 8 * rest + 6 + low) as u16, 0, rest, 3, low);
}

/// The strobes of the upper half: the response latch, the bank and reset
/// register, the volume register.
pub proof fn law_upper_strobes(b: JsaView, rest: int, low: int, data: u8)
    requires
        0 <= rest < 64,
        0 <= low < 2,
    ensures
        ({
            let at = |n: int| (0x2A00 + 8 * rest + 2 * n + low) as u16;
            &&& b.after_write(at(0), data) == b
            &&& b.after_write(at(1), data) == (JsaView { mainlatch: data, response_pending: true, ..b })
            &&& b.after_write(at(2), data) == (JsaView { wrio: data, bank: data / 64, ..b })
            &&& b.write_access(at(2), data) == if data % 2 == 0 {
                JsaWrite::YmReset
            } else {
                JsaWrite::Done
            }
            &&& b.after_write(at(3), data) == (JsaView { mix: data, ..b })
        }),
{
    lemma_strobe((0x2A00 + 8 * rest + low) as u16, 1, rest, 0, low);
    lemma_strobe((0x2A00 + 8 * rest + 2 + low) as u16, 1, rest, 1, low);
    lemma_strobe((0x2A00 + 8 * rest + 4 + low) as u16, 1, rest, 2, low);
    lemma_strobe((0x2A00 + 8 * rest + 6 + low) as u16, 1, rest, 3, low);
}

/// The switch port, line by line: self-test on line 7, line 6 low while a
/// command waits, a waiting response on line 5, line 4 low, and the four coin
/// switches from line 0 up, high while closed.
pub proof fn law_switch_port_lines(b: JsaView)
    ensures
        ({
            let v = b.rdio();
            &&& 0 <= v < 256
            &&& v / 128 == if b.self_test { 1int } else { 0 }
            &&& (v / 64) % 2 == if b.command_pending { 0int } else { 1 }
            &&& (v / 32) % 2 == if b.response_pending { 1int } else { 0 }
            &&& (v / 16) % 2 == 0
            &&& v % 16 == b.coin_inputs as int % 16
        }),
{
}

/// The volume register: lines 1-3 are the synthesizer's volume in steps of two
/// fifths, lines 4-5 the generator's in steps of 47 parts in 150; the low-pass
/// is switched in by line 0 or by an odd synthesizer volume. The generator is
/// heard only while one of the synthesizer's two pins lets it through.
pub proof fn law_volume_register(b: JsaView, top: u8, p: u8, y: u8, low: u8, ct1: bool, ct2: bool)
    requires
        top < 4,
        p < 4,
        y < 8,
        low < 2,
        b.mix == 64 * top + 16 * p + 2 * y + low,
    ensures
        ({
            let m = b.spec_mix(ct1, ct2);
            &&& 5 * m.ym.num == 2 * y * m.ym.den
            &&& m.ym.den > 0
            &&& 150 * m.pokey.num == (if ct1 || ct2 { 47 * p } else { 0 }) * m.pokey.den
            &&& m.pokey.den > 0
            &&& m.shunt_closed == (low == 1 || y % 2 == 1)
        }),
{
    assert(b.mix as int / 16 == 4 * top + p);
    assert((b.mix as int / 16) % 4 == p);
    assert(b.mix as int / 2 == 8 * (4 * top + p) + y);
    assert((b.mix as int / 2) % 8 == y);
    assert(b.mix % 4 == 2 * (y % 2) + low);
}

/// A pending reset takes effect at the next cycle and once: the interrupt and
/// its counter start over.
pub proof fn law_reset_takes_effect_once(b: JsaView)
    requires
        b.irq_counter < 7_168,
    ensures
        !b.after_begin_tick().reset_pending,
        b.reset_pending ==> b.after_begin_tick().irq_counter == 1 && !b.after_begin_tick().timed_int,
        !b.reset_pending && b.irq_counter < 7_167 ==> b.after_begin_tick().irq_counter
            == b.irq_counter + 1 && b.after_begin_tick().timed_int == b.timed_int,
        !b.reset_pending && b.irq_counter == 7_167 ==> b.after_begin_tick().irq_counter == 0
            && b.after_begin_tick().timed_int,
        b.after_begin_tick().ram == b.ram,
        b.after_begin_tick().soundlatch == b.soundlatch,
        b.after_begin_tick().command_pending == b.command_pending,
{
}

} // verus!
