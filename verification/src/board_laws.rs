//! What the vector boards, the noise register and the byte memories promise,
//! stated over single bytes and single clocks.

use vstd::prelude::*;

use crate::asteroids_noise::{next_noise_state, noise_after};
use crate::atari_avg::AvgView;
use crate::atari_dvg::{
    DvgView, DvgWindow, Region, beam_currents, lemma_backing_in_range, window_at, window_from,
};
use crate::memory::{overlaid, zeros};
use crate::trace::DebugEventKind;

verus! {

// -- Byte memories ----------------------------------------------------------

/// An image lands at the start of its memory, byte for byte; what it does not
/// reach stays, what does not fit is dropped.
pub proof fn law_image_lands_at_the_start(dst: Seq<u8>, src: Seq<u8>, i: int)
    requires
        0 <= i < dst.len(),
    ensures
        overlaid(dst, src).len() == dst.len(),
        i < src.len() ==> overlaid(dst, src)[i] == src[i],
        i >= src.len() ==> overlaid(dst, src)[i] == dst[i],
        overlaid(zeros(dst.len()), dst) == dst,
{
    assert(overlaid(zeros(dst.len()), dst) =~= dst);
}

// -- The colour vector board ------------------------------------------------

/// The generator sees the vector RAM below 4 KB and the vector ROM above it,
/// both from their starts; past the end of a short ROM it sees zeros.
pub proof fn law_avg_memory(b: AvgView, i: int)
    requires
        0 <= i < 0x1000,
    ensures
        b.avg_memory().len() == 0x2000,
        b.avg_memory()[i] == b.vector_ram[i],
        i < b.vector_rom.len() ==> b.avg_memory()[0x1000 + i] == b.vector_rom[i],
        i >= b.vector_rom.len() ==> b.avg_memory()[0x1000 + i] == 0,
{
}

/// The sixteen colours are the colour RAM's first sixteen bytes, in order.
pub proof fn law_avg_colors(b: AvgView, i: int)
    requires
        0 <= i < 16,
    ensures
        b.colors().len() == 16,
        i < b.color_ram.len() ==> b.colors()[i] == b.color_ram[i],
        i >= b.color_ram.len() ==> b.colors()[i] == 0,
{
}

// -- The monochrome vector board --------------------------------------------

/// An address goes to the first window that covers it; one that no window
/// covers goes nowhere.
pub proof fn law_first_window_answers(windows: Seq<DvgWindow>, i: int, addr: u16)
    requires
        0 <= i < windows.len(),
        windows[i].base <= addr < windows[i].base + windows[i].size,
        forall|j: int|
            0 <= j < i ==> !((#[trigger] windows[j]).base <= addr < windows[j].base + windows[j].size),
    ensures
        window_at(windows, addr) == Some(windows[i]),
{
    lemma_first_from(windows, 0, i, addr);
}

proof fn lemma_first_from(windows: Seq<DvgWindow>, from: int, i: int, addr: u16)
    requires
        0 <= from <= i < windows.len(),
        windows[i].covers(addr),
        forall|j: int| from <= j < i ==> !(#[trigger] windows[j]).covers(addr),
    ensures
        window_from(windows, from, addr) == Some(windows[i]),
    decreases i - from,
{
    if from < i {
        lemma_first_from(windows, from + 1, i, addr);
    }
}

/// What a window shows: the byte that far into its region, as the region's
/// memory holds it. I/O and unmapped addresses show 0.
pub proof fn law_window_shows_its_region(b: DvgView, addr: u16)
    ensures
        window_at(b.windows, addr) is None ==> b.backing(addr) == 0,
        window_at(b.windows, addr) matches Some(w) ==> {
            &&& w.region == Region::Io ==> b.backing(addr) == 0
            &&& w.region == Region::Ram ==> b.backing(addr) == b.ram[addr - w.base]
            &&& w.region == Region::VectorRam ==> b.backing(addr) == b.vector_ram[addr - w.base]
            &&& w.region == Region::VectorRom ==> b.backing(addr) == b.vector_rom[addr - w.base]
            &&& w.region == Region::ProgramRom ==> b.backing(addr) == b.program_rom[addr - w.base]
        },
{
}

/// A write through the map changes one byte of RAM at most.
pub proof fn law_mapped_write_touches_one_byte(b: DvgView, addr: u16, data: u8, k: int)
    requires
        b.wf(),
        window_at(b.windows, addr) is Some,
        0 <= k < b.ram.len(),
    ensures
        ({
            let w = window_at(b.windows, addr)->Some_0;
            &&& k != addr - w.base ==> b.with_backing(addr, data).ram[k] == b.ram[k]
            &&& w.region != Region::Ram ==> b.with_backing(addr, data).ram == b.ram
            &&& w.region != Region::VectorRam ==> b.with_backing(addr, data).vector_ram == b.vector_ram
            &&& b.with_backing(addr, data).vector_rom == b.vector_rom
            &&& b.with_backing(addr, data).program_rom == b.program_rom
        }),
{
    lemma_backing_in_range(b, addr);
}

/// The beam's steps: eight of 20 up to the middle, four of 15, two of 12, and a
/// last one of 11 to full.
pub proof fn law_beam_steps(code: int)
    requires
        0 <= code < 15,
    ensures
        beam_currents()[code + 1] - beam_currents()[code] == if code < 8 {
            20int
        } else if code < 12 {
            15
        } else if code < 14 {
            12
        } else {
            11
        },
        beam_currents()[0] == 0,
        beam_currents().len() == 16,
{
    let b = beam_currents();
    assert(b[0] == 0 && b[1] == 20 && b[2] == 40 && b[3] == 60 && b[4] == 80 && b[5] == 100);
    assert(b[6] == 120 && b[7] == 140 && b[8] == 160 && b[9] == 175 && b[10] == 190 && b[11] == 205);
    assert(b[12] == 220 && b[13] == 232 && b[14] == 244 && b[15] == 255);
}

/// What a debugger hears of a write: nothing unless it listens, nothing of the
/// generator's start; otherwise the address, the byte, the cycle, and the kind:
/// the watchdog's page, other I/O, or memory.
pub proof fn law_write_is_traced(b: DvgView, addr: u16, data: u8)
    ensures
        b.write_event(addr, data) is Some == (b.tracing && addr != 0x3000),
        b.write_event(addr, data) matches Some(e) ==> {
            &&& e.addr == Some(addr as u32)
            &&& e.value == Some(data as u32)
            &&& e.cycle == b.clock
            &&& e.pc == b.latched_pc
            &&& (e.kind == DebugEventKind::Watchdog) == (addr as int / 256 == 0x34)
            &&& (e.kind == DebugEventKind::IoWrite) == (addr as int / 256 != 0x34 && b.region_at(addr)
                == Some(Region::Io))
        },
{
}

/// The NMI falls on the last cycle of its period, and not under self-test.
pub proof fn law_nmi_is_raised_at_the_period(b: DvgView, pc: Option<u32>)
    requires
        b.nmi_counter < 6048,
    ensures
        b.nmi_due() == (b.nmi_counter == 6047 && !b.test_asserted),
        b.nmi_counter == 6047 ==> b.after_begin_cycle(pc).nmi_counter == 0,
        b.nmi_counter < 6047 ==> b.after_begin_cycle(pc).nmi_counter == b.nmi_counter + 1,
        b.nmi_due() ==> b.after_begin_cycle(pc).nmi_pending,
        b.nmi_counter == 15 ==> !b.after_begin_cycle(pc).nmi_pending,
        b.nmi_counter != 15 && b.nmi_counter != 6047 ==> b.after_begin_cycle(pc).nmi_pending
            == b.nmi_pending,
{
}

// -- The noise register -----------------------------------------------------

proof fn lemma_noise_feeds_back(s: Seq<u16>)
    requires
        s.len() == 16,
        forall|i: int| 1 <= i < 16 ==> #[trigger] s[i] == next_noise_state(s[i - 1]),
    ensures
        (s[15] % 2 == 1) == (s[8] % 2 == s[0] % 2),
{
    let (a, b, c, d, e, f, g, h) = (s[0], s[1], s[2], s[3], s[4], s[5], s[6], s[7]);
    let (i, j, k, l, m, n, o, p) = (s[8], s[9], s[10], s[11], s[12], s[13], s[14], s[15]);
    assert((p % 2 == 1) == (i % 2 == a % 2)) by (bit_vector)
        requires
            b == next_noise_state(a),
            c == next_noise_state(b),
            d == next_noise_state(c),
            e == next_noise_state(d),
            f == next_noise_state(e),
            g == next_noise_state(f),
            h == next_noise_state(g),
            i == next_noise_state(h),
            j == next_noise_state(i),
            k == next_noise_state(j),
            l == next_noise_state(k),
            m == next_noise_state(l),
            n == next_noise_state(m),
            o == next_noise_state(n),
            p == next_noise_state(o),
    ;
}

/// The noise as a stream: the level that enters at the bottom is high where the
/// levels that entered seven and fifteen clocks before agree.
pub proof fn law_noise_feeds_back(seed: u16, n: nat)
    ensures
        (noise_after(seed, n + 15) % 2 == 1) == (noise_after(seed, n + 8) % 2 == noise_after(seed, n)
            % 2),
{
    let s = Seq::new(16, |i: int| noise_after(seed, (n + i) as nat));
    assert forall|i: int| 1 <= i < 16 implies #[trigger] s[i] == next_noise_state(s[i - 1]) by {
        assert(((n + i) as nat - 1) as nat == (n + (i - 1)) as nat);
    }
    lemma_noise_feeds_back(s);
}

} // verus!
