//! What every board shares: raster timing, bus masters, interrupt lines,
//! input events and clock declarations.

use vstd::prelude::*;

verus! {

/// Raster and CPU timing of a board.
#[derive(Clone, Copy, Debug)]
pub struct TimingConfig {
    pub cpu_clock_hz: u64,
    pub cycles_per_scanline: u64,
    pub total_scanlines: u64,
    pub display_width: u32,
    pub display_height: u32,
    pub display_aspect: Option<(u32, u32)>,
}

impl TimingConfig {
    pub open spec fn frame_cycles(&self) -> int {
        self.cycles_per_scanline * self.total_scanlines
    }

    /// CPU cycles in one frame.
    pub fn cycles_per_frame(&self) -> (n: u64)
        requires
            self.frame_cycles() <= u64::MAX,
        ensures
            n == self.frame_cycles(),
    {
        self.cycles_per_scanline * self.total_scanlines
    }

    pub fn display_size(&self) -> (size: (u32, u32))
        ensures
            size == (self.display_width, self.display_height),
    {
        (self.display_width, self.display_height)
    }

    pub fn display_aspect(&self) -> (aspect: Option<(u32, u32)>)
        ensures
            aspect == self.display_aspect,
    {
        self.display_aspect
    }
}

/// The device driving a bus access.
#[derive(Clone, Copy, Debug, PartialEq, Eq, Structural)]
pub enum BusMaster {
    Cpu(usize),
    Dma,
}

/// Interrupt lines as a CPU samples them.
#[derive(Clone, Copy, Debug, PartialEq, Eq, Structural)]
pub struct InterruptState {
    pub nmi: bool,
    pub irq: bool,
    pub firq: bool,
    pub irq_vector: u8,
    pub irq_level: u8,
}

impl InterruptState {
    /// Only the NMI and IRQ lines, everything else idle.
    pub open spec fn lines(nmi: bool, irq: bool) -> InterruptState {
        InterruptState { nmi, irq, firq: false, irq_vector: 0, irq_level: 0 }
    }

    pub fn of_lines(nmi: bool, irq: bool) -> (s: InterruptState)
        ensures
            s == InterruptState::lines(nmi, irq),
    {
        InterruptState { nmi, irq, firq: false, irq_vector: 0, irq_level: 0 }
    }
}

/// How a frame's worth of cycles splits around scanline boundaries: cycles up
/// to the next boundary, whole scanlines, and what is left over.
#[derive(Clone, Copy, Debug, PartialEq, Eq, Structural)]
pub struct FramePlan {
    pub lead: u64,
    pub whole: u64,
    pub tail: u64,
}

impl FramePlan {
    /// The split of one frame that starts at cycle `clock`.
    pub open spec fn spec_of(timing: TimingConfig, clock: u64) -> FramePlan {
        let line = timing.cycles_per_scanline as int;
        let frame = timing.frame_cycles();
        let off = clock as int % line;
        let lead = if off == 0 { 0 } else { line - off };
        let whole = (frame - lead) - (frame - lead) % line;
        FramePlan { lead: lead as u64, whole: whole as u64, tail: (frame - lead - whole) as u64 }
    }

    /// Split one frame that starts at cycle `clock`.
    pub fn of(timing: &TimingConfig, clock: u64) -> (plan: FramePlan)
        requires
            timing.cycles_per_scanline > 0,
            timing.total_scanlines > 0,
            timing.frame_cycles() <= u64::MAX,
        ensures
            plan == FramePlan::spec_of(*timing, clock),
            plan.lead + plan.whole + plan.tail == timing.frame_cycles(),
            plan.lead < timing.cycles_per_scanline,
            plan.tail < timing.cycles_per_scanline,
            plan.whole as int % timing.cycles_per_scanline as int == 0,
    {
        let line: u64 = timing.cycles_per_scanline;
        let frame: u64 = timing.cycles_per_frame();
        assert(frame >= line) by (nonlinear_arith)
            requires
                frame == line * timing.total_scanlines,
                timing.total_scanlines >= 1,
        ;
        let off: u64 = clock % line;
        let lead: u64 = if off == 0 {
            0
        } else {
            line - off
        };
        let rest: u64 = frame - lead;
        let tail: u64 = rest % line;
        proof {
            vstd::arithmetic::div_mod::lemma_fundamental_div_mod(rest as int, line as int);
            let q = rest as int / line as int;
            assert((rest - tail) as int == line * q);
            vstd::arithmetic::div_mod::lemma_mod_multiples_basic(q, line as int);
            assert(line * q == q * line) by (nonlinear_arith);
        }
        FramePlan { lead, whole: rest - tail, tail }
    }
}

/// The leading cycles of a frame's plan end on a scanline boundary.
pub proof fn law_plan_reaches_a_boundary(timing: TimingConfig, clock: u64)
    requires
        timing.cycles_per_scanline > 0,
        timing.total_scanlines > 0,
        timing.frame_cycles() <= u64::MAX,
    ensures
        (clock + FramePlan::spec_of(timing, clock).lead) % timing.cycles_per_scanline as int == 0,
{
    let line = timing.cycles_per_scanline as int;
    let off = clock as int % line;
    vstd::arithmetic::div_mod::lemma_fundamental_div_mod(clock as int, line);
    let q = clock as int / line;
    if off == 0 {
    } else {
        assert(line <= timing.frame_cycles()) by (nonlinear_arith)
            requires
                timing.frame_cycles() == line * timing.total_scanlines,
                timing.total_scanlines >= 1,
                line >= 0,
        ;
        assert(clock + (line - off) == line * (q + 1)) by (nonlinear_arith)
            requires
                clock == line * q + off,
        ;
        vstd::arithmetic::div_mod::lemma_mod_multiples_basic(q + 1, line);
        assert(line * (q + 1) == (q + 1) * line) by (nonlinear_arith);
    }
}

/// A clock divided out of another one: `rate` ticks of it for every `per` ticks
/// of the other.
#[derive(Clone, Copy, Debug, PartialEq, Eq, Structural)]
pub struct RateDivider {
    /// Fraction of a tick owed, in units of 1 / `per`.
    pub owed: u64,
    pub rate: u64,
    pub per: u64,
}

impl RateDivider {
    /// A clock no faster than the one it is divided out of.
    pub open spec fn wf(&self) -> bool {
        &&& self.rate <= self.per
        &&& self.owed < self.per
        &&& self.per <= u32::MAX
    }

    pub fn new(rate: u64, per: u64) -> (d: RateDivider)
        requires
            rate <= per,
            0 < per <= u32::MAX,
        ensures
            d.wf(),
            d == (RateDivider { owed: 0, rate, per }),
    {
        RateDivider { owed: 0, rate, per }
    }

    /// One tick of the faster clock. Whether the slower one ticks.
    pub fn tick(&mut self) -> (due: bool)
        requires
            old(self).wf(),
        ensures
            final(self).wf(),
            due == (old(self).owed + old(self).rate >= old(self).per),
            *final(self) == (RateDivider {
                owed: if due {
                    (old(self).owed + old(self).rate - old(self).per) as u64
                } else {
                    (old(self).owed + old(self).rate) as u64
                },
                ..*old(self)
            }),
            ({
                let (owed, ticks) = divided(
                    old(self).owed as int,
                    old(self).rate as int,
                    old(self).per as int,
                    1,
                );
                final(self).owed == owed && due == (ticks == 1)
            }),
    {
        proof {
            reveal_with_fuel(divided, 2);
        }
        self.owed = self.owed + self.rate;
        if self.owed >= self.per {
            self.owed = self.owed - self.per;
            true
        } else {
            false
        }
    }
}

/// What is owed, and how often the slower clock has ticked, after `n` ticks of
/// the faster one.
pub open spec fn divided(owed: int, rate: int, per: int, n: nat) -> (int, int)
    decreases n,
{
    if n == 0 {
        (owed, 0)
    } else {
        let (o, t) = divided(owed, rate, per, (n - 1) as nat);
        if o + rate >= per {
            (o + rate - per, t + 1)
        } else {
            (o + rate, t)
        }
    }
}

/// The slower clock keeps its rate exactly: no tick is lost or gained over any
/// number of ticks.
pub proof fn law_divider_keeps_its_rate(owed: int, rate: int, per: int, n: nat)
    requires
        0 <= rate <= per,
        0 <= owed < per,
    ensures
        ({
            let (o, t) = divided(owed, rate, per, n);
            &&& 0 <= o < per
            &&& t * per + o == owed + n * rate
        }),
    decreases n,
{
    if n > 0 {
        let m = (n - 1) as nat;
        law_divider_keeps_its_rate(owed, rate, per, m);
        let (o, t) = divided(owed, rate, per, m);
        assert(n * rate == m * rate + rate) by (nonlinear_arith)
            requires
                n == m + 1,
        ;
        assert((t + 1) * per == t * per + per) by (nonlinear_arith);
    } else {
        assert(0 * per == 0 && 0 * rate == 0) by (nonlinear_arith);
    }
}

/// A clock in a tree: its name and its ratio to the crystal.
#[derive(Clone, Copy, Debug, PartialEq, Eq, Structural)]
pub enum ClockDomainName {
    Cpu,
    Pixel,
    Psg,
    SoundCpu,
    Pokey,
    Speech,
}

#[derive(Clone, Copy, Debug, PartialEq, Eq, Structural)]
pub struct ClockDomain {
    pub name: ClockDomainName,
    pub multiply: u32,
    pub divide: u32,
}

/// A board's crystal, the clocks divided out of it, the clock one simulation
/// step advances, and the raster line counted in pixel clocks.
pub struct ClockTree {
    pub root_hz: u64,
    pub domains: Vec<ClockDomain>,
    pub step: ClockDomainName,
    pub raster: ClockDomainName,
    pub dots_per_line: u32,
}

impl ClockTree {
    /// How the named clock divides the crystal, if the tree declares it.
    pub open spec fn ratio(&self, name: ClockDomainName) -> Option<(u32, u32)> {
        ratio_in(self.domains@, name)
    }

    /// Rate of the named clock, 0 where the tree does not declare it.
    pub open spec fn hz(&self, name: ClockDomainName) -> int {
        match self.ratio(name) {
            Some((multiply, divide)) => self.root_hz * multiply / divide as int,
            None => 0,
        }
    }

    /// Look a clock up by name.
    pub fn find(&self, name: ClockDomainName) -> (r: Option<(u32, u32)>)
        ensures
            r == self.ratio(name),
    {
        let mut i: usize = 0;
        assert(self.domains@.subrange(0, self.domains@.len() as int) =~= self.domains@);
        while i < self.domains.len()
            invariant
                i <= self.domains@.len(),
                ratio_in(self.domains@, name) == ratio_in(
                    self.domains@.subrange(i as int, self.domains@.len() as int),
                    name,
                ),
            decreases self.domains@.len() - i,
        {
            let d: ClockDomain = self.domains[i];
            let ghost rest = self.domains@.subrange(i as int, self.domains@.len() as int);
            assert(rest.skip(1) =~= self.domains@.subrange(i + 1, self.domains@.len() as int));
            if d.name == name {
                return Some((d.multiply, d.divide));
            }
            i += 1;
        }
        None
    }
}

/// The ratio of the first clock in `domains` with that name.
pub open spec fn ratio_in(domains: Seq<ClockDomain>, name: ClockDomainName) -> Option<(u32, u32)>
    decreases domains.len(),
{
    if domains.len() == 0 {
        None
    } else if domains[0].name == name {
        Some((domains[0].multiply, domains[0].divide))
    } else {
        ratio_in(domains.skip(1), name)
    }
}

/// One register of a device as a debugger shows it.
#[derive(Clone, Copy, Debug)]
pub struct DebugRegister {
    pub name: &'static str,
    pub value: u64,
    pub width: u8,
}

pub open spec fn register_of(name: &'static str, value: int, width: u8) -> DebugRegister {
    DebugRegister { name, value: value as u64, width }
}

/// How the picture is turned before it is shown.
#[derive(Clone, Copy, Debug, PartialEq, Eq, Structural)]
pub enum Orientation {
    Rot0,
    Rot90,
    Rot180,
    Rot270,
}

} // verus!
