//! The frame loop of a raster machine, whatever its CPUs and chips do: single
//! cycles that test the beam's position, whole scanlines that do not, and the
//! law that a frame of either kind is the same frame.

use vstd::prelude::*;

use crate::machine::{FramePlan, TimingConfig, law_plan_reaches_a_boundary};

verus! {

/// A machine of type `M` as its frame loop sees it: the board's cycle count,
/// the board's work at the start of a scanline, and one cycle of everything.
#[verifier::reject_recursive_types(M)]
pub struct FrameLoop<M> {
    pub clock: spec_fn(M) -> int,
    pub begin_scanline: spec_fn(M, int) -> M,
    pub step_cycle: spec_fn(M) -> M,
}

/// Timing with at least one cycle a scanline and one scanline a frame, whose
/// frame a 64-bit count holds.
pub open spec fn usable(timing: TimingConfig) -> bool {
    &&& timing.cycles_per_scanline > 0
    &&& timing.total_scanlines > 0
    &&& timing.frame_cycles() <= u64::MAX
}

impl<M> FrameLoop<M> {
    /// A cycle advances the clock by one, as far as the count goes; the work at
    /// the start of a scanline leaves it.
    pub open spec fn counts(&self) -> bool {
        &&& forall|m: M|
            (self.clock)(m) < u64::MAX ==> #[trigger] (self.clock)((self.step_cycle)(m)) == (self.clock)(
                m,
            ) + 1
        &&& forall|m: M, line: int|
            #[trigger] (self.clock)((self.begin_scanline)(m, line)) == (self.clock)(m)
    }

    /// Scanline that the beam is on.
    pub open spec fn scanline(&self, timing: TimingConfig, m: M) -> int {
        ((self.clock)(m) % timing.frame_cycles()) / timing.cycles_per_scanline as int
    }

    /// The scanline's start, if the clock is on one.
    pub open spec fn led(&self, timing: TimingConfig, m: M) -> M {
        if ((self.clock)(m) % timing.frame_cycles()) % timing.cycles_per_scanline as int == 0 {
            (self.begin_scanline)(m, self.scanline(timing, m))
        } else {
            m
        }
    }

    /// After `n` single cycles, each testing the beam's position.
    pub open spec fn ticks(&self, timing: TimingConfig, m: M, n: nat) -> M
        decreases n,
    {
        if n == 0 {
            m
        } else {
            (self.step_cycle)(self.led(timing, self.ticks(timing, m, (n - 1) as nat)))
        }
    }

    /// After `n` cycles without that test.
    pub open spec fn steps(&self, m: M, n: nat) -> M
        decreases n,
    {
        if n == 0 {
            m
        } else {
            (self.step_cycle)(self.steps(m, (n - 1) as nat))
        }
    }

    /// After `n` whole scanlines.
    pub open spec fn scanlines(&self, timing: TimingConfig, m: M, n: nat) -> M
        decreases n,
    {
        if n == 0 {
            m
        } else {
            let at = self.scanlines(timing, m, (n - 1) as nat);
            self.steps(
                (self.begin_scanline)(at, self.scanline(timing, at)),
                timing.cycles_per_scanline as nat,
            )
        }
    }

    /// After one frame, by its plan: single cycles up to a boundary, whole
    /// scanlines, single cycles for the rest.
    pub open spec fn frame(&self, timing: TimingConfig, m: M) -> M {
        let plan = FramePlan::spec_of(timing, (self.clock)(m) as u64);
        self.ticks(
            timing,
            self.scanlines(
                timing,
                self.ticks(timing, m, plan.lead as nat),
                (plan.whole / timing.cycles_per_scanline) as nat,
            ),
            plan.tail as nat,
        )
    }

    proof fn lemma_ticks_clock(&self, timing: TimingConfig, m: M, n: nat)
        requires
            self.counts(),
            (self.clock)(m) + n <= u64::MAX,
        ensures
            (self.clock)(self.ticks(timing, m, n)) == (self.clock)(m) + n,
        decreases n,
    {
        if n > 0 {
            self.lemma_ticks_clock(timing, m, (n - 1) as nat);
        }
    }

    proof fn lemma_ticks_split(&self, timing: TimingConfig, m: M, a: nat, b: nat)
        ensures
            self.ticks(timing, m, a + b) == self.ticks(timing, self.ticks(timing, m, a), b),
        decreases b,
    {
        if b > 0 {
            self.lemma_ticks_split(timing, m, a, (b - 1) as nat);
            assert((a + b - 1) as nat == a + (b - 1) as nat);
        }
    }

    /// Inside a scanline the test never holds.
    proof fn lemma_within_scanline(timing: TimingConfig, clock: int, k: int)
        requires
            usable(timing),
            0 <= clock,
            clock % timing.cycles_per_scanline as int == 0,
            0 <= k < timing.cycles_per_scanline,
        ensures
            ((clock + k) % timing.frame_cycles()) % timing.cycles_per_scanline as int == k,
    {
        let line = timing.cycles_per_scanline as int;
        vstd::arithmetic::div_mod::lemma_mod_mod(clock + k, line, timing.total_scanlines as int);
        vstd::arithmetic::div_mod::lemma_small_mod(k as nat, line as nat);
        vstd::arithmetic::div_mod::lemma_add_mod_noop(clock, k, line);
    }

    /// A scanline's cycles from its boundary on are one start and plain cycles.
    proof fn lemma_scanline(&self, timing: TimingConfig, m: M, k: nat)
        requires
            usable(timing),
            self.counts(),
            0 <= (self.clock)(m),
            (self.clock)(m) % timing.cycles_per_scanline as int == 0,
            0 < k <= timing.cycles_per_scanline,
            (self.clock)(m) + k <= u64::MAX,
        ensures
            self.ticks(timing, m, k) == self.steps(
                (self.begin_scanline)(m, self.scanline(timing, m)),
                k,
            ),
        decreases k,
    {
        let before = (k - 1) as nat;
        self.lemma_ticks_clock(timing, m, before);
        Self::lemma_within_scanline(timing, (self.clock)(m), before as int);
        if k > 1 {
            self.lemma_scanline(timing, m, before);
        } else {
            assert(self.ticks(timing, m, 0) == m);
            assert(self.steps((self.begin_scanline)(m, self.scanline(timing, m)), 0)
                == (self.begin_scanline)(m, self.scanline(timing, m)));
        }
    }

    /// Whole scanlines from a boundary on are their cycles.
    proof fn lemma_scanlines(&self, timing: TimingConfig, m: M, n: nat)
        requires
            usable(timing),
            self.counts(),
            0 <= (self.clock)(m),
            (self.clock)(m) % timing.cycles_per_scanline as int == 0,
            (self.clock)(m) + n * timing.cycles_per_scanline <= u64::MAX,
        ensures
            self.scanlines(timing, m, n) == self.ticks(
                timing,
                m,
                (n * timing.cycles_per_scanline) as nat,
            ),
        decreases n,
    {
        let line = timing.cycles_per_scanline as nat;
        if n > 0 {
            let fewer = (n - 1) as nat;
            assert(n * line == fewer * line + line) by (nonlinear_arith)
                requires
                    n == fewer + 1,
            ;
            assert(fewer * line >= 0) by (nonlinear_arith);
            self.lemma_scanlines(timing, m, fewer);
            let at = self.ticks(timing, m, (fewer * line) as nat);
            self.lemma_ticks_clock(timing, m, (fewer * line) as nat);
            vstd::arithmetic::div_mod::lemma_mod_multiples_vanish(
                fewer as int,
                (self.clock)(m),
                line as int,
            );
            assert(fewer * line == line * fewer) by (nonlinear_arith);
            self.lemma_scanline(timing, at, line);
            self.lemma_ticks_split(timing, m, (fewer * line) as nat, line);
        } else {
            assert(n * line == 0) by (nonlinear_arith)
                requires
                    n == 0,
            ;
        }
    }

    /// A frame equals as many single cycles as the timing gives it, from any
    /// start, on a scanline boundary or off one, and leaves the clock that many
    /// cycles on.
    pub proof fn law_frame_is_its_ticks(&self, timing: TimingConfig, m: M)
        requires
            usable(timing),
            self.counts(),
            0 <= (self.clock)(m),
            (self.clock)(m) + timing.frame_cycles() <= u64::MAX,
        ensures
            self.frame(timing, m) == self.ticks(timing, m, timing.frame_cycles() as nat),
            (self.clock)(self.frame(timing, m)) == (self.clock)(m) + timing.frame_cycles(),
    {
        let line = timing.cycles_per_scanline as int;
        let clock = (self.clock)(m) as u64;
        let plan = FramePlan::spec_of(timing, clock);
        law_plan_reaches_a_boundary(timing, clock);
        assert(timing.frame_cycles() >= line) by (nonlinear_arith)
            requires
                timing.frame_cycles() == line * timing.total_scanlines,
                timing.total_scanlines >= 1,
                line > 0,
        ;
        let rest = timing.frame_cycles() - plan.lead;
        vstd::arithmetic::div_mod::lemma_fundamental_div_mod(rest, line);
        let n = rest / line;
        assert(plan.whole == line * n);
        assert(plan.whole as int / line == n) by {
            vstd::arithmetic::div_mod::lemma_div_multiples_vanish(n, line);
        }
        assert(n >= 0) by {
            vstd::arithmetic::div_mod::lemma_div_pos_is_pos(rest, line);
        }
        assert(n * line == line * n) by (nonlinear_arith);
        let led = self.ticks(timing, m, plan.lead as nat);
        self.lemma_ticks_clock(timing, m, plan.lead as nat);
        self.lemma_scanlines(timing, led, n as nat);
        self.lemma_ticks_split(timing, m, plan.lead as nat, plan.whole as nat);
        self.lemma_ticks_split(timing, m, (plan.lead + plan.whole) as nat, plan.tail as nat);
        self.lemma_ticks_clock(timing, m, timing.frame_cycles() as nat);
    }
}

} // verus!
