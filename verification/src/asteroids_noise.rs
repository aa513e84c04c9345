//! The sixteen-stage shift register behind the Asteroids noise effects, and
//! how long it runs before it repeats itself.

use vstd::prelude::*;

verus! {

/// Seed of the noise register: the state it powers up in.
pub const NOISE_SEED: u16 = 0;

/// The noise register after one more clock: it shifts toward its high end, and
/// the bottom takes whether lines 6 and 14 agree.
pub open spec fn next_noise_state(s: u16) -> u16 {
    ((s % 0x8000) * 2 + if (s / 64) % 2 == (s / 16384) % 2 {
        1u16
    } else {
        0u16
    }) as u16
}

/// Clock the noise register once.
pub fn next_noise(s: u16) -> (t: u16)
    ensures
        t == next_noise_state(s),
{
    (s % 0x8000) * 2 + if (s / 64) % 2 == (s / 16384) % 2 {
        1
    } else {
        0
    }
}

/// The noise register after `n` clocks.
pub open spec fn noise_after(seed: u16, n: nat) -> u16
    decreases n,
{
    if n == 0 {
        seed
    } else {
        next_noise_state(noise_after(seed, (n - 1) as nat))
    }
}

/// From `seed` the register comes to repeat itself every `c` clocks, and no two
/// states less than `c` clocks apart are equal.
pub open spec fn has_cycle(seed: u16, c: int) -> bool {
    &&& c > 0
    &&& exists|t: nat| #[trigger] noise_after(seed, t) == noise_after(seed, (t + c) as nat)
    &&& forall|t: nat, u: nat|
        t < u < t + c ==> #[trigger] noise_after(seed, t) != #[trigger] noise_after(seed, u)
}

/// Two equal states stay equal.
proof fn lemma_in_step(seed: u16, a: nat, b: nat, n: nat)
    requires
        noise_after(seed, a) == noise_after(seed, b),
    ensures
        noise_after(seed, a + n) == noise_after(seed, b + n),
    decreases n,
{
    if n > 0 {
        lemma_in_step(seed, a, b, (n - 1) as nat);
        assert((a + n - 1) as nat == a + (n - 1) as nat);
        assert((b + n - 1) as nat == b + (n - 1) as nat);
    }
}

/// Past the start of the cycle, a clock count can be reduced into the first
/// round.
proof fn lemma_rounds(seed: u16, m: nat, c: nat, k: nat)
    requires
        c > 0,
        noise_after(seed, m) == noise_after(seed, m + c),
    ensures
        noise_after(seed, m + k) == noise_after(seed, m + k % c),
        0 <= k % c < c,
    decreases k,
{
    vstd::arithmetic::div_mod::lemma_mod_bound(k as int, c as int);
    if k >= c {
        let j = (k - c) as nat;
        lemma_rounds(seed, m, c, j);
        lemma_in_step(seed, m, m + c, j);
        assert(m + c + j == m + k);
        vstd::arithmetic::div_mod::lemma_mod_add_multiples_vanish(j as int, c as int);
        assert(k % c == j % c);
    } else {
        vstd::arithmetic::div_mod::lemma_small_mod(k, c);
    }
}

/// States are distinct up to clock `n`, and the state at clock `n` is the one
/// at clock `m`: then `n - m` is the length of the cycle.
proof fn lemma_first_repeat(seed: u16, m: nat, n: nat)
    requires
        m < n,
        noise_after(seed, m) == noise_after(seed, n),
        forall|a: nat, b: nat|
            a < b < n ==> #[trigger] noise_after(seed, a) != #[trigger] noise_after(seed, b),
    ensures
        has_cycle(seed, n - m),
{
    let c = (n - m) as nat;
    assert(noise_after(seed, m) == noise_after(seed, (m + c) as nat));
    assert forall|t: nat, u: nat| t < u < t + c implies #[trigger] noise_after(seed, t)
        != #[trigger] noise_after(seed, u) by {
        if u < n {
        } else if t < m {
            assert(false);
        } else {
            let i = (t - m) as nat;
            let j = (u - m) as nat;
            lemma_rounds(seed, m, c, i);
            lemma_rounds(seed, m, c, j);
            assert(m + i == t && m + j == u);
            lemma_apart(i, j, c);
            let a = (m + i % c) as nat;
            let b = (m + j % c) as nat;
            if a < b {
                assert(noise_after(seed, a) != noise_after(seed, b));
            } else {
                assert(noise_after(seed, b) != noise_after(seed, a));
            }
        }
    }
}

proof fn lemma_apart(i: nat, j: nat, c: nat)
    requires
        i < j < i + c,
    ensures
        i % c != j % c,
{
    if i % c == j % c {
        vstd::arithmetic::div_mod::lemma_fundamental_div_mod(i as int, c as int);
        vstd::arithmetic::div_mod::lemma_fundamental_div_mod(j as int, c as int);
        let p = i as int / c as int;
        let q = j as int / c as int;
        assert(j - i == c * (q - p)) by (nonlinear_arith)
            requires
                i == c * p + i % c,
                j == c * q + j % c,
                i % c == j % c,
        ;
        assert(false) by (nonlinear_arith)
            requires
                0 < c * (q - p) < c,
        ;
    }
}

/// A register has at most one cycle length from a seed.
pub proof fn law_cycle_length_is_unique(seed: u16, c: int, d: int)
    requires
        has_cycle(seed, c),
        has_cycle(seed, d),
    ensures
        c == d,
{
    let t = choose|t: nat| #[trigger] noise_after(seed, t) == noise_after(seed, (t + c) as nat);
    let u = choose|t: nat| #[trigger] noise_after(seed, t) == noise_after(seed, (t + d) as nat);
    if c < d {
        assert(noise_after(seed, t) != noise_after(seed, (t + c) as nat));
    } else if d < c {
        assert(noise_after(seed, u) != noise_after(seed, (u + d) as nat));
    }
}

/// How many clocks the register takes to repeat itself.
pub fn cycle_length(seed: u16) -> (c: u32)
    ensures
        has_cycle(seed, c as int),
        c <= 0x10000,
        seed == NOISE_SEED ==> c == 0x7FFF,
{
    // Clock at which each state was first seen, plus one; 0 where it was not.
    let mut seen: Vec<u32> = vec![0u32; 0x10000];
    let mut s: u16 = seed;
    let mut n: u32 = 0;
    let ghost mut visited: Set<int> = Set::empty();
    while seen[s as usize] == 0
        invariant
            n <= 0x10000,
            seen@.len() == 0x10000,
            s == noise_after(seed, n as nat),
            forall|k: nat| k < n ==> seen@[(#[trigger] noise_after(seed, k)) as int] == k + 1,
            forall|i: int|
                0 <= i < 0x10000 && #[trigger] seen@[i] != 0 ==> seen@[i] <= n && noise_after(
                    seed,
                    (seen@[i] - 1) as nat,
                ) == i,
            visited.finite(),
            visited.len() == n,
            visited.subset_of(vstd::set_lib::set_int_range(0, 0x10000)),
            forall|i: int| 0 <= i < 0x10000 ==> visited.contains(i) == (#[trigger] seen@[i] != 0),
        decreases 0x10000 - n,
    {
        proof {
            vstd::set_lib::lemma_int_range(0, 0x10000);
            let full = vstd::set_lib::set_int_range(0, 0x10000);
            let more = visited.insert(s as int);
            assert(more.subset_of(full));
            vstd::set_lib::lemma_len_subset(more, full);
            visited = more;
        }
        seen.set(s as usize, n + 1);
        s = next_noise(s);
        n += 1;
    }
    let first: u32 = seen[s as usize] - 1;
    proof {
        assert forall|a: nat, b: nat| a < b < n implies #[trigger] noise_after(seed, a)
            != #[trigger] noise_after(seed, b) by {
            assert(seen@[noise_after(seed, a) as int] == a + 1);
            assert(seen@[noise_after(seed, b) as int] == b + 1);
        }
        lemma_first_repeat(seed, first as nat, n as nat);
        if seed == NOISE_SEED {
            law_noise_runs_a_full_cycle();
            law_cycle_length_is_unique(seed, n - first, 0x7FFF);
        }
    }
    n - first
}

/// The register never falls into its lock state, where all fifteen stages that
/// feed it are high, from outside it; and it never leaves it.
pub proof fn law_noise_never_locks_up(s: u16)
    ensures
        s % 0x8000 == 0x7FFF <==> next_noise_state(s) % 0x8000 == 0x7FFF,
{
}

/// No two states of the fifteen stages step to the same one.
pub proof fn law_noise_is_reversible(a: u16, b: u16)
    requires
        next_noise_state(a) % 0x8000 == next_noise_state(b) % 0x8000,
    ensures
        a % 0x8000 == b % 0x8000,
{
    assert(a % 0x8000 == b % 0x8000) by (bit_vector)
        requires
            next_noise_state(a) % 0x8000 == next_noise_state(b) % 0x8000,
    ;
}

/// The fifteen stages, complemented, after one more clock. Complementing turns
/// the agreement of two lines into their difference, so this step is linear.
pub open spec fn linear_step(u: u16) -> u16 {
    ((u << 1) & 0x7FFF) | (((u >> 6) ^ (u >> 14)) & 1)
}

/// The complemented stages `n` clocks after they were all high.
pub open spec fn linear_after(n: nat) -> u16
    decreases n,
{
    if n == 0 {
        0x7FFF
    } else {
        linear_step(linear_after((n - 1) as nat))
    }
}

proof fn lemma_linear_range(n: nat)
    ensures
        linear_after(n) < 0x8000,
    decreases n,
{
    if n > 0 {
        lemma_linear_range((n - 1) as nat);
        let u = linear_after((n - 1) as nat);
        assert(linear_step(u) < 0x8000) by (bit_vector);
    }
}

/// The register from its seed, seen through the complement.
proof fn lemma_noise_is_linear(n: nat)
    ensures
        noise_after(NOISE_SEED, n) % 0x8000 == 0x7FFF - linear_after(n),
    decreases n,
{
    if n > 0 {
        lemma_noise_is_linear((n - 1) as nat);
        lemma_linear_range((n - 1) as nat);
        let s = noise_after(NOISE_SEED, (n - 1) as nat);
        let u = linear_after((n - 1) as nat);
        assert(next_noise_state(s) % 0x8000 == 0x7FFF - linear_step(u)) by (bit_vector)
            requires
                u < 0x8000,
                s % 0x8000 == 0x7FFF - u,
        ;
    }
}

/// 2 to the power `k`.
spec fn stride(k: nat) -> nat
    decreases k,
{
    if k == 0 {
        1
    } else {
        2 * stride((k - 1) as nat)
    }
}

/// Fifteen clocks on, the state is the sum of those eight clocks on and now;
/// and the same holds at every power of two as the unit.
proof fn lemma_trinomial(k: nat, n: nat)
    ensures
        linear_after(n + 15 * stride(k)) == linear_after(n + 8 * stride(k)) ^ linear_after(n),
    decreases k,
{
    if k == 0 {
        lemma_linear_range(n);
        let u0 = linear_after(n);
        let u1 = linear_after(n + 1);
        let u2 = linear_after(n + 2);
        let u3 = linear_after(n + 3);
        let u4 = linear_after(n + 4);
        let u5 = linear_after(n + 5);
        let u6 = linear_after(n + 6);
        let u7 = linear_after(n + 7);
        let u8 = linear_after(n + 8);
        let u9 = linear_after(n + 9);
        let u10 = linear_after(n + 10);
        let u11 = linear_after(n + 11);
        let u12 = linear_after(n + 12);
        let u13 = linear_after(n + 13);
        let u14 = linear_after(n + 14);
        let u15 = linear_after(n + 15);
        assert(u15 == u8 ^ u0) by (bit_vector)
            requires
                u0 < 0x8000,
                u1 == linear_step(u0),
                u2 == linear_step(u1),
                u3 == linear_step(u2),
                u4 == linear_step(u3),
                u5 == linear_step(u4),
                u6 == linear_step(u5),
                u7 == linear_step(u6),
                u8 == linear_step(u7),
                u9 == linear_step(u8),
                u10 == linear_step(u9),
                u11 == linear_step(u10),
                u12 == linear_step(u11),
                u13 == linear_step(u12),
                u14 == linear_step(u13),
                u15 == linear_step(u14),
        ;
    } else {
        let m = stride((k - 1) as nat);
        lemma_trinomial((k - 1) as nat, n);
        lemma_trinomial((k - 1) as nat, n + 8 * m);
        lemma_trinomial((k - 1) as nat, n + 15 * m);
        let a = linear_after(n);
        let b = linear_after(n + 8 * m);
        let c = linear_after(n + 16 * m);
        assert(n + 8 * m + 15 * m == n + 15 * m + 8 * m);
        assert(n + 8 * m + 8 * m == n + 16 * m);
        assert(n + 15 * m + 15 * m == n + 30 * m);
        assert((c ^ b) ^ (b ^ a) == c ^ a) by (bit_vector);
    }
}

/// Fifteen states, `stride(k)` clocks apart from clock `r` on.
#[verifier::opaque]
spec fn strided(r: nat, k: nat, s: Seq<u16>) -> bool {
    &&& s.len() == 15
    &&& forall|j: int|
        #![trigger s[j]]
        0 <= j < 15 ==> linear_after((r + j * stride(k)) as nat) == s[j]
}

/// The series continued to number `i`.
spec fn continued(s: Seq<u16>, i: int) -> u16
    decreases i,
{
    if i < 15 {
        s[i]
    } else {
        continued(s, i - 7) ^ continued(s, i - 15)
    }
}

proof fn lemma_continued(r: nat, k: nat, s: Seq<u16>, i: int)
    requires
        strided(r, k, s),
        0 <= i,
    ensures
        linear_after((r + i * stride(k)) as nat) == continued(s, i),
    decreases i,
{
    reveal(strided);
    let m = stride(k) as int;
    if i < 15 {
        assert(s[i] == s[i]);
    } else {
        assert((i - 15) * m >= 0) by (nonlinear_arith)
            requires
                i >= 15,
                m >= 0,
        ;
        let n = (r + (i - 15) * m) as nat;
        lemma_trinomial(k, n);
        assert(n + 15 * m == r + i * m) by (nonlinear_arith)
            requires
                n == r + (i - 15) * m,
        ;
        assert(n + 8 * m == r + (i - 7) * m) by (nonlinear_arith)
            requires
                n == r + (i - 15) * m,
        ;
        lemma_continued(r, k, s, i - 7);
        lemma_continued(r, k, s, i - 15);
    }
}

/// Every second state of a series, from its first or its second on.
proof fn lemma_halve(r: nat, k: nat, s: Seq<u16>, t: Seq<u16>, odd: bool)
    requires
        strided(r, k, s),
        t.len() == 15,
        forall|j: int|
            #![trigger t[j]]
            0 <= j < 15 ==> t[j] == continued(s, 2 * j + if odd { 1int } else { 0 }),
    ensures
        strided(if odd { r + stride(k) } else { r }, k + 1, t),
{
    reveal(strided);
    let o = if odd { 1int } else { 0 };
    let m = stride(k) as int;
    let r2 = if odd { r + stride(k) } else { r };
    assert forall|j: int|
        #![trigger t[j]]
        0 <= j < 15 implies linear_after((r2 + j * stride(k + 1)) as nat) == t[j] by {
        lemma_continued(r, k, s, 2 * j + o);
        assert(r2 + j * (2 * m) == r + (2 * j + o) * m) by (nonlinear_arith)
            requires
                r2 == r + o * m,
        ;
    }
}

/// The first fifteen states.
proof fn lemma_first_states()
    ensures
        strided(0, 0, seq![0x7FFFu16, 0x7FFEu16, 0x7FFCu16, 0x7FF8u16, 0x7FF0u16, 0x7FE0u16, 0x7FC0u16, 0x7F80u16, 0x7F01u16, 0x7E03u16, 0x7C07u16, 0x780Fu16, 0x701Fu16, 0x603Fu16, 0x407Fu16]),
{
    assert({
        &&& linear_step(0x7FFF) == 0x7FFE
        &&& linear_step(0x7FFE) == 0x7FFC
        &&& linear_step(0x7FFC) == 0x7FF8
        &&& linear_step(0x7FF8) == 0x7FF0
        &&& linear_step(0x7FF0) == 0x7FE0
        &&& linear_step(0x7FE0) == 0x7FC0
        &&& linear_step(0x7FC0) == 0x7F80
        &&& linear_step(0x7F80) == 0x7F01
        &&& linear_step(0x7F01) == 0x7E03
        &&& linear_step(0x7E03) == 0x7C07
        &&& linear_step(0x7C07) == 0x780F
        &&& linear_step(0x780F) == 0x701F
        &&& linear_step(0x701F) == 0x603F
        &&& linear_step(0x603F) == 0x407F
    }) by (bit_vector);
    reveal(strided);
    reveal_with_fuel(linear_after, 16);
}

/// Every 256th state.
proof fn lemma_every_256()
    ensures
        strided(0, 8, seq![0x7FFFu16, 0x2471u16, 0x471Du16, 0x7627u16, 0x1D8Au16, 0x1FB8u16, 0x0A5Fu16, 0x4780u16, 0x20AAu16, 0x7125u16, 0x37A0u16, 0x020Au16, 0x2A00u16, 0x325Fu16, 0x5FFFu16]),
{
    lemma_first_states();
    assert({
        &&& 0x7E03u16 ^ 0x7FFEu16 == 0x01FD
        &&& 0x780Fu16 ^ 0x7FF8u16 == 0x07F7
        &&& 0x603Fu16 ^ 0x7FE0u16 == 0x1FDF
        &&& (0x7F01u16 ^ 0x7FFFu16) ^ 0x7F80u16 == 0x7F7E
        &&& (0x7C07u16 ^ 0x7FFCu16) ^ 0x7E03u16 == 0x7DF8
        &&& (0x701Fu16 ^ 0x7FF0u16) ^ 0x780Fu16 == 0x77E0
        &&& (0x407Fu16 ^ 0x7FC0u16) ^ 0x603Fu16 == 0x5F80
        &&& 0x07F7u16 ^ 0x7FFCu16 == 0x780B
        &&& 0x7F7Eu16 ^ 0x7FC0u16 == 0x00BE
        &&& 0x77E0u16 ^ 0x7C07u16 == 0x0BE7
        &&& (0x01FDu16 ^ 0x7FFFu16) ^ 0x407Fu16 == 0x3E7D
        &&& (0x1FDFu16 ^ 0x7FF0u16) ^ 0x07F7u16 == 0x67D8
        &&& (0x7DF8u16 ^ 0x7F01u16) ^ 0x7F7Eu16 == 0x7D87
        &&& (0x5F80u16 ^ 0x701Fu16) ^ 0x77E0u16 == 0x587F
        &&& 0x00BEu16 ^ 0x7FF0u16 == 0x7F4E
        &&& 0x3E7Du16 ^ 0x701Fu16 == 0x4E62
        &&& 0x7D87u16 ^ 0x1FDFu16 == 0x6258
        &&& (0x780Bu16 ^ 0x7FFFu16) ^ 0x5F80u16 == 0x5874
        &&& (0x0BE7u16 ^ 0x7F01u16) ^ 0x00BEu16 == 0x7458
        &&& (0x67D8u16 ^ 0x01FDu16) ^ 0x3E7Du16 == 0x5858
        &&& (0x587Fu16 ^ 0x7DF8u16) ^ 0x7D87u16 == 0x5800
        &&& 0x4E62u16 ^ 0x7F01u16 == 0x3163
        &&& 0x5874u16 ^ 0x7DF8u16 == 0x258C
        &&& 0x5858u16 ^ 0x0BE7u16 == 0x53BF
        &&& (0x7F4Eu16 ^ 0x7FFFu16) ^ 0x587Fu16 == 0x58CE
        &&& (0x6258u16 ^ 0x01FDu16) ^ 0x4E62u16 == 0x2DC7
        &&& (0x7458u16 ^ 0x780Bu16) ^ 0x5874u16 == 0x5427
        &&& (0x5800u16 ^ 0x67D8u16) ^ 0x5858u16 == 0x6780
        &&& 0x258Cu16 ^ 0x01FDu16 == 0x2471
        &&& 0x58CEu16 ^ 0x67D8u16 == 0x3F16
        &&& 0x5427u16 ^ 0x6258u16 == 0x367F
        &&& (0x3163u16 ^ 0x7FFFu16) ^ 0x5800u16 == 0x169C
        &&& (0x53BFu16 ^ 0x780Bu16) ^ 0x258Cu16 == 0x0E38
        &&& (0x2DC7u16 ^ 0x7F4Eu16) ^ 0x58CEu16 == 0x0A47
        &&& (0x6780u16 ^ 0x7458u16) ^ 0x5427u16 == 0x47FF
        &&& 0x3F16u16 ^ 0x780Bu16 == 0x471D
        &&& 0x169Cu16 ^ 0x7458u16 == 0x62C4
        &&& 0x0A47u16 ^ 0x53BFu16 == 0x59F8
        &&& (0x2471u16 ^ 0x7FFFu16) ^ 0x6780u16 == 0x3C0E
        &&& (0x367Fu16 ^ 0x7F4Eu16) ^ 0x3F16u16 == 0x7627
        &&& (0x0E38u16 ^ 0x3163u16) ^ 0x169Cu16 == 0x29C7
        &&& (0x47FFu16 ^ 0x2DC7u16) ^ 0x0A47u16 == 0x607F
        &&& 0x62C4u16 ^ 0x7F4Eu16 == 0x1D8A
        &&& 0x3C0Eu16 ^ 0x2DC7u16 == 0x11C9
        &&& 0x29C7u16 ^ 0x367Fu16 == 0x1FB8
        &&& (0x471Du16 ^ 0x7FFFu16) ^ 0x47FFu16 == 0x7F1D
        &&& (0x59F8u16 ^ 0x3163u16) ^ 0x62C4u16 == 0x0A5F
        &&& (0x7627u16 ^ 0x2471u16) ^ 0x3C0Eu16 == 0x6E58
        &&& (0x607Fu16 ^ 0x0E38u16) ^ 0x29C7u16 == 0x4780
        &&& 0x11C9u16 ^ 0x3163u16 == 0x20AA
        &&& 0x7F1Du16 ^ 0x0E38u16 == 0x7125
        &&& 0x6E58u16 ^ 0x59F8u16 == 0x37A0
        &&& (0x1D8Au16 ^ 0x7FFFu16) ^ 0x607Fu16 == 0x020A
        &&& (0x1FB8u16 ^ 0x2471u16) ^ 0x11C9u16 == 0x2A00
        &&& (0x0A5Fu16 ^ 0x471Du16) ^ 0x7F1Du16 == 0x325F
        &&& (0x4780u16 ^ 0x7627u16) ^ 0x6E58u16 == 0x5FFF
    }) by (bit_vector);
    let s0 = seq![0x7FFFu16, 0x7FFEu16, 0x7FFCu16, 0x7FF8u16, 0x7FF0u16, 0x7FE0u16, 0x7FC0u16, 0x7F80u16, 0x7F01u16, 0x7E03u16, 0x7C07u16, 0x780Fu16, 0x701Fu16, 0x603Fu16, 0x407Fu16];
    let s1 = seq![0x7FFFu16, 0x7FFCu16, 0x7FF0u16, 0x7FC0u16, 0x7F01u16, 0x7C07u16, 0x701Fu16, 0x407Fu16, 0x01FDu16, 0x07F7u16, 0x1FDFu16, 0x7F7Eu16, 0x7DF8u16, 0x77E0u16, 0x5F80u16];
    assert(strided(0, 1, s1)) by {
        reveal_with_fuel(continued, 4);
        reveal_with_fuel(stride, 2);
        lemma_halve(0, 0, s0, s1, false);
    }
    let s2 = seq![0x7FFFu16, 0x7FF0u16, 0x7F01u16, 0x701Fu16, 0x01FDu16, 0x1FDFu16, 0x7DF8u16, 0x5F80u16, 0x780Bu16, 0x00BEu16, 0x0BE7u16, 0x3E7Du16, 0x67D8u16, 0x7D87u16, 0x587Fu16];
    assert(strided(0, 2, s2)) by {
        reveal_with_fuel(continued, 4);
        reveal_with_fuel(stride, 3);
        lemma_halve(0, 1, s1, s2, false);
    }
    let s3 = seq![0x7FFFu16, 0x7F01u16, 0x01FDu16, 0x7DF8u16, 0x780Bu16, 0x0BE7u16, 0x67D8u16, 0x587Fu16, 0x7F4Eu16, 0x4E62u16, 0x6258u16, 0x5874u16, 0x7458u16, 0x5858u16, 0x5800u16];
    assert(strided(0, 3, s3)) by {
        reveal_with_fuel(continued, 4);
        reveal_with_fuel(stride, 4);
        lemma_halve(0, 2, s2, s3, false);
    }
    let s4 = seq![0x7FFFu16, 0x01FDu16, 0x780Bu16, 0x67D8u16, 0x7F4Eu16, 0x6258u16, 0x7458u16, 0x5800u16, 0x3163u16, 0x258Cu16, 0x53BFu16, 0x58CEu16, 0x2DC7u16, 0x5427u16, 0x6780u16];
    assert(strided(0, 4, s4)) by {
        reveal_with_fuel(continued, 4);
        reveal_with_fuel(stride, 5);
        lemma_halve(0, 3, s3, s4, false);
    }
    let s5 = seq![0x7FFFu16, 0x780Bu16, 0x7F4Eu16, 0x7458u16, 0x3163u16, 0x53BFu16, 0x2DC7u16, 0x6780u16, 0x2471u16, 0x3F16u16, 0x367Fu16, 0x169Cu16, 0x0E38u16, 0x0A47u16, 0x47FFu16];
    assert(strided(0, 5, s5)) by {
        reveal_with_fuel(continued, 4);
        reveal_with_fuel(stride, 6);
        lemma_halve(0, 4, s4, s5, false);
    }
    let s6 = seq![0x7FFFu16, 0x7F4Eu16, 0x3163u16, 0x2DC7u16, 0x2471u16, 0x367Fu16, 0x0E38u16, 0x47FFu16, 0x471Du16, 0x62C4u16, 0x59F8u16, 0x3C0Eu16, 0x7627u16, 0x29C7u16, 0x607Fu16];
    assert(strided(0, 6, s6)) by {
        reveal_with_fuel(continued, 4);
        reveal_with_fuel(stride, 7);
        lemma_halve(0, 5, s5, s6, false);
    }
    let s7 = seq![0x7FFFu16, 0x3163u16, 0x2471u16, 0x0E38u16, 0x471Du16, 0x59F8u16, 0x7627u16, 0x607Fu16, 0x1D8Au16, 0x11C9u16, 0x1FB8u16, 0x7F1Du16, 0x0A5Fu16, 0x6E58u16, 0x4780u16];
    assert(strided(0, 7, s7)) by {
        reveal_with_fuel(continued, 4);
        reveal_with_fuel(stride, 8);
        lemma_halve(0, 6, s6, s7, false);
    }
    let s8 = seq![0x7FFFu16, 0x2471u16, 0x471Du16, 0x7627u16, 0x1D8Au16, 0x1FB8u16, 0x0A5Fu16, 0x4780u16, 0x20AAu16, 0x7125u16, 0x37A0u16, 0x020Au16, 0x2A00u16, 0x325Fu16, 0x5FFFu16];
    assert(strided(0, 8, s8)) by {
        reveal_with_fuel(continued, 4);
        reveal_with_fuel(stride, 9);
        lemma_halve(0, 7, s7, s8, false);
    }
}

/// One full cycle and one clock.
proof fn lemma_after_32768()
    ensures
        linear_after(32768) == 0x7FFE,
{
    lemma_every_256();
    assert({
        &&& 0x7125u16 ^ 0x2471u16 == 0x5554
        &&& 0x020Au16 ^ 0x7627u16 == 0x742D
        &&& 0x325Fu16 ^ 0x1FB8u16 == 0x2DE7
        &&& (0x20AAu16 ^ 0x7FFFu16) ^ 0x4780u16 == 0x18D5
        &&& (0x37A0u16 ^ 0x471Du16) ^ 0x7125u16 == 0x0198
        &&& (0x2A00u16 ^ 0x1D8Au16) ^ 0x020Au16 == 0x3580
        &&& (0x5FFFu16 ^ 0x0A5Fu16) ^ 0x325Fu16 == 0x67FF
        &&& 0x742Du16 ^ 0x471Du16 == 0x3330
        &&& 0x18D5u16 ^ 0x0A5Fu16 == 0x128A
        &&& 0x3580u16 ^ 0x37A0u16 == 0x0220
        &&& (0x5554u16 ^ 0x7FFFu16) ^ 0x5FFFu16 == 0x7554
        &&& (0x2DE7u16 ^ 0x1D8Au16) ^ 0x742Du16 == 0x4440
        &&& (0x0198u16 ^ 0x20AAu16) ^ 0x18D5u16 == 0x39E7
        &&& (0x67FFu16 ^ 0x2A00u16) ^ 0x3580u16 == 0x787F
        &&& 0x128Au16 ^ 0x1D8Au16 == 0x0F00
        &&& 0x7554u16 ^ 0x2A00u16 == 0x5F54
        &&& 0x39E7u16 ^ 0x2DE7u16 == 0x1400
        &&& (0x3330u16 ^ 0x7FFFu16) ^ 0x67FFu16 == 0x2B30
        &&& (0x0220u16 ^ 0x20AAu16) ^ 0x128Au16 == 0x3000
        &&& (0x4440u16 ^ 0x5554u16) ^ 0x7554u16 == 0x6440
        &&& (0x787Fu16 ^ 0x0198u16) ^ 0x39E7u16 == 0x4000
        &&& 0x5F54u16 ^ 0x20AAu16 == 0x7FFE
        &&& 0x2B30u16 ^ 0x0198u16 == 0x2AA8
        &&& 0x6440u16 ^ 0x0220u16 == 0x6660
        &&& (0x0F00u16 ^ 0x7FFFu16) ^ 0x787Fu16 == 0x0880
        &&& (0x1400u16 ^ 0x5554u16) ^ 0x5F54u16 == 0x1E00
        &&& (0x3000u16 ^ 0x3330u16) ^ 0x2B30u16 == 0x2800
        &&& (0x4000u16 ^ 0x4440u16) ^ 0x6440u16 == 0x6000
        &&& 0x2AA8u16 ^ 0x5554u16 == 0x7FFC
        &&& 0x0880u16 ^ 0x4440u16 == 0x4CC0
        &&& 0x2800u16 ^ 0x1400u16 == 0x3C00
        &&& (0x7FFEu16 ^ 0x7FFFu16) ^ 0x4000u16 == 0x4001
        &&& (0x6660u16 ^ 0x3330u16) ^ 0x2AA8u16 == 0x7FF8
        &&& (0x1E00u16 ^ 0x0F00u16) ^ 0x0880u16 == 0x1980
        &&& (0x6000u16 ^ 0x3000u16) ^ 0x2800u16 == 0x7800
        &&& 0x4CC0u16 ^ 0x3330u16 == 0x7FF0
        &&& 0x4001u16 ^ 0x3000u16 == 0x7001
        &&& 0x1980u16 ^ 0x6660u16 == 0x7FE0
        &&& (0x7FFCu16 ^ 0x7FFFu16) ^ 0x6000u16 == 0x6003
        &&& (0x3C00u16 ^ 0x0F00u16) ^ 0x4CC0u16 == 0x7FC0
        &&& (0x7FF8u16 ^ 0x7FFEu16) ^ 0x4001u16 == 0x4007
        &&& (0x7800u16 ^ 0x1E00u16) ^ 0x1980u16 == 0x7F80
        &&& 0x7001u16 ^ 0x0F00u16 == 0x7F01
        &&& 0x6003u16 ^ 0x1E00u16 == 0x7E03
        &&& 0x4007u16 ^ 0x3C00u16 == 0x7C07
        &&& (0x7FF0u16 ^ 0x7FFFu16) ^ 0x7800u16 == 0x780F
        &&& (0x7FE0u16 ^ 0x7FFEu16) ^ 0x7001u16 == 0x701F
        &&& (0x7FC0u16 ^ 0x7FFCu16) ^ 0x6003u16 == 0x603F
        &&& (0x7F80u16 ^ 0x7FF8u16) ^ 0x4007u16 == 0x407F
    }) by (bit_vector);
    let s8 = seq![0x7FFFu16, 0x2471u16, 0x471Du16, 0x7627u16, 0x1D8Au16, 0x1FB8u16, 0x0A5Fu16, 0x4780u16, 0x20AAu16, 0x7125u16, 0x37A0u16, 0x020Au16, 0x2A00u16, 0x325Fu16, 0x5FFFu16];
    let s9 = seq![0x7FFFu16, 0x471Du16, 0x1D8Au16, 0x0A5Fu16, 0x20AAu16, 0x37A0u16, 0x2A00u16, 0x5FFFu16, 0x5554u16, 0x742Du16, 0x2DE7u16, 0x18D5u16, 0x0198u16, 0x3580u16, 0x67FFu16];
    assert(strided(0, 9, s9)) by {
        reveal_with_fuel(continued, 4);
        reveal_with_fuel(stride, 10);
        lemma_halve(0, 8, s8, s9, false);
    }
    let s10 = seq![0x7FFFu16, 0x1D8Au16, 0x20AAu16, 0x2A00u16, 0x5554u16, 0x2DE7u16, 0x0198u16, 0x67FFu16, 0x3330u16, 0x128Au16, 0x0220u16, 0x7554u16, 0x4440u16, 0x39E7u16, 0x787Fu16];
    assert(strided(0, 10, s10)) by {
        reveal_with_fuel(continued, 4);
        reveal_with_fuel(stride, 11);
        lemma_halve(0, 9, s9, s10, false);
    }
    let s11 = seq![0x7FFFu16, 0x20AAu16, 0x5554u16, 0x0198u16, 0x3330u16, 0x0220u16, 0x4440u16, 0x787Fu16, 0x0F00u16, 0x5F54u16, 0x1400u16, 0x2B30u16, 0x3000u16, 0x6440u16, 0x4000u16];
    assert(strided(0, 11, s11)) by {
        reveal_with_fuel(continued, 4);
        reveal_with_fuel(stride, 12);
        lemma_halve(0, 10, s10, s11, false);
    }
    let s12 = seq![0x7FFFu16, 0x5554u16, 0x3330u16, 0x4440u16, 0x0F00u16, 0x1400u16, 0x3000u16, 0x4000u16, 0x7FFEu16, 0x2AA8u16, 0x6660u16, 0x0880u16, 0x1E00u16, 0x2800u16, 0x6000u16];
    assert(strided(0, 12, s12)) by {
        reveal_with_fuel(continued, 4);
        reveal_with_fuel(stride, 13);
        lemma_halve(0, 11, s11, s12, false);
    }
    let s13 = seq![0x7FFFu16, 0x3330u16, 0x0F00u16, 0x3000u16, 0x7FFEu16, 0x6660u16, 0x1E00u16, 0x6000u16, 0x7FFCu16, 0x4CC0u16, 0x3C00u16, 0x4001u16, 0x7FF8u16, 0x1980u16, 0x7800u16];
    assert(strided(0, 13, s13)) by {
        reveal_with_fuel(continued, 4);
        reveal_with_fuel(stride, 14);
        lemma_halve(0, 12, s12, s13, false);
    }
    let s14 = seq![0x7FFFu16, 0x0F00u16, 0x7FFEu16, 0x1E00u16, 0x7FFCu16, 0x3C00u16, 0x7FF8u16, 0x7800u16, 0x7FF0u16, 0x7001u16, 0x7FE0u16, 0x6003u16, 0x7FC0u16, 0x4007u16, 0x7F80u16];
    assert(strided(0, 14, s14)) by {
        reveal_with_fuel(continued, 4);
        reveal_with_fuel(stride, 15);
        lemma_halve(0, 13, s13, s14, false);
    }
    let s15 = seq![0x7FFFu16, 0x7FFEu16, 0x7FFCu16, 0x7FF8u16, 0x7FF0u16, 0x7FE0u16, 0x7FC0u16, 0x7F80u16, 0x7F01u16, 0x7E03u16, 0x7C07u16, 0x780Fu16, 0x701Fu16, 0x603Fu16, 0x407Fu16];
    assert(strided(0, 15, s15)) by {
        reveal_with_fuel(continued, 4);
        reveal_with_fuel(stride, 16);
        lemma_halve(0, 14, s14, s15, false);
    }
    reveal(strided);
    reveal_with_fuel(stride, 17);
    assert(s15[1] == 0x7FFE);
}

/// 4681 clocks.
proof fn lemma_after_4681()
    ensures
        linear_after(4681) == 0x61D8,
{
    lemma_first_states();
    assert({
        &&& 0x7F01u16 ^ 0x7FFFu16 == 0x00FE
        &&& 0x7C07u16 ^ 0x7FFCu16 == 0x03FB
        &&& 0x701Fu16 ^ 0x7FF0u16 == 0x0FEF
        &&& 0x407Fu16 ^ 0x7FC0u16 == 0x3FBF
        &&& (0x7E03u16 ^ 0x7FFEu16) ^ 0x7F01u16 == 0x7EFC
        &&& (0x780Fu16 ^ 0x7FF8u16) ^ 0x7C07u16 == 0x7BF0
        &&& (0x603Fu16 ^ 0x7FE0u16) ^ 0x701Fu16 == 0x6FC0
        &&& ((0x7F01u16 ^ 0x7FFFu16) ^ 0x7F80u16) ^ 0x407Fu16 == 0x3F01
        &&& 0x0FEFu16 ^ 0x7FF8u16 == 0x7017
        &&& 0x7EFCu16 ^ 0x7F80u16 == 0x017C
        &&& 0x6FC0u16 ^ 0x780Fu16 == 0x17CF
        &&& (0x03FBu16 ^ 0x7FFEu16) ^ 0x00FEu16 == 0x7CFB
        &&& (0x3FBFu16 ^ 0x7FE0u16) ^ 0x0FEFu16 == 0x4FB0
        &&& (0x7BF0u16 ^ 0x7E03u16) ^ 0x7EFCu16 == 0x7B0F
        &&& (0x3F01u16 ^ 0x603Fu16) ^ 0x6FC0u16 == 0x30FE
        &&& 0x017Cu16 ^ 0x7FE0u16 == 0x7E9C
        &&& 0x7CFBu16 ^ 0x603Fu16 == 0x1CC4
        &&& 0x7B0Fu16 ^ 0x3FBFu16 == 0x44B0
        &&& (0x7017u16 ^ 0x7FFEu16) ^ 0x3F01u16 == 0x30E8
        &&& (0x17CFu16 ^ 0x7E03u16) ^ 0x017Cu16 == 0x68B0
        &&& (0x4FB0u16 ^ 0x03FBu16) ^ 0x7CFBu16 == 0x30B0
        &&& (0x30FEu16 ^ 0x7BF0u16) ^ 0x7B0Fu16 == 0x3001
        &&& 0x7E9Cu16 ^ 0x7FFEu16 == 0x0162
        &&& 0x44B0u16 ^ 0x03FBu16 == 0x474B
        &&& 0x68B0u16 ^ 0x7017u16 == 0x18A7
        &&& 0x3001u16 ^ 0x4FB0u16 == 0x7FB1
        &&& (0x1CC4u16 ^ 0x7E03u16) ^ 0x7E9Cu16 == 0x1C5B
        &&& (0x30E8u16 ^ 0x7BF0u16) ^ 0x44B0u16 == 0x0FA8
        &&& (0x30B0u16 ^ 0x17CFu16) ^ 0x68B0u16 == 0x4FCF
        &&& ((0x7E9Cu16 ^ 0x7FFEu16) ^ 0x30FEu16) ^ 0x3001u16 == 0x019D
        &&& 0x18A7u16 ^ 0x7BF0u16 == 0x6357
        &&& 0x1C5Bu16 ^ 0x30FEu16 == 0x2CA5
        &&& 0x4FCFu16 ^ 0x30E8u16 == 0x7F27
        &&& (0x474Bu16 ^ 0x7E03u16) ^ 0x0162u16 == 0x382A
        &&& (0x7FB1u16 ^ 0x17CFu16) ^ 0x18A7u16 == 0x70D9
        &&& (0x0FA8u16 ^ 0x1CC4u16) ^ 0x1C5Bu16 == 0x0F37
        &&& (0x019Du16 ^ 0x30B0u16) ^ 0x4FCFu16 == 0x7EE2
        &&& 0x2CA5u16 ^ 0x17CFu16 == 0x3B6A
        &&& 0x382Au16 ^ 0x30B0u16 == 0x089A
        &&& 0x0F37u16 ^ 0x7FB1u16 == 0x7086
        &&& (0x6357u16 ^ 0x7E03u16) ^ 0x019Du16 == 0x1CC9
        &&& (0x7F27u16 ^ 0x1CC4u16) ^ 0x2CA5u16 == 0x4F46
        &&& (0x70D9u16 ^ 0x474Bu16) ^ 0x382Au16 == 0x0FB8
        &&& (0x7EE2u16 ^ 0x0FA8u16) ^ 0x0F37u16 == 0x7E7D
        &&& 0x3B6Au16 ^ 0x7E03u16 == 0x4569
        &&& 0x7086u16 ^ 0x474Bu16 == 0x37CD
        &&& 0x4F46u16 ^ 0x6357u16 == 0x2C11
        &&& 0x7E7Du16 ^ 0x70D9u16 == 0x0EA4
        &&& (0x089Au16 ^ 0x1CC4u16) ^ 0x3B6Au16 == 0x2F34
        &&& (0x1CC9u16 ^ 0x0FA8u16) ^ 0x7086u16 == 0x63E7
        &&& (0x0FB8u16 ^ 0x7F27u16) ^ 0x4F46u16 == 0x3FD9
        &&& ((0x3B6Au16 ^ 0x7E03u16) ^ 0x7EE2u16) ^ 0x7E7Du16 == 0x45F6
        &&& 0x2C11u16 ^ 0x0FA8u16 == 0x23B9
        &&& 0x2F34u16 ^ 0x7EE2u16 == 0x51D6
        &&& 0x3FD9u16 ^ 0x1CC9u16 == 0x2310
        &&& (0x37CDu16 ^ 0x1CC4u16) ^ 0x4569u16 == 0x6E60
        &&& (0x0EA4u16 ^ 0x7F27u16) ^ 0x2C11u16 == 0x5D92
        &&& (0x63E7u16 ^ 0x089Au16) ^ 0x2F34u16 == 0x4449
        &&& (0x45F6u16 ^ 0x0FB8u16) ^ 0x3FD9u16 == 0x7597
        &&& 0x51D6u16 ^ 0x7F27u16 == 0x2EF1
        &&& 0x6E60u16 ^ 0x0FB8u16 == 0x61D8
        &&& 0x4449u16 ^ 0x0EA4u16 == 0x4AED
        &&& (0x23B9u16 ^ 0x1CC4u16) ^ 0x45F6u16 == 0x7A8B
        &&& (0x2310u16 ^ 0x089Au16) ^ 0x51D6u16 == 0x7A5C
        &&& (0x5D92u16 ^ 0x37CDu16) ^ 0x6E60u16 == 0x043F
        &&& (0x7597u16 ^ 0x63E7u16) ^ 0x4449u16 == 0x5239
        &&& 0x2EF1u16 ^ 0x1CC4u16 == 0x3235
        &&& 0x4AEDu16 ^ 0x37CDu16 == 0x7D20
        &&& 0x7A5Cu16 ^ 0x23B9u16 == 0x59E5
        &&& 0x5239u16 ^ 0x5D92u16 == 0x0FAB
        &&& (0x61D8u16 ^ 0x089Au16) ^ 0x2EF1u16 == 0x47B3
        &&& (0x7A8Bu16 ^ 0x63E7u16) ^ 0x4AEDu16 == 0x5381
        &&& (0x043Fu16 ^ 0x2310u16) ^ 0x7A5Cu16 == 0x5D73
        &&& ((0x2EF1u16 ^ 0x1CC4u16) ^ 0x7597u16) ^ 0x5239u16 == 0x159B
        &&& 0x59E5u16 ^ 0x63E7u16 == 0x3A02
        &&& 0x47B3u16 ^ 0x7597u16 == 0x3224
        &&& 0x5D73u16 ^ 0x7A8Bu16 == 0x27F8
        &&& (0x7D20u16 ^ 0x089Au16) ^ 0x3235u16 == 0x478F
        &&& (0x0FABu16 ^ 0x2310u16) ^ 0x59E5u16 == 0x755E
        &&& (0x5381u16 ^ 0x61D8u16) ^ 0x47B3u16 == 0x75EA
        &&& (0x159Bu16 ^ 0x043Fu16) ^ 0x5D73u16 == 0x4CD7
        &&& 0x3224u16 ^ 0x2310u16 == 0x1134
        &&& 0x478Fu16 ^ 0x043Fu16 == 0x43B0
        &&& 0x75EAu16 ^ 0x0FABu16 == 0x7A41
        &&& (0x3A02u16 ^ 0x089Au16) ^ 0x159Bu16 == 0x2703
        &&& (0x27F8u16 ^ 0x61D8u16) ^ 0x3224u16 == 0x7404
        &&& (0x755Eu16 ^ 0x7D20u16) ^ 0x478Fu16 == 0x4FF1
        &&& (0x4CD7u16 ^ 0x5381u16) ^ 0x75EAu16 == 0x6ABC
        &&& 0x1134u16 ^ 0x089Au16 == 0x19AE
        &&& 0x7A41u16 ^ 0x7D20u16 == 0x0761
        &&& 0x7404u16 ^ 0x3A02u16 == 0x4E06
        &&& 0x6ABCu16 ^ 0x755Eu16 == 0x1FE2
        &&& (0x43B0u16 ^ 0x61D8u16) ^ 0x1134u16 == 0x335C
        &&& (0x2703u16 ^ 0x5381u16) ^ 0x7A41u16 == 0x0EC3
        &&& (0x4FF1u16 ^ 0x27F8u16) ^ 0x7404u16 == 0x1C0D
        &&& ((0x1134u16 ^ 0x089Au16) ^ 0x4CD7u16) ^ 0x6ABCu16 == 0x3FC5
    }) by (bit_vector);
    let s0 = seq![0x7FFFu16, 0x7FFEu16, 0x7FFCu16, 0x7FF8u16, 0x7FF0u16, 0x7FE0u16, 0x7FC0u16, 0x7F80u16, 0x7F01u16, 0x7E03u16, 0x7C07u16, 0x780Fu16, 0x701Fu16, 0x603Fu16, 0x407Fu16];
    let s1 = seq![0x7FFEu16, 0x7FF8u16, 0x7FE0u16, 0x7F80u16, 0x7E03u16, 0x780Fu16, 0x603Fu16, 0x00FEu16, 0x03FBu16, 0x0FEFu16, 0x3FBFu16, 0x7EFCu16, 0x7BF0u16, 0x6FC0u16, 0x3F01u16];
    assert(strided(1, 1, s1)) by {
        reveal_with_fuel(continued, 4);
        reveal_with_fuel(stride, 2);
        lemma_halve(0, 0, s0, s1, true);
    }
    let s2 = seq![0x7FFEu16, 0x7FE0u16, 0x7E03u16, 0x603Fu16, 0x03FBu16, 0x3FBFu16, 0x7BF0u16, 0x3F01u16, 0x7017u16, 0x017Cu16, 0x17CFu16, 0x7CFBu16, 0x4FB0u16, 0x7B0Fu16, 0x30FEu16];
    assert(strided(1, 2, s2)) by {
        reveal_with_fuel(continued, 4);
        reveal_with_fuel(stride, 3);
        lemma_halve(1, 1, s1, s2, false);
    }
    let s3 = seq![0x7FFEu16, 0x7E03u16, 0x03FBu16, 0x7BF0u16, 0x7017u16, 0x17CFu16, 0x4FB0u16, 0x30FEu16, 0x7E9Cu16, 0x1CC4u16, 0x44B0u16, 0x30E8u16, 0x68B0u16, 0x30B0u16, 0x3001u16];
    assert(strided(1, 3, s3)) by {
        reveal_with_fuel(continued, 4);
        reveal_with_fuel(stride, 4);
        lemma_halve(1, 2, s2, s3, false);
    }
    let s4 = seq![0x7E03u16, 0x7BF0u16, 0x17CFu16, 0x30FEu16, 0x1CC4u16, 0x30E8u16, 0x30B0u16, 0x0162u16, 0x474Bu16, 0x18A7u16, 0x7FB1u16, 0x1C5Bu16, 0x0FA8u16, 0x4FCFu16, 0x019Du16];
    assert(strided(9, 4, s4)) by {
        reveal_with_fuel(continued, 4);
        reveal_with_fuel(stride, 5);
        lemma_halve(1, 3, s3, s4, true);
    }
    let s5 = seq![0x7E03u16, 0x17CFu16, 0x1CC4u16, 0x30B0u16, 0x474Bu16, 0x7FB1u16, 0x0FA8u16, 0x019Du16, 0x6357u16, 0x2CA5u16, 0x7F27u16, 0x382Au16, 0x70D9u16, 0x0F37u16, 0x7EE2u16];
    assert(strided(9, 5, s5)) by {
        reveal_with_fuel(continued, 4);
        reveal_with_fuel(stride, 6);
        lemma_halve(9, 4, s4, s5, false);
    }
    let s6 = seq![0x7E03u16, 0x1CC4u16, 0x474Bu16, 0x0FA8u16, 0x6357u16, 0x7F27u16, 0x70D9u16, 0x7EE2u16, 0x3B6Au16, 0x089Au16, 0x7086u16, 0x1CC9u16, 0x4F46u16, 0x0FB8u16, 0x7E7Du16];
    assert(strided(9, 6, s6)) by {
        reveal_with_fuel(continued, 4);
        reveal_with_fuel(stride, 7);
        lemma_halve(9, 5, s5, s6, false);
    }
    let s7 = seq![0x1CC4u16, 0x0FA8u16, 0x7F27u16, 0x7EE2u16, 0x089Au16, 0x1CC9u16, 0x0FB8u16, 0x4569u16, 0x37CDu16, 0x2C11u16, 0x0EA4u16, 0x2F34u16, 0x63E7u16, 0x3FD9u16, 0x45F6u16];
    assert(strided(73, 7, s7)) by {
        reveal_with_fuel(continued, 4);
        reveal_with_fuel(stride, 8);
        lemma_halve(9, 6, s6, s7, true);
    }
    let s8 = seq![0x1CC4u16, 0x7F27u16, 0x089Au16, 0x0FB8u16, 0x37CDu16, 0x0EA4u16, 0x63E7u16, 0x45F6u16, 0x23B9u16, 0x51D6u16, 0x2310u16, 0x6E60u16, 0x5D92u16, 0x4449u16, 0x7597u16];
    assert(strided(73, 8, s8)) by {
        reveal_with_fuel(continued, 4);
        reveal_with_fuel(stride, 9);
        lemma_halve(73, 7, s7, s8, false);
    }
    let s9 = seq![0x1CC4u16, 0x089Au16, 0x37CDu16, 0x63E7u16, 0x23B9u16, 0x2310u16, 0x5D92u16, 0x7597u16, 0x2EF1u16, 0x61D8u16, 0x4AEDu16, 0x7A8Bu16, 0x7A5Cu16, 0x043Fu16, 0x5239u16];
    assert(strided(73, 9, s9)) by {
        reveal_with_fuel(continued, 4);
        reveal_with_fuel(stride, 10);
        lemma_halve(73, 8, s8, s9, false);
    }
    let s10 = seq![0x089Au16, 0x63E7u16, 0x2310u16, 0x7597u16, 0x61D8u16, 0x7A8Bu16, 0x043Fu16, 0x3235u16, 0x7D20u16, 0x59E5u16, 0x0FABu16, 0x47B3u16, 0x5381u16, 0x5D73u16, 0x159Bu16];
    assert(strided(585, 10, s10)) by {
        reveal_with_fuel(continued, 4);
        reveal_with_fuel(stride, 11);
        lemma_halve(73, 9, s9, s10, true);
    }
    let s11 = seq![0x089Au16, 0x2310u16, 0x61D8u16, 0x043Fu16, 0x7D20u16, 0x0FABu16, 0x5381u16, 0x159Bu16, 0x3A02u16, 0x3224u16, 0x27F8u16, 0x478Fu16, 0x755Eu16, 0x75EAu16, 0x4CD7u16];
    assert(strided(585, 11, s11)) by {
        reveal_with_fuel(continued, 4);
        reveal_with_fuel(stride, 12);
        lemma_halve(585, 10, s10, s11, false);
    }
    let s12 = seq![0x089Au16, 0x61D8u16, 0x7D20u16, 0x5381u16, 0x3A02u16, 0x27F8u16, 0x755Eu16, 0x4CD7u16, 0x1134u16, 0x43B0u16, 0x7A41u16, 0x2703u16, 0x7404u16, 0x4FF1u16, 0x6ABCu16];
    assert(strided(585, 12, s12)) by {
        reveal_with_fuel(continued, 4);
        reveal_with_fuel(stride, 13);
        lemma_halve(585, 11, s11, s12, false);
    }
    let s13 = seq![0x61D8u16, 0x5381u16, 0x27F8u16, 0x4CD7u16, 0x43B0u16, 0x2703u16, 0x4FF1u16, 0x19AEu16, 0x0761u16, 0x4E06u16, 0x1FE2u16, 0x335Cu16, 0x0EC3u16, 0x1C0Du16, 0x3FC5u16];
    assert(strided(4681, 13, s13)) by {
        reveal_with_fuel(continued, 4);
        reveal_with_fuel(stride, 14);
        lemma_halve(585, 12, s12, s13, true);
    }
    reveal(strided);
    reveal_with_fuel(stride, 15);
    assert(s13[0] == 0x61D8);
}

/// 1057 clocks.
proof fn lemma_after_1057()
    ensures
        linear_after(1057) == 0x1607,
{
    lemma_first_states();
    assert({
        &&& 0x7F01u16 ^ 0x7FFFu16 == 0x00FE
        &&& 0x7C07u16 ^ 0x7FFCu16 == 0x03FB
        &&& 0x701Fu16 ^ 0x7FF0u16 == 0x0FEF
        &&& 0x407Fu16 ^ 0x7FC0u16 == 0x3FBF
        &&& (0x7E03u16 ^ 0x7FFEu16) ^ 0x7F01u16 == 0x7EFC
        &&& (0x780Fu16 ^ 0x7FF8u16) ^ 0x7C07u16 == 0x7BF0
        &&& (0x603Fu16 ^ 0x7FE0u16) ^ 0x701Fu16 == 0x6FC0
        &&& ((0x7F01u16 ^ 0x7FFFu16) ^ 0x7F80u16) ^ 0x407Fu16 == 0x3F01
        &&& 0x0FEFu16 ^ 0x7FF8u16 == 0x7017
        &&& 0x7EFCu16 ^ 0x7F80u16 == 0x017C
        &&& 0x6FC0u16 ^ 0x780Fu16 == 0x17CF
        &&& (0x03FBu16 ^ 0x7FFEu16) ^ 0x00FEu16 == 0x7CFB
        &&& (0x3FBFu16 ^ 0x7FE0u16) ^ 0x0FEFu16 == 0x4FB0
        &&& (0x7BF0u16 ^ 0x7E03u16) ^ 0x7EFCu16 == 0x7B0F
        &&& (0x3F01u16 ^ 0x603Fu16) ^ 0x6FC0u16 == 0x30FE
        &&& 0x017Cu16 ^ 0x7FE0u16 == 0x7E9C
        &&& 0x7CFBu16 ^ 0x603Fu16 == 0x1CC4
        &&& 0x7B0Fu16 ^ 0x3FBFu16 == 0x44B0
        &&& (0x7017u16 ^ 0x7FFEu16) ^ 0x3F01u16 == 0x30E8
        &&& (0x17CFu16 ^ 0x7E03u16) ^ 0x017Cu16 == 0x68B0
        &&& (0x4FB0u16 ^ 0x03FBu16) ^ 0x7CFBu16 == 0x30B0
        &&& (0x30FEu16 ^ 0x7BF0u16) ^ 0x7B0Fu16 == 0x3001
        &&& 0x1CC4u16 ^ 0x7E03u16 == 0x62C7
        &&& 0x30E8u16 ^ 0x7BF0u16 == 0x4B18
        &&& 0x30B0u16 ^ 0x17CFu16 == 0x277F
        &&& (0x7E9Cu16 ^ 0x7FFEu16) ^ 0x30FEu16 == 0x319C
        &&& (0x44B0u16 ^ 0x03FBu16) ^ 0x1CC4u16 == 0x5B8F
        &&& (0x68B0u16 ^ 0x7017u16) ^ 0x30E8u16 == 0x284F
        &&& (0x3001u16 ^ 0x4FB0u16) ^ 0x30B0u16 == 0x4F01
        &&& 0x4B18u16 ^ 0x03FBu16 == 0x48E3
        &&& 0x319Cu16 ^ 0x4FB0u16 == 0x7E2C
        &&& 0x284Fu16 ^ 0x44B0u16 == 0x6CFF
        &&& (0x62C7u16 ^ 0x7FFEu16) ^ 0x3001u16 == 0x2D38
        &&& (0x277Fu16 ^ 0x7017u16) ^ 0x4B18u16 == 0x1C70
        &&& (0x5B8Fu16 ^ 0x7E9Cu16) ^ 0x319Cu16 == 0x148F
        &&& (0x4F01u16 ^ 0x68B0u16) ^ 0x284Fu16 == 0x0FFE
        &&& 0x48E3u16 ^ 0x7FFEu16 == 0x371D
        &&& 0x6CFFu16 ^ 0x7E9Cu16 == 0x1263
        &&& 0x1C70u16 ^ 0x62C7u16 == 0x7EB7
        &&& 0x0FFEu16 ^ 0x5B8Fu16 == 0x5471
        &&& (0x7E2Cu16 ^ 0x7017u16) ^ 0x48E3u16 == 0x46D8
        &&& (0x2D38u16 ^ 0x68B0u16) ^ 0x6CFFu16 == 0x2977
        &&& (0x148Fu16 ^ 0x277Fu16) ^ 0x1C70u16 == 0x2F80
        &&& ((0x48E3u16 ^ 0x7FFEu16) ^ 0x4F01u16) ^ 0x0FFEu16 == 0x77E2
        &&& 0x7EB7u16 ^ 0x68B0u16 == 0x1607
        &&& 0x46D8u16 ^ 0x4F01u16 == 0x09D9
        &&& 0x2F80u16 ^ 0x2D38u16 == 0x02B8
        &&& (0x1263u16 ^ 0x7017u16) ^ 0x371Du16 == 0x5569
        &&& (0x5471u16 ^ 0x277Fu16) ^ 0x7EB7u16 == 0x0DB9
        &&& (0x2977u16 ^ 0x7E2Cu16) ^ 0x46D8u16 == 0x1183
        &&& (0x77E2u16 ^ 0x148Fu16) ^ 0x2F80u16 == 0x4CED
        &&& 0x09D9u16 ^ 0x277Fu16 == 0x2EA6
        &&& 0x5569u16 ^ 0x148Fu16 == 0x41E6
        &&& 0x1183u16 ^ 0x5471u16 == 0x45F2
        &&& (0x1607u16 ^ 0x7017u16) ^ 0x77E2u16 == 0x11F2
        &&& (0x02B8u16 ^ 0x7E2Cu16) ^ 0x09D9u16 == 0x754D
        &&& (0x0DB9u16 ^ 0x1263u16) ^ 0x5569u16 == 0x4AB3
        &&& (0x4CEDu16 ^ 0x2977u16) ^ 0x1183u16 == 0x7419
        &&& 0x41E6u16 ^ 0x7E2Cu16 == 0x3FCA
        &&& 0x11F2u16 ^ 0x2977u16 == 0x3885
        &&& 0x4AB3u16 ^ 0x02B8u16 == 0x480B
        &&& (0x2EA6u16 ^ 0x7017u16) ^ 0x4CEDu16 == 0x125C
        &&& (0x45F2u16 ^ 0x1263u16) ^ 0x41E6u16 == 0x1677
        &&& (0x754Du16 ^ 0x1607u16) ^ 0x11F2u16 == 0x72B8
        &&& (0x7419u16 ^ 0x0DB9u16) ^ 0x4AB3u16 == 0x3313
        &&& 0x3885u16 ^ 0x1263u16 == 0x2AE6
        &&& 0x125Cu16 ^ 0x0DB9u16 == 0x1FE5
        &&& 0x72B8u16 ^ 0x45F2u16 == 0x374A
        &&& (0x3FCAu16 ^ 0x7017u16) ^ 0x7419u16 == 0x3BC4
        &&& (0x480Bu16 ^ 0x1607u16) ^ 0x3885u16 == 0x6689
        &&& (0x1677u16 ^ 0x2EA6u16) ^ 0x125Cu16 == 0x2A8D
        &&& (0x3313u16 ^ 0x754Du16) ^ 0x72B8u16 == 0x34E6
        &&& 0x2AE6u16 ^ 0x7017u16 == 0x5AF1
        &&& 0x374Au16 ^ 0x2EA6u16 == 0x19EC
        &&& 0x6689u16 ^ 0x3FCAu16 == 0x5943
        &&& 0x34E6u16 ^ 0x1677u16 == 0x2291
        &&& (0x1FE5u16 ^ 0x1607u16) ^ 0x2AE6u16 == 0x2304
        &&& (0x3BC4u16 ^ 0x754Du16) ^ 0x374Au16 == 0x79C3
        &&& (0x2A8Du16 ^ 0x480Bu16) ^ 0x6689u16 == 0x040F
        &&& ((0x2AE6u16 ^ 0x7017u16) ^ 0x3313u16) ^ 0x34E6u16 == 0x5D04
    }) by (bit_vector);
    let s0 = seq![0x7FFFu16, 0x7FFEu16, 0x7FFCu16, 0x7FF8u16, 0x7FF0u16, 0x7FE0u16, 0x7FC0u16, 0x7F80u16, 0x7F01u16, 0x7E03u16, 0x7C07u16, 0x780Fu16, 0x701Fu16, 0x603Fu16, 0x407Fu16];
    let s1 = seq![0x7FFEu16, 0x7FF8u16, 0x7FE0u16, 0x7F80u16, 0x7E03u16, 0x780Fu16, 0x603Fu16, 0x00FEu16, 0x03FBu16, 0x0FEFu16, 0x3FBFu16, 0x7EFCu16, 0x7BF0u16, 0x6FC0u16, 0x3F01u16];
    assert(strided(1, 1, s1)) by {
        reveal_with_fuel(continued, 4);
        reveal_with_fuel(stride, 2);
        lemma_halve(0, 0, s0, s1, true);
    }
    let s2 = seq![0x7FFEu16, 0x7FE0u16, 0x7E03u16, 0x603Fu16, 0x03FBu16, 0x3FBFu16, 0x7BF0u16, 0x3F01u16, 0x7017u16, 0x017Cu16, 0x17CFu16, 0x7CFBu16, 0x4FB0u16, 0x7B0Fu16, 0x30FEu16];
    assert(strided(1, 2, s2)) by {
        reveal_with_fuel(continued, 4);
        reveal_with_fuel(stride, 3);
        lemma_halve(1, 1, s1, s2, false);
    }
    let s3 = seq![0x7FFEu16, 0x7E03u16, 0x03FBu16, 0x7BF0u16, 0x7017u16, 0x17CFu16, 0x4FB0u16, 0x30FEu16, 0x7E9Cu16, 0x1CC4u16, 0x44B0u16, 0x30E8u16, 0x68B0u16, 0x30B0u16, 0x3001u16];
    assert(strided(1, 3, s3)) by {
        reveal_with_fuel(continued, 4);
        reveal_with_fuel(stride, 4);
        lemma_halve(1, 2, s2, s3, false);
    }
    let s4 = seq![0x7FFEu16, 0x03FBu16, 0x7017u16, 0x4FB0u16, 0x7E9Cu16, 0x44B0u16, 0x68B0u16, 0x3001u16, 0x62C7u16, 0x4B18u16, 0x277Fu16, 0x319Cu16, 0x5B8Fu16, 0x284Fu16, 0x4F01u16];
    assert(strided(1, 4, s4)) by {
        reveal_with_fuel(continued, 4);
        reveal_with_fuel(stride, 5);
        lemma_halve(1, 3, s3, s4, false);
    }
    let s5 = seq![0x7FFEu16, 0x7017u16, 0x7E9Cu16, 0x68B0u16, 0x62C7u16, 0x277Fu16, 0x5B8Fu16, 0x4F01u16, 0x48E3u16, 0x7E2Cu16, 0x6CFFu16, 0x2D38u16, 0x1C70u16, 0x148Fu16, 0x0FFEu16];
    assert(strided(1, 5, s5)) by {
        reveal_with_fuel(continued, 4);
        reveal_with_fuel(stride, 6);
        lemma_halve(1, 4, s4, s5, false);
    }
    let s6 = seq![0x7017u16, 0x68B0u16, 0x277Fu16, 0x4F01u16, 0x7E2Cu16, 0x2D38u16, 0x148Fu16, 0x371Du16, 0x1263u16, 0x7EB7u16, 0x5471u16, 0x46D8u16, 0x2977u16, 0x2F80u16, 0x77E2u16];
    assert(strided(33, 6, s6)) by {
        reveal_with_fuel(continued, 4);
        reveal_with_fuel(stride, 7);
        lemma_halve(1, 5, s5, s6, true);
    }
    let s7 = seq![0x7017u16, 0x277Fu16, 0x7E2Cu16, 0x148Fu16, 0x1263u16, 0x5471u16, 0x2977u16, 0x77E2u16, 0x1607u16, 0x09D9u16, 0x02B8u16, 0x5569u16, 0x0DB9u16, 0x1183u16, 0x4CEDu16];
    assert(strided(33, 7, s7)) by {
        reveal_with_fuel(continued, 4);
        reveal_with_fuel(stride, 8);
        lemma_halve(33, 6, s6, s7, false);
    }
    let s8 = seq![0x7017u16, 0x7E2Cu16, 0x1263u16, 0x2977u16, 0x1607u16, 0x02B8u16, 0x0DB9u16, 0x4CEDu16, 0x2EA6u16, 0x41E6u16, 0x45F2u16, 0x11F2u16, 0x754Du16, 0x4AB3u16, 0x7419u16];
    assert(strided(33, 8, s8)) by {
        reveal_with_fuel(continued, 4);
        reveal_with_fuel(stride, 9);
        lemma_halve(33, 7, s7, s8, false);
    }
    let s9 = seq![0x7017u16, 0x1263u16, 0x1607u16, 0x0DB9u16, 0x2EA6u16, 0x45F2u16, 0x754Du16, 0x7419u16, 0x3FCAu16, 0x3885u16, 0x480Bu16, 0x125Cu16, 0x1677u16, 0x72B8u16, 0x3313u16];
    assert(strided(33, 9, s9)) by {
        reveal_with_fuel(continued, 4);
        reveal_with_fuel(stride, 10);
        lemma_halve(33, 8, s8, s9, false);
    }
    let s10 = seq![0x7017u16, 0x1607u16, 0x2EA6u16, 0x754Du16, 0x3FCAu16, 0x480Bu16, 0x1677u16, 0x3313u16, 0x2AE6u16, 0x1FE5u16, 0x374Au16, 0x3BC4u16, 0x6689u16, 0x2A8Du16, 0x34E6u16];
    assert(strided(33, 10, s10)) by {
        reveal_with_fuel(continued, 4);
        reveal_with_fuel(stride, 11);
        lemma_halve(33, 9, s9, s10, false);
    }
    let s11 = seq![0x1607u16, 0x754Du16, 0x480Bu16, 0x3313u16, 0x1FE5u16, 0x3BC4u16, 0x2A8Du16, 0x5AF1u16, 0x19ECu16, 0x5943u16, 0x2291u16, 0x2304u16, 0x79C3u16, 0x040Fu16, 0x5D04u16];
    assert(strided(1057, 11, s11)) by {
        reveal_with_fuel(continued, 4);
        reveal_with_fuel(stride, 12);
        lemma_halve(33, 10, s10, s11, true);
    }
    reveal(strided);
    reveal_with_fuel(stride, 13);
    assert(s11[0] == 0x1607);
}

/// 217 clocks.
proof fn lemma_after_217()
    ensures
        linear_after(217) == 0x4FCF,
{
    lemma_first_states();
    assert({
        &&& 0x7F01u16 ^ 0x7FFFu16 == 0x00FE
        &&& 0x7C07u16 ^ 0x7FFCu16 == 0x03FB
        &&& 0x701Fu16 ^ 0x7FF0u16 == 0x0FEF
        &&& 0x407Fu16 ^ 0x7FC0u16 == 0x3FBF
        &&& (0x7E03u16 ^ 0x7FFEu16) ^ 0x7F01u16 == 0x7EFC
        &&& (0x780Fu16 ^ 0x7FF8u16) ^ 0x7C07u16 == 0x7BF0
        &&& (0x603Fu16 ^ 0x7FE0u16) ^ 0x701Fu16 == 0x6FC0
        &&& ((0x7F01u16 ^ 0x7FFFu16) ^ 0x7F80u16) ^ 0x407Fu16 == 0x3F01
        &&& 0x0FEFu16 ^ 0x7FF8u16 == 0x7017
        &&& 0x7EFCu16 ^ 0x7F80u16 == 0x017C
        &&& 0x6FC0u16 ^ 0x780Fu16 == 0x17CF
        &&& (0x03FBu16 ^ 0x7FFEu16) ^ 0x00FEu16 == 0x7CFB
        &&& (0x3FBFu16 ^ 0x7FE0u16) ^ 0x0FEFu16 == 0x4FB0
        &&& (0x7BF0u16 ^ 0x7E03u16) ^ 0x7EFCu16 == 0x7B0F
        &&& (0x3F01u16 ^ 0x603Fu16) ^ 0x6FC0u16 == 0x30FE
        &&& 0x017Cu16 ^ 0x7FE0u16 == 0x7E9C
        &&& 0x7CFBu16 ^ 0x603Fu16 == 0x1CC4
        &&& 0x7B0Fu16 ^ 0x3FBFu16 == 0x44B0
        &&& (0x7017u16 ^ 0x7FFEu16) ^ 0x3F01u16 == 0x30E8
        &&& (0x17CFu16 ^ 0x7E03u16) ^ 0x017Cu16 == 0x68B0
        &&& (0x4FB0u16 ^ 0x03FBu16) ^ 0x7CFBu16 == 0x30B0
        &&& (0x30FEu16 ^ 0x7BF0u16) ^ 0x7B0Fu16 == 0x3001
        &&& 0x7E9Cu16 ^ 0x7FFEu16 == 0x0162
        &&& 0x44B0u16 ^ 0x03FBu16 == 0x474B
        &&& 0x68B0u16 ^ 0x7017u16 == 0x18A7
        &&& 0x3001u16 ^ 0x4FB0u16 == 0x7FB1
        &&& (0x1CC4u16 ^ 0x7E03u16) ^ 0x7E9Cu16 == 0x1C5B
        &&& (0x30E8u16 ^ 0x7BF0u16) ^ 0x44B0u16 == 0x0FA8
        &&& (0x30B0u16 ^ 0x17CFu16) ^ 0x68B0u16 == 0x4FCF
        &&& ((0x7E9Cu16 ^ 0x7FFEu16) ^ 0x30FEu16) ^ 0x3001u16 == 0x019D
        &&& 0x474Bu16 ^ 0x7E03u16 == 0x3948
        &&& 0x7FB1u16 ^ 0x17CFu16 == 0x687E
        &&& 0x0FA8u16 ^ 0x1CC4u16 == 0x136C
        &&& 0x019Du16 ^ 0x30B0u16 == 0x312D
        &&& (0x18A7u16 ^ 0x7BF0u16) ^ 0x474Bu16 == 0x241C
        &&& (0x1C5Bu16 ^ 0x30FEu16) ^ 0x7FB1u16 == 0x5314
        &&& (0x4FCFu16 ^ 0x30E8u16) ^ 0x0FA8u16 == 0x708F
        &&& ((0x474Bu16 ^ 0x7E03u16) ^ 0x0162u16) ^ 0x019Du16 == 0x39B7
        &&& 0x136Cu16 ^ 0x30FEu16 == 0x2392
        &&& 0x241Cu16 ^ 0x0162u16 == 0x257E
        &&& 0x708Fu16 ^ 0x1C5Bu16 == 0x6CD4
        &&& (0x687Eu16 ^ 0x7BF0u16) ^ 0x3948u16 == 0x2AC6
        &&& (0x312Du16 ^ 0x30E8u16) ^ 0x136Cu16 == 0x12A9
        &&& (0x5314u16 ^ 0x18A7u16) ^ 0x241Cu16 == 0x6FAF
        &&& (0x39B7u16 ^ 0x4FCFu16) ^ 0x708Fu16 == 0x06F7
        &&& 0x2392u16 ^ 0x7BF0u16 == 0x5862
        &&& 0x6CD4u16 ^ 0x18A7u16 == 0x7473
        &&& 0x12A9u16 ^ 0x687Eu16 == 0x7AD7
        &&& 0x06F7u16 ^ 0x5314u16 == 0x55E3
        &&& (0x257Eu16 ^ 0x30E8u16) ^ 0x2392u16 == 0x3604
        &&& (0x2AC6u16 ^ 0x4FCFu16) ^ 0x6CD4u16 == 0x09DD
        &&& (0x6FAFu16 ^ 0x312Du16) ^ 0x12A9u16 == 0x4C2B
        &&& ((0x2392u16 ^ 0x7BF0u16) ^ 0x39B7u16) ^ 0x06F7u16 == 0x6722
        &&& 0x7473u16 ^ 0x30E8u16 == 0x449B
        &&& 0x55E3u16 ^ 0x312Du16 == 0x64CE
        &&& 0x09DDu16 ^ 0x257Eu16 == 0x2CA3
        &&& 0x6722u16 ^ 0x6FAFu16 == 0x088D
        &&& (0x7AD7u16 ^ 0x4FCFu16) ^ 0x7473u16 == 0x416B
        &&& (0x3604u16 ^ 0x39B7u16) ^ 0x55E3u16 == 0x5A50
        &&& (0x4C2Bu16 ^ 0x2AC6u16) ^ 0x09DDu16 == 0x6F30
        &&& ((0x7473u16 ^ 0x30E8u16) ^ 0x5862u16) ^ 0x6722u16 == 0x7BDB
    }) by (bit_vector);
    let s0 = seq![0x7FFFu16, 0x7FFEu16, 0x7FFCu16, 0x7FF8u16, 0x7FF0u16, 0x7FE0u16, 0x7FC0u16, 0x7F80u16, 0x7F01u16, 0x7E03u16, 0x7C07u16, 0x780Fu16, 0x701Fu16, 0x603Fu16, 0x407Fu16];
    let s1 = seq![0x7FFEu16, 0x7FF8u16, 0x7FE0u16, 0x7F80u16, 0x7E03u16, 0x780Fu16, 0x603Fu16, 0x00FEu16, 0x03FBu16, 0x0FEFu16, 0x3FBFu16, 0x7EFCu16, 0x7BF0u16, 0x6FC0u16, 0x3F01u16];
    assert(strided(1, 1, s1)) by {
        reveal_with_fuel(continued, 4);
        reveal_with_fuel(stride, 2);
        lemma_halve(0, 0, s0, s1, true);
    }
    let s2 = seq![0x7FFEu16, 0x7FE0u16, 0x7E03u16, 0x603Fu16, 0x03FBu16, 0x3FBFu16, 0x7BF0u16, 0x3F01u16, 0x7017u16, 0x017Cu16, 0x17CFu16, 0x7CFBu16, 0x4FB0u16, 0x7B0Fu16, 0x30FEu16];
    assert(strided(1, 2, s2)) by {
        reveal_with_fuel(continued, 4);
        reveal_with_fuel(stride, 3);
        lemma_halve(1, 1, s1, s2, false);
    }
    let s3 = seq![0x7FFEu16, 0x7E03u16, 0x03FBu16, 0x7BF0u16, 0x7017u16, 0x17CFu16, 0x4FB0u16, 0x30FEu16, 0x7E9Cu16, 0x1CC4u16, 0x44B0u16, 0x30E8u16, 0x68B0u16, 0x30B0u16, 0x3001u16];
    assert(strided(1, 3, s3)) by {
        reveal_with_fuel(continued, 4);
        reveal_with_fuel(stride, 4);
        lemma_halve(1, 2, s2, s3, false);
    }
    let s4 = seq![0x7E03u16, 0x7BF0u16, 0x17CFu16, 0x30FEu16, 0x1CC4u16, 0x30E8u16, 0x30B0u16, 0x0162u16, 0x474Bu16, 0x18A7u16, 0x7FB1u16, 0x1C5Bu16, 0x0FA8u16, 0x4FCFu16, 0x019Du16];
    assert(strided(9, 4, s4)) by {
        reveal_with_fuel(continued, 4);
        reveal_with_fuel(stride, 5);
        lemma_halve(1, 3, s3, s4, true);
    }
    let s5 = seq![0x7BF0u16, 0x30FEu16, 0x30E8u16, 0x0162u16, 0x18A7u16, 0x1C5Bu16, 0x4FCFu16, 0x3948u16, 0x687Eu16, 0x136Cu16, 0x312Du16, 0x241Cu16, 0x5314u16, 0x708Fu16, 0x39B7u16];
    assert(strided(25, 5, s5)) by {
        reveal_with_fuel(continued, 4);
        reveal_with_fuel(stride, 6);
        lemma_halve(9, 4, s4, s5, true);
    }
    let s6 = seq![0x7BF0u16, 0x30E8u16, 0x18A7u16, 0x4FCFu16, 0x687Eu16, 0x312Du16, 0x5314u16, 0x39B7u16, 0x2392u16, 0x257Eu16, 0x6CD4u16, 0x2AC6u16, 0x12A9u16, 0x6FAFu16, 0x06F7u16];
    assert(strided(25, 6, s6)) by {
        reveal_with_fuel(continued, 4);
        reveal_with_fuel(stride, 7);
        lemma_halve(25, 5, s5, s6, false);
    }
    let s7 = seq![0x30E8u16, 0x4FCFu16, 0x312Du16, 0x39B7u16, 0x257Eu16, 0x2AC6u16, 0x6FAFu16, 0x5862u16, 0x7473u16, 0x7AD7u16, 0x55E3u16, 0x3604u16, 0x09DDu16, 0x4C2Bu16, 0x6722u16];
    assert(strided(89, 7, s7)) by {
        reveal_with_fuel(continued, 4);
        reveal_with_fuel(stride, 8);
        lemma_halve(25, 6, s6, s7, true);
    }
    let s8 = seq![0x4FCFu16, 0x39B7u16, 0x2AC6u16, 0x5862u16, 0x7AD7u16, 0x3604u16, 0x4C2Bu16, 0x449Bu16, 0x64CEu16, 0x2CA3u16, 0x088Du16, 0x416Bu16, 0x5A50u16, 0x6F30u16, 0x7BDBu16];
    assert(strided(217, 8, s8)) by {
        reveal_with_fuel(continued, 4);
        reveal_with_fuel(stride, 9);
        lemma_halve(89, 7, s7, s8, true);
    }
    reveal(strided);
    reveal_with_fuel(stride, 10);
    assert(s8[0] == 0x4FCF);
}

/// Equal states have equal predecessors.
proof fn lemma_linear_cancels(t: nat, d: nat)
    requires
        linear_after(t + d) == linear_after(t),
    ensures
        linear_after(d) == linear_after(0),
    decreases t,
{
    if t > 0 {
        let a = linear_after((t + d - 1) as nat);
        let b = linear_after((t - 1) as nat);
        lemma_linear_range((t + d - 1) as nat);
        lemma_linear_range((t - 1) as nat);
        assert(a == b) by (bit_vector)
            requires
                a < 0x8000,
                b < 0x8000,
                linear_step(a) == linear_step(b),
        ;
        assert((t - 1) as nat + d == (t + d - 1) as nat);
        lemma_linear_cancels((t - 1) as nat, d);
    }
}

/// Where the register returns after `d` clocks, it also returns after any
/// number of rounds of `d`, from any clock on.
proof fn lemma_linear_rounds(d: nat, q: nat, n: nat)
    requires
        linear_after(d) == linear_after(0),
    ensures
        linear_after(n + q * d) == linear_after(n),
    decreases q, n,
{
    if n > 0 {
        lemma_linear_rounds(d, q, (n - 1) as nat);
        assert((n - 1) as nat + q * d == (n + q * d - 1) as nat);
    } else if q > 0 {
        let p = (q - 1) as nat;
        assert(q * d == d + p * d) by (nonlinear_arith)
            requires
                q == p + 1,
        ;
        lemma_linear_rounds(d, p, d);
    } else {
        assert(q * d == 0) by (nonlinear_arith)
            requires
                q == 0,
        ;
    }
}

proof fn lemma_divides_sum(g: nat, r: nat, q: nat, a: nat)
    requires
        g > 0,
        r % g == 0,
        a % g == 0,
    ensures
        (r + q * a) % g == 0,
{
    vstd::arithmetic::div_mod::lemma_fundamental_div_mod(r as int, g as int);
    vstd::arithmetic::div_mod::lemma_fundamental_div_mod(a as int, g as int);
    let x = r as int / g as int;
    let y = a as int / g as int;
    assert(r + q * a == (x + q * y) * g) by (nonlinear_arith)
        requires
            r == g * x,
            a == g * y,
    ;
    vstd::arithmetic::div_mod::lemma_mod_multiples_basic(x + q * y, g as int);
}

/// Two return times have a common divisor that is a return time too.
proof fn lemma_common_return(a: nat, b: nat) -> (g: nat)
    requires
        0 < a,
        linear_after(a) == linear_after(0),
        linear_after(b) == linear_after(0),
    ensures
        0 < g <= a,
        a % g == 0,
        b % g == 0,
        linear_after(g) == linear_after(0),
    decreases a,
{
    let q = b / a;
    let r = b % a;
    vstd::arithmetic::div_mod::lemma_fundamental_div_mod(b as int, a as int);
    assert(b == r + q * a) by (nonlinear_arith)
        requires
            b == a * q + r,
    ;
    lemma_linear_rounds(a, q, r);
    if r == 0 {
        vstd::arithmetic::div_mod::lemma_mod_self_0(a as int);
        a
    } else {
        let g = lemma_common_return(r, a);
        lemma_divides_sum(g, r, q, a);
        g
    }
}

/// A proper divisor of 32767 divides 4681, 1057 or 217.
proof fn lemma_proper_divisors(g: nat)
    requires
        0 < g < 32767,
        32767nat % g == 0,
    ensures
        4681nat % g == 0 || 1057nat % g == 0 || 217nat % g == 0,
{
    let h = g as u16;
    assert(4681u16 % h == 0 || 1057u16 % h == 0 || 217u16 % h == 0) by (bit_vector)
        requires
            0 < h < 32767,
            32767u16 % h == 0,
    ;
}

/// The register returns after 32767 clocks.
proof fn lemma_full_return()
    ensures
        linear_after(32767) == linear_after(0),
{
    lemma_after_32768();
    lemma_first_states();
    reveal(strided);
    let s = seq![0x7FFFu16, 0x7FFEu16, 0x7FFCu16, 0x7FF8u16, 0x7FF0u16, 0x7FE0u16, 0x7FC0u16, 0x7F80u16, 0x7F01u16, 0x7E03u16, 0x7C07u16, 0x780Fu16, 0x701Fu16, 0x603Fu16, 0x407Fu16];
    assert(s[1] == 0x7FFE);
    assert(1 * stride(0) == 1);
    assert(linear_after(1) == linear_after(1 + 32767));
    lemma_linear_cancels(1, 32767);
}

proof fn lemma_multiple_returns(g: nat, n: nat)
    requires
        g > 0,
        n % g == 0,
        linear_after(g) == linear_after(0),
    ensures
        linear_after(n) == linear_after(0),
{
    vstd::arithmetic::div_mod::lemma_fundamental_div_mod(n as int, g as int);
    let q = n / g;
    assert(n == q * g) by (nonlinear_arith)
        requires
            n == g * q,
    ;
    lemma_linear_rounds(g, q, 0);
}

/// The register does not return before 32767 clocks.
proof fn lemma_no_early_return(d: nat)
    requires
        0 < d < 32767,
    ensures
        linear_after(d) != linear_after(0),
{
    if linear_after(d) == linear_after(0) {
        lemma_full_return();
        let g = lemma_common_return(d, 32767);
        lemma_proper_divisors(g);
        lemma_after_4681();
        lemma_after_1057();
        lemma_after_217();
        if 4681nat % g == 0 {
            lemma_multiple_returns(g, 4681);
        } else if 1057nat % g == 0 {
            lemma_multiple_returns(g, 1057);
        } else {
            lemma_multiple_returns(g, 217);
        }
    }
}

/// From its power-on state the register runs through 32767 states before it
/// repeats itself: every state of the fifteen stages but the lock.
pub proof fn law_noise_runs_a_full_cycle()
    ensures
        has_cycle(NOISE_SEED, 0x7FFF),
{
    assert(noise_after(NOISE_SEED, 1) == noise_after(NOISE_SEED, (1 + 0x7FFF) as nat)) by {
        lemma_full_return();
        lemma_noise_is_linear(0x7FFF);
        lemma_noise_is_linear(0);
        let s = noise_after(NOISE_SEED, 0x7FFF);
        assert(noise_after(NOISE_SEED, 0x8000) == next_noise_state(s));
        assert(noise_after(NOISE_SEED, 0) == 0);
        assert(noise_after(NOISE_SEED, 1) == next_noise_state(0));
        assert(s % 0x8000 == 0);
        assert(next_noise_state(s) == next_noise_state(0)) by (bit_vector)
            requires
                s % 0x8000 == 0,
        ;
    }
    assert forall|t: nat, u: nat| t < u < t + 0x7FFF implies #[trigger] noise_after(NOISE_SEED, t)
        != #[trigger] noise_after(NOISE_SEED, u) by {
        if noise_after(NOISE_SEED, t) == noise_after(NOISE_SEED, u) {
            lemma_noise_is_linear(t);
            lemma_noise_is_linear(u);
            let d = (u - t) as nat;
            assert(t + d == u);
            lemma_linear_cancels(t, d);
            lemma_no_early_return(d);
        }
    }
}

} // verus!
