//! Wrapping arithmetic: positions on a screen or in a map that repeats.

use vstd::arithmetic::div_mod::{
    lemma_add_mod_noop, lemma_fundamental_div_mod, lemma_fundamental_div_mod_converse,
    lemma_mod_twice, lemma_sub_mod_noop,
};
use vstd::prelude::*;

verus! {

/// An offset added inside or outside the wrap ends at the same place.
pub proof fn lemma_wrap_plus(a: int, k: int, m: int)
    requires
        m > 0,
    ensures
        (a % m + k) % m == (a + k) % m,
        (k + a % m) % m == (a + k) % m,
        (a % m - k) % m == (a - k) % m,
        (k - a % m) % m == (k - a) % m,
{
    lemma_add_mod_noop(a % m, k, m);
    lemma_add_mod_noop(a, k, m);
    lemma_sub_mod_noop(a % m, k, m);
    lemma_sub_mod_noop(a, k, m);
    lemma_sub_mod_noop(k, a % m, m);
    lemma_sub_mod_noop(k, a, m);
    lemma_mod_twice(a, m);
}

/// A position within the wrap is its own remainder.
pub proof fn lemma_wrap_small(a: int, m: int)
    requires
        0 <= a < m,
    ensures
        a % m == a,
{
    vstd::arithmetic::div_mod::lemma_small_mod(a as nat, m as nat);
}

/// A count within a group of groups: its place in the inner group, and which
/// inner group that is.
pub proof fn lemma_wrap_nested(x: int, a: int, b: int)
    requires
        0 <= x,
        a > 0,
        b > 0,
    ensures
        (x % (a * b)) % a == x % a,
        (x % (a * b)) / a == (x / a) % b,
{
    let q = (x / a) / b;
    let r = (x / a) % b;
    let s = x % a;
    lemma_fundamental_div_mod(x, a);
    lemma_fundamental_div_mod(x / a, b);
    assert(x / a >= 0) by (nonlinear_arith)
        requires
            x >= 0,
            a > 0,
    ;
    let low = a * r + s;
    assert(x == (a * b) * q + low) by (nonlinear_arith)
        requires
            x == a * (x / a) + s,
            x / a == b * q + r,
            low == a * r + s,
    ;
    assert(0 <= low < a * b) by (nonlinear_arith)
        requires
            low == a * r + s,
            0 <= s < a,
            0 <= r < b,
    ;
    assert((a * b) * q == q * (a * b)) by (nonlinear_arith);
    lemma_fundamental_div_mod_converse(x, a * b, q, low);
    assert(a * r == r * a) by (nonlinear_arith);
    lemma_fundamental_div_mod_converse(low, a, r, s);
}

} // verus!
