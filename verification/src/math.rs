//! Arithmetic facts about the 128-bit signed integer math the contracts use:
//! floor division bounds for proportional share issuance and the basis-point
//! fee split, and the equivalence between the executable form of the
//! guarantee threshold test and its specification.

use vstd::prelude::*;

verus! {

use vstd::arithmetic::div_mod::{
    lemma_div_is_ordered, lemma_fundamental_div_mod, lemma_div_multiples_vanish,
};
use vstd::arithmetic::mul::lemma_mul_inequality;

/// Truncated (round-toward-zero) division, the behaviour of `/` on `i128`.
/// For a non-negative dividend it coincides with floor division.
pub open spec fn trunc_div(x: int, d: int) -> int
    recommends
        d > 0,
{
    if x >= 0 {
        x / d
    } else {
        -((-x) / d)
    }
}

/// Floor division of non-negative values stays non-negative and never
/// exceeds the dividend.
pub proof fn lemma_div_bounds(x: int, d: int)
    requires
        x >= 0,
        d > 0,
    ensures
        0 <= x / d <= x,
{
    lemma_fundamental_div_mod(x, d);
    assert(0 <= x / d <= x) by (nonlinear_arith)
        requires
            x >= 0,
            d > 0,
            x == d * (x / d) + x % d,
            0 <= x % d < d,
    ;
}

/// Floor division is monotone in the dividend.
pub proof fn lemma_div_ordered(x: int, y: int, d: int)
    requires
        x <= y,
        d > 0,
    ensures
        x / d <= y / d,
{
    lemma_div_is_ordered(x, y, d);
}

/// A product divided by one of its factors gives back the other:
/// `(s * t) / s == t` for `s > 0`.
pub proof fn lemma_mul_div_exact(s: int, t: int)
    requires
        s > 0,
    ensures
        (s * t) / s == t,
{
    lemma_div_multiples_vanish(t, s);
    assert(s * t == t * s) by (nonlinear_arith);
}

/// Burning `s` of `ts` outstanding shares pays out at most the whole pool:
/// `(s * tl) / ts <= tl`, and the payout is non-negative.
pub proof fn lemma_payout_bounds(s: int, tl: int, ts: int)
    requires
        0 <= s <= ts,
        0 <= tl,
        0 < ts,
    ensures
        0 <= (s * tl) / ts <= tl,
        s == ts ==> (s * tl) / ts == tl,
{
    lemma_mul_inequality(s, ts, tl);
    lemma_div_ordered(s * tl, ts * tl, ts);
    lemma_mul_div_exact(ts, tl);
    assert(s * tl >= 0) by (nonlinear_arith)
        requires
            s >= 0,
            tl >= 0,
    ;
    lemma_div_bounds(s * tl, ts);
}

/// The two floored fee portions of a positive interest amount are
/// non-negative and never exceed the whole, so the remainder assigned to the
/// third recipient is non-negative as well.
pub proof fn lemma_fee_split_bounds(i: int)
    requires
        i > 0,
    ensures
        0 <= (i * 8500) / 10000 <= i,
        0 <= (i * 1000) / 10000 <= i,
        (i * 8500) / 10000 + (i * 1000) / 10000 <= i,
{
    let lp = (i * 8500) / 10000;
    let pr = (i * 1000) / 10000;
    assert(i * 8500 >= 0 && i * 1000 >= 0 && i * 8500 <= i * 10000 && i * 1000 <= i * 10000)
        by (nonlinear_arith)
        requires
            i > 0,
    ;
    lemma_div_bounds(i * 8500, 10000);
    lemma_div_bounds(i * 1000, 10000);
    lemma_div_ordered(i * 8500, i * 10000, 10000);
    lemma_div_ordered(i * 1000, i * 10000, 10000);
    lemma_fundamental_div_mod(i * 8500, 10000);
    lemma_fundamental_div_mod(i * 1000, 10000);
    assert(lp + pr <= i) by (nonlinear_arith)
        requires
            i * 8500 == 10000 * lp + (i * 8500) % 10000,
            i * 1000 == 10000 * pr + (i * 1000) % 10000,
            0 <= (i * 8500) % 10000 < 10000,
            0 <= (i * 1000) % 10000 < 10000,
            i > 0,
    ;
}

/// The guarantee threshold `g * 100 >= t * 20` (a guarantee of at least 20%
/// of the loan) is decided, without any risk of overflow, by comparing `g`
/// against the rounded-up fifth of `t`.
pub proof fn lemma_guarantee_threshold(g: int, t: int)
    requires
        t > 0,
        g > 0,
    ensures
        (g * 100 >= t * 20) <==> (g >= t / 5 + if t % 5 == 0 { 0int } else { 1int }),
{
    lemma_fundamental_div_mod(t, 5);
    assert((g * 100 >= t * 20) <==> (g >= t / 5 + if t % 5 == 0 { 0int } else { 1int }))
        by (nonlinear_arith)
        requires
            t > 0,
            g > 0,
            t == 5 * (t / 5) + t % 5,
            0 <= t % 5 < 5,
    ;
}

} // verus!
