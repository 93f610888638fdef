//! Rounding of exact rational quotients to the nearest integer, with ties
//! away from zero, done entirely with exact integer arithmetic.

use vstd::prelude::*;

use crate::big::{Big, big_add, big_div, big_lt, big_mul, big_sub, trunc_div};
use vstd::math::abs;

verus! {

/// The integer nearest to the exact quotient `n / d`, with ties rounded away
/// from zero.
pub open spec fn round_div(n: int, d: int) -> int {
    let q = trunc_div(n, d);
    let r = n - q * d;
    if 2 * abs(r) >= abs(d) {
        if (n >= 0) == (d >= 0) {
            q + 1
        } else {
            q - 1
        }
    } else {
        q
    }
}

/// The remainder left by truncating division is smaller in magnitude than the
/// divisor and carries the sign of the dividend.
pub proof fn lemma_trunc_div_rem(n: int, d: int)
    requires
        d != 0,
    ensures
        abs(n - trunc_div(n, d) * d) < abs(d),
        n >= 0 ==> n - trunc_div(n, d) * d >= 0,
        n <= 0 ==> n - trunc_div(n, d) * d <= 0,
{
    let an = abs(n) as int;
    let ad = abs(d) as int;
    let q0 = an / ad;
    let rm = an % ad;
    vstd::arithmetic::div_mod::lemma_fundamental_div_mod(an, ad);
    vstd::arithmetic::div_mod::lemma_mod_division_less_than_divisor(an, ad);
    assert(an == ad * q0 + rm);
    if n >= 0 {
        if d > 0 {
            assert(trunc_div(n, d) == q0);
            assert(q0 * d == ad * q0) by (nonlinear_arith)
                requires
                    d == ad,
            ;
        } else {
            assert(trunc_div(n, d) == -q0);
            assert((-q0) * d == ad * q0) by (nonlinear_arith)
                requires
                    d == -ad,
            ;
        }
    } else {
        if d > 0 {
            assert(trunc_div(n, d) == -q0);
            assert((-q0) * d == -(ad * q0)) by (nonlinear_arith)
                requires
                    d == ad,
            ;
        } else {
            assert(trunc_div(n, d) == q0);
            assert(q0 * d == -(ad * q0)) by (nonlinear_arith)
                requires
                    d == -ad,
            ;
        }
    }
}

/// Rounding to the nearest integer leaves an error of at most half the
/// divisor: `|n - round_div(n, d) * d| <= |d| / 2`, stated without division.
pub proof fn lemma_round_div_err(n: int, d: int)
    requires
        d != 0,
    ensures
        2 * abs(n - round_div(n, d) * d) <= abs(d),
{
    lemma_trunc_div_rem(n, d);
    let q = trunc_div(n, d);
    let r = n - q * d;
    if 2 * abs(r) >= abs(d) {
        if (n >= 0) == (d >= 0) {
            assert((q + 1) * d == q * d + d) by (nonlinear_arith);
            if n >= 0 {
                assert(d > 0);
            } else {
                assert(d < 0);
            }
        } else {
            assert((q - 1) * d == q * d - d) by (nonlinear_arith);
            if n >= 0 {
                assert(d < 0);
            } else {
                assert(d > 0);
            }
        }
    }
}

/// Exact nearest-integer division on arbitrary-precision values.
pub fn round_div_big(n: &Big, d: &Big) -> (r: Big)
    requires
        n.wf(),
        d.wf(),
        d@ != 0,
    ensures
        r.wf(),
        r@ == round_div(n@, d@),
{
    let q0 = big_div(n, d);
    let prod = big_mul(&q0, d);
    let rem = big_sub(n, &prod);
    let abs_rem = rem.abs_big();
    let twice = big_add(&abs_rem, &abs_rem);
    let abs_d = d.abs_big();
    if !big_lt(&twice, &abs_d) {
        let one = Big::from_u64(1);
        if n.is_negative() == d.is_negative() {
            big_add(&q0, &one)
        } else {
            big_sub(&q0, &one)
        }
    } else {
        q0
    }
}

} // verus!
