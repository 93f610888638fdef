//! Verified modular arithmetic on arbitrary-precision values, built from the
//! exact ring operations.

use vstd::prelude::*;

use crate::big::{Big, big_add, big_div, big_mul, big_sub, trunc_div};

verus! {

/// Reduces a non-negative value modulo `m` by subtracting the truncated
/// quotient times `m`.
pub fn mod_reduce(t: &Big, m: &Big) -> (r: Big)
    requires
        t.wf(),
        m.wf(),
        t@ >= 0,
        m@ >= 1,
    ensures
        r.wf(),
        r@ == t@ % m@,
        0 <= r@ < m@,
{
    proof {
        vstd::arithmetic::div_mod::lemma_fundamental_div_mod(t@, m@);
        vstd::arithmetic::div_mod::lemma_mod_division_less_than_divisor(t@, m@);
        assert(trunc_div(t@, m@) == t@ / m@);
    }
    let q = big_div(t, m);
    let p = big_mul(&q, m);
    let r = big_sub(t, &p);
    proof {
        assert(q@ * m@ == m@ * (t@ / m@)) by (nonlinear_arith)
            requires
                q@ == t@ / m@,
        ;
    }
    r
}

/// `(a + b) % m` for non-negative operands.
pub fn mod_add(a: &Big, b: &Big, m: &Big) -> (r: Big)
    requires
        a.wf(),
        b.wf(),
        m.wf(),
        a@ >= 0,
        b@ >= 0,
        m@ >= 1,
    ensures
        r.wf(),
        r@ == (a@ + b@) % m@,
        0 <= r@ < m@,
{
    let t = big_add(a, b);
    mod_reduce(&t, m)
}

/// `(a - b) % m` for operands already reduced modulo `m`; the result is the
/// canonical non-negative representative.
pub fn mod_sub(a: &Big, b: &Big, m: &Big) -> (r: Big)
    requires
        a.wf(),
        b.wf(),
        m.wf(),
        0 <= a@ < m@,
        0 <= b@ < m@,
        m@ >= 1,
    ensures
        r.wf(),
        r@ == (a@ - b@) % m@,
        0 <= r@ < m@,
{
    let s = big_add(a, m);
    let t = big_sub(&s, b);
    let r = mod_reduce(&t, m);
    proof {
        vstd::arithmetic::div_mod::lemma_mod_add_multiples_vanish(a@ - b@, m@);
    }
    r
}

/// `(a * b) % m` for non-negative operands.
pub fn mod_mul(a: &Big, b: &Big, m: &Big) -> (r: Big)
    requires
        a.wf(),
        b.wf(),
        m.wf(),
        a@ >= 0,
        b@ >= 0,
        m@ >= 1,
    ensures
        r.wf(),
        r@ == (a@ * b@) % m@,
        0 <= r@ < m@,
{
    let t = big_mul(a, b);
    proof {
        assert(a@ * b@ >= 0) by (nonlinear_arith)
            requires
                a@ >= 0,
                b@ >= 0,
        ;
    }
    mod_reduce(&t, m)
}

} // verus!
