//! GLV scalar decomposition: split a scalar `k` into two short components
//! `(k1, k2)` with `k ≡ k1 + k2·λ (mod r)`, using a short basis of the
//! lattice `{(a, b) : a + b·λ ≡ 0 (mod r)}`.

use vstd::prelude::*;

use crate::big::{Big, big_mul, big_sub};
use crate::rounding::{round_div, round_div_big};
use vstd::math::abs;

verus! {

/// One basis vector of the decomposition lattice.
pub struct BasisVector {
    pub c0: Big,
    pub c1: Big,
}

impl View for BasisVector {
    type V = (int, int);

    open spec fn view(&self) -> (int, int) {
        (self.c0@, self.c1@)
    }
}

impl BasisVector {
    pub open spec fn wf(&self) -> bool {
        self.c0.wf() && self.c1.wf()
    }

    pub fn new(c0: Big, c1: Big) -> (r: BasisVector)
        requires
            c0.wf(),
            c1.wf(),
        ensures
            r.wf(),
            r@ == (c0@, c1@),
    {
        BasisVector { c0, c1 }
    }
}

/// The determinant of the basis `{v, u}`.
pub open spec fn spec_det(v0: int, v1: int, u0: int, u1: int) -> int {
    v0 * u1 - v1 * u0
}

/// The decomposition of `k` over the basis `{v, u}`: round the exact rational
/// solution of `(k, 0) = q1·v + q2·u` to the nearest integers, then take the
/// residual vector.
pub open spec fn spec_decompose(k: int, v0: int, v1: int, u0: int, u1: int) -> (int, int) {
    let det = spec_det(v0, v1, u0, u1);
    let q1 = round_div(u1 * k, det);
    let q2 = round_div((-v1) * k, det);
    (k - q1 * v0 - q2 * u0, -(q1 * v1) - q2 * u1)
}

/// Splits the scalar `k` into `(k1, k2)` with `k ≡ k1 + k2·λ (mod r)`, both
/// components bounded by half the corresponding basis-coordinate sum.
pub fn decompose_scalar(k: &Big, v: &BasisVector, u: &BasisVector) -> (kk: (Big, Big))
    requires
        k.wf(),
        v.wf(),
        u.wf(),
        spec_det(v@.0, v@.1, u@.0, u@.1) != 0,
    ensures
        kk.0.wf(),
        kk.1.wf(),
        (kk.0@, kk.1@) == spec_decompose(k@, v@.0, v@.1, u@.0, u@.1),
        2 * abs(kk.0@) <= abs(v@.0) + abs(u@.0),
        2 * abs(kk.1@) <= abs(v@.1) + abs(u@.1),
{
    proof {
        lemma_decompose_short(k@, v@.0, v@.1, u@.0, u@.1);
    }
    let det = big_sub(&big_mul(&v.c0, &u.c1), &big_mul(&v.c1, &u.c0));
    let n1 = big_mul(&u.c1, k);
    let q1 = round_div_big(&n1, &det);
    let neg_v1 = v.c1.neg_big();
    let n2 = big_mul(&neg_v1, k);
    let q2 = round_div_big(&n2, &det);
    let k1 = big_sub(&big_sub(k, &big_mul(&q1, &v.c0)), &big_mul(&q2, &u.c0));
    let p1 = big_mul(&q1, &v.c1);
    let k2 = big_sub(&p1.neg_big(), &big_mul(&q2, &u.c1));
    (k1, k2)
}

/// The zero scalar decomposes to the zero pair.
pub proof fn lemma_decompose_zero(v0: int, v1: int, u0: int, u1: int)
    requires
        spec_det(v0, v1, u0, u1) != 0,
    ensures
        spec_decompose(0, v0, v1, u0, u1) == (0int, 0int),
{
    let det = spec_det(v0, v1, u0, u1);
    vstd::arithmetic::div_mod::lemma_div_of0(abs(det) as int);
    assert(crate::big::trunc_div(0, det) == 0);
    assert(round_div(0, det) == 0);
    assert(u1 * 0 == 0) by (nonlinear_arith);
    assert((-v1) * 0 == 0) by (nonlinear_arith);
}

/// Decomposition congruence: for every scalar `k`, the components satisfy
/// `k1 + k2·λ ≡ k (mod r)`, provided both basis vectors lie in the lattice
/// `{(a, b) : a + b·λ ≡ 0 (mod r)}`.
pub proof fn lemma_decompose_congruence(
    k: int,
    v0: int,
    v1: int,
    u0: int,
    u1: int,
    lam: int,
    r: int,
)
    requires
        r > 0,
        spec_det(v0, v1, u0, u1) != 0,
        (v0 + v1 * lam) % r == 0,
        (u0 + u1 * lam) % r == 0,
    ensures
        ({
            let (k1, k2) = spec_decompose(k, v0, v1, u0, u1);
            (k1 + k2 * lam) % r == k % r
        }),
{
    let det = spec_det(v0, v1, u0, u1);
    let q1 = round_div(u1 * k, det);
    let q2 = round_div((-v1) * k, det);
    let k1 = k - q1 * v0 - q2 * u0;
    let k2 = -(q1 * v1) - q2 * u1;
    let a = v0 + v1 * lam;
    let b = u0 + u1 * lam;
    assert(k1 + k2 * lam == k - q1 * a - q2 * b) by (nonlinear_arith)
        requires
            k1 == k - q1 * v0 - q2 * u0,
            k2 == -(q1 * v1) - q2 * u1,
            a == v0 + v1 * lam,
            b == u0 + u1 * lam,
    ;
    vstd::arithmetic::div_mod::lemma_fundamental_div_mod(a, r);
    vstd::arithmetic::div_mod::lemma_fundamental_div_mod(b, r);
    let ma = a / r;
    let mb = b / r;
    assert(k1 + k2 * lam == r * (-(q1 * ma) - q2 * mb) + k) by (nonlinear_arith)
        requires
            a == r * ma,
            b == r * mb,
            k1 + k2 * lam == k - q1 * a - q2 * b,
    ;
    vstd::arithmetic::div_mod::lemma_mod_multiples_vanish(-(q1 * ma) - q2 * mb, k, r);
}

/// `|a * b| == |a| * |b|`.
proof fn lemma_abs_mul(a: int, b: int)
    ensures
        abs(a * b) == abs(a) * abs(b),
{
    assert(abs(a * b) == abs(a) * abs(b)) by (nonlinear_arith);
}

/// Shortness: both components of the decomposition are bounded by half the
/// corresponding coordinate sum of the basis, independently of `k`.
pub proof fn lemma_decompose_short(k: int, v0: int, v1: int, u0: int, u1: int)
    requires
        spec_det(v0, v1, u0, u1) != 0,
    ensures
        ({
            let (k1, k2) = spec_decompose(k, v0, v1, u0, u1);
            2 * abs(k1) <= abs(v0) + abs(u0) && 2 * abs(k2) <= abs(v1) + abs(u1)
        }),
{
    let det = spec_det(v0, v1, u0, u1);
    let q1 = round_div(u1 * k, det);
    let q2 = round_div((-v1) * k, det);
    let k1 = k - q1 * v0 - q2 * u0;
    let k2 = -(q1 * v1) - q2 * u1;
    let e1 = u1 * k - q1 * det;
    let e2 = (-v1) * k - q2 * det;
    crate::rounding::lemma_round_div_err(u1 * k, det);
    crate::rounding::lemma_round_div_err((-v1) * k, det);
    assert(2 * abs(e1) <= abs(det));
    assert(2 * abs(e2) <= abs(det));
    lemma_residual_identity(det, k, q1, q2, v0, v1, u0, u1, e1, e2, k1, k2);
    lemma_bound_from_identity(det, k1, e1, e2, v0, u0);
    lemma_bound_from_identity(det, k2, e1, e2, v1, u1);
}

/// The residual vector, scaled by the determinant, equals the error vector of
/// the rounding step combined with the basis: `det·k1 == e1·v0 + e2·u0` and
/// `det·k2 == e1·v1 + e2·u1`.
proof fn lemma_residual_identity(
    det: int,
    k: int,
    q1: int,
    q2: int,
    v0: int,
    v1: int,
    u0: int,
    u1: int,
    e1: int,
    e2: int,
    k1: int,
    k2: int,
)
    requires
        det == v0 * u1 - v1 * u0,
        e1 == u1 * k - q1 * det,
        e2 == (-v1) * k - q2 * det,
        k1 == k - q1 * v0 - q2 * u0,
        k2 == -(q1 * v1) - q2 * u1,
    ensures
        det * k1 == e1 * v0 + e2 * u0,
        det * k2 == e1 * v1 + e2 * u1,
{
    let x1 = u1 * k;
    let y1 = q1 * det;
    let x2 = (-v1) * k;
    let y2 = q2 * det;
    assert(e1 * v0 == x1 * v0 - y1 * v0) by (nonlinear_arith)
        requires
            e1 == x1 - y1,
    ;
    assert(e2 * u0 == x2 * u0 - y2 * u0) by (nonlinear_arith)
        requires
            e2 == x2 - y2,
    ;
    assert(e1 * v1 == x1 * v1 - y1 * v1) by (nonlinear_arith)
        requires
            e1 == x1 - y1,
    ;
    assert(e2 * u1 == x2 * u1 - y2 * u1) by (nonlinear_arith)
        requires
            e2 == x2 - y2,
    ;
    assert((u1 * k) * v0 == k * (v0 * u1)) by (nonlinear_arith);
    assert(((-v1) * k) * u0 == -(k * (v1 * u0))) by (nonlinear_arith);
    assert(k * (v0 * u1) - k * (v1 * u0) == k * det) by (nonlinear_arith)
        requires
            det == v0 * u1 - v1 * u0,
    ;
    assert((q1 * det) * v0 == det * (q1 * v0)) by (nonlinear_arith);
    assert((q2 * det) * u0 == det * (q2 * u0)) by (nonlinear_arith);
    assert(k * det + (-(det * (q1 * v0)) - det * (q2 * u0)) == det * k1) by (nonlinear_arith)
        requires
            k1 == k - q1 * v0 - q2 * u0,
    ;
    assert((u1 * k) * v1 == (v1 * u1) * k) by (nonlinear_arith);
    assert(((-v1) * k) * u1 == -((v1 * u1) * k)) by (nonlinear_arith);
    assert((q1 * det) * v1 == det * (q1 * v1)) by (nonlinear_arith);
    assert((q2 * det) * u1 == det * (q2 * u1)) by (nonlinear_arith);
    assert(-(det * (q1 * v1)) - det * (q2 * u1) == det * k2) by (nonlinear_arith)
        requires
            k2 == -(q1 * v1) - q2 * u1,
    ;
}

/// From `det·x == e1·a + e2·b` with both errors at most half of `det`,
/// conclude `2·|x| <= |a| + |b|`.
proof fn lemma_bound_from_identity(det: int, x: int, e1: int, e2: int, a: int, b: int)
    requires
        det != 0,
        det * x == e1 * a + e2 * b,
        2 * abs(e1) <= abs(det),
        2 * abs(e2) <= abs(det),
    ensures
        2 * abs(x) <= abs(a) + abs(b),
{
    lemma_abs_mul(det, x);
    lemma_abs_mul(e1, a);
    lemma_abs_mul(e2, b);
    assert(abs(e1 * a + e2 * b) <= abs(e1 * a) + abs(e2 * b));
    assert(2 * (abs(e1) * abs(a)) <= abs(det) * abs(a)) by (nonlinear_arith)
        requires
            2 * abs(e1) <= abs(det),
    ;
    assert(2 * (abs(e2) * abs(b)) <= abs(det) * abs(b)) by (nonlinear_arith)
        requires
            2 * abs(e2) <= abs(det),
    ;
    assert(abs(det) * (2 * abs(x)) <= abs(det) * (abs(a) + abs(b))) by (nonlinear_arith)
        requires
            abs(det) * abs(x) == abs(e1 * a + e2 * b),
            abs(e1 * a + e2 * b) <= abs(e1) * abs(a) + abs(e2) * abs(b),
            2 * (abs(e1) * abs(a)) <= abs(det) * abs(a),
            2 * (abs(e2) * abs(b)) <= abs(det) * abs(b),
    ;
    assert(2 * abs(x) <= abs(a) + abs(b)) by (nonlinear_arith)
        requires
            abs(det) * (2 * abs(x)) <= abs(det) * (abs(a) + abs(b)),
            abs(det) >= 1,
    ;
}

/// Residual components from already-rounded quotients, exactly as the basis
/// arithmetic defines them: `k1 = k - z1·v0 - z2·u0`, `k2 = -z1·v1 - z2·u1`.
pub fn compute_k1_k2(z1: i128, z2: i128, k: i128, v: Vec<i128>, u: Vec<i128>) -> (r: Vec<i128>)
    requires
        v@.len() == 2,
        u@.len() == 2,
        i128::MIN <= z1 * v@[0] <= i128::MAX,
        i128::MIN <= z2 * u@[0] <= i128::MAX,
        i128::MIN <= k - z1 * v@[0] <= i128::MAX,
        i128::MIN <= k - z1 * v@[0] - z2 * u@[0] <= i128::MAX,
        i128::MIN <= z1 * v@[1] <= i128::MAX,
        i128::MIN <= z2 * u@[1] <= i128::MAX,
        i128::MIN <= 0 - z1 * v@[1] <= i128::MAX,
        i128::MIN <= 0 - z1 * v@[1] - z2 * u@[1] <= i128::MAX,
    ensures
        r@.len() == 2,
        r@[0] == k - z1 * v@[0] - z2 * u@[0],
        r@[1] == 0 - z1 * v@[1] - z2 * u@[1],
{
    let mut decomposition: Vec<i128> = Vec::new();
    decomposition.push(k - z1 * v[0] - z2 * u[0]);
    decomposition.push(0 - z1 * v[1] - z2 * u[1]);
    decomposition
}

} // verus!
