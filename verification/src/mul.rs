//! The combined scalar multiplier: decompose the scalar, map the point
//! through the endomorphism, and walk both half-length scalars in a single
//! simultaneous double-and-add pass.

use vstd::prelude::*;

use crate::big::{Big, big_div, big_lt, big_mul, big_sub};
use crate::curve::GlvCurve;
use crate::decompose::{decompose_scalar, spec_decompose};
use crate::point::{
    endomorphism, neg_point, point_at_infinity, spec_endo, spec_neg, AffinePoint, PointVal,
};
use vstd::arithmetic::power2::pow2;
use vstd::math::abs;

verus! {

/// The number of binary digits of `n` (zero for zero).
pub open spec fn bitlen(n: nat) -> nat
    decreases n,
{
    if n == 0 {
        0
    } else {
        1 + bitlen(n / 2)
    }
}

/// Every value is below two to its bit length.
pub proof fn lemma_bitlen_upper(n: nat)
    ensures
        n < pow2(bitlen(n)),
    decreases n,
{
    if n == 0 {
        vstd::arithmetic::power2::lemma_pow2_pos(0);
    } else {
        lemma_bitlen_upper(n / 2);
        vstd::arithmetic::power2::lemma_pow2_unfold(bitlen(n));
    }
}

/// A value below `pow2(e)` has at most `e` binary digits.
pub proof fn lemma_bitlen_bound(n: nat, e: nat)
    requires
        n < pow2(e),
    ensures
        bitlen(n) <= e,
    decreases n,
{
    if n > 0 {
        if e == 0 {
            assert(pow2(0) == 1) by {
                vstd::arithmetic::power2::lemma_pow2(0);
                vstd::arithmetic::power::lemma_pow0(2);
            }
        } else {
            vstd::arithmetic::power2::lemma_pow2_unfold(e);
            lemma_bitlen_bound(n / 2, (e - 1) as nat);
        }
    }
}

/// Larger values have at least as many binary digits.
pub proof fn lemma_bitlen_monotone(a: nat, b: nat)
    requires
        a <= b,
    ensures
        bitlen(a) <= bitlen(b),
{
    lemma_bitlen_upper(b);
    lemma_bitlen_bound(a, bitlen(b));
}

/// The state of the simultaneous double-and-add pass after consuming the low
/// `w` bits of the two magnitudes, most significant bit first: double, then
/// add the first base on a set bit of `m1`, then the second on a set bit of
/// `m2`.
pub open spec fn spec_shamir<C: GlvCurve>(
    m1: nat,
    m2: nat,
    pp: PointVal,
    qq: PointVal,
    w: nat,
) -> PointVal
    decreases w,
{
    if w == 0 {
        point_at_infinity()
    } else {
        let prev = spec_shamir::<C>(m1 / 2, m2 / 2, pp, qq, (w - 1) as nat);
        let d = C::spec_sum(prev, prev);
        let e = if m1 % 2 == 1 {
            C::spec_sum(d, pp)
        } else {
            d
        };
        if m2 % 2 == 1 {
            C::spec_sum(e, qq)
        } else {
            e
        }
    }
}

/// The width of the combined pass: the bit length of the larger magnitude.
pub open spec fn spec_width(m1: nat, m2: nat) -> nat {
    if m1 > m2 {
        bitlen(m1)
    } else {
        bitlen(m2)
    }
}

/// The value `mul_glv` returns: decompose the scalar over the curve's basis,
/// orient the point and its endomorphism image by the component signs, and
/// run the combined pass over the bit length of the larger magnitude.
pub open spec fn spec_mul_glv<C: GlvCurve>(k: int, p: PointVal) -> PointVal {
    let vv = C::spec_v();
    let uu = C::spec_u();
    let (k1, k2) = spec_decompose(k, vv.0, vv.1, uu.0, uu.1);
    let pp = if k1 < 0 {
        spec_neg(C::spec_base_prime(), p)
    } else {
        p
    };
    let phi = spec_endo(C::spec_base_prime(), C::spec_beta(), p);
    let qq = if k2 < 0 {
        spec_neg(C::spec_base_prime(), phi)
    } else {
        phi
    };
    spec_shamir::<C>(abs(k1), abs(k2), pp, qq, spec_width(abs(k1), abs(k2)))
}

/// Counts the binary digits of a non-negative value.
pub fn bit_length(n: &Big) -> (w: usize)
    requires
        n.wf(),
        0 <= n@,
        n@ < pow2(0x1000_0000),
    ensures
        w == bitlen(n@ as nat),
{
    let mut cur = n.clone_big();
    let mut w: usize = 0;
    let two = Big::from_u64(2);
    proof {
        lemma_bitlen_bound(n@ as nat, 0x1000_0000);
    }
    while !cur.is_zero()
        invariant
            cur.wf(),
            0 <= cur@,
            two.wf(),
            two@ == 2,
            bitlen(n@ as nat) == w + bitlen(cur@ as nat),
            w <= bitlen(n@ as nat),
            bitlen(n@ as nat) <= 0x1000_0000,
        decreases cur@,
    {
        let next = big_div(&cur, &two);
        proof {
            assert(next@ == cur@ / 2);
        }
        cur = next;
        w = w + 1;
    }
    w
}

/// The little-endian bits of a non-negative value, padded to width `w`.
fn bits_le(n: &Big, w: usize) -> (bits: Vec<bool>)
    requires
        n.wf(),
        0 <= n@,
        n@ < pow2(w as nat),
    ensures
        bits@.len() == w,
        forall|i: int|
            0 <= i < w ==> (bits@[i] == ((n@ as nat) / pow2(i as nat) % 2 == 1)),
{
    let mut bits: Vec<bool> = Vec::new();
    let mut cur = n.clone_big();
    let two = Big::from_u64(2);
    let mut j: usize = 0;
    proof {
        vstd::arithmetic::power2::lemma_pow2(0);
        vstd::arithmetic::power::lemma_pow0(2);
        assert(pow2(0) == 1);
    }
    while j < w
        invariant
            j <= w,
            bits@.len() == j,
            cur.wf(),
            0 <= cur@,
            two.wf(),
            two@ == 2,
            n@ >= 0,
            cur@ == (n@ as nat) / pow2(j as nat),
            forall|i: int|
                0 <= i < j ==> (bits@[i] == ((n@ as nat) / pow2(i as nat) % 2 == 1)),
        decreases w - j,
    {
        let q = big_div(&cur, &two);
        let p = big_mul(&q, &two);
        let rem = big_sub(&cur, &p);
        proof {
            assert(q@ == cur@ / 2);
            vstd::arithmetic::div_mod::lemma_fundamental_div_mod(cur@, 2);
            assert(rem@ == cur@ % 2);
            vstd::arithmetic::power2::lemma_pow2_pos(j as nat);
            vstd::arithmetic::div_mod::lemma_div_denominator(n@, pow2(j as nat) as int, 2);
            vstd::arithmetic::power2::lemma_pow2_adds(j as nat, 1);
            vstd::arithmetic::power2::lemma_pow2_unfold(1);
            assert(pow2(1) == 2) by {
                vstd::arithmetic::power2::lemma2_to64();
            }
            assert(pow2((j + 1) as nat) == pow2(j as nat) * 2);
            assert(q@ == (n@ as nat) / pow2((j + 1) as nat));
        }
        bits.push(!rem.is_zero());
        cur = q;
        j = j + 1;
    }
    bits
}

/// Runs the simultaneous double-and-add pass over the bit length of the
/// larger magnitude.
fn shamir_combine<C: GlvCurve>(m1: &Big, m2: &Big, pp: &AffinePoint, qq: &AffinePoint) -> (r:
    AffinePoint)
    requires
        m1.wf(),
        m2.wf(),
        0 <= m1@,
        0 <= m2@,
        m1@ < pow2(0x1000_0000),
        m2@ < pow2(0x1000_0000),
        pp.wf(C::spec_base_prime()),
        qq.wf(C::spec_base_prime()),
    ensures
        r.wf(C::spec_base_prime()),
        r@ == spec_shamir::<C>(
            m1@ as nat,
            m2@ as nat,
            pp@,
            qq@,
            spec_width(m1@ as nat, m2@ as nat),
        ),
{
    proof {
        C::constants_facts();
    }
    let w = if big_lt(m2, m1) {
        bit_length(m1)
    } else {
        bit_length(m2)
    };
    proof {
        lemma_bitlen_upper(m1@ as nat);
        lemma_bitlen_upper(m2@ as nat);
        if m1@ > m2@ {
            lemma_bitlen_monotone(m2@ as nat, m1@ as nat);
            if bitlen(m2@ as nat) < bitlen(m1@ as nat) {
                vstd::arithmetic::power2::lemma_pow2_strictly_increases(
                    bitlen(m2@ as nat),
                    bitlen(m1@ as nat),
                );
            }
        } else {
            lemma_bitlen_monotone(m1@ as nat, m2@ as nat);
            if bitlen(m1@ as nat) < bitlen(m2@ as nat) {
                vstd::arithmetic::power2::lemma_pow2_strictly_increases(
                    bitlen(m1@ as nat),
                    bitlen(m2@ as nat),
                );
            }
        }
        assert(m1@ < pow2(w as nat));
        assert(m2@ < pow2(w as nat));
    }
    let b1 = bits_le(m1, w);
    let b2 = bits_le(m2, w);
    let mut acc = AffinePoint::identity();
    let mut i: usize = w;
    proof {
        vstd::arithmetic::power2::lemma_pow2_pos(w as nat);
        vstd::arithmetic::div_mod::lemma_basic_div(m1@, pow2(w as nat) as int);
        vstd::arithmetic::div_mod::lemma_basic_div(m2@, pow2(w as nat) as int);
    }
    while i > 0
        invariant
            i <= w,
            b1@.len() == w,
            b2@.len() == w,
            m1@ >= 0,
            m2@ >= 0,
            forall|t: int|
                0 <= t < w ==> (b1@[t] == ((m1@ as nat) / pow2(t as nat) % 2 == 1)),
            forall|t: int|
                0 <= t < w ==> (b2@[t] == ((m2@ as nat) / pow2(t as nat) % 2 == 1)),
            pp.wf(C::spec_base_prime()),
            qq.wf(C::spec_base_prime()),
            acc.wf(C::spec_base_prime()),
            C::spec_base_prime() >= 2,
            acc@ == spec_shamir::<C>(
                (m1@ as nat) / pow2(i as nat),
                (m2@ as nat) / pow2(i as nat),
                pp@,
                qq@,
                (w - i) as nat,
            ),
        decreases i,
    {
        i = i - 1;
        let doubled = C::point_add(&acc, &acc);
        let with_p = if b1[i] {
            C::point_add(&doubled, pp)
        } else {
            doubled
        };
        let with_q = if b2[i] {
            C::point_add(&with_p, qq)
        } else {
            with_p
        };
        proof {
            let a1 = (m1@ as nat) / pow2(i as nat);
            let a2 = (m2@ as nat) / pow2(i as nat);
            vstd::arithmetic::power2::lemma_pow2_pos(i as nat);
            vstd::arithmetic::div_mod::lemma_div_denominator(m1@, pow2(i as nat) as int, 2);
            vstd::arithmetic::div_mod::lemma_div_denominator(m2@, pow2(i as nat) as int, 2);
            vstd::arithmetic::power2::lemma_pow2_adds(i as nat, 1);
            assert(pow2(1) == 2) by {
                vstd::arithmetic::power2::lemma2_to64();
            }
            assert(a1 / 2 == (m1@ as nat) / pow2((i + 1) as nat));
            assert(a2 / 2 == (m2@ as nat) / pow2((i + 1) as nat));
            assert(b1@[i as int] == (a1 % 2 == 1));
            assert(b2@[i as int] == (a2 % 2 == 1));
        }
        acc = with_q;
    }
    proof {
        assert(pow2(0) == 1) by {
            vstd::arithmetic::power2::lemma2_to64();
        }
        vstd::arithmetic::div_mod::lemma_div_basics(m1@);
        vstd::arithmetic::div_mod::lemma_div_basics(m2@);
        assert((m1@ as nat) / pow2(0) == m1@ as nat);
        assert((m2@ as nat) / pow2(0) == m2@ as nat);
    }
    acc
}

/// Multiplies a curve point by a scalar `k` in `[0, r)` through the GLV
/// decomposition: `k·P` is computed as `k1·P + k2·φ(P)` in one combined
/// double-and-add pass over half-length magnitudes.
pub fn mul_glv<C: GlvCurve>(k: &Big, p: &AffinePoint) -> (r: AffinePoint)
    requires
        k.wf(),
        0 <= k@ < C::spec_order(),
        p.wf(C::spec_base_prime()),
    ensures
        r.wf(C::spec_base_prime()),
        r@ == spec_mul_glv::<C>(k@, p@),
{
    proof {
        C::constants_facts();
    }
    let (v, u) = C::basis_vectors();
    let (k1, k2) = decompose_scalar(k, &v, &u);
    proof {
        lemma_short_magnitude_bound(
            k1@,
            (abs(C::spec_v().0) + abs(C::spec_u().0)) as int,
            C::spec_order(),
        );
        lemma_short_magnitude_bound(
            k2@,
            (abs(C::spec_v().1) + abs(C::spec_u().1)) as int,
            C::spec_order(),
        );
    }
    let prime = C::base_prime();
    let beta = C::endomorphism_constant();
    let m1 = k1.abs_big();
    let m2 = k2.abs_big();
    let pp = if k1.is_negative() {
        neg_point(p, &prime)
    } else {
        p.clone_point()
    };
    let phi = endomorphism(p, &beta, &prime);
    let qq = if k2.is_negative() {
        neg_point(&phi, &prime)
    } else {
        phi
    };
    shamir_combine::<C>(&m1, &m2, &pp, &qq)
}

/// A decomposition component whose doubled magnitude is below a bound whose
/// square is below `16·r` has magnitude below `2^130`, comfortably within
/// the width the bit walker accepts.
proof fn lemma_short_magnitude_bound(k1: int, s: int, r: int)
    requires
        2 * abs(k1) <= s,
        s * s < 16 * r,
        r >= 2,
        r < pow2(256),
    ensures
        abs(k1) < pow2(0x1000_0000),
{
    let a = abs(k1) as int;
    assert((2 * a) * (2 * a) <= s * s) by (nonlinear_arith)
        requires
            0 <= 2 * a <= s,
    ;
    vstd::arithmetic::power2::lemma_pow2_adds(130, 130);
    assert(pow2(260) == pow2(130) * pow2(130));
    vstd::arithmetic::power2::lemma_pow2_adds(256, 4);
    assert(pow2(4) == 16) by {
        vstd::arithmetic::power2::lemma2_to64();
    }
    assert((2 * a) * (2 * a) < pow2(260));
    assert(2 * a < pow2(130)) by (nonlinear_arith)
        requires
            (2 * a) * (2 * a) < pow2(130) * pow2(130),
            a >= 0,
            pow2(130) > 0,
    ;
    vstd::arithmetic::power2::lemma_pow2_strictly_increases(130, 0x1000_0000);
}

/// Decomposition congruence over a curve's compiled-in constants: for every
/// scalar `k`, the components satisfy `k1 + k2·λ ≡ k (mod r)`.
pub proof fn lemma_decompose_congruence_curve<C: GlvCurve>(k: int)
    ensures
        ({
            let vv = C::spec_v();
            let uu = C::spec_u();
            let (k1, k2) = spec_decompose(k, vv.0, vv.1, uu.0, uu.1);
            (k1 + k2 * C::spec_eigenvalue()) % C::spec_order() == k % C::spec_order()
        }),
{
    C::constants_facts();
    crate::decompose::lemma_decompose_congruence(
        k,
        C::spec_v().0,
        C::spec_v().1,
        C::spec_u().0,
        C::spec_u().1,
        C::spec_eigenvalue(),
        C::spec_order(),
    );
}

/// Shortness over a curve's compiled-in constants, with the constant fixed at
/// two: each component squared is below `4·r`, that is `|k1| < 2·sqrt(r)` and
/// `|k2| < 2·sqrt(r)`.
pub proof fn lemma_decompose_short_curve<C: GlvCurve>(k: int)
    ensures
        ({
            let vv = C::spec_v();
            let uu = C::spec_u();
            let (k1, k2) = spec_decompose(k, vv.0, vv.1, uu.0, uu.1);
            k1 * k1 < 4 * C::spec_order() && k2 * k2 < 4 * C::spec_order()
        }),
{
    C::constants_facts();
    crate::decompose::lemma_decompose_short(
        k,
        C::spec_v().0,
        C::spec_v().1,
        C::spec_u().0,
        C::spec_u().1,
    );
    let vv = C::spec_v();
    let uu = C::spec_u();
    let (k1, k2) = spec_decompose(k, vv.0, vv.1, uu.0, uu.1);
    lemma_squared_bound(k1, (abs(vv.0) + abs(uu.0)) as int, C::spec_order());
    lemma_squared_bound(k2, (abs(vv.1) + abs(uu.1)) as int, C::spec_order());
}

/// From `2·|x| <= s` and `s² < 16·r`, conclude `x² < 4·r`.
proof fn lemma_squared_bound(x: int, s: int, r: int)
    requires
        2 * abs(x) <= s,
        s * s < 16 * r,
    ensures
        x * x < 4 * r,
{
    let a = abs(x) as int;
    assert(x * x == a * a) by (nonlinear_arith)
        requires
            x == a || x == -a,
    ;
    assert(4 * (a * a) <= s * s) by (nonlinear_arith)
        requires
            0 <= 2 * a <= s,
    ;
}

/// The per-curve parameters of the endomorphism: the base-field constant `β`
/// and the eigenvalue `λ`.
pub fn prepare_parameters<C: GlvCurve>() -> (r: (Big, Big))
    ensures
        r.0.wf(),
        r.0@ == C::spec_beta(),
        r.1.wf(),
        r.1@ == C::spec_eigenvalue(),
{
    (C::endomorphism_constant(), C::eigenvalue())
}

} // verus!
