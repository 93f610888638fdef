//! The capability interface for curves with a usable endomorphism, and its
//! two compiled-in instances: BLS12-381 G1 and BN254 G1.  Point addition is
//! performed by the `ark` curve arithmetic behind trusted wrappers; every
//! constant is built and checked against its exact integer value.

use vstd::prelude::*;

use crate::big::{Big, big_add, big_mul};
use crate::decompose::{spec_det, BasisVector};
use crate::point::{AffinePoint, PointVal};
use vstd::math::abs;

verus! {

// ----------------------------------------------------------------------------
// The exact integer values of the compiled-in constants.
// ----------------------------------------------------------------------------

pub open spec fn bls12_381_order() -> int {
    52435875175126190479447740508185965837690552500527637822603658699938581184513int
}

pub open spec fn bls12_381_eigenvalue() -> int {
    228988810152649578064853576960394133503int
}

pub open spec fn bls12_381_beta() -> int {
    4002409555221667392624310435006688643935503118305586438271171395842971157480381377015405980053539358417135540939436int
}

pub open spec fn bls12_381_base_prime() -> int {
    4002409555221667393417789825735904156556882819939007885332058136124031650490837864442687629129015664037894272559787int
}

pub open spec fn bls12_381_v() -> (int, int) {
    (1, 228988810152649578064853576960394133504int)
}

pub open spec fn bls12_381_u() -> (int, int) {
    (228988810152649578064853576960394133503int, -1)
}

pub open spec fn bn254_order() -> int {
    21888242871839275222246405745257275088548364400416034343698204186575808495617int
}

pub open spec fn bn254_eigenvalue() -> int {
    4407920970296243842393367215006156084916469457145843978461int
}

pub open spec fn bn254_beta() -> int {
    2203960485148121921418603742825762020974279258880205651966int
}

pub open spec fn bn254_base_prime() -> int {
    21888242871839275222246405745257275088696311157297823662689037894645226208583int
}

pub open spec fn bn254_v() -> (int, int) {
    (9931322734385697763int, -147946756881789319000765030803803410728int)
}

pub open spec fn bn254_u() -> (int, int) {
    (147946756881789319010696353538189108491int, 9931322734385697763int)
}

/// `2^256`, written out.
proof fn lemma_pow2_256_value()
    ensures
        vstd::arithmetic::power2::pow2(256)
            == 115792089237316195423570985008687907853269984665640564039457584007913129639936int,
{
    vstd::arithmetic::power2::lemma2_to64();
    vstd::arithmetic::power2::lemma_pow2_adds(64, 64);
    assert(0x1_0000_0000_0000_0000int * 0x1_0000_0000_0000_0000int
        == 0x1_0000_0000_0000_0000_0000_0000_0000_0000int) by (nonlinear_arith);
    vstd::arithmetic::power2::lemma_pow2_adds(128, 128);
    assert(0x1_0000_0000_0000_0000_0000_0000_0000_0000int
        * 0x1_0000_0000_0000_0000_0000_0000_0000_0000int
        == 115792089237316195423570985008687907853269984665640564039457584007913129639936int)
        by (nonlinear_arith);
}

/// Appends one base-2^64 digit to an accumulator: `acc·2^64 + d`.
fn push_digit(acc: &Big, d: u64) -> (r: Big)
    requires
        acc.wf(),
    ensures
        r.wf(),
        r@ == acc@ * 0x1_0000_0000_0000_0000 + d,
{
    let b32 = Big::from_u64(0x1_0000_0000);
    let b64 = big_mul(&b32, &b32);
    let shifted = big_mul(acc, &b64);
    big_add(&shifted, &Big::from_u64(d))
}

// ----------------------------------------------------------------------------
// The capability interface (static dispatch, one impl per supported curve).
// ----------------------------------------------------------------------------

/// A short-Weierstrass curve with an endomorphism of the cube-root-of-unity
/// form: `φ(x, y) = (β·x, y)` acts as multiplication by the eigenvalue `λ` on
/// the subgroup of order `r`.
pub trait GlvCurve {
    /// The order `r` of the scalar subgroup.
    spec fn spec_order() -> int;

    /// The eigenvalue `λ` of the endomorphism on the `r`-torsion.
    spec fn spec_eigenvalue() -> int;

    /// The base-field constant `β` defining the endomorphism.
    spec fn spec_beta() -> int;

    /// The order of the base field the coordinates live in.
    spec fn spec_base_prime() -> int;

    /// First vector of the short lattice basis.
    spec fn spec_v() -> (int, int);

    /// Second vector of the short lattice basis.
    spec fn spec_u() -> (int, int);

    /// The value of the curve's point addition on coordinate values.
    spec fn spec_sum(p: PointVal, q: PointVal) -> PointVal;

    /// The compiled-in constants are coherent: the basis is non-degenerate,
    /// both basis vectors lie in the lattice `{(a, b) : a + b·λ ≡ 0 (mod r)}`,
    /// and both coordinate sums are below `4·sqrt(r)`, stated squared.
    proof fn constants_facts()
        ensures
            Self::spec_order() >= 2,
            Self::spec_order() < vstd::arithmetic::power2::pow2(256),
            Self::spec_base_prime() >= 2,
            0 <= Self::spec_beta() < Self::spec_base_prime(),
            0 < Self::spec_eigenvalue() < Self::spec_order(),
            spec_det(Self::spec_v().0, Self::spec_v().1, Self::spec_u().0, Self::spec_u().1)
                != 0,
            (Self::spec_v().0 + Self::spec_v().1 * Self::spec_eigenvalue()) % Self::spec_order()
                == 0,
            (Self::spec_u().0 + Self::spec_u().1 * Self::spec_eigenvalue()) % Self::spec_order()
                == 0,
            (abs(Self::spec_v().0) + abs(Self::spec_u().0)) * (abs(Self::spec_v().0) + abs(
                Self::spec_u().0,
            )) < 16 * Self::spec_order(),
            (abs(Self::spec_v().1) + abs(Self::spec_u().1)) * (abs(Self::spec_v().1) + abs(
                Self::spec_u().1,
            )) < 16 * Self::spec_order(),
    ;

    fn order() -> (r: Big)
        ensures
            r.wf(),
            r@ == Self::spec_order(),
    ;

    fn eigenvalue() -> (r: Big)
        ensures
            r.wf(),
            r@ == Self::spec_eigenvalue(),
    ;

    fn endomorphism_constant() -> (r: Big)
        ensures
            r.wf(),
            r@ == Self::spec_beta(),
    ;

    fn base_prime() -> (r: Big)
        ensures
            r.wf(),
            r@ == Self::spec_base_prime(),
    ;

    fn basis_vectors() -> (r: (BasisVector, BasisVector))
        ensures
            r.0.wf(),
            r.1.wf(),
            r.0@ == Self::spec_v(),
            r.1@ == Self::spec_u(),
    ;

    /// Adds two points of this curve (doubling included).
    fn point_add(p: &AffinePoint, q: &AffinePoint) -> (r: AffinePoint)
        requires
            p.wf(Self::spec_base_prime()),
            q.wf(Self::spec_base_prime()),
        ensures
            r.wf(Self::spec_base_prime()),
            r@ == Self::spec_sum(p@, q@),
    ;
}

// ----------------------------------------------------------------------------
// BLS12-381 G1
// ----------------------------------------------------------------------------

/// What BLS12-381 G1 point addition returns, as a function of the canonical
/// affine coordinate values alone.
pub uninterp spec fn bls12_381_g1_sum(p: PointVal, q: PointVal) -> PointVal;

/// Relies on `ark_bls12_381` / `ark_ec`: Jacobian point addition on the
/// BLS12-381 G1 curve (`GroupAffine::add`, doubling and identity handled),
/// with canonical reduced affine coordinates read back through
/// `PrimeField::into_repr`; and on `num_bigint` digit/byte conversions.
#[verifier::external_body]
fn bls12_381_g1_add(p: &AffinePoint, q: &AffinePoint) -> (r: AffinePoint)
    requires
        p.wf(bls12_381_base_prime()),
        q.wf(bls12_381_base_prime()),
    ensures
        r.wf(bls12_381_base_prime()),
        r@ == bls12_381_g1_sum(p@, q@),
{
    let fe = |c: &Big| <ark_bls12_381::Fq as ark_ff::PrimeField>::from_le_bytes_mod_order(&num_bigint::BigUint::from_slice(&c.mag).to_bytes_le());
    let s = ark_bls12_381::G1Affine::new(fe(&p.x), fe(&p.y), p.infinity)
        + ark_bls12_381::G1Affine::new(fe(&q.x), fe(&q.y), q.infinity);
    if ark_std::Zero::is_zero(&s) {
        return AffinePoint::identity();
    }
    let back = |e: &ark_bls12_381::Fq| Big {
        negative: false,
        mag: num_bigint::BigUint::from_bytes_le(&ark_ff::BigInteger::to_bytes_le(&ark_ff::PrimeField::into_repr(e))).to_u32_digits(),
    };
    AffinePoint { x: back(&s.x), y: back(&s.y), infinity: false }
}

/// The BLS12-381 G1 curve.
pub struct Bls12381G1;

impl GlvCurve for Bls12381G1 {
    open spec fn spec_order() -> int {
        bls12_381_order()
    }

    open spec fn spec_eigenvalue() -> int {
        bls12_381_eigenvalue()
    }

    open spec fn spec_beta() -> int {
        bls12_381_beta()
    }

    open spec fn spec_base_prime() -> int {
        bls12_381_base_prime()
    }

    open spec fn spec_v() -> (int, int) {
        bls12_381_v()
    }

    open spec fn spec_u() -> (int, int) {
        bls12_381_u()
    }

    open spec fn spec_sum(p: PointVal, q: PointVal) -> PointVal {
        bls12_381_g1_sum(p, q)
    }

    proof fn constants_facts() {
        lemma_pow2_256_value();
        assert(bls12_381_v().0 + bls12_381_v().1 * bls12_381_eigenvalue() == 1
            * bls12_381_order());
        vstd::arithmetic::div_mod::lemma_mod_multiples_basic(1, bls12_381_order());
        assert(bls12_381_u().0 + bls12_381_u().1 * bls12_381_eigenvalue() == 0
            * bls12_381_order());
        vstd::arithmetic::div_mod::lemma_mod_multiples_basic(0, bls12_381_order());
        assert(abs(bls12_381_v().0) + abs(bls12_381_u().0)
            == 228988810152649578064853576960394133504int);
        assert(abs(bls12_381_v().1) + abs(bls12_381_u().1)
            == 228988810152649578064853576960394133505int);
        assert(228988810152649578064853576960394133504int
            * 228988810152649578064853576960394133504int < 16 * bls12_381_order())
            by (nonlinear_arith);
        assert(228988810152649578064853576960394133505int
            * 228988810152649578064853576960394133505int < 16 * bls12_381_order())
            by (nonlinear_arith);
    }

    fn order() -> (r: Big) {
        let a = Big::from_u64(0x73eda753299d7d48);
        let a = push_digit(&a, 0x3339d80809a1d805);
        let a = push_digit(&a, 0x53bda402fffe5bfe);
        let a = push_digit(&a, 0xffffffff00000001);
        a
    }

    fn eigenvalue() -> (r: Big) {
        let a = Big::from_u64(0xac45a4010001a402);
        let a = push_digit(&a, 0xffffffff);
        a
    }

    fn endomorphism_constant() -> (r: Big) {
        let a = Big::from_u64(0x1a0111ea397fe699);
        let a = push_digit(&a, 0xec02408663d4de85);
        let a = push_digit(&a, 0xaa0d857d89759ad4);
        let a = push_digit(&a, 0x897d29650fb85f9b);
        let a = push_digit(&a, 0x409427eb4f49fffd);
        let a = push_digit(&a, 0x8bfd00000000aaac);
        a
    }

    fn base_prime() -> (r: Big) {
        let a = Big::from_u64(0x1a0111ea397fe69a);
        let a = push_digit(&a, 0x4b1ba7b6434bacd7);
        let a = push_digit(&a, 0x64774b84f38512bf);
        let a = push_digit(&a, 0x6730d2a0f6b0f624);
        let a = push_digit(&a, 0x1eabfffeb153ffff);
        let a = push_digit(&a, 0xb9feffffffffaaab);
        a
    }

    fn basis_vectors() -> (r: (BasisVector, BasisVector)) {
        let v0 = Big::from_u64(1);
        let v1 = Big::from_u64(0xac45a4010001a402);
        let v1 = push_digit(&v1, 0x100000000);
        let u0 = Self::eigenvalue();
        let one = Big::from_u64(1);
        let u1 = one.neg_big();
        (BasisVector::new(v0, v1), BasisVector::new(u0, u1))
    }

    fn point_add(p: &AffinePoint, q: &AffinePoint) -> (r: AffinePoint) {
        bls12_381_g1_add(p, q)
    }
}

// ----------------------------------------------------------------------------
// BN254 G1
// ----------------------------------------------------------------------------

/// What BN254 G1 point addition returns, as a function of the canonical
/// affine coordinate values alone.
pub uninterp spec fn bn254_g1_sum(p: PointVal, q: PointVal) -> PointVal;

/// Relies on `ark_bn254` / `ark_ec`: Jacobian point addition on the BN254 G1
/// curve (`GroupAffine::add`, doubling and identity handled), with canonical
/// reduced affine coordinates read back through `PrimeField::into_repr`; and
/// on `num_bigint` digit/byte conversions.
#[verifier::external_body]
fn bn254_g1_add(p: &AffinePoint, q: &AffinePoint) -> (r: AffinePoint)
    requires
        p.wf(bn254_base_prime()),
        q.wf(bn254_base_prime()),
    ensures
        r.wf(bn254_base_prime()),
        r@ == bn254_g1_sum(p@, q@),
{
    let fe = |c: &Big| <ark_bn254::Fq as ark_ff::PrimeField>::from_le_bytes_mod_order(&num_bigint::BigUint::from_slice(&c.mag).to_bytes_le());
    let s = ark_bn254::G1Affine::new(fe(&p.x), fe(&p.y), p.infinity)
        + ark_bn254::G1Affine::new(fe(&q.x), fe(&q.y), q.infinity);
    if ark_std::Zero::is_zero(&s) {
        return AffinePoint::identity();
    }
    let back = |e: &ark_bn254::Fq| Big {
        negative: false,
        mag: num_bigint::BigUint::from_bytes_le(&ark_ff::BigInteger::to_bytes_le(&ark_ff::PrimeField::into_repr(e))).to_u32_digits(),
    };
    AffinePoint { x: back(&s.x), y: back(&s.y), infinity: false }
}

/// The BN254 G1 curve.
pub struct Bn254G1;

impl GlvCurve for Bn254G1 {
    open spec fn spec_order() -> int {
        bn254_order()
    }

    open spec fn spec_eigenvalue() -> int {
        bn254_eigenvalue()
    }

    open spec fn spec_beta() -> int {
        bn254_beta()
    }

    open spec fn spec_base_prime() -> int {
        bn254_base_prime()
    }

    open spec fn spec_v() -> (int, int) {
        bn254_v()
    }

    open spec fn spec_u() -> (int, int) {
        bn254_u()
    }

    open spec fn spec_sum(p: PointVal, q: PointVal) -> PointVal {
        bn254_g1_sum(p, q)
    }

    proof fn constants_facts() {
        lemma_pow2_256_value();
        assert(bn254_v().0 + bn254_v().1 * bn254_eigenvalue() == (-29793968203157093285int)
            * bn254_order());
        vstd::arithmetic::div_mod::lemma_mod_multiples_basic(
            -29793968203157093285int,
            bn254_order(),
        );
        assert(bn254_u().0 + bn254_u().1 * bn254_eigenvalue() == 2 * bn254_order());
        vstd::arithmetic::div_mod::lemma_mod_multiples_basic(2, bn254_order());
        assert(abs(bn254_v().0) + abs(bn254_u().0)
            == 147946756881789319020627676272574806254int);
        assert(abs(bn254_v().1) + abs(bn254_u().1)
            == 147946756881789319010696353538189108491int);
        assert(147946756881789319020627676272574806254int
            * 147946756881789319020627676272574806254int < 16 * bn254_order())
            by (nonlinear_arith);
        assert(147946756881789319010696353538189108491int
            * 147946756881789319010696353538189108491int < 16 * bn254_order())
            by (nonlinear_arith);
    }

    fn order() -> (r: Big) {
        let a = Big::from_u64(0x30644e72e131a029);
        let a = push_digit(&a, 0xb85045b68181585d);
        let a = push_digit(&a, 0x2833e84879b97091);
        let a = push_digit(&a, 0x43e1f593f0000001);
        a
    }

    fn eigenvalue() -> (r: Big) {
        let a = Big::from_u64(0xb3c4d79d41a91758);
        let a = push_digit(&a, 0x5bfc41088d8daaa7);
        let a = push_digit(&a, 0x8b17ea66b99c90dd);
        a
    }

    fn endomorphism_constant() -> (r: Big) {
        let a = Big::from_u64(0x59e26bcea0d48bac);
        let a = push_digit(&a, 0xd4f263f1acdb5c4f);
        let a = push_digit(&a, 0x5763473177fffffe);
        a
    }

    fn base_prime() -> (r: Big) {
        let a = Big::from_u64(0x30644e72e131a029);
        let a = push_digit(&a, 0xb85045b68181585d);
        let a = push_digit(&a, 0x97816a916871ca8d);
        let a = push_digit(&a, 0x3c208c16d87cfd47);
        a
    }

    fn basis_vectors() -> (r: (BasisVector, BasisVector)) {
        let v0 = Big::from_u64(0x89d3256894d213e3);
        let v1m = Big::from_u64(0x6f4d8248eeb859fc);
        let v1m = push_digit(&v1m, 0x8211bbeb7d4f1128);
        let v1 = v1m.neg_big();
        let u0 = Big::from_u64(0x6f4d8248eeb859fd);
        let u0 = push_digit(&u0, 0x0be4e1541221250b);
        let u1 = Big::from_u64(0x89d3256894d213e3);
        (BasisVector::new(v0, v1), BasisVector::new(u0, u1))
    }

    fn point_add(p: &AffinePoint, q: &AffinePoint) -> (r: AffinePoint) {
        bn254_g1_add(p, q)
    }
}

} // verus!
