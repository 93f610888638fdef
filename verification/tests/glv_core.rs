//! The GLV core: decomposition, endomorphism, combined multiplication, and
//! the constants registry, checked against the `ark` reference arithmetic.

use ark_ec::{AffineCurve, ProjectiveCurve};
use ark_ff::{BigInteger, PrimeField};
use glv::big::Big;
use glv::curve::{Bls12381G1, Bn254G1, GlvCurve};
use glv::decompose::{compute_k1_k2, decompose_scalar};
use glv::mul::{mul_glv, prepare_parameters};
use glv::point::{endomorphism, neg_point, AffinePoint};
use glv::registry::{constants, CurveConstants, CurveId, GlvError};
use glv::rounding::round_div_big;
use num_bigint::{BigInt, BigUint, Sign};

fn big_from_biguint(n: &BigUint) -> Big {
    Big::from_limbs(n.to_u32_digits(), false)
}

fn big_to_bigint(b: &Big) -> BigInt {
    let sign = if b.negative { Sign::Minus } else { Sign::Plus };
    BigInt::from_biguint(sign, BigUint::from_slice(&b.mag))
}

fn big_from_u64_signed(x: u64, negative: bool) -> Big {
    let b = Big::from_u64(x);
    if negative {
        b.neg_big()
    } else {
        b
    }
}

fn bls_point_from_ark(p: &ark_bls12_381::G1Affine) -> AffinePoint {
    if ark_std::Zero::is_zero(p) {
        AffinePoint::identity()
    } else {
        let xb = p.x.into_repr().to_bytes_le();
        let yb = p.y.into_repr().to_bytes_le();
        AffinePoint::new(
            big_from_biguint(&BigUint::from_bytes_le(&xb)),
            big_from_biguint(&BigUint::from_bytes_le(&yb)),
            false,
        )
    }
}

fn bn_point_from_ark(p: &ark_bn254::G1Affine) -> AffinePoint {
    if ark_std::Zero::is_zero(p) {
        AffinePoint::identity()
    } else {
        let xb = p.x.into_repr().to_bytes_le();
        let yb = p.y.into_repr().to_bytes_le();
        AffinePoint::new(
            big_from_biguint(&BigUint::from_bytes_le(&xb)),
            big_from_biguint(&BigUint::from_bytes_le(&yb)),
            false,
        )
    }
}

fn bls_scalar_to_big(s: &ark_bls12_381::Fr) -> Big {
    big_from_biguint(&BigUint::from_bytes_le(&s.into_repr().to_bytes_le()))
}

fn bn_scalar_to_big(s: &ark_bn254::Fr) -> Big {
    big_from_biguint(&BigUint::from_bytes_le(&s.into_repr().to_bytes_le()))
}

#[test]
fn glv_matches_arkworks_scalar_mul() {
    let mut rng = ark_std::test_rng();

    let scalar = <ark_bn254::Fr as ark_ff::UniformRand>::rand(&mut rng);
    let point = <ark_bn254::G1Projective as ark_ff::UniformRand>::rand(&mut rng);
    let expected = point.mul(scalar.into_repr());
    let ours = mul_glv::<Bn254G1>(
        &bn_scalar_to_big(&scalar),
        &bn_point_from_ark(&point.into_affine()),
    );
    assert!(
        ours.equals(&bn_point_from_ark(&expected.into_affine())),
        "GLV should produce the same results as Arkworks scalar multiplication."
    );

    let scalar = <ark_bls12_381::Fr as ark_ff::UniformRand>::rand(&mut rng);
    let point = <ark_bls12_381::G1Projective as ark_ff::UniformRand>::rand(&mut rng);
    let expected = point.mul(scalar.into_repr());
    let ours = mul_glv::<Bls12381G1>(
        &bls_scalar_to_big(&scalar),
        &bls_point_from_ark(&point.into_affine()),
    );
    assert!(
        ours.equals(&bls_point_from_ark(&expected.into_affine())),
        "GLV should produce the same results as Arkworks scalar multiplication."
    );
}

#[test]
fn glv_small_scalars() {
    let g = ark_bls12_381::G1Affine::prime_subgroup_generator();
    let p = bls_point_from_ark(&g);

    let zero = Big::zero();
    let r0 = mul_glv::<Bls12381G1>(&zero, &p);
    assert!(r0.equals(&AffinePoint::identity()));

    let one = Big::from_u64(1);
    let r1 = mul_glv::<Bls12381G1>(&one, &p);
    assert!(r1.equals(&p));

    let five = Big::from_u64(5);
    let r5 = mul_glv::<Bls12381G1>(&five, &p);
    let expected = g.mul(ark_bls12_381::Fr::from(5u64).into_repr());
    assert!(r5.equals(&bls_point_from_ark(&expected.into_affine())));
}

#[test]
fn decompose_zero_gives_zero_pair() {
    let c = constants(CurveId::Bls12381G1).unwrap();
    let (k1, k2) = decompose_scalar(&Big::zero(), &c.v, &c.u);
    assert!(k1.equals(&Big::zero()));
    assert!(k2.equals(&Big::zero()));
}

#[test]
fn glv_r_minus_one_negates() {
    // k = r - 1 represents -1 mod r, so k·P == -P.
    let c = constants(CurveId::Bls12381G1).unwrap();
    let k = glv::big::big_sub(&c.r, &Big::from_u64(1));
    let g = ark_bls12_381::G1Affine::prime_subgroup_generator();
    let p = bls_point_from_ark(&g);
    let result = mul_glv::<Bls12381G1>(&k, &p);
    let minus_p = neg_point(&p, &c.base_prime);
    assert!(result.equals(&minus_p));
}

#[test]
fn decomposition_congruence_concrete() {
    // k1 + k2·λ ≡ k (mod r), on boundary and random-ish scalars.
    for curve in [CurveId::Bls12381G1, CurveId::Bn254G1] {
        let c = constants(curve).unwrap();
        let r = big_to_bigint(&c.r);
        let lambda = big_to_bigint(&c.lambda);
        let samples: Vec<BigInt> = vec![
            BigInt::from(0u32),
            BigInt::from(1u32),
            &r - BigInt::from(1),
            (&r - BigInt::from(1)) / BigInt::from(2),
            BigInt::from(123456789u64) * BigInt::from(987654321u64),
        ];
        for k in samples {
            let kb = Big::from_limbs(k.magnitude().to_u32_digits(), false);
            let (k1, k2) = decompose_scalar(&kb, &c.v, &c.u);
            let k1 = big_to_bigint(&k1);
            let k2 = big_to_bigint(&k2);
            let lhs = (&k1 + &k2 * &lambda) % &r;
            let lhs = ((lhs % &r) + &r) % &r;
            assert_eq!(lhs, (&k % &r));
        }
    }
}

#[test]
fn decomposition_shortness_concrete() {
    // |k1| < 2·sqrt(r) and |k2| < 2·sqrt(r), stated squared: k² < 4·r.
    for curve in [CurveId::Bls12381G1, CurveId::Bn254G1] {
        let c = constants(curve).unwrap();
        let r = big_to_bigint(&c.r);
        let samples: Vec<BigInt> = vec![
            BigInt::from(0u32),
            BigInt::from(1u32),
            &r - BigInt::from(1),
            &r / BigInt::from(3),
            BigInt::from(0xdeadbeefcafef00du64),
        ];
        for k in samples {
            let kb = Big::from_limbs(k.magnitude().to_u32_digits(), false);
            let (k1, k2) = decompose_scalar(&kb, &c.v, &c.u);
            let k1 = big_to_bigint(&k1);
            let k2 = big_to_bigint(&k2);
            assert!(&k1 * &k1 < BigInt::from(4) * &r);
            assert!(&k2 * &k2 < BigInt::from(4) * &r);
        }
    }
}

#[test]
fn endomorphism_is_homomorphic() {
    // endomorphism(P + Q) == endomorphism(P) + endomorphism(Q),
    // and endomorphism(identity) == identity.
    let mut rng = ark_std::test_rng();
    let c = constants(CurveId::Bls12381G1).unwrap();
    for _ in 0..4 {
        let p = <ark_bls12_381::G1Projective as ark_ff::UniformRand>::rand(&mut rng);
        let q = <ark_bls12_381::G1Projective as ark_ff::UniformRand>::rand(&mut rng);
        let ap = bls_point_from_ark(&p.into_affine());
        let aq = bls_point_from_ark(&q.into_affine());
        let sum = <Bls12381G1 as GlvCurve>::point_add(&ap, &aq);
        let lhs = endomorphism(&sum, &c.beta, &c.base_prime);
        let ep = endomorphism(&ap, &c.beta, &c.base_prime);
        let eq = endomorphism(&aq, &c.beta, &c.base_prime);
        let rhs = <Bls12381G1 as GlvCurve>::point_add(&ep, &eq);
        assert!(lhs.equals(&rhs));
    }
    let id = AffinePoint::identity();
    let eid = endomorphism(&id, &c.beta, &c.base_prime);
    assert!(eid.equals(&id));
}

#[test]
fn endomorphism_acts_as_eigenvalue() {
    // endomorphism(P) == λ·P on the r-torsion, for both curves.
    let mut rng = ark_std::test_rng();
    let c = constants(CurveId::Bls12381G1).unwrap();
    for _ in 0..4 {
        let p = <ark_bls12_381::G1Projective as ark_ff::UniformRand>::rand(&mut rng);
        let lambda_bytes = BigUint::from_slice(&c.lambda.mag).to_bytes_le();
        let lambda = ark_bls12_381::Fr::from_le_bytes_mod_order(&lambda_bytes);
        let expected = p.mul(lambda.into_repr()).into_affine();
        let ap = bls_point_from_ark(&p.into_affine());
        let image = endomorphism(&ap, &c.beta, &c.base_prime);
        assert!(image.equals(&bls_point_from_ark(&expected)));
    }
    let c = constants(CurveId::Bn254G1).unwrap();
    for _ in 0..4 {
        let p = <ark_bn254::G1Projective as ark_ff::UniformRand>::rand(&mut rng);
        let lambda_bytes = BigUint::from_slice(&c.lambda.mag).to_bytes_le();
        let lambda = ark_bn254::Fr::from_le_bytes_mod_order(&lambda_bytes);
        let expected = p.mul(lambda.into_repr()).into_affine();
        let ap = bn_point_from_ark(&p.into_affine());
        let image = endomorphism(&ap, &c.beta, &c.base_prime);
        assert!(image.equals(&bn_point_from_ark(&expected)));
    }
}

#[test]
fn constants_idempotent() {
    // Re-fetching curve constants yields identical values.
    for curve in [CurveId::Bls12381G1, CurveId::Bn254G1] {
        let a: CurveConstants = constants(curve).unwrap();
        let b: CurveConstants = constants(curve).unwrap();
        assert!(a.r.equals(&b.r));
        assert!(a.lambda.equals(&b.lambda));
        assert!(a.beta.equals(&b.beta));
        assert!(a.base_prime.equals(&b.base_prime));
        assert!(a.v.c0.equals(&b.v.c0));
        assert!(a.v.c1.equals(&b.v.c1));
        assert!(a.u.c0.equals(&b.u.c0));
        assert!(a.u.c1.equals(&b.u.c1));
    }
}

#[test]
fn unsupported_curve_is_rejected() {
    let res = constants(CurveId::Bls12381G2);
    assert!(matches!(res, Err(GlvError::UnsupportedCurve)));
}

#[test]
fn degenerate_basis_is_rejected() {
    let mut c = constants(CurveId::Bls12381G1).unwrap();
    assert!(c.validate().is_ok());
    // Make the basis vectors collinear: determinant zero.
    c.u = glv::decompose::BasisVector::new(c.v.c0.clone_big(), c.v.c1.clone_big());
    assert!(matches!(c.validate(), Err(GlvError::MalformedBasis)));
}

#[test]
fn rounded_division_ties_away_from_zero() {
    let cases: [(u64, bool, u64, bool, u64, bool); 8] = [
        (7, false, 2, false, 4, false),
        (7, true, 2, false, 4, true),
        (7, false, 2, true, 4, true),
        (7, true, 2, true, 4, false),
        (1, false, 2, false, 1, false),
        (1, true, 2, false, 1, true),
        (5, false, 3, false, 2, false),
        (4, false, 3, false, 1, false),
    ];
    for (n, ns, d, ds, q, qs) in cases {
        let nb = big_from_u64_signed(n, ns);
        let db = big_from_u64_signed(d, ds);
        let qb = big_from_u64_signed(q, qs);
        let got = round_div_big(&nb, &db);
        assert!(got.equals(&qb), "round({}{} / {}{})", if ns { "-" } else { "" }, n, if ds { "-" } else { "" }, d);
    }
}

#[test]
fn compute_k1_k2_residuals() {
    let v: Vec<i128> = vec![9931322734385697763, -147946756881789319000765030803803410728];
    let u: Vec<i128> = vec![147946756881789319010696353538189108491, 9931322734385697763];
    let r = compute_k1_k2(1, 0, 50, v.clone(), u.clone());
    assert_eq!(r.len(), 2);
    assert_eq!(r[0], -9931322734385697713);
    assert_eq!(r[1], 147946756881789319000765030803803410728);
    let r = compute_k1_k2(0, 1, 50, v, u);
    assert_eq!(r[0], -147946756881789319010696353538189108441);
    assert_eq!(r[1], -9931322734385697763);
}

#[test]
fn prepare_parameters_returns_beta_and_lambda() {
    let c = constants(CurveId::Bls12381G1).unwrap();
    let (beta, lambda) = prepare_parameters::<Bls12381G1>();
    assert!(beta.equals(&c.beta));
    assert!(lambda.equals(&c.lambda));
}
