//! Field-element operations checked against fixed values on the BLS12-381
//! scalar field.

use ark_ff::{BigInteger, PrimeField};
use glv::big::Big;
use glv::field::{FieldElement, Operations};

fn big_from_biguint(n: &num_bigint::BigUint) -> Big {
    Big::from_limbs(n.to_u32_digits(), false)
}

fn big_from_u64_limbs(limbs: [u64; 4]) -> Big {
    let mut bytes: Vec<u8> = Vec::new();
    for l in limbs.iter() {
        bytes.extend_from_slice(&l.to_le_bytes());
    }
    big_from_biguint(&num_bigint::BigUint::from_bytes_le(&bytes))
}

fn bls_fr_modulus() -> Big {
    let r = num_bigint::BigUint::parse_bytes(
        b"52435875175126190479447740508185965837690552500527637822603658699938581184513",
        10,
    )
    .unwrap();
    big_from_biguint(&r)
}

fn fe_from_u64_limbs(limbs: [u64; 4]) -> FieldElement {
    FieldElement::new(big_from_u64_limbs(limbs), bls_fr_modulus())
}

fn fe_from_u64(x: u64) -> FieldElement {
    FieldElement::new(Big::from_u64(x), bls_fr_modulus())
}

fn fe_from_hex(hex: &str) -> FieldElement {
    let n = num_bigint::BigUint::parse_bytes(hex.as_bytes(), 16).unwrap();
    FieldElement::new(big_from_biguint(&n), bls_fr_modulus())
}

fn fe_from_ark(x: ark_bls12_381::Fr) -> FieldElement {
    let bytes = x.into_repr().to_bytes_le();
    FieldElement::new(
        big_from_biguint(&num_bigint::BigUint::from_bytes_le(&bytes)),
        bls_fr_modulus(),
    )
}

#[test]
fn check_ff_all_operation_corect() {
    let lhs = fe_from_u64_limbs([
        10719222850664546238,
        301075827032876239,
        17612447688858836480,
        3088858357331359854,
    ]);
    let rhs = fe_from_u64_limbs([
        9391632405647031300,
        4845552296702772050,
        3424474836643299239,
        4069995235118972469,
    ]);
    let q_minus_one = fe_from_u64_limbs([
        0xffffffff00000000,
        0x53bda402fffe5bfe,
        0x3339d80809a1d805,
        0x73eda753299d7d48,
    ]);

    let c = fe_from_u64(1);
    let d = fe_from_u64(2);
    let e = c.sub(&d); // q - 1
    let f = c.add(&e); // 0

    // test +-*/
    assert!(
        lhs.add(&rhs)
            .equals(&fe_from_hex("63595B69C107F6A423F229941BF7DDA7476C7F02B24C682217181C4DC1BFBBC2")),
        "add error"
    );
    assert!(
        lhs.sub(&rhs)
            .equals(&fe_from_hex("664FF488650C7781F81FA62B5CD3365E14AC6ABD7F32BD7C126C8C78D278C3BB")),
        "sub error"
    );
    assert!(
        lhs.mul(&rhs)
            .equals(&fe_from_hex("347703AEEF1EB02552B6365C5EA24EC5FFCB2456C44D668B5AE1D4667535951F")),
        "mul error"
    );
    assert!(
        lhs.div(&rhs)
            .equals(&fe_from_hex("427D8B799CA353FA64575246ED0F662AA437E96577EB58E2EFA8DAF3EA9C922E")),
        "div error"
    );

    // test MODULUS
    assert!(
        lhs.div(&rhs).equals(&c.div(&rhs).mul(&lhs)),
        "combination of inverse and mul equal div"
    );
    assert!(f.equals(&fe_from_u64(0)), "q-1+1 should be zero");
    assert!(q_minus_one.equals(&e));
}

#[test]
fn check_tmp_all_operation_corect() {
    let lhs = fe_from_u64_limbs([
        10719222850664546238,
        301075827032876239,
        17612447688858836480,
        3088858357331359854,
    ]);
    let _ = lhs;
}

#[test]
fn all_operation_corect() {
    let mut rng = ark_std::test_rng();
    let a: Vec<ark_bls12_381::Fr> =
        (0..2).map(|_| <ark_bls12_381::Fr as ark_ff::UniformRand>::rand(&mut rng)).collect();
    let b: Vec<ark_bls12_381::Fr> =
        (0..2).map(|_| <ark_bls12_381::Fr as ark_ff::UniformRand>::rand(&mut rng)).collect();

    let c = fe_from_u64(1);
    let d = fe_from_u64(2);
    let e = c.sub(&d); // q - 1
    let f = c.add(&e); // 0

    let a0 = fe_from_ark(a[0]);
    let b1 = fe_from_ark(b[1]);

    assert!(f.equals(&fe_from_u64(0)));
    assert!(a0.div(&b1).equals(&c.div(&b1).mul(&a0)));
}

#[test]
fn vector_operations_elementwise() {
    let lhs: Vec<FieldElement> = vec![fe_from_u64(5), fe_from_u64(7), fe_from_u64(9)];
    let rhs: Vec<FieldElement> = vec![fe_from_u64(3), fe_from_u64(10)];
    let sum = Operations::add(&lhs, &rhs);
    assert_eq!(sum.len(), 2);
    assert!(sum[0].equals(&fe_from_u64(8)));
    assert!(sum[1].equals(&fe_from_u64(17)));
    let diff = Operations::sub(&lhs, &rhs);
    assert!(diff[0].equals(&fe_from_u64(2)));
    let prod = Operations::mul(&lhs, &rhs);
    assert!(prod[1].equals(&fe_from_u64(70)));
    let quot = Operations::div(&lhs, &rhs);
    assert!(quot[1].mul(&rhs[1]).equals(&lhs[1]));
}

#[test]
fn inverse_of_zero_is_none() {
    let zero = fe_from_u64(0);
    assert!(zero.inverse().is_none());
    let two = fe_from_u64(2);
    let inv = two.inverse().unwrap();
    assert!(inv.mul(&two).equals(&fe_from_u64(1)));
}
