//! Elliptic-curve point addition checked against fixed values on
//! BLS12-381 G1.

use ark_ec::{AffineCurve, ProjectiveCurve};
use ark_ff::{BigInteger, BigInteger384, PrimeField};
use glv::big::Big;
use glv::curve::{Bls12381G1, GlvCurve};
use glv::point::AffinePoint;

fn big_from_fq(e: &ark_bls12_381::Fq) -> Big {
    let bytes = e.into_repr().to_bytes_le();
    Big::from_limbs(num_bigint::BigUint::from_bytes_le(&bytes).to_u32_digits(), false)
}

fn fq_from_big(b: &Big) -> ark_bls12_381::Fq {
    let bytes = num_bigint::BigUint::from_slice(&b.mag).to_bytes_le();
    ark_bls12_381::Fq::from_le_bytes_mod_order(&bytes)
}

fn point_from_ark(p: &ark_bls12_381::G1Affine) -> AffinePoint {
    if ark_std::Zero::is_zero(p) {
        AffinePoint::identity()
    } else {
        AffinePoint::new(big_from_fq(&p.x), big_from_fq(&p.y), false)
    }
}

#[test]
fn check_ec_affine_ec_add_corect() {
    let p1x = BigInteger384([
        1966261954655348031,
        5731413129826153240,
        15095122238703470501,
        4681017584518357560,
        6574875576842048829,
        1829231488545761578,
    ]);
    let p1y = BigInteger384([
        3774031170070494122,
        12588957839539536863,
        5337873936852570527,
        4297638390619080094,
        1498511210690604774,
        1497339654947580546,
    ]);
    let p2x = BigInteger384([
        11801634263024262672,
        7774160182574066130,
        17504672021508774312,
        7987095069023847116,
        12536851020341999149,
        713488309883134185,
    ]);
    let p2y = BigInteger384([
        6685322520580378312,
        2144895941524481040,
        8487891351798887969,
        15491172252985590303,
        9338239879895333561,
        1351753874645275807,
    ]);

    let p1 = ark_bls12_381::G1Affine::new(
        ark_bls12_381::Fq::from(p1x),
        ark_bls12_381::Fq::from(p1y),
        false,
    );
    let p2 = ark_bls12_381::G1Affine::new(
        ark_bls12_381::Fq::from(p2x),
        ark_bls12_381::Fq::from(p2y),
        false,
    );

    let a1 = point_from_ark(&p1);
    let a2 = point_from_ark(&p2);
    let p3 = <Bls12381G1 as GlvCurve>::point_add(&a1, &a2);

    assert!(fq_from_big(&p3.x).to_string()=="Fp384 \"(0513C7F15BD0A3C9C1FC1AA95D00FCF668066EC5B99015A8063E9400FD62B4CD35D4B84B28BE97A7D10769697E64B0ED)\"");
    assert!(fq_from_big(&p3.y).to_string()=="Fp384 \"(1478657E45FA945D49B22D7D95F8F9A4C0621AC66E1C9B41C73FA8DA66BC131F8DE19C51A977427AF2A5CA6E2031ABD0)\"");
}

#[test]
fn check_ec_projective_ec_add_corect() {
    let p1 = ark_bls12_381::G1Projective::new(
        ark_bls12_381::Fq::from(BigInteger384([
            7622990700549858015,
            13713546941542556709,
            12560975430337781823,
            15541891435126201453,
            12367723691069907442,
            1619941315378521877,
        ])),
        ark_bls12_381::Fq::from(BigInteger384([
            7503064769766296380,
            17682185531341488458,
            4876766006449067563,
            1171733563318992132,
            11348451559967720207,
            364661073872536959,
        ])),
        ark_bls12_381::Fq::from(BigInteger384([
            10675734658262686032,
            963240814171391534,
            5763008491877574369,
            14915348776474232903,
            4578719198622222604,
            1377984418915705122,
        ])),
    );
    let p2 = ark_bls12_381::G1Projective::new(
        ark_bls12_381::Fq::from(BigInteger384([
            17308138315201938639,
            15231614684824825631,
            4220957540736821006,
            3984975709872008445,
            8341411372866811043,
            1131067719257598863,
        ])),
        ark_bls12_381::Fq::from(BigInteger384([
            4817351678075095725,
            17586559557000853883,
            9837694924606671145,
            164039902075094506,
            914858480124102985,
            1820014857799359510,
        ])),
        ark_bls12_381::Fq::from(BigInteger384([
            10116724002236296559,
            5289474606493615166,
            14330604034056669932,
            5031534622838663379,
            6520446134357048638,
            1055855224236824317,
        ])),
    );

    let p3 = p1 + p2;

    assert!(p3.x.to_string()=="Fp384 \"(145B87AB9FFA5F869C95870899AA7F55978B2A911A8640F5FAEB4A877DF2FA29F4271D5E44B34C25000F2B17C570D854)\"");
    assert!(p3.y.to_string()=="Fp384 \"(05E108707C2D0615FE6D250E82987FF8CFABF734B5480D36789352B17950AE331AC70CBC0AC3FAC6B982395D281631F9)\"");
    assert!(p3.z.to_string()=="Fp384 \"(0E9046AB3DB7EAB3AC6FA11B3192A9F355539D2F2A221B636FE7DA605E609A8A68788561A094AEA24CBB2BFF7EEBA3CA)\"");

    // The same sum computed through the library's affine addition agrees.
    let a1 = point_from_ark(&p1.into_affine());
    let a2 = point_from_ark(&p2.into_affine());
    let ours = <Bls12381G1 as GlvCurve>::point_add(&a1, &a2);
    let expected = point_from_ark(&p3.into_affine());
    assert!(ours.equals(&expected));
}

#[test]
fn point_add_identity_cases() {
    let g = ark_bls12_381::G1Affine::prime_subgroup_generator();
    let a = point_from_ark(&g);
    let id = AffinePoint::identity();
    let r1 = <Bls12381G1 as GlvCurve>::point_add(&a, &id);
    assert!(r1.equals(&a));
    let r2 = <Bls12381G1 as GlvCurve>::point_add(&id, &a);
    assert!(r2.equals(&a));
    let r3 = <Bls12381G1 as GlvCurve>::point_add(&id, &id);
    assert!(r3.equals(&id));
    // doubling through the same entry point
    let r4 = <Bls12381G1 as GlvCurve>::point_add(&a, &a);
    let expected = point_from_ark(&(g + g));
    assert!(r4.equals(&expected));
}
