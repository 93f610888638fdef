//! The curve-constants provider: a registry keyed by curve identifier that
//! hands out the per-curve GLV constants, rejecting curves without an
//! endomorphism of the assumed cube-root-of-unity form, and validating that
//! a basis is non-degenerate.

use vstd::prelude::*;

use crate::big::{big_mul, big_sub, Big};
use crate::curve::{Bls12381G1, Bn254G1, GlvCurve};
use crate::decompose::{spec_det, BasisVector};

verus! {

/// Identifies a curve subgroup a caller may ask constants for.
#[derive(Clone, Copy, PartialEq, Eq, Structural, Debug)]
pub enum CurveId {
    /// The G1 subgroup of BLS12-381.
    Bls12381G1,
    /// The G1 subgroup of BN254.
    Bn254G1,
    /// The G2 subgroup of BLS12-381, whose endomorphism is not of the
    /// "multiply the x-coordinate by a base-field constant" form.
    Bls12381G2,
}

/// Configuration-time failures of the constants provider.
#[derive(Clone, Copy, PartialEq, Eq, Structural, Debug)]
pub enum GlvError {
    /// The curve lacks a known endomorphism of the assumed form.
    UnsupportedCurve,
    /// The configured basis is degenerate: its determinant is zero.
    MalformedBasis,
}

/// Whether this library carries GLV constants for the identified curve.
pub open spec fn spec_supported(id: CurveId) -> bool {
    id is Bls12381G1 || id is Bn254G1
}

/// The full set of per-curve constants: subgroup order `r`, eigenvalue `λ`,
/// endomorphism constant `β`, base-field order, and the short lattice basis
/// `{v, u}`.
pub struct CurveConstants {
    pub r: Big,
    pub lambda: Big,
    pub beta: Big,
    pub base_prime: Big,
    pub v: BasisVector,
    pub u: BasisVector,
}

impl CurveConstants {
    pub open spec fn wf(&self) -> bool {
        &&& self.r.wf()
        &&& self.lambda.wf()
        &&& self.beta.wf()
        &&& self.base_prime.wf()
        &&& self.v.wf()
        &&& self.u.wf()
    }

    /// The constants match those of the curve `C`.
    pub open spec fn matches<C: GlvCurve>(&self) -> bool {
        &&& self.r@ == C::spec_order()
        &&& self.lambda@ == C::spec_eigenvalue()
        &&& self.beta@ == C::spec_beta()
        &&& self.base_prime@ == C::spec_base_prime()
        &&& self.v@ == C::spec_v()
        &&& self.u@ == C::spec_u()
    }

    /// Gathers the constants of the curve `C`.
    pub fn of_curve<C: GlvCurve>() -> (r: CurveConstants)
        ensures
            r.wf(),
            r.matches::<C>(),
    {
        let (v, u) = C::basis_vectors();
        CurveConstants {
            r: C::order(),
            lambda: C::eigenvalue(),
            beta: C::endomorphism_constant(),
            base_prime: C::base_prime(),
            v,
            u,
        }
    }

    /// Checks the basis once at configuration time: a zero determinant is a
    /// configuration defect, reported as `MalformedBasis`.
    pub fn validate(&self) -> (res: Result<(), GlvError>)
        requires
            self.wf(),
        ensures
            res is Ok <==> spec_det(self.v@.0, self.v@.1, self.u@.0, self.u@.1) != 0,
            res is Err ==> res == Err::<(), GlvError>(GlvError::MalformedBasis),
    {
        let det = big_sub(&big_mul(&self.v.c0, &self.u.c1), &big_mul(&self.v.c1, &self.u.c0));
        if det.is_zero() {
            Err(GlvError::MalformedBasis)
        } else {
            Ok(())
        }
    }
}

/// Supplies the constants for the identified curve, or reports at
/// configuration time that the curve lacks an endomorphism of the assumed
/// form.
pub fn constants(id: CurveId) -> (res: Result<CurveConstants, GlvError>)
    ensures
        res is Ok <==> spec_supported(id),
        res is Err ==> res == Err::<CurveConstants, GlvError>(GlvError::UnsupportedCurve),
        res matches Ok(c) ==> c.wf(),
        id is Bls12381G1 ==> (res matches Ok(c) ==> c.matches::<Bls12381G1>()),
        id is Bn254G1 ==> (res matches Ok(c) ==> c.matches::<Bn254G1>()),
{
    match id {
        CurveId::Bls12381G1 => Ok(CurveConstants::of_curve::<Bls12381G1>()),
        CurveId::Bn254G1 => Ok(CurveConstants::of_curve::<Bn254G1>()),
        CurveId::Bls12381G2 => Err(GlvError::UnsupportedCurve),
    }
}

} // verus!
