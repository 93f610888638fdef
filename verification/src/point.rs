//! Affine curve points with arbitrary-precision coordinates, the point
//! negation map, and the curve endomorphism `φ(x, y) = (β·x, y)`.

use vstd::prelude::*;

use crate::big::{Big, big_sub};
use crate::modular::mod_mul;

verus! {

/// The mathematical value of an affine point: coordinates as integers plus
/// the point-at-infinity flag.
pub ghost struct PointVal {
    pub x: int,
    pub y: int,
    pub infinity: bool,
}

/// The value of the point at infinity, with both coordinates held at zero.
pub open spec fn point_at_infinity() -> PointVal {
    PointVal { x: 0, y: 0, infinity: true }
}

/// An affine short-Weierstrass point.  The identity is carried as a flag with
/// both coordinates zero.
pub struct AffinePoint {
    pub x: Big,
    pub y: Big,
    pub infinity: bool,
}

impl View for AffinePoint {
    type V = PointVal;

    open spec fn view(&self) -> PointVal {
        PointVal { x: self.x@, y: self.y@, infinity: self.infinity }
    }
}

impl AffinePoint {
    /// Well-formed over the base field of order `prime`: canonical
    /// coordinates reduced modulo `prime`, and a canonical identity.
    pub open spec fn wf(&self, prime: int) -> bool {
        &&& self.x.wf()
        &&& self.y.wf()
        &&& 0 <= self.x@ < prime
        &&& 0 <= self.y@ < prime
        &&& (self.infinity ==> self.x@ == 0 && self.y@ == 0)
    }

    pub fn identity() -> (r: AffinePoint)
        ensures
            r@ == point_at_infinity(),
            forall|p: int| p > 0 ==> r.wf(p),
    {
        AffinePoint { x: Big::zero(), y: Big::zero(), infinity: true }
    }

    pub fn new(x: Big, y: Big, infinity: bool) -> (r: AffinePoint)
        ensures
            r@ == (PointVal { x: x@, y: y@, infinity }),
    {
        AffinePoint { x, y, infinity }
    }

    pub fn clone_point(&self) -> (r: AffinePoint)
        ensures
            r@ == self@,
            forall|p: int| self.wf(p) ==> r.wf(p),
    {
        AffinePoint { x: self.x.clone_big(), y: self.y.clone_big(), infinity: self.infinity }
    }

    /// Value equality.
    pub fn equals(&self, other: &AffinePoint) -> (r: bool)
        ensures
            r == (self@ == other@),
    {
        self.infinity == other.infinity && self.x.equals(&other.x) && self.y.equals(&other.y)
    }
}

/// The negation of a point value: the infinity point is fixed, otherwise the
/// `y` coordinate is replaced by its additive inverse modulo `prime`.
pub open spec fn spec_neg(prime: int, p: PointVal) -> PointVal {
    if p.infinity {
        p
    } else {
        PointVal { x: p.x, y: if p.y == 0 { 0 } else { prime - p.y }, infinity: false }
    }
}

/// The endomorphism on point values: the infinity point is fixed, otherwise
/// the `x` coordinate is multiplied by `beta` in the base field.
pub open spec fn spec_endo(prime: int, beta: int, p: PointVal) -> PointVal {
    if p.infinity {
        p
    } else {
        PointVal { x: (beta * p.x) % prime, y: p.y, infinity: false }
    }
}

/// Negates a point by flipping the sign of its `y` coordinate in the base
/// field.
pub fn neg_point(p: &AffinePoint, prime: &Big) -> (r: AffinePoint)
    requires
        prime.wf(),
        prime@ >= 1,
        p.wf(prime@),
    ensures
        r.wf(prime@),
        r@ == spec_neg(prime@, p@),
{
    if p.infinity {
        p.clone_point()
    } else if p.y.is_zero() {
        p.clone_point()
    } else {
        let y = big_sub(prime, &p.y);
        AffinePoint { x: p.x.clone_big(), y, infinity: false }
    }
}

/// Applies the curve endomorphism `φ(x, y) = (β·x, y)`; the point at infinity
/// is returned unchanged.
pub fn endomorphism(p: &AffinePoint, beta: &Big, prime: &Big) -> (r: AffinePoint)
    requires
        prime.wf(),
        beta.wf(),
        prime@ >= 1,
        0 <= beta@,
        p.wf(prime@),
    ensures
        r.wf(prime@),
        r@ == spec_endo(prime@, beta@, p@),
{
    if p.infinity {
        p.clone_point()
    } else {
        let x = mod_mul(beta, &p.x, prime);
        AffinePoint { x, y: p.y.clone_big(), infinity: false }
    }
}

} // verus!
