//! Prime-field style modular arithmetic on scalars and on vectors of
//! scalars: the four finite-field operations, each pinned to its exact
//! modular value.

use vstd::prelude::*;

use crate::big::{big_modinv, Big};
use crate::modular::{mod_add, mod_mul, mod_sub};

verus! {

/// Finite field operations.
pub trait Operations: Sized {
    /// Well-formedness of one operand.
    spec fn wf_el(&self) -> bool;

    /// Whether two operands may be combined.
    spec fn compat(&self, rhs: &Self) -> bool;

    /// What addition returns.
    spec fn add_rel(&self, rhs: &Self, out: &Self) -> bool;

    /// What subtraction returns.
    spec fn sub_rel(&self, rhs: &Self, out: &Self) -> bool;

    /// What multiplication returns.
    spec fn mul_rel(&self, rhs: &Self, out: &Self) -> bool;

    /// Whether `rhs` may divide `self`.
    spec fn div_ok(&self, rhs: &Self) -> bool;

    /// What division returns.
    spec fn div_rel(&self, rhs: &Self, out: &Self) -> bool;

    /// Adds `rhs` to `self`.
    fn add(&self, rhs: &Self) -> (r: Self)
        requires
            self.wf_el(),
            rhs.wf_el(),
            self.compat(rhs),
        ensures
            r.wf_el(),
            self.add_rel(rhs, &r),
    ;

    /// Subtracts `rhs` from `self`.
    fn sub(&self, rhs: &Self) -> (r: Self)
        requires
            self.wf_el(),
            rhs.wf_el(),
            self.compat(rhs),
        ensures
            r.wf_el(),
            self.sub_rel(rhs, &r),
    ;

    /// Multiplies `rhs` with `self`.
    fn mul(&self, rhs: &Self) -> (r: Self)
        requires
            self.wf_el(),
            rhs.wf_el(),
            self.compat(rhs),
        ensures
            r.wf_el(),
            self.mul_rel(rhs, &r),
    ;

    /// Divides `self` by `rhs`.
    fn div(&self, rhs: &Self) -> (r: Self)
        requires
            self.wf_el(),
            rhs.wf_el(),
            self.compat(rhs),
            self.div_ok(rhs),
        ensures
            r.wf_el(),
            self.div_rel(rhs, &r),
    ;
}

/// An element of a prime field `Z/mZ`, held as its canonical representative
/// together with the modulus.
pub struct FieldElement {
    pub value: Big,
    pub modulus: Big,
}

impl FieldElement {
    pub open spec fn wf(&self) -> bool {
        &&& self.value.wf()
        &&& self.modulus.wf()
        &&& !self.value.negative
        &&& !self.modulus.negative
        &&& self.modulus@ >= 2
        &&& 0 <= self.value@ < self.modulus@
    }

    /// Builds the canonical element `value mod m` of `Z/mZ`.
    pub fn new(value: Big, modulus: Big) -> (r: FieldElement)
        requires
            value.wf(),
            modulus.wf(),
            value@ >= 0,
            !modulus.negative,
            modulus@ >= 2,
        ensures
            r.wf(),
            r.value@ == value@ % modulus@,
            r.modulus@ == modulus@,
    {
        let reduced = crate::modular::mod_reduce(&value, &modulus);
        proof {
            if reduced.negative {
                crate::big::lemma_mag_val_pos(reduced.mag@);
            }
        }
        FieldElement { value: reduced, modulus }
    }

    /// Value equality in the field (moduli included).
    pub fn equals(&self, other: &FieldElement) -> (r: bool)
        ensures
            r == (self.value@ == other.value@ && self.modulus@ == other.modulus@),
    {
        self.value.equals(&other.value) && self.modulus.equals(&other.modulus)
    }

    /// The multiplicative inverse, where one exists.
    pub fn inverse(&self) -> (r: Option<FieldElement>)
        requires
            self.wf(),
        ensures
            match r {
                Some(x) => x.wf() && x.modulus@ == self.modulus@ && (self.value@ * x.value@)
                    % self.modulus@ == 1,
                None => forall|y: int|
                    0 <= y < self.modulus@ ==> #[trigger] ((self.value@ * y) % self.modulus@)
                        != 1,
            },
    {
        match big_modinv(&self.value, &self.modulus) {
            Some(x) => {
                proof {
                    if x.negative {
                        crate::big::lemma_mag_val_pos(x.mag@);
                    }
                }
                Some(FieldElement { value: x, modulus: self.modulus.clone_big() })
            },
            None => None,
        }
    }
}

impl Operations for FieldElement {
    open spec fn wf_el(&self) -> bool {
        self.wf()
    }

    open spec fn compat(&self, rhs: &Self) -> bool {
        self.modulus@ == rhs.modulus@
    }

    open spec fn add_rel(&self, rhs: &Self, out: &Self) -> bool {
        out.modulus@ == self.modulus@ && out.value@ == (self.value@ + rhs.value@)
            % self.modulus@
    }

    open spec fn sub_rel(&self, rhs: &Self, out: &Self) -> bool {
        out.modulus@ == self.modulus@ && out.value@ == (self.value@ - rhs.value@)
            % self.modulus@
    }

    open spec fn mul_rel(&self, rhs: &Self, out: &Self) -> bool {
        out.modulus@ == self.modulus@ && out.value@ == (self.value@ * rhs.value@)
            % self.modulus@
    }

    /// `rhs` divides exactly when it has a multiplicative inverse.
    open spec fn div_ok(&self, rhs: &Self) -> bool {
        exists|y: int|
            0 <= y < self.modulus@ && #[trigger] ((rhs.value@ * y) % self.modulus@) == 1
    }

    /// Division pins the result completely: it is the canonical element whose
    /// product with the divisor is the dividend.
    open spec fn div_rel(&self, rhs: &Self, out: &Self) -> bool {
        out.modulus@ == self.modulus@ && (out.value@ * rhs.value@) % self.modulus@
            == self.value@
    }

    fn add(&self, rhs: &Self) -> (r: Self) {
        let value = mod_add(&self.value, &rhs.value, &self.modulus);
        proof {
            if value.negative {
                crate::big::lemma_mag_val_pos(value.mag@);
            }
        }
        FieldElement { value, modulus: self.modulus.clone_big() }
    }

    fn sub(&self, rhs: &Self) -> (r: Self) {
        let value = mod_sub(&self.value, &rhs.value, &self.modulus);
        proof {
            if value.negative {
                crate::big::lemma_mag_val_pos(value.mag@);
            }
        }
        FieldElement { value, modulus: self.modulus.clone_big() }
    }

    fn mul(&self, rhs: &Self) -> (r: Self) {
        let value = mod_mul(&self.value, &rhs.value, &self.modulus);
        proof {
            if value.negative {
                crate::big::lemma_mag_val_pos(value.mag@);
            }
        }
        FieldElement { value, modulus: self.modulus.clone_big() }
    }

    fn div(&self, rhs: &Self) -> (r: Self) {
        match big_modinv(&rhs.value, &self.modulus) {
            Some(x) => {
                let value = mod_mul(&self.value, &x, &self.modulus);
                proof {
                    if value.negative {
                        crate::big::lemma_mag_val_pos(value.mag@);
                    }
                    lemma_div_cancels(
                        self.value@,
                        rhs.value@,
                        x@,
                        self.modulus@,
                    );
                }
                FieldElement { value, modulus: self.modulus.clone_big() }
            },
            None => {
                proof {
                    assert(false);
                }
                FieldElement { value: Big::zero(), modulus: self.modulus.clone_big() }
            },
        }
    }
}

/// The division relation pins its result completely: when the divisor is
/// invertible, two well-formed results satisfying it hold the same value.
pub proof fn lemma_div_unique(
    a: &FieldElement,
    b: &FieldElement,
    r1: &FieldElement,
    r2: &FieldElement,
)
    requires
        a.wf(),
        r1.wf(),
        r2.wf(),
        a.div_ok(b),
        a.div_rel(b, r1),
        a.div_rel(b, r2),
    ensures
        r1.value@ == r2.value@,
{
    let m = a.modulus@;
    let y = choose|y: int| 0 <= y < m && #[trigger] ((b.value@ * y) % m) == 1;
    lemma_mul_by_inverse_recovers(r1.value@, b.value@, y, m);
    lemma_mul_by_inverse_recovers(r2.value@, b.value@, y, m);
}

/// If `y` inverts `b` modulo `m` and `r` is canonical, multiplying
/// `(r·b) mod m` by `y` recovers `r`.
proof fn lemma_mul_by_inverse_recovers(r: int, b: int, y: int, m: int)
    requires
        m >= 2,
        0 <= r < m,
        (b * y) % m == 1,
    ensures
        (((r * b) % m) * y) % m == r,
{
    vstd::arithmetic::div_mod::lemma_mul_mod_noop_left(r * b, y, m);
    assert((r * b) * y == r * (b * y)) by (nonlinear_arith);
    vstd::arithmetic::div_mod::lemma_mul_mod_noop_right(r, b * y, m);
    assert((r * 1) % m == r % m);
    vstd::arithmetic::div_mod::lemma_small_mod(r as nat, m as nat);
}

/// If `x` inverts `b` modulo `m`, then `(a·x mod m) · b ≡ a (mod m)`; with
/// `a` already canonical the congruence is an equality.
proof fn lemma_div_cancels(a: int, b: int, x: int, m: int)
    requires
        m >= 2,
        0 <= a < m,
        (b * x) % m == 1,
    ensures
        (((a * x) % m) * b) % m == a,
{
    vstd::arithmetic::div_mod::lemma_mul_mod_noop_left(a * x, b, m);
    assert((a * x) * b == a * (b * x)) by (nonlinear_arith);
    vstd::arithmetic::div_mod::lemma_mul_mod_noop_right(a, b * x, m);
    assert((a * 1) % m == a % m);
    vstd::arithmetic::div_mod::lemma_small_mod(a as nat, m as nat);
}

/// The vector form: the operations act element by element, and the result is
/// as long as the shorter operand.
impl Operations for Vec<FieldElement> {
    open spec fn wf_el(&self) -> bool {
        forall|i: int| 0 <= i < self@.len() ==> #[trigger] self@[i].wf()
    }

    open spec fn compat(&self, rhs: &Self) -> bool {
        forall|i: int|
            0 <= i < self@.len() && i < rhs@.len() ==> #[trigger] self@[i].modulus@
                == rhs@[i].modulus@
    }

    open spec fn add_rel(&self, rhs: &Self, out: &Self) -> bool {
        &&& out@.len() == vstd::math::min(self@.len() as int, rhs@.len() as int)
        &&& forall|i: int|
            0 <= i < out@.len() ==> #[trigger] self@[i].add_rel(&rhs@[i], &out@[i])
    }

    open spec fn sub_rel(&self, rhs: &Self, out: &Self) -> bool {
        &&& out@.len() == vstd::math::min(self@.len() as int, rhs@.len() as int)
        &&& forall|i: int|
            0 <= i < out@.len() ==> #[trigger] self@[i].sub_rel(&rhs@[i], &out@[i])
    }

    open spec fn mul_rel(&self, rhs: &Self, out: &Self) -> bool {
        &&& out@.len() == vstd::math::min(self@.len() as int, rhs@.len() as int)
        &&& forall|i: int|
            0 <= i < out@.len() ==> #[trigger] self@[i].mul_rel(&rhs@[i], &out@[i])
    }

    open spec fn div_ok(&self, rhs: &Self) -> bool {
        forall|i: int|
            0 <= i < self@.len() && i < rhs@.len() ==> #[trigger] self@[i].div_ok(&rhs@[i])
    }

    open spec fn div_rel(&self, rhs: &Self, out: &Self) -> bool {
        &&& out@.len() == vstd::math::min(self@.len() as int, rhs@.len() as int)
        &&& forall|i: int|
            0 <= i < out@.len() ==> #[trigger] self@[i].div_rel(&rhs@[i], &out@[i])
    }

    fn add(&self, rhs: &Self) -> (r: Self) {
        let mut out: Vec<FieldElement> = Vec::new();
        let n = if self.len() < rhs.len() {
            self.len()
        } else {
            rhs.len()
        };
        let mut i: usize = 0;
        while i < n
            invariant
                i <= n,
                n == vstd::math::min(self@.len() as int, rhs@.len() as int),
                out@.len() == i,
                self.wf_el(),
                rhs.wf_el(),
                self.compat(rhs),
                forall|t: int|
                    0 <= t < i ==> #[trigger] self@[t].add_rel(&rhs@[t], &out@[t]),
                forall|t: int| 0 <= t < i ==> #[trigger] out@[t].wf(),
            decreases n - i,
        {
            out.push(Operations::add(&self[i], &rhs[i]));
            i = i + 1;
        }
        out
    }

    fn sub(&self, rhs: &Self) -> (r: Self) {
        let mut out: Vec<FieldElement> = Vec::new();
        let n = if self.len() < rhs.len() {
            self.len()
        } else {
            rhs.len()
        };
        let mut i: usize = 0;
        while i < n
            invariant
                i <= n,
                n == vstd::math::min(self@.len() as int, rhs@.len() as int),
                out@.len() == i,
                self.wf_el(),
                rhs.wf_el(),
                self.compat(rhs),
                forall|t: int|
                    0 <= t < i ==> #[trigger] self@[t].sub_rel(&rhs@[t], &out@[t]),
                forall|t: int| 0 <= t < i ==> #[trigger] out@[t].wf(),
            decreases n - i,
        {
            out.push(Operations::sub(&self[i], &rhs[i]));
            i = i + 1;
        }
        out
    }

    fn mul(&self, rhs: &Self) -> (r: Self) {
        let mut out: Vec<FieldElement> = Vec::new();
        let n = if self.len() < rhs.len() {
            self.len()
        } else {
            rhs.len()
        };
        let mut i: usize = 0;
        while i < n
            invariant
                i <= n,
                n == vstd::math::min(self@.len() as int, rhs@.len() as int),
                out@.len() == i,
                self.wf_el(),
                rhs.wf_el(),
                self.compat(rhs),
                forall|t: int|
                    0 <= t < i ==> #[trigger] self@[t].mul_rel(&rhs@[t], &out@[t]),
                forall|t: int| 0 <= t < i ==> #[trigger] out@[t].wf(),
            decreases n - i,
        {
            out.push(Operations::mul(&self[i], &rhs[i]));
            i = i + 1;
        }
        out
    }

    fn div(&self, rhs: &Self) -> (r: Self) {
        let mut out: Vec<FieldElement> = Vec::new();
        let n = if self.len() < rhs.len() {
            self.len()
        } else {
            rhs.len()
        };
        let mut i: usize = 0;
        while i < n
            invariant
                i <= n,
                n == vstd::math::min(self@.len() as int, rhs@.len() as int),
                out@.len() == i,
                self.wf_el(),
                rhs.wf_el(),
                self.compat(rhs),
                self.div_ok(rhs),
                forall|t: int|
                    0 <= t < i ==> #[trigger] self@[t].div_rel(&rhs@[t], &out@[t]),
                forall|t: int| 0 <= t < i ==> #[trigger] out@[t].wf(),
            decreases n - i,
        {
            out.push(Operations::div(&self[i], &rhs[i]));
            i = i + 1;
        }
        out
    }
}

} // verus!
