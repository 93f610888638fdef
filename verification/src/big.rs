//! Signed arbitrary-precision integers, represented as a sign flag and a
//! little-endian vector of base-2^32 digits.  The arithmetic itself is done
//! by `num_bigint`; every operation is specified exactly against the
//! mathematical value of the digit vector.

use vstd::prelude::*;

verus! {

/// The value of a little-endian base-2^32 digit sequence.
pub open spec fn mag_val(s: Seq<u32>) -> nat
    decreases s.len(),
{
    if s.len() == 0 {
        0
    } else {
        s[0] as nat + 0x1_0000_0000 * mag_val(s.subrange(1, s.len() as int))
    }
}

/// A signed arbitrary-precision integer: `mag` holds the magnitude as
/// little-endian base-2^32 digits, `negative` the sign.
pub struct Big {
    pub negative: bool,
    pub mag: Vec<u32>,
}

impl View for Big {
    type V = int;

    open spec fn view(&self) -> int {
        if self.negative {
            -(mag_val(self.mag@) as int)
        } else {
            mag_val(self.mag@) as int
        }
    }
}

impl Big {
    /// Canonical form: no leading zero digit, and zero is never negative.
    pub open spec fn wf(&self) -> bool {
        &&& (self.mag@.len() > 0 ==> self.mag@.last() != 0)
        &&& (self.negative ==> self.mag@.len() > 0)
    }

    pub fn zero() -> (r: Big)
        ensures
            r.wf(),
            r@ == 0,
    {
        Big { negative: false, mag: Vec::new() }
    }

    pub fn from_u64(x: u64) -> (r: Big)
        ensures
            r.wf(),
            r@ == x,
    {
        let mut mag: Vec<u32> = Vec::new();
        let lo: u32 = (x % 0x1_0000_0000) as u32;
        let hi: u32 = (x / 0x1_0000_0000) as u32;
        if hi != 0 {
            mag.push(lo);
            mag.push(hi);
            proof {
                let s = mag@;
                let s1 = s.subrange(1, 2);
                assert(s1.len() == 1 && s1[0] == hi);
                assert(s1.subrange(1, 1) =~= Seq::<u32>::empty());
                assert(mag_val(s1.subrange(1, 1)) == 0);
                assert(mag_val(s1) == hi);
                assert(mag_val(s) == lo + 0x1_0000_0000 * (hi as nat));
            }
        } else if lo != 0 {
            mag.push(lo);
            proof {
                let s = mag@;
                assert(s.subrange(1, 1) =~= Seq::<u32>::empty());
                assert(mag_val(s.subrange(1, 1)) == 0);
                assert(mag_val(s) == lo);
            }
        }
        Big { negative: false, mag }
    }

    /// Builds a value from canonical little-endian digits and a sign.
    pub fn from_limbs(mag: Vec<u32>, negative: bool) -> (r: Big)
        requires
            mag@.len() > 0 ==> mag@.last() != 0,
            negative ==> mag@.len() > 0,
        ensures
            r.wf(),
            r@ == if negative {
                -(mag_val(mag@) as int)
            } else {
                mag_val(mag@) as int
            },
    {
        Big { negative, mag }
    }

    pub fn clone_big(&self) -> (r: Big)
        ensures
            r.negative == self.negative,
            r.mag@ == self.mag@,
            r@ == self@,
            r.wf() == self.wf(),
    {
        let mut mag: Vec<u32> = Vec::new();
        let mut i: usize = 0;
        while i < self.mag.len()
            invariant
                i <= self.mag.len(),
                mag@ =~= self.mag@.subrange(0, i as int),
            decreases self.mag.len() - i,
        {
            mag.push(self.mag[i]);
            i = i + 1;
        }
        proof {
            assert(mag@ =~= self.mag@);
        }
        Big { negative: self.negative, mag }
    }

    /// The magnitude, as a fresh value.
    pub fn abs_big(&self) -> (r: Big)
        requires
            self.wf(),
        ensures
            r.wf(),
            r@ == vstd::math::abs(self@),
    {
        let c = self.clone_big();
        Big { negative: false, mag: c.mag }
    }

    /// The additive inverse.
    pub fn neg_big(&self) -> (r: Big)
        requires
            self.wf(),
        ensures
            r.wf(),
            r@ == -self@,
    {
        let c = self.clone_big();
        let negative = if c.mag.len() == 0 {
            false
        } else {
            !self.negative
        };
        Big { negative, mag: c.mag }
    }

    pub fn is_zero(&self) -> (r: bool)
        requires
            self.wf(),
        ensures
            r == (self@ == 0),
    {
        proof {
            if self.mag@.len() > 0 {
                lemma_mag_val_pos(self.mag@);
            }
        }
        self.mag.len() == 0
    }

    pub fn is_negative(&self) -> (r: bool)
        requires
            self.wf(),
        ensures
            r == (self@ < 0),
    {
        proof {
            if self.mag@.len() > 0 {
                lemma_mag_val_pos(self.mag@);
            }
        }
        self.negative
    }

    /// Value equality.
    pub fn equals(&self, other: &Big) -> (r: bool)
        ensures
            r == (self@ == other@),
    {
        !big_lt(self, other) && !big_lt(other, self)
    }
}

/// A nonempty canonical digit sequence has a positive value.
pub proof fn lemma_mag_val_pos(s: Seq<u32>)
    requires
        s.len() > 0,
        s.last() != 0,
    ensures
        mag_val(s) >= 1,
    decreases s.len(),
{
    let rest = s.subrange(1, s.len() as int);
    if s.len() == 1 {
        assert(rest =~= Seq::<u32>::empty());
        assert(s[0] == s.last());
    } else {
        assert(rest.last() == s.last());
        lemma_mag_val_pos(rest);
    }
}

/// Truncating (round-toward-zero) integer division, as `num_bigint` and the
/// Rust primitive types perform it.
pub open spec fn trunc_div(n: int, d: int) -> int {
    let q = vstd::math::abs(n) as int / vstd::math::abs(d) as int;
    if (n >= 0) == (d >= 0) {
        q
    } else {
        -q
    }
}

/// Relies on `num_bigint`: `BigUint::from_slice` reads little-endian base-2^32
/// digits, `BigInt` addition returns the exact integer sum, and
/// `BigInt::magnitude().to_u32_digits()` returns the minimal digit vector.
#[verifier::external_body]
pub fn big_add(a: &Big, b: &Big) -> (r: Big)
    ensures
        r.wf(),
        r@ == a@ + b@,
{
    let x = num_bigint::BigInt::from_biguint(
        if a.negative { num_bigint::Sign::Minus } else { num_bigint::Sign::Plus },
        num_bigint::BigUint::from_slice(&a.mag),
    );
    let y = num_bigint::BigInt::from_biguint(
        if b.negative { num_bigint::Sign::Minus } else { num_bigint::Sign::Plus },
        num_bigint::BigUint::from_slice(&b.mag),
    );
    let s = x + y;
    Big { negative: s.sign() == num_bigint::Sign::Minus, mag: s.magnitude().to_u32_digits() }
}

/// Relies on `num_bigint`: `BigInt` subtraction returns the exact integer
/// difference; digit conversions as in `big_add`.
#[verifier::external_body]
pub fn big_sub(a: &Big, b: &Big) -> (r: Big)
    ensures
        r.wf(),
        r@ == a@ - b@,
{
    let x = num_bigint::BigInt::from_biguint(
        if a.negative { num_bigint::Sign::Minus } else { num_bigint::Sign::Plus },
        num_bigint::BigUint::from_slice(&a.mag),
    );
    let y = num_bigint::BigInt::from_biguint(
        if b.negative { num_bigint::Sign::Minus } else { num_bigint::Sign::Plus },
        num_bigint::BigUint::from_slice(&b.mag),
    );
    let s = x - y;
    Big { negative: s.sign() == num_bigint::Sign::Minus, mag: s.magnitude().to_u32_digits() }
}

/// Relies on `num_bigint`: `BigInt` multiplication returns the exact integer
/// product; digit conversions as in `big_add`.
#[verifier::external_body]
pub fn big_mul(a: &Big, b: &Big) -> (r: Big)
    ensures
        r.wf(),
        r@ == a@ * b@,
{
    let x = num_bigint::BigInt::from_biguint(
        if a.negative { num_bigint::Sign::Minus } else { num_bigint::Sign::Plus },
        num_bigint::BigUint::from_slice(&a.mag),
    );
    let y = num_bigint::BigInt::from_biguint(
        if b.negative { num_bigint::Sign::Minus } else { num_bigint::Sign::Plus },
        num_bigint::BigUint::from_slice(&b.mag),
    );
    let s = x * y;
    Big { negative: s.sign() == num_bigint::Sign::Minus, mag: s.magnitude().to_u32_digits() }
}

/// Relies on `num_bigint`: `BigInt` division truncates the exact quotient
/// toward zero (`Integer::div_rem`); digit conversions as in `big_add`.
#[verifier::external_body]
pub fn big_div(a: &Big, b: &Big) -> (r: Big)
    requires
        b@ != 0,
    ensures
        r.wf(),
        r@ == trunc_div(a@, b@),
{
    let x = num_bigint::BigInt::from_biguint(
        if a.negative { num_bigint::Sign::Minus } else { num_bigint::Sign::Plus },
        num_bigint::BigUint::from_slice(&a.mag),
    );
    let y = num_bigint::BigInt::from_biguint(
        if b.negative { num_bigint::Sign::Minus } else { num_bigint::Sign::Plus },
        num_bigint::BigUint::from_slice(&b.mag),
    );
    let s = x / y;
    Big { negative: s.sign() == num_bigint::Sign::Minus, mag: s.magnitude().to_u32_digits() }
}

/// Relies on `num_bigint`: `BigInt` values are ordered by their integer value.
#[verifier::external_body]
pub fn big_lt(a: &Big, b: &Big) -> (r: bool)
    ensures
        r == (a@ < b@),
{
    let x = num_bigint::BigInt::from_biguint(
        if a.negative { num_bigint::Sign::Minus } else { num_bigint::Sign::Plus },
        num_bigint::BigUint::from_slice(&a.mag),
    );
    let y = num_bigint::BigInt::from_biguint(
        if b.negative { num_bigint::Sign::Minus } else { num_bigint::Sign::Plus },
        num_bigint::BigUint::from_slice(&b.mag),
    );
    x < y
}

/// Relies on `num_bigint`: `BigUint::modinv` returns the inverse in
/// `[0, modulus)` if it exists, and `None` otherwise.
#[verifier::external_body]
pub fn big_modinv(a: &Big, m: &Big) -> (r: Option<Big>)
    requires
        !a.negative,
        !m.negative,
        m@ >= 2,
    ensures
        match r {
            Some(x) => x.wf() && 0 <= x@ < m@ && (a@ * x@) % m@ == 1,
            None => forall|y: int| 0 <= y < m@ ==> #[trigger] ((a@ * y) % m@) != 1,
        },
{
    let x = num_bigint::BigUint::from_slice(&a.mag);
    let md = num_bigint::BigUint::from_slice(&m.mag);
    match x.modinv(&md) {
        Some(i) => Some(Big { negative: false, mag: i.to_u32_digits() }),
        None => None,
    }
}

} // verus!
