//! The arithmetic operators and the Euclidean division with its relations.
use crate::gaussian::{div_fits, fits_isize, from_zi, wide_mul, zi_fits, DivisionByZero, GaussianInt};
use crate::model::{
    abs, round_div, zi_add, zi_congruent, zi_divides, zi_mul, zi_neg, zi_norm, zi_quot, zi_rem,
    zi_sub, zi_zero,
};
use vstd::prelude::*;

verus! {

/// The integer nearest to `p / n`, a tie rounded away from zero.
fn round_div_exec(p: i128, n: u128) -> (r: i128)
    requires
        0 < n <= 0x8000_0000_0000_0000_0000_0000_0000_0000,
        fits_isize(round_div(p as int, n as int)),
    ensures
        r == round_div(p as int, n as int),
{
    let m: u128 = if p >= 0 {
        p as u128
    } else {
        ((-(p + 1)) as u128) + 1
    };
    assert(m == abs(p as int));
    let q0 = m / n;
    let r0 = m % n;
    let t: u128 = if r0 >= n - r0 {
        q0 + 1
    } else {
        q0
    };
    if p >= 0 {
        t as i128
    } else {
        0 - (t as i128)
    }
}

/// The norm of an `isize` Gaussian integer, exactly, as `u128`.
fn wide_norm(b: GaussianInt) -> (r: u128)
    ensures
        r == zi_norm(b@),
        r <= 0x8000_0000_0000_0000_0000_0000_0000_0000,
{
    let x = wide_mul(b.re, b.re);
    let y = wide_mul(b.im, b.im);
    assert(x >= 0) by (nonlinear_arith)
        requires
            x == (b.re as int) * (b.re as int),
    ;
    assert(y >= 0) by (nonlinear_arith)
        requires
            y == (b.im as int) * (b.im as int),
    ;
    (x as u128) + (y as u128)
}

/// Euclidean division: the quotient rounded to the nearest Gaussian integer,
/// and the remainder.
fn euclid(a: GaussianInt, b: GaussianInt) -> (r: (GaussianInt, GaussianInt))
    requires
        b@ != zi_zero(),
        div_fits(a@, b@),
    ensures
        r.0@ == zi_quot(a@, b@),
        r.1@ == zi_rem(a@, b@),
{
    let n = wide_norm(b);
    proof {
        crate::model::lemma_norm_nonneg(b@);
        assert((a.im as int) * (-(b.im as int)) == -((a.im as int) * (b.im as int)))
            by (nonlinear_arith);
        assert((a.re as int) * (-(b.im as int)) == -((a.re as int) * (b.im as int)))
            by (nonlinear_arith);
    }
    let p0 = wide_mul(a.re, b.re) + wide_mul(a.im, b.im);
    let p1 = wide_mul(a.im, b.re) - wide_mul(a.re, b.im);
    let q = GaussianInt { re: round_div_exec(p0, n) as isize, im: round_div_exec(p1, n) as isize };
    let r0 = (a.re as i128 - wide_mul(q.re, b.re)) + wide_mul(q.im, b.im);
    let r1 = (a.im as i128 - wide_mul(q.re, b.im)) - wide_mul(q.im, b.re);
    (q, GaussianInt { re: r0 as isize, im: r1 as isize })
}

impl core::ops::Add for GaussianInt {
    type Output = GaussianInt;

    fn add(self, rhs: GaussianInt) -> (r: GaussianInt)
        ensures
            r@ == zi_add(self@, rhs@),
    {
        GaussianInt { re: self.re + rhs.re, im: self.im + rhs.im }
    }
}

impl vstd::std_specs::ops::AddSpecImpl for GaussianInt {
    open spec fn obeys_add_spec() -> bool {
        true
    }

    open spec fn add_req(self, rhs: GaussianInt) -> bool {
        zi_fits(zi_add(self@, rhs@))
    }

    open spec fn add_spec(self, rhs: GaussianInt) -> GaussianInt {
        from_zi(zi_add(self@, rhs@))
    }
}

impl core::ops::Sub for GaussianInt {
    type Output = GaussianInt;

    fn sub(self, rhs: GaussianInt) -> (r: GaussianInt)
        ensures
            r@ == zi_sub(self@, rhs@),
    {
        GaussianInt { re: self.re - rhs.re, im: self.im - rhs.im }
    }
}

impl vstd::std_specs::ops::SubSpecImpl for GaussianInt {
    open spec fn obeys_sub_spec() -> bool {
        true
    }

    open spec fn sub_req(self, rhs: GaussianInt) -> bool {
        zi_fits(zi_sub(self@, rhs@))
    }

    open spec fn sub_spec(self, rhs: GaussianInt) -> GaussianInt {
        from_zi(zi_sub(self@, rhs@))
    }
}

impl core::ops::Mul for GaussianInt {
    type Output = GaussianInt;

    fn mul(self, rhs: GaussianInt) -> (r: GaussianInt)
        ensures
            r@ == zi_mul(self@, rhs@),
    {
        let re = wide_mul(self.re, rhs.re) - wide_mul(self.im, rhs.im);
        let im = wide_mul(self.re, rhs.im) + wide_mul(self.im, rhs.re);
        GaussianInt { re: re as isize, im: im as isize }
    }
}

impl vstd::std_specs::ops::MulSpecImpl for GaussianInt {
    open spec fn obeys_mul_spec() -> bool {
        true
    }

    open spec fn mul_req(self, rhs: GaussianInt) -> bool {
        zi_fits(zi_mul(self@, rhs@))
    }

    open spec fn mul_spec(self, rhs: GaussianInt) -> GaussianInt {
        from_zi(zi_mul(self@, rhs@))
    }
}

impl core::ops::Neg for GaussianInt {
    type Output = GaussianInt;

    fn neg(self) -> (r: GaussianInt)
        ensures
            r@ == zi_neg(self@),
    {
        GaussianInt { re: -self.re, im: -self.im }
    }
}

impl vstd::std_specs::ops::NegSpecImpl for GaussianInt {
    open spec fn obeys_neg_spec() -> bool {
        true
    }

    open spec fn neg_req(self) -> bool {
        zi_fits(zi_neg(self@))
    }

    open spec fn neg_spec(self) -> GaussianInt {
        from_zi(zi_neg(self@))
    }
}

impl core::ops::Div for GaussianInt {
    type Output = GaussianInt;

    /// The Euclidean quotient: `self·conj(rhs) / norm(rhs)` with each
    /// component rounded to the nearest integer, a tie away from zero.
    fn div(self, rhs: GaussianInt) -> (r: GaussianInt)
        ensures
            r@ == zi_quot(self@, rhs@),
    {
        euclid(self, rhs).0
    }
}

impl vstd::std_specs::ops::DivSpecImpl for GaussianInt {
    open spec fn obeys_div_spec() -> bool {
        true
    }

    open spec fn div_req(self, rhs: GaussianInt) -> bool {
        rhs@ != zi_zero() && div_fits(self@, rhs@)
    }

    open spec fn div_spec(self, rhs: GaussianInt) -> GaussianInt {
        from_zi(zi_quot(self@, rhs@))
    }
}

impl core::ops::Rem for GaussianInt {
    type Output = GaussianInt;

    /// The Euclidean remainder `self − (self / rhs)·rhs`.
    fn rem(self, rhs: GaussianInt) -> (r: GaussianInt)
        ensures
            r@ == zi_rem(self@, rhs@),
    {
        euclid(self, rhs).1
    }
}

impl vstd::std_specs::ops::RemSpecImpl for GaussianInt {
    open spec fn obeys_rem_spec() -> bool {
        true
    }

    open spec fn rem_req(self, rhs: GaussianInt) -> bool {
        rhs@ != zi_zero() && div_fits(self@, rhs@)
    }

    open spec fn rem_spec(self, rhs: GaussianInt) -> GaussianInt {
        from_zi(zi_rem(self@, rhs@))
    }
}

impl GaussianInt {
    /// Quotient and remainder of the Euclidean division, or the error for a
    /// zero divisor.
    pub fn div_rem(&self, rhs: GaussianInt) -> (r: Result<(GaussianInt, GaussianInt), DivisionByZero>)
        requires
            rhs@ != zi_zero() ==> div_fits(self@, rhs@),
        ensures
            match r {
                Ok((q, m)) => rhs@ != zi_zero() && q@ == zi_quot(self@, rhs@) && m@ == zi_rem(
                    self@,
                    rhs@,
                ),
                Err(_) => rhs@ == zi_zero(),
            },
    {
        if rhs.is_zero() {
            Err(DivisionByZero)
        } else {
            Ok(euclid(*self, rhs))
        }
    }

    /// Whether `self ≡ other (mod modulus)`: `(self − other) mod modulus` is zero.
    pub fn congruent(&self, other: GaussianInt, modulus: GaussianInt) -> (r: bool)
        requires
            modulus@ != zi_zero(),
            zi_fits(zi_sub(self@, other@)),
            div_fits(zi_sub(self@, other@), modulus@),
        ensures
            r == zi_congruent(self@, other@, modulus@),
    {
        ((*self - other) % modulus).is_zero()
    }

    /// Whether `self` divides `other`: `self` is nonzero and `other mod self` is zero.
    pub fn divides(&self, other: GaussianInt) -> (r: bool)
        requires
            self@ != zi_zero() ==> div_fits(other@, self@),
        ensures
            r == zi_divides(self@, other@),
    {
        !self.is_zero() && (other % *self).is_zero()
    }
}

} // verus!
