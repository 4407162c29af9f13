//! The greatest common divisor by the Euclidean algorithm.
use crate::gaussian::{div_fits, zi_fits, GaussianInt};
use crate::model::{lemma_div_rem, zi_gcd, zi_norm, zi_normalize, zi_rem, zi_zero, Zi};
use vstd::prelude::*;

verus! {

/// Every Euclidean division that the algorithm on `(a, b)` performs, and the
/// final normalization, stay within the range of the machine types.
pub open spec fn gcd_fits(a: Zi, b: Zi) -> bool
    decreases zi_norm(b),
    via gcd_fits_decreases
{
    if b == zi_zero() {
        zi_fits(zi_normalize(a))
    } else {
        div_fits(a, b) && gcd_fits(b, zi_rem(a, b))
    }
}

#[via_fn]
proof fn gcd_fits_decreases(a: Zi, b: Zi) {
    if b != zi_zero() {
        lemma_div_rem(a, b);
    }
}

impl GaussianInt {
    /// A greatest common divisor of `a` and `b`, found by replacing `(a, b)`
    /// with `(b, a mod b)` until `b` is zero, and normalized to a
    /// non-negative real part (a non-negative imaginary part on the imaginary
    /// axis).
    pub fn gcd(a: GaussianInt, b: GaussianInt) -> (r: GaussianInt)
        requires
            gcd_fits(a@, b@),
        ensures
            r@ == zi_gcd(a@, b@),
    {
        let mut x = a;
        let mut y = b;
        while !y.is_zero()
            invariant
                gcd_fits(x@, y@),
                zi_gcd(x@, y@) == zi_gcd(a@, b@),
            decreases zi_norm(y@),
        {
            proof {
                lemma_div_rem(x@, y@);
            }
            let remainder = x % y;
            x = y;
            y = remainder;
        }
        GaussianInt::normalize_gcd(x)
    }

    /// `g` or `−g`, whichever has a non-negative real part (a non-negative
    /// imaginary part where the real part is zero).
    fn normalize_gcd(g: GaussianInt) -> (r: GaussianInt)
        requires
            zi_fits(zi_normalize(g@)),
        ensures
            r@ == zi_normalize(g@),
    {
        if g.re < 0 {
            core::ops::Neg::neg(g)
        } else if g.re == 0 && g.im < 0 {
            core::ops::Neg::neg(g)
        } else {
            g
        }
    }
}

} // verus!
