//! Gaussian primality, decided through a primality test on rational integers.
use crate::gaussian::{abs_u64, wide_mul, GaussianInt};
use crate::model::{abs, zi_norm, Zi};
use vstd::prelude::*;

verus! {

/// `n` is a (rational) prime number.
pub open spec fn is_prime(n: int) -> bool {
    n >= 2 && forall|d: int| 2 <= d < n ==> #[trigger] (n % d) != 0
}

/// `a + bi` is a Gaussian prime: either exactly one of `a`, `b` is zero and the
/// absolute value of the other is a prime congruent to 3 mod 4, or both are
/// nonzero and `a² + b²` is a prime.
pub open spec fn zi_is_gaussian_prime(z: Zi) -> bool {
    ||| (z.0 == 0 && z.1 != 0 && is_prime(abs(z.1)) && abs(z.1) % 4 == 3)
    ||| (z.0 != 0 && z.1 == 0 && is_prime(abs(z.0)) && abs(z.0) % 4 == 3)
    ||| (z.0 != 0 && z.1 != 0 && is_prime(zi_norm(z)))
}

/// Relies on `primal::is_prime`, a deterministic Miller-Rabin test that is
/// exact for every `u64`.
#[verifier::external_body]
fn rational_is_prime(n: u64) -> (r: bool)
    ensures
        r == is_prime(n as int),
{
    primal::is_prime(n)
}

impl GaussianInt {
    /// Whether `self` is a Gaussian prime. Off the axes the norm `re² + im²`
    /// is tested, so it must fit a `u64` there.
    pub fn is_gaussian_prime(&self) -> (r: bool)
        requires
            self.re == 0 || self.im == 0 || zi_norm(self@) <= u64::MAX,
        ensures
            r == zi_is_gaussian_prime(self@),
    {
        let a = self.re;
        let b = self.im;
        if a == 0 && b == 0 {
            false
        } else if a == 0 || b == 0 {
            let other = if a == 0 {
                abs_u64(b)
            } else {
                abs_u64(a)
            };
            rational_is_prime(other) && other % 4 == 3
        } else {
            let x = wide_mul(a, a);
            let y = wide_mul(b, b);
            assert(x >= 0) by (nonlinear_arith)
                requires
                    x == (a as int) * (a as int),
            ;
            assert(y >= 0) by (nonlinear_arith)
                requires
                    y == (b as int) * (b as int),
            ;
            rational_is_prime(((x as u128) + (y as u128)) as u64)
        }
    }
}

} // verus!
