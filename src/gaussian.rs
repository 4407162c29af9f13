//! The value type and its ring operations that need no division.
use crate::model::{
    abs, lemma_parity, zi_associated, zi_congruent, zi_conj, zi_mul, zi_norm, zi_one, zi_quot,
    zi_rem, zi_sub, zi_units, zi_zero, Zi,
};
use vstd::prelude::*;

verus! {

/// A Gaussian integer `re + im·i`.
#[derive(Clone, Copy, Debug, PartialEq, Eq, Hash, Structural)]
pub struct GaussianInt {
    pub re: isize,
    pub im: isize,
}

/// The one error of the library: a Euclidean division whose divisor is zero.
#[derive(Clone, Copy, Debug, PartialEq, Eq, Structural)]
pub struct DivisionByZero;

impl View for GaussianInt {
    type V = Zi;

    open spec fn view(&self) -> Zi {
        (self.re as int, self.im as int)
    }
}

pub open spec fn fits_isize(x: int) -> bool {
    isize::MIN <= x <= isize::MAX
}

pub open spec fn fits_i128(x: int) -> bool {
    i128::MIN <= x <= i128::MAX
}

/// Both components of `z` are within the range of `isize`.
pub open spec fn zi_fits(z: Zi) -> bool {
    fits_isize(z.0) && fits_isize(z.1)
}

/// The value of the library's type whose view is `z` (where `z` fits).
pub open spec fn from_zi(z: Zi) -> GaussianInt {
    GaussianInt { re: z.0 as isize, im: z.1 as isize }
}

/// Every value that the Euclidean division of `a` by `b` computes fits its
/// machine type: the numerator `a·conj(b)` in `i128`, the quotient and the
/// remainder in `isize`.
pub open spec fn div_fits(a: Zi, b: Zi) -> bool {
    let p = zi_mul(a, zi_conj(b));
    fits_i128(p.0) && fits_i128(p.1) && zi_fits(zi_quot(a, b)) && zi_fits(zi_rem(a, b))
}

/// The product of two `isize` values lies within `(−2^126, 2^126]`.
pub proof fn lemma_isize_product(x: isize, y: isize)
    ensures
        -0x4000_0000_0000_0000_0000_0000_0000_0000 < (x as int) * (y as int)
            <= 0x4000_0000_0000_0000_0000_0000_0000_0000,
{
    let a = x as int;
    let b = y as int;
    assert(-0x8000_0000_0000_0000 <= a < 0x8000_0000_0000_0000);
    assert(-0x8000_0000_0000_0000 <= b < 0x8000_0000_0000_0000);
    assert(-0x4000_0000_0000_0000_0000_0000_0000_0000 < a * b
        <= 0x4000_0000_0000_0000_0000_0000_0000_0000) by (nonlinear_arith)
        requires
            -0x8000_0000_0000_0000 <= a < 0x8000_0000_0000_0000,
            -0x8000_0000_0000_0000 <= b < 0x8000_0000_0000_0000,
    ;
}

/// A product with a factor in {−1, 0, 1} is no larger than the other factor.
proof fn lemma_small_product(x: int, c: int)
    requires
        -1 <= c <= 1,
    ensures
        -abs(x) <= x * c <= abs(x),
{
    assert(-abs(x) <= x * c <= abs(x)) by (nonlinear_arith)
        requires
            -1 <= c <= 1,
            abs(x) == if x >= 0 {
                x
            } else {
                -x
            },
    ;
}

/// The exact product of two `isize` values.
pub fn wide_mul(x: isize, y: isize) -> (r: i128)
    ensures
        r == (x as int) * (y as int),
        -0x4000_0000_0000_0000_0000_0000_0000_0000 < r <= 0x4000_0000_0000_0000_0000_0000_0000_0000,
{
    proof {
        lemma_isize_product(x, y);
    }
    (x as i128) * (y as i128)
}

/// The absolute value of an `isize`, which always fits a `u64`.
pub(crate) fn abs_u64(x: isize) -> (r: u64)
    ensures
        r == abs(x as int),
{
    if x >= 0 {
        x as u64
    } else {
        ((-(x + 1)) as u64) + 1
    }
}

/// The exact product of two Gaussian integers, in `i128` components.
fn wide_zi_mul(a: GaussianInt, b: GaussianInt) -> (r: (i128, i128))
    requires
        fits_i128(zi_mul(a@, b@).1),
    ensures
        (r.0 as int, r.1 as int) == zi_mul(a@, b@),
{
    (wide_mul(a.re, b.re) - wide_mul(a.im, b.im), wide_mul(a.re, b.im) + wide_mul(a.im, b.re))
}

impl GaussianInt {
    /// The Gaussian integer `re + im·i`.
    pub fn new(re: isize, im: isize) -> (r: GaussianInt)
        ensures
            r@ == (re as int, im as int),
    {
        GaussianInt { re, im }
    }

    /// The rational integer `n`, that is `n + 0i`.
    pub fn from_int(n: isize) -> (r: GaussianInt)
        ensures
            r@ == (n as int, 0int),
    {
        GaussianInt { re: n, im: 0 }
    }

    pub fn zero() -> (r: GaussianInt)
        ensures
            r@ == zi_zero(),
    {
        GaussianInt { re: 0, im: 0 }
    }

    pub fn one() -> (r: GaussianInt)
        ensures
            r@ == zi_one(),
    {
        GaussianInt { re: 1, im: 0 }
    }

    pub fn is_zero(&self) -> (r: bool)
        ensures
            r == (self@ == zi_zero()),
    {
        self.re == 0 && self.im == 0
    }

    /// The complex conjugate `re − im·i`.
    pub fn conj(&self) -> (r: GaussianInt)
        requires
            fits_isize(-self.im),
        ensures
            r@ == zi_conj(self@),
    {
        GaussianInt { re: self.re, im: -self.im }
    }

    /// The norm `self·conj(self) = re² + im²`, as a Gaussian integer with a
    /// zero imaginary part.
    pub fn norm(&self) -> (r: GaussianInt)
        requires
            fits_isize(zi_norm(self@)),
        ensures
            r@ == (zi_norm(self@), 0int),
    {
        let n = wide_mul(self.re, self.re) + wide_mul(self.im, self.im);
        GaussianInt { re: n as isize, im: 0 }
    }

    /// Whether the imaginary part is zero.
    pub fn is_rational(&self) -> (r: bool)
        ensures
            r == (self@.1 == 0),
    {
        self.im == 0
    }

    /// The four units of ℤ[i]: 1, −1, i, −i.
    pub fn units() -> (r: [GaussianInt; 4])
        ensures
            forall|j: int| 0 <= j < 4 ==> (#[trigger] r@[j])@ == zi_units()[j],
    {
        [
            GaussianInt { re: 1, im: 0 },
            GaussianInt { re: -1, im: 0 },
            GaussianInt { re: 0, im: 1 },
            GaussianInt { re: 0, im: -1 },
        ]
    }

    /// Whether `other` is `self` times one of the four units.
    pub fn is_associated(&self, other: GaussianInt) -> (r: bool)
        ensures
            r == zi_associated(self@, other@),
    {
        let units = GaussianInt::units();
        let mut j: usize = 0;
        while j < 4
            invariant
                0 <= j <= 4,
                forall|i: int| 0 <= i < 4 ==> (#[trigger] units@[i])@ == zi_units()[i],
                forall|i: int| 0 <= i < j ==> #[trigger] zi_mul(self@, zi_units()[i]) != other@,
            decreases 4 - j,
        {
            let u = units[j];
            proof {
                lemma_small_product(self.re as int, u.im as int);
                lemma_small_product(self.im as int, u.re as int);
            }
            let p = wide_zi_mul(*self, u);
            if p.0 == other.re as i128 && p.1 == other.im as i128 {
                return true;
            }
            j = j + 1;
        }
        false
    }

    /// Whether `self ≡ 0 (mod 1 + i)`.
    pub fn is_even(&self) -> (r: bool)
        ensures
            r == zi_congruent(self@, zi_zero(), (1int, 1int)),
    {
        proof {
            lemma_parity(self@);
            assert(zi_sub(self@, zi_zero()) == self@);
        }
        (self.re % 2 == 0) == (self.im % 2 == 0)
    }

    /// Whether `self ≡ 1 (mod 1 + i)`.
    pub fn is_odd(&self) -> (r: bool)
        ensures
            r == zi_congruent(self@, zi_one(), (1int, 1int)),
    {
        proof {
            lemma_parity(zi_sub(self@, zi_one()));
        }
        (self.re % 2 == 0) != (self.im % 2 == 0)
    }
}

/// The real part: the integer that a rational Gaussian integer stands for.
impl From<GaussianInt> for isize {
    fn from(g: GaussianInt) -> (r: isize)
        ensures
            r == g.re,
    {
        g.re
    }
}

impl vstd::std_specs::convert::FromSpecImpl<GaussianInt> for isize {
    open spec fn obeys_from_spec() -> bool {
        true
    }

    open spec fn from_spec(g: GaussianInt) -> isize {
        g.re
    }
}

} // verus!
