//! Gaussian integers: complex numbers whose real and imaginary parts are both
//! integers, with the ring operations, Euclidean division, congruence,
//! divisibility, associates, the greatest common divisor and the primality test.
//!
//! Each operation is specified over the mathematical model in [`model`], where a
//! value is a pair of unbounded integers. Operations whose machine arithmetic
//! could overflow the `isize` components name the range they need in `requires`.
pub mod model;
pub mod gaussian;
pub mod ops;
pub mod gcd;
pub mod prime;
pub mod laws;
pub mod text;
pub mod grid;

pub use gaussian::{DivisionByZero, GaussianInt};
pub use grid::{get_g_ints, get_g_primes, get_pos_g_ints};
