//! The mathematical model of the ring of Gaussian integers: a value is a pair
//! `(re, im)` of unbounded integers, and the ring operations, the Euclidean
//! division and the derived relations are spec functions over such pairs.
use vstd::arithmetic::div_mod::{
    lemma_div_multiples_vanish, lemma_fundamental_div_mod, lemma_mod_multiples_basic,
};
use vstd::prelude::*;

verus! {

/// A Gaussian integer `re + im·i` with unbounded components.
pub type Zi = (int, int);

pub open spec fn zi_zero() -> Zi {
    (0, 0)
}

pub open spec fn zi_one() -> Zi {
    (1, 0)
}

pub open spec fn zi_add(a: Zi, b: Zi) -> Zi {
    (a.0 + b.0, a.1 + b.1)
}

pub open spec fn zi_sub(a: Zi, b: Zi) -> Zi {
    (a.0 - b.0, a.1 - b.1)
}

pub open spec fn zi_neg(a: Zi) -> Zi {
    (-a.0, -a.1)
}

/// `(a + bi)(c + di) = (ac − bd) + (ad + bc)i`.
pub open spec fn zi_mul(a: Zi, b: Zi) -> Zi {
    (a.0 * b.0 - a.1 * b.1, a.0 * b.1 + a.1 * b.0)
}

pub open spec fn zi_conj(a: Zi) -> Zi {
    (a.0, -a.1)
}

/// `re² + im²`.
pub open spec fn zi_norm(a: Zi) -> int {
    a.0 * a.0 + a.1 * a.1
}

pub open spec fn abs(x: int) -> int {
    if x >= 0 {
        x
    } else {
        -x
    }
}

/// The integer nearest to `n / d` (for `d > 0`); a tie is rounded away from zero.
pub open spec fn round_div(n: int, d: int) -> int {
    let m = abs(n);
    let t = m / d + if m % d >= d - m % d {
        1int
    } else {
        0int
    };
    if n >= 0 {
        t
    } else {
        -t
    }
}

/// The Euclidean quotient `a / b`: the exact quotient `a·conj(b) / norm(b)`
/// with each component rounded to the nearest integer.
pub open spec fn zi_quot(a: Zi, b: Zi) -> Zi {
    let p = zi_mul(a, zi_conj(b));
    let n = zi_norm(b);
    (round_div(p.0, n), round_div(p.1, n))
}

/// The Euclidean remainder `a − (a / b)·b`.
pub open spec fn zi_rem(a: Zi, b: Zi) -> Zi {
    zi_sub(a, zi_mul(zi_quot(a, b), b))
}

/// `d` divides `x`: `d` is nonzero and `x mod d` is zero.
pub open spec fn zi_divides(d: Zi, x: Zi) -> bool {
    d != zi_zero() && zi_rem(x, d) == zi_zero()
}

/// `a ≡ b (mod n)`: `(a − b) mod n` is zero.
pub open spec fn zi_congruent(a: Zi, b: Zi, n: Zi) -> bool {
    zi_rem(zi_sub(a, b), n) == zi_zero()
}

/// `x` is a multiple of `d` in ℤ[i] (zero included).
pub open spec fn zi_multiple(x: Zi, d: Zi) -> bool {
    exists|k: Zi| #[trigger] zi_mul(d, k) == x
}

/// The four units 1, −1, i, −i, in this order.
pub open spec fn zi_units() -> Seq<Zi> {
    seq![(1int, 0int), (-1int, 0int), (0int, 1int), (0int, -1int)]
}

/// `a·u == b` for one of the four units `u`.
pub open spec fn zi_associated(a: Zi, b: Zi) -> bool {
    exists|j: int| 0 <= j < 4 && #[trigger] zi_mul(a, zi_units()[j]) == b
}

pub proof fn lemma_norm_nonneg(a: Zi)
    ensures
        zi_norm(a) >= 0,
        zi_norm(a) == 0 <==> a == zi_zero(),
{
    assert(a.0 * a.0 >= 0) by (nonlinear_arith);
    assert(a.1 * a.1 >= 0) by (nonlinear_arith);
    if a.0 != 0 {
        assert(a.0 * a.0 > 0) by (nonlinear_arith)
            requires
                a.0 != 0,
        ;
    }
    if a.1 != 0 {
        assert(a.1 * a.1 > 0) by (nonlinear_arith)
            requires
                a.1 != 0,
        ;
    }
}

proof fn lemma_mul_swap(a: int, b: int, c: int, d: int)
    ensures
        (a * b) * (c * d) == (a * c) * (b * d),
        (a * b) * (c * d) == (a * d) * (b * c),
{
    assert((a * b) * (c * d) == (a * c) * (b * d)) by (nonlinear_arith);
    assert((a * b) * (c * d) == (a * d) * (b * c)) by (nonlinear_arith);
}

proof fn lemma_square_sum(a: int, b: int)
    ensures
        (a + b) * (a + b) == a * a + 2 * (a * b) + b * b,
        (a - b) * (a - b) == a * a - 2 * (a * b) + b * b,
{
    assert((a + b) * (a + b) == a * a + 2 * (a * b) + b * b) by (nonlinear_arith);
    assert((a - b) * (a - b) == a * a - 2 * (a * b) + b * b) by (nonlinear_arith);
}

proof fn lemma_product_sum(a: int, b: int, c: int, d: int)
    ensures
        (a + b) * (c + d) == a * c + a * d + b * c + b * d,
{
    assert((a + b) * (c + d) == a * c + a * d + b * c + b * d) by (nonlinear_arith);
}

pub proof fn lemma_norm_mul(a: Zi, b: Zi)
    ensures
        zi_norm(zi_mul(a, b)) == zi_norm(a) * zi_norm(b),
{
    let (x, y, u, v) = (a.0, a.1, b.0, b.1);
    lemma_square_sum(x * u, y * v);
    lemma_square_sum(x * v, y * u);
    lemma_mul_swap(x, u, y, v);
    lemma_mul_swap(x, v, y, u);
    lemma_mul_swap(x, u, x, u);
    lemma_mul_swap(y, v, y, v);
    lemma_mul_swap(x, v, x, v);
    lemma_mul_swap(y, u, y, u);
    lemma_product_sum(x * x, y * y, u * u, v * v);
}

pub proof fn lemma_mul_comm(a: Zi, b: Zi)
    ensures
        zi_mul(a, b) == zi_mul(b, a),
{
    assert(a.0 * b.0 == b.0 * a.0) by (nonlinear_arith);
    assert(a.1 * b.1 == b.1 * a.1) by (nonlinear_arith);
    assert(a.0 * b.1 == b.1 * a.0) by (nonlinear_arith);
    assert(a.1 * b.0 == b.0 * a.1) by (nonlinear_arith);
}

proof fn lemma_mul_assoc3(a: int, b: int, c: int)
    ensures
        (a * b) * c == a * (b * c),
{
    assert((a * b) * c == a * (b * c)) by (nonlinear_arith);
}

proof fn lemma_mul_diff(a: int, b: int, c: int)
    ensures
        (a - b) * c == a * c - b * c,
        (a + b) * c == a * c + b * c,
        c * (a - b) == c * a - c * b,
        c * (a + b) == c * a + c * b,
{
    assert((a - b) * c == a * c - b * c) by (nonlinear_arith);
    assert((a + b) * c == a * c + b * c) by (nonlinear_arith);
    assert(c * (a - b) == c * a - c * b) by (nonlinear_arith);
    assert(c * (a + b) == c * a + c * b) by (nonlinear_arith);
}

pub proof fn lemma_mul_assoc(a: Zi, b: Zi, c: Zi)
    ensures
        zi_mul(zi_mul(a, b), c) == zi_mul(a, zi_mul(b, c)),
{
    let (p, q, r, s, t, u) = (a.0, a.1, b.0, b.1, c.0, c.1);
    lemma_mul_diff(p * r, q * s, t);
    lemma_mul_diff(p * s, q * r, u);
    lemma_mul_diff(p * r, q * s, u);
    lemma_mul_diff(p * s, q * r, t);
    lemma_mul_diff(r * t, s * u, p);
    lemma_mul_diff(r * u, s * t, q);
    lemma_mul_diff(r * u, s * t, p);
    lemma_mul_diff(r * t, s * u, q);
    lemma_mul_assoc3(p, r, t);
    lemma_mul_assoc3(q, s, t);
    lemma_mul_assoc3(p, s, u);
    lemma_mul_assoc3(q, r, u);
    lemma_mul_assoc3(p, r, u);
    lemma_mul_assoc3(q, s, u);
    lemma_mul_assoc3(p, s, t);
    lemma_mul_assoc3(q, r, t);
}

/// Multiplication distributes over addition and subtraction.
pub proof fn lemma_mul_distrib(a: Zi, b: Zi, c: Zi)
    ensures
        zi_mul(a, zi_add(b, c)) == zi_add(zi_mul(a, b), zi_mul(a, c)),
        zi_mul(a, zi_sub(b, c)) == zi_sub(zi_mul(a, b), zi_mul(a, c)),
{
    let (p, q, r, s, t, u) = (a.0, a.1, b.0, b.1, c.0, c.1);
    assert(p * (r + t) - q * (s + u) == (p * r - q * s) + (p * t - q * u)) by (nonlinear_arith);
    assert(p * (s + u) + q * (r + t) == (p * s + q * r) + (p * u + q * t)) by (nonlinear_arith);
    assert(p * (r - t) - q * (s - u) == (p * r - q * s) - (p * t - q * u)) by (nonlinear_arith);
    assert(p * (s - u) + q * (r - t) == (p * s + q * r) - (p * u + q * t)) by (nonlinear_arith);
}

/// The rounding error of `round_div` is at most half the divisor.
pub proof fn lemma_round_div_error(n: int, d: int)
    requires
        d > 0,
    ensures
        -d <= 2 * (n - round_div(n, d) * d) <= d,
{
    let m = abs(n);
    let q0 = m / d;
    let r0 = m % d;
    lemma_fundamental_div_mod(m, d);
    assert(m == d * q0 + r0);
    assert(0 <= r0 < d);
    let t = round_div(n, d);
    if r0 >= d - r0 {
        assert(m - (q0 + 1) * d == r0 - d) by (nonlinear_arith)
            requires
                m == d * q0 + r0,
        ;
    } else {
        assert(m - q0 * d == r0) by (nonlinear_arith)
            requires
                m == d * q0 + r0,
        ;
    }
    if n >= 0 {
        assert(t == abs(n) / d + if r0 >= d - r0 {
            1int
        } else {
            0int
        });
    } else {
        let tt = q0 + if r0 >= d - r0 {
            1int
        } else {
            0int
        };
        assert(t == -tt);
        assert(n - t * d == -(m - tt * d)) by (nonlinear_arith)
            requires
                t == -tt,
                n == -m,
        ;
    }
}

/// `round_div` is exact on multiples of the divisor.
pub proof fn lemma_round_div_exact(k: int, d: int)
    requires
        d > 0,
    ensures
        round_div(k * d, d) == k,
{
    let m = abs(k * d);
    if k >= 0 {
        assert(k * d >= 0) by (nonlinear_arith)
            requires
                k >= 0,
                d > 0,
        ;
        assert(m == d * k) by (nonlinear_arith)
            requires
                m == k * d,
        ;
        lemma_div_multiples_vanish(k, d);
        lemma_fundamental_div_mod(m, d);
    } else {
        assert(k * d < 0) by (nonlinear_arith)
            requires
                k < 0,
                d > 0,
        ;
        assert(m == d * (-k)) by (nonlinear_arith)
            requires
                m == -(k * d),
        ;
        lemma_div_multiples_vanish(-k, d);
        lemma_fundamental_div_mod(m, d);
    }
    assert(m % d == 0);
}

/// `r·conj(b)` is what the rounding left over: `a·conj(b) − q·norm(b)`.
proof fn lemma_rem_times_conj(a: Zi, b: Zi)
    ensures
        ({
            let p = zi_mul(a, zi_conj(b));
            let q = zi_quot(a, b);
            let n = zi_norm(b);
            zi_mul(zi_rem(a, b), zi_conj(b)) == (p.0 - q.0 * n, p.1 - q.1 * n)
        }),
{
    let q = zi_quot(a, b);
    let (x, y, u, v, s, t) = (a.0, a.1, b.0, b.1, q.0, q.1);
    assert((x - (s * u - t * v)) * u - (y - (s * v + t * u)) * (-v) == (x * u - y * (-v)) - s * (u
        * u + v * v)) by (nonlinear_arith);
    assert((x - (s * u - t * v)) * (-v) + (y - (s * v + t * u)) * u == (x * (-v) + y * u) - t * (u
        * u + v * v)) by (nonlinear_arith);
}

/// Euclidean division: `a == (a / b)·b + a mod b`, and the remainder is
/// smaller than the divisor in norm.
pub proof fn lemma_div_rem(a: Zi, b: Zi)
    requires
        b != zi_zero(),
    ensures
        zi_add(zi_mul(zi_quot(a, b), b), zi_rem(a, b)) == a,
        0 <= zi_norm(zi_rem(a, b)) < zi_norm(b),
{
    let n = zi_norm(b);
    let r = zi_rem(a, b);
    let p = zi_mul(a, zi_conj(b));
    let q = zi_quot(a, b);
    lemma_norm_nonneg(b);
    lemma_norm_nonneg(r);
    lemma_rem_times_conj(a, b);
    lemma_round_div_error(p.0, n);
    lemma_round_div_error(p.1, n);
    lemma_norm_mul(r, zi_conj(b));
    assert((-b.1) * (-b.1) == b.1 * b.1) by (nonlinear_arith);
    assert(zi_norm(zi_conj(b)) == n);
    let e0 = p.0 - q.0 * n;
    let e1 = p.1 - q.1 * n;
    let nr = zi_norm(r);
    assert(nr * n == e0 * e0 + e1 * e1);
    assert(4 * (e0 * e0) <= n * n) by (nonlinear_arith)
        requires
            -n <= 2 * e0 <= n,
    ;
    assert(4 * (e1 * e1) <= n * n) by (nonlinear_arith)
        requires
            -n <= 2 * e1 <= n,
    ;
    assert(nr < n) by (nonlinear_arith)
        requires
            nr * n == e0 * e0 + e1 * e1,
            4 * (e0 * e0) <= n * n,
            4 * (e1 * e1) <= n * n,
            n > 0,
    ;
}

/// `x mod d` is zero exactly when `x` is a multiple of `d`.
pub proof fn lemma_rem_zero_iff_multiple(x: Zi, d: Zi)
    requires
        d != zi_zero(),
    ensures
        zi_rem(x, d) == zi_zero() <==> zi_multiple(x, d),
{
    let q = zi_quot(x, d);
    if zi_rem(x, d) == zi_zero() {
        lemma_div_rem(x, d);
        lemma_mul_comm(q, d);
        assert(zi_mul(d, q) == x);
    }
    if zi_multiple(x, d) {
        let k = choose|k: Zi| #[trigger] zi_mul(d, k) == x;
        let n = zi_norm(d);
        lemma_norm_nonneg(d);
        lemma_mul_comm(d, k);
        lemma_mul_assoc(k, d, zi_conj(d));
        let dd = zi_mul(d, zi_conj(d));
        assert(d.1 * (-d.1) == -(d.1 * d.1)) by (nonlinear_arith);
        assert(d.0 * (-d.1) + d.1 * d.0 == 0) by (nonlinear_arith);
        assert(dd == (n, 0int));
        assert(zi_mul(k, dd) == (k.0 * n, k.1 * n)) by (nonlinear_arith)
            requires
                dd == (n, 0int),
        ;
        lemma_round_div_exact(k.0, n);
        lemma_round_div_exact(k.1, n);
        assert(q == k);
        lemma_mul_comm(k, d);
    }
}

/// `z` is a multiple of `1 + i` exactly when `re + im` is even.
pub proof fn lemma_parity(z: Zi)
    ensures
        zi_rem(z, (1int, 1int)) == zi_zero() <==> (z.0 + z.1) % 2 == 0,
{
    let g = (1int, 1int);
    lemma_rem_zero_iff_multiple(z, g);
    if zi_multiple(z, g) {
        let k = choose|k: Zi| #[trigger] zi_mul(g, k) == z;
        assert(z.0 + z.1 == 2 * k.0);
        lemma_mod_multiples_basic(k.0, 2);
        assert(k.0 * 2 == 2 * k.0);
    }
    if (z.0 + z.1) % 2 == 0 {
        let h = (z.0 + z.1) / 2;
        lemma_fundamental_div_mod(z.0 + z.1, 2);
        assert(z.0 + z.1 == 2 * h);
        let k = (h, h - z.0);
        assert(zi_mul(g, k) == z);
    }
}

/// The associate of `g` with a non-negative real part, or, on the imaginary
/// axis, a non-negative imaginary part: `g` or `−g`.
pub open spec fn zi_normalize(g: Zi) -> Zi {
    if g.0 < 0 || (g.0 == 0 && g.1 < 0) {
        zi_neg(g)
    } else {
        g
    }
}

/// The greatest common divisor by the Euclidean algorithm, normalized.
pub open spec fn zi_gcd(a: Zi, b: Zi) -> Zi
    decreases zi_norm(b),
    via gcd_decreases
{
    if b == zi_zero() {
        zi_normalize(a)
    } else {
        zi_gcd(b, zi_rem(a, b))
    }
}

#[via_fn]
proof fn gcd_decreases(a: Zi, b: Zi) {
    if b != zi_zero() {
        lemma_div_rem(a, b);
    }
}

} // verus!
