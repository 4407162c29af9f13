//! Algebraic laws of the operations, stated over the model that their
//! contracts use, and proved.
use crate::model::{
    lemma_div_rem, lemma_mul_assoc, lemma_mul_comm, lemma_mul_distrib, lemma_norm_mul,
    lemma_rem_zero_iff_multiple, zi_add, zi_congruent, zi_divides, zi_gcd, zi_mul, zi_multiple,
    zi_neg, zi_norm, zi_normalize, zi_quot, zi_rem, zi_sub, zi_zero, Zi,
};
use vstd::prelude::*;

verus! {

/// Sums and differences of multiples of `d` are multiples of `d`.
proof fn lemma_multiple_add(x: Zi, y: Zi, d: Zi)
    requires
        zi_multiple(x, d),
        zi_multiple(y, d),
    ensures
        zi_multiple(zi_add(x, y), d),
        zi_multiple(zi_sub(x, y), d),
{
    let k1 = choose|k: Zi| #[trigger] zi_mul(d, k) == x;
    let k2 = choose|k: Zi| #[trigger] zi_mul(d, k) == y;
    lemma_mul_distrib(d, k1, k2);
    assert(zi_mul(d, zi_add(k1, k2)) == zi_add(x, y));
    assert(zi_mul(d, zi_sub(k1, k2)) == zi_sub(x, y));
}

/// A multiple of `d` times anything is a multiple of `d`.
proof fn lemma_multiple_mul(x: Zi, c: Zi, d: Zi)
    requires
        zi_multiple(x, d),
    ensures
        zi_multiple(zi_mul(x, c), d),
        zi_multiple(zi_mul(c, x), d),
{
    let k = choose|k: Zi| #[trigger] zi_mul(d, k) == x;
    lemma_mul_assoc(d, k, c);
    lemma_mul_comm(c, x);
    assert(zi_mul(d, zi_mul(k, c)) == zi_mul(x, c));
}

/// With a nonzero modulus, congruence is divisibility of the difference.
proof fn lemma_congruent_multiple(a: Zi, b: Zi, n: Zi)
    requires
        n != zi_zero(),
    ensures
        zi_congruent(a, b, n) <==> zi_multiple(zi_sub(a, b), n),
{
    lemma_rem_zero_iff_multiple(zi_sub(a, b), n);
}

/// `(a + b) − b == a` and `a + (−a) == 0`.
pub proof fn law_add_sub_inverse(a: Zi, b: Zi)
    ensures
        zi_sub(zi_add(a, b), b) == a,
        zi_add(a, zi_neg(a)) == zi_zero(),
{
}

/// The norm is multiplicative: `norm(a)·norm(b) == norm(a·b)`.
pub proof fn law_norm_multiplicative(a: Zi, b: Zi)
    ensures
        zi_norm(a) * zi_norm(b) == zi_norm(zi_mul(a, b)),
{
    lemma_norm_mul(a, b);
}

/// For a nonzero divisor `b`: `a == (a / b)·b + a mod b`, and the remainder
/// has a smaller norm than `b`.
pub proof fn law_euclidean_division(a: Zi, b: Zi)
    requires
        b != zi_zero(),
    ensures
        a == zi_add(zi_mul(zi_quot(a, b), b), zi_rem(a, b)),
        zi_norm(zi_rem(a, b)) < zi_norm(b),
{
    lemma_div_rem(a, b);
}

/// Congruence modulo `n` is reflexive, symmetric and transitive.
pub proof fn law_congruence_equivalence(a: Zi, b: Zi, c: Zi, n: Zi)
    ensures
        zi_congruent(a, a, n),
        zi_congruent(a, b, n) == zi_congruent(b, a, n),
        zi_congruent(a, b, n) && zi_congruent(b, c, n) ==> zi_congruent(a, c, n),
{
    if n == zi_zero() {
        assert(zi_mul(zi_quot(zi_sub(a, a), n), n) == zi_zero());
        assert(zi_mul(zi_quot(zi_sub(a, b), n), n) == zi_zero());
        assert(zi_mul(zi_quot(zi_sub(b, a), n), n) == zi_zero());
        assert(zi_mul(zi_quot(zi_sub(b, c), n), n) == zi_zero());
        assert(zi_mul(zi_quot(zi_sub(a, c), n), n) == zi_zero());
    } else {
        lemma_congruent_multiple(a, a, n);
        lemma_congruent_multiple(a, b, n);
        lemma_congruent_multiple(b, a, n);
        lemma_congruent_multiple(b, c, n);
        lemma_congruent_multiple(a, c, n);
        assert(zi_mul(n, zi_zero()) == zi_sub(a, a));
        if zi_multiple(zi_sub(a, b), n) {
            lemma_multiple_add(zi_zero(), zi_sub(a, b), n);
            assert(zi_sub(zi_zero(), zi_sub(a, b)) == zi_sub(b, a));
        }
        if zi_multiple(zi_sub(b, a), n) {
            lemma_multiple_add(zi_zero(), zi_sub(b, a), n);
            assert(zi_sub(zi_zero(), zi_sub(b, a)) == zi_sub(a, b));
        }
        if zi_multiple(zi_sub(a, b), n) && zi_multiple(zi_sub(b, c), n) {
            lemma_multiple_add(zi_sub(a, b), zi_sub(b, c), n);
            assert(zi_add(zi_sub(a, b), zi_sub(b, c)) == zi_sub(a, c));
        }
    }
}

/// Congruence modulo a nonzero `n` is kept by sums, differences and products:
/// from `a1 ≡ b1` and `a2 ≡ b2` follow `a1 + a2 ≡ b1 + b2`,
/// `a1 − a2 ≡ b1 − b2` and `a1·a2 ≡ b1·b2`.
pub proof fn law_congruence_compatible(a1: Zi, b1: Zi, a2: Zi, b2: Zi, n: Zi)
    requires
        n != zi_zero(),
        zi_congruent(a1, b1, n),
        zi_congruent(a2, b2, n),
    ensures
        zi_congruent(zi_add(a1, a2), zi_add(b1, b2), n),
        zi_congruent(zi_sub(a1, a2), zi_sub(b1, b2), n),
        zi_congruent(zi_mul(a1, a2), zi_mul(b1, b2), n),
{
    let d1 = zi_sub(a1, b1);
    let d2 = zi_sub(a2, b2);
    lemma_congruent_multiple(a1, b1, n);
    lemma_congruent_multiple(a2, b2, n);
    lemma_congruent_multiple(zi_add(a1, a2), zi_add(b1, b2), n);
    lemma_congruent_multiple(zi_sub(a1, a2), zi_sub(b1, b2), n);
    lemma_congruent_multiple(zi_mul(a1, a2), zi_mul(b1, b2), n);
    lemma_multiple_add(d1, d2, n);
    assert(zi_add(d1, d2) == zi_sub(zi_add(a1, a2), zi_add(b1, b2)));
    assert(zi_sub(d1, d2) == zi_sub(zi_sub(a1, a2), zi_sub(b1, b2)));
    // a1·a2 − b1·b2 == a1·(a2 − b2) + (a1 − b1)·b2
    lemma_multiple_mul(d2, a1, n);
    lemma_multiple_mul(d1, b2, n);
    lemma_multiple_add(zi_mul(a1, d2), zi_mul(d1, b2), n);
    lemma_mul_distrib(a1, a2, b2);
    lemma_mul_comm(d1, b2);
    lemma_mul_distrib(b2, a1, b1);
    lemma_mul_comm(b2, a1);
    lemma_mul_comm(b2, b1);
    assert(zi_add(zi_mul(a1, d2), zi_mul(d1, b2)) == zi_sub(zi_mul(a1, a2), zi_mul(b1, b2)));
}

/// The Euclidean algorithm's result is a common multiple-divisor of `a` and
/// `b`, a multiple of each of their common divisors, and normalized.
proof fn lemma_gcd_multiples(a: Zi, b: Zi)
    ensures
        zi_multiple(a, zi_gcd(a, b)),
        zi_multiple(b, zi_gcd(a, b)),
        forall|d: Zi|
            zi_multiple(a, d) && zi_multiple(b, d) ==> #[trigger] zi_multiple(zi_gcd(a, b), d),
        zi_gcd(a, b).0 >= 0,
        zi_gcd(a, b).0 == 0 ==> zi_gcd(a, b).1 >= 0,
    decreases zi_norm(b),
{
    let g = zi_gcd(a, b);
    if b == zi_zero() {
        assert(g == zi_normalize(a));
        assert(zi_mul(g, zi_zero()) == b);
        if g == a {
            assert(zi_mul(g, (1int, 0int)) == a);
            assert forall|d: Zi| zi_multiple(a, d) && zi_multiple(b, d) implies #[trigger] zi_multiple(
                g,
                d,
            ) by {}
        } else {
            assert(g == zi_neg(a));
            assert(zi_mul(g, (-1int, 0int)) == a);
            assert forall|d: Zi| zi_multiple(a, d) && zi_multiple(b, d) implies #[trigger] zi_multiple(
                g,
                d,
            ) by {
                lemma_multiple_mul(a, (-1int, 0int), d);
                assert(zi_mul(a, (-1int, 0int)) == g);
            }
        }
    } else {
        lemma_div_rem(a, b);
        let q = zi_quot(a, b);
        let r = zi_rem(a, b);
        lemma_gcd_multiples(b, r);
        assert(g == zi_gcd(b, r));
        lemma_multiple_mul(b, q, g);
        lemma_multiple_add(zi_mul(q, b), r, g);
        assert forall|d: Zi| zi_multiple(a, d) && zi_multiple(b, d) implies #[trigger] zi_multiple(
            g,
            d,
        ) by {
            lemma_multiple_mul(b, q, d);
            lemma_multiple_add(a, zi_mul(q, b), d);
            assert(zi_sub(a, zi_mul(q, b)) == r);
        }
    }
}

/// For `a`, `b` not both zero, `gcd(a, b)` divides `a` and `b`, every common
/// divisor of `a` and `b` divides it, and it has a non-negative real part (a
/// non-negative imaginary part where the real part is zero).
pub proof fn law_gcd(a: Zi, b: Zi)
    requires
        !(a == zi_zero() && b == zi_zero()),
    ensures
        zi_divides(zi_gcd(a, b), a),
        zi_divides(zi_gcd(a, b), b),
        forall|d: Zi| zi_divides(d, a) && zi_divides(d, b) ==> #[trigger] zi_divides(d, zi_gcd(a, b)),
        zi_gcd(a, b).0 >= 0,
        zi_gcd(a, b).0 == 0 ==> zi_gcd(a, b).1 >= 0,
{
    let g = zi_gcd(a, b);
    lemma_gcd_multiples(a, b);
    if g == zi_zero() {
        let k1 = choose|k: Zi| #[trigger] zi_mul(g, k) == a;
        let k2 = choose|k: Zi| #[trigger] zi_mul(g, k) == b;
        assert(zi_mul(g, k1) == zi_zero());
        assert(zi_mul(g, k2) == zi_zero());
        assert(false);
    }
    lemma_rem_zero_iff_multiple(a, g);
    lemma_rem_zero_iff_multiple(b, g);
    assert forall|d: Zi| zi_divides(d, a) && zi_divides(d, b) implies #[trigger] zi_divides(d, g) by {
        lemma_rem_zero_iff_multiple(a, d);
        lemma_rem_zero_iff_multiple(b, d);
        lemma_rem_zero_iff_multiple(g, d);
    }
}

} // verus!
