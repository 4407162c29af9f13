//! The Gaussian integers, and the Gaussian primes, of a bounded box of the
//! plane, in the order of a scan: real part outermost, imaginary part innermost.
use crate::gaussian::GaussianInt;
use crate::model::{zi_norm, Zi};
use crate::prime::zi_is_gaussian_prime;
use vstd::arithmetic::div_mod::lemma_fundamental_div_mod_converse;
use vstd::prelude::*;

verus! {

/// The number of points `a + bi` with `lo <= a <= n` and `-n <= b <= n`.
pub open spec fn box_len(lo: int, n: int) -> int {
    if n < 0 || lo > n {
        0
    } else {
        (n - lo + 1) * (2 * n + 1)
    }
}

/// The `i`-th point of that box in the order of the scan.
pub open spec fn box_point(lo: int, n: int, i: int) -> Zi {
    (lo + i / (2 * n + 1), -n + i % (2 * n + 1))
}

/// The points of the box, in the order of the scan.
pub open spec fn box_seq(lo: int, n: int) -> Seq<Zi> {
    Seq::new(box_len(lo, n) as nat, |i: int| box_point(lo, n, i))
}

/// The views of a sequence of values.
pub open spec fn views(v: Seq<GaussianInt>) -> Seq<Zi> {
    v.map_values(|z: GaussianInt| z@)
}

/// The Gaussian primes of `s`, in their order in `s`.
pub open spec fn gaussian_primes_of(s: Seq<Zi>) -> Seq<Zi> {
    s.filter(|z: Zi| zi_is_gaussian_prime(z))
}

/// The points `a + bi` with `lo <= a <= n` and `-n <= b <= n`.
fn scan_box(lo: isize, n: isize) -> (r: Vec<GaussianInt>)
    requires
        0 <= n,
        -n <= lo <= 0,
        box_len(lo as int, n as int) <= isize::MAX,
    ensures
        r@.len() == box_len(lo as int, n as int),
        forall|i: int| 0 <= i < r@.len() ==> (#[trigger] r@[i])@ == box_point(lo as int, n as int, i),
        forall|i: int|
            0 <= i < r@.len() ==> lo <= (#[trigger] r@[i]).re <= n && -n <= r@[i].im <= n,
{
    let ghost w: int = 2 * n + 1;
    assert((n - lo + 1) * w >= w) by (nonlinear_arith)
        requires
            n - lo + 1 >= 1,
            w >= 1,
    ;
    let mut v: Vec<GaussianInt> = Vec::new();
    let mut a: isize = lo;
    while a <= n
        invariant
            0 <= n < isize::MAX,
            -n <= lo <= 0,
            lo <= a <= n + 1,
            w == 2 * n + 1,
            w <= isize::MAX,
            v@.len() == (a - lo) * w,
            forall|i: int| 0 <= i < v@.len() ==> (#[trigger] v@[i])@ == box_point(lo as int, n as int, i),
            forall|i: int|
                0 <= i < v@.len() ==> lo <= (#[trigger] v@[i]).re <= n && -n <= v@[i].im <= n,
        decreases n + 1 - a,
    {
        let mut b: isize = -n;
        while b <= n
            invariant
                0 <= n < isize::MAX,
                -n <= lo <= 0,
                lo <= a <= n,
                -n <= b <= n + 1,
                w == 2 * n + 1,
                v@.len() == (a - lo) * w + (b + n),
                forall|i: int|
                    0 <= i < v@.len() ==> (#[trigger] v@[i])@ == box_point(lo as int, n as int, i),
                forall|i: int|
                    0 <= i < v@.len() ==> lo <= (#[trigger] v@[i]).re <= n && -n <= v@[i].im <= n,
            decreases n + 1 - b,
        {
            proof {
                let k = (a - lo) * w + (b + n);
                lemma_fundamental_div_mod_converse(k, w, a - lo, b + n);
            }
            v.push(GaussianInt::new(a, b));
            b = b + 1;
        }
        assert((a - lo) * w + w == (a + 1 - lo) * w) by (nonlinear_arith);
        a = a + 1;
    }
    v
}

/// All Gaussian integers `a + bi` with `|a|, |b| <= n`.
pub fn get_g_ints(n: isize) -> (r: Vec<GaussianInt>)
    requires
        box_len(-n, n as int) <= isize::MAX,
    ensures
        r@.len() == box_len(-n, n as int),
        forall|i: int| 0 <= i < r@.len() ==> (#[trigger] r@[i])@ == box_point(-n, n as int, i),
{
    if n < 0 {
        Vec::new()
    } else {
        scan_box(-n, n)
    }
}

/// All Gaussian integers `a + bi` with `0 <= a <= n` and `|b| <= n`.
pub fn get_pos_g_ints(n: isize) -> (r: Vec<GaussianInt>)
    requires
        box_len(0, n as int) <= isize::MAX,
    ensures
        r@.len() == box_len(0, n as int),
        forall|i: int| 0 <= i < r@.len() ==> (#[trigger] r@[i])@ == box_point(0, n as int, i),
{
    if n < 0 {
        Vec::new()
    } else {
        scan_box(0, n)
    }
}

/// All Gaussian primes `a + bi` with `|a|, |b| <= n`, in the order of the scan.
pub fn get_g_primes(n: isize) -> (r: Vec<GaussianInt>)
    requires
        box_len(-n, n as int) <= isize::MAX,
    ensures
        views(r@) == gaussian_primes_of(box_seq(-n, n as int)),
{
    let ghost all = box_seq(-n, n as int);
    if n < 0 {
        proof {
            reveal(Seq::filter);
        }
        assert(gaussian_primes_of(all) =~= Seq::empty());
        let v: Vec<GaussianInt> = Vec::new();
        assert(views(v@) =~= Seq::empty());
        return v;
    }
    let points = scan_box(-n, n);
    assert(views(points@) =~= all);
    let ghost w: int = 2 * n + 1;
    assert(w * w <= isize::MAX) by (nonlinear_arith)
        requires
            box_len(-n, n as int) == w * w,
            w * w <= isize::MAX,
    ;
    let mut primes: Vec<GaussianInt> = Vec::new();
    let mut i: usize = 0;
    while i < points.len()
        invariant
            0 <= n,
            0 <= i <= points@.len(),
            views(points@) == all,
            points@.len() == all.len(),
            w == 2 * n + 1,
            w * w <= isize::MAX,
            forall|j: int|
                0 <= j < points@.len() ==> -n <= (#[trigger] points@[j]).re <= n && -n
                    <= points@[j].im <= n,
            views(primes@) == gaussian_primes_of(all.take(i as int)),
        decreases points@.len() - i,
    {
        let z = points[i];
        proof {
            let (x, y) = (z.re as int, z.im as int);
            assert(zi_norm(z@) <= w * w) by (nonlinear_arith)
                requires
                    -n <= x <= n,
                    -n <= y <= n,
                    w == 2 * n + 1,
                    zi_norm(z@) == x * x + y * y,
            ;
            assert(all.take(i + 1).drop_last() =~= all.take(i as int));
            assert(all[i as int] == z@);
            assert(all.take(i + 1).last() == z@);
            reveal(Seq::filter);
            assert(gaussian_primes_of(all.take(i + 1)) == if zi_is_gaussian_prime(z@) {
                gaussian_primes_of(all.take(i as int)).push(z@)
            } else {
                gaussian_primes_of(all.take(i as int))
            });
        }
        if z.is_gaussian_prime() {
            primes.push(z);
            assert(views(primes@) =~= gaussian_primes_of(all.take(i as int)).push(z@));
        }
        i = i + 1;
    }
    assert(all.take(points@.len() as int) =~= all);
    primes
}

} // verus!
