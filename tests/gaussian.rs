use gaussiant::GaussianInt;

fn g(re: isize, im: isize) -> GaussianInt {
    GaussianInt::new(re, im)
}

#[test]
fn new() {
    let c = g(1, 1);
    assert_eq!((c.re, c.im), (1, 1));

    let c = GaussianInt::new(1, isize::pow(2, 62));
    assert_eq!((c.re, c.im), (1, isize::pow(2, 62)));
}

#[test]
fn gauss_macro() {
    let z = g(1, 47);
    assert_eq!(z, g(1, 47));
    let z = GaussianInt::from_int(1);
    assert_eq!(z, GaussianInt::new(1, 0));
}

#[test]
fn addition() {
    let c1 = g(1, 1);
    let c2 = g(1, 1);
    assert_eq!(c1 + c2, g(2, 2));

    let c1 = g(-15, 3);
    let c2 = g(8, 7);
    assert_eq!(c1 + c2, g(-7, 10));
}

#[test]
fn add_assign() {
    let mut c1 = g(1, 1);
    let c2 = g(2, 3);
    c1 = c1 + c2;
    assert_eq!(c1, g(3, 4));
}

#[test]
fn subtraction() {
    let c1 = g(1, 1);
    let c2 = g(1, 1);
    assert_eq!(c1 - c2, g(0, 0));

    let c1 = g(-15, 3);
    let c2 = g(8, 7);
    assert_eq!(c1 - c2, g(-23, -4));
}

#[test]
fn norm() {
    let c = g(1, 1);
    assert_eq!(c.norm(), g(2, 0));

    let c = g(4, 5);
    assert_eq!(c.norm(), g(41, 0));
}

#[test]
fn multiplication() {
    let c1 = g(1, 1);
    let c2 = g(1, -1);
    assert_eq!(c1 * c2, g(2, 0));

    let c1 = g(3, 2);
    let c2 = g(2, 3);
    assert_eq!(c1 * c2, g(0, 13));

    let c1 = g(2, 1);
    let c2 = g(0, -1);
    assert_eq!(c1 * c2, g(1, -2));
}

#[test]
fn division() {
    let c1 = g(5, 0);
    let c2 = g(1, 2);
    assert_eq!(c1 / c2, g(1, -2));
}

#[test]
fn remainder() {
    let c1 = g(2, 2);
    let c2 = g(2, 2);
    assert_eq!(c1 % c2, GaussianInt::zero());

    let c1 = g(1, 2);
    let c2 = g(3, 4);
    assert!(c1 % c2 != GaussianInt::zero());
}

#[test]
fn neg() {
    let z = g(2, 2);
    assert_eq!(z + -z, GaussianInt::zero());
}

#[test]
fn divides() {
    let five = g(5, 0);
    assert!(g(1, 0).divides(five));
    assert!(g(1, 2).divides(five));
    assert!(g(1, -2).divides(five));
    assert!(g(2, 1).divides(five));
    assert!(g(2, -1).divides(five));
    assert!(five.divides(five));
}

#[test]
fn from_isize() {
    let c = g(5, 0);
    assert_eq!(5_isize, c.into());
}

#[test]
fn conjugate() {
    let c = g(5, 5);
    let conj = g(5, -5);
    assert_eq!(c.conj(), conj);
}

#[test]
fn is_gaussian_prime_misc() {
    assert_eq!(g(6, 1).is_gaussian_prime(), true);
    assert_eq!(g(1, 6).is_gaussian_prime(), true);
    assert_eq!(g(7, 0).is_gaussian_prime(), true);
    assert_eq!(g(3, 20).is_gaussian_prime(), true);
    assert_eq!(g(-927, -980).is_gaussian_prime(), true);
    assert_eq!(g(999, 994).is_gaussian_prime(), true);
}

#[test]
fn is_gaussian_prime_all_5() {
    assert_eq!(g(-5, -5).is_gaussian_prime(), false);
    assert_eq!(g(-5, -4).is_gaussian_prime(), true);
    assert_eq!(g(-5, -3).is_gaussian_prime(), false);
    assert_eq!(g(-5, -2).is_gaussian_prime(), true);
    assert_eq!(g(-5, -1).is_gaussian_prime(), false);
    assert_eq!(g(-5, 0).is_gaussian_prime(), false);
    assert_eq!(g(-5, 1).is_gaussian_prime(), false);
    assert_eq!(g(-5, 2).is_gaussian_prime(), true);
    assert_eq!(g(-5, 3).is_gaussian_prime(), false);
    assert_eq!(g(-5, 4).is_gaussian_prime(), true);
    assert_eq!(g(-5, 5).is_gaussian_prime(), false);
    assert_eq!(g(-4, -5).is_gaussian_prime(), true);
    assert_eq!(g(-4, -4).is_gaussian_prime(), false);
    assert_eq!(g(-4, -3).is_gaussian_prime(), false);
    assert_eq!(g(-4, -2).is_gaussian_prime(), false);
    assert_eq!(g(-4, -1).is_gaussian_prime(), true);
    assert_eq!(g(-4, 0).is_gaussian_prime(), false);
    assert_eq!(g(-4, 1).is_gaussian_prime(), true);
    assert_eq!(g(-4, 2).is_gaussian_prime(), false);
    assert_eq!(g(-4, 3).is_gaussian_prime(), false);
    assert_eq!(g(-4, 4).is_gaussian_prime(), false);
    assert_eq!(g(-4, 5).is_gaussian_prime(), true);
    assert_eq!(g(-3, -5).is_gaussian_prime(), false);
    assert_eq!(g(-3, -4).is_gaussian_prime(), false);
    assert_eq!(g(-3, -3).is_gaussian_prime(), false);
    assert_eq!(g(-3, -2).is_gaussian_prime(), true);
    assert_eq!(g(-3, -1).is_gaussian_prime(), false);
    assert_eq!(g(-3, 0).is_gaussian_prime(), true);
    assert_eq!(g(-3, 1).is_gaussian_prime(), false);
    assert_eq!(g(-3, 2).is_gaussian_prime(), true);
    assert_eq!(g(-3, 3).is_gaussian_prime(), false);
    assert_eq!(g(-3, 4).is_gaussian_prime(), false);
    assert_eq!(g(-3, 5).is_gaussian_prime(), false);
    assert_eq!(g(-2, -5).is_gaussian_prime(), true);
    assert_eq!(g(-2, -4).is_gaussian_prime(), false);
    assert_eq!(g(-2, -3).is_gaussian_prime(), true);
    assert_eq!(g(-2, -2).is_gaussian_prime(), false);
    assert_eq!(g(-2, -1).is_gaussian_prime(), true);
    assert_eq!(g(-2, 0).is_gaussian_prime(), false);
    assert_eq!(g(-2, 1).is_gaussian_prime(), true);
    assert_eq!(g(-2, 2).is_gaussian_prime(), false);
    assert_eq!(g(-2, 3).is_gaussian_prime(), true);
    assert_eq!(g(-2, 4).is_gaussian_prime(), false);
    assert_eq!(g(-2, 5).is_gaussian_prime(), true);
    assert_eq!(g(-1, -5).is_gaussian_prime(), false);
    assert_eq!(g(-1, -4).is_gaussian_prime(), true);
    assert_eq!(g(-1, -3).is_gaussian_prime(), false);
    assert_eq!(g(-1, -2).is_gaussian_prime(), true);
    assert_eq!(g(-1, -1).is_gaussian_prime(), true);
    assert_eq!(g(-1, 0).is_gaussian_prime(), false);
    assert_eq!(g(-1, 1).is_gaussian_prime(), true);
    assert_eq!(g(-1, 2).is_gaussian_prime(), true);
    assert_eq!(g(-1, 3).is_gaussian_prime(), false);
    assert_eq!(g(-1, 4).is_gaussian_prime(), true);
    assert_eq!(g(-1, 5).is_gaussian_prime(), false);
    assert_eq!(g(0, -5).is_gaussian_prime(), false);
    assert_eq!(g(0, -4).is_gaussian_prime(), false);
    assert_eq!(g(0, -3).is_gaussian_prime(), true);
    assert_eq!(g(0, -2).is_gaussian_prime(), false);
    assert_eq!(g(0, -1).is_gaussian_prime(), false);
    assert_eq!(g(0, 0).is_gaussian_prime(), false);
    assert_eq!(g(0, 1).is_gaussian_prime(), false);
    assert_eq!(g(0, 2).is_gaussian_prime(), false);
    assert_eq!(g(0, 3).is_gaussian_prime(), true);
    assert_eq!(g(0, 4).is_gaussian_prime(), false);
    assert_eq!(g(0, 5).is_gaussian_prime(), false);
    assert_eq!(g(1, -5).is_gaussian_prime(), false);
    assert_eq!(g(1, -4).is_gaussian_prime(), true);
    assert_eq!(g(1, -3).is_gaussian_prime(), false);
    assert_eq!(g(1, -2).is_gaussian_prime(), true);
    assert_eq!(g(1, -1).is_gaussian_prime(), true);
    assert_eq!(g(1, 0).is_gaussian_prime(), false);
    assert_eq!(g(1, 1).is_gaussian_prime(), true);
    assert_eq!(g(1, 2).is_gaussian_prime(), true);
    assert_eq!(g(1, 3).is_gaussian_prime(), false);
    assert_eq!(g(1, 4).is_gaussian_prime(), true);
    assert_eq!(g(1, 5).is_gaussian_prime(), false);
    assert_eq!(g(2, -5).is_gaussian_prime(), true);
    assert_eq!(g(2, -4).is_gaussian_prime(), false);
    assert_eq!(g(2, -3).is_gaussian_prime(), true);
    assert_eq!(g(2, -2).is_gaussian_prime(), false);
    assert_eq!(g(2, -1).is_gaussian_prime(), true);
    assert_eq!(g(2, 0).is_gaussian_prime(), false);
    assert_eq!(g(2, 1).is_gaussian_prime(), true);
    assert_eq!(g(2, 3).is_gaussian_prime(), true);
    assert_eq!(g(2, 4).is_gaussian_prime(), false);
    assert_eq!(g(2, 5).is_gaussian_prime(), true);
    assert_eq!(g(3, -5).is_gaussian_prime(), false);
    assert_eq!(g(3, -4).is_gaussian_prime(), false);
    assert_eq!(g(3, -3).is_gaussian_prime(), false);
    assert_eq!(g(3, -2).is_gaussian_prime(), true);
    assert_eq!(g(3, -1).is_gaussian_prime(), false);
    assert_eq!(g(3, 0).is_gaussian_prime(), true);
    assert_eq!(g(3, 1).is_gaussian_prime(), false);
    assert_eq!(g(3, 2).is_gaussian_prime(), true);
    assert_eq!(g(3, 3).is_gaussian_prime(), false);
    assert_eq!(g(3, 4).is_gaussian_prime(), false);
    assert_eq!(g(3, 5).is_gaussian_prime(), false);
    assert_eq!(g(4, -5).is_gaussian_prime(), true);
    assert_eq!(g(4, -4).is_gaussian_prime(), false);
    assert_eq!(g(4, -3).is_gaussian_prime(), false);
    assert_eq!(g(4, -2).is_gaussian_prime(), false);
    assert_eq!(g(4, -1).is_gaussian_prime(), true);
    assert_eq!(g(4, 0).is_gaussian_prime(), false);
    assert_eq!(g(4, 1).is_gaussian_prime(), true);
    assert_eq!(g(4, 2).is_gaussian_prime(), false);
    assert_eq!(g(4, 3).is_gaussian_prime(), false);
    assert_eq!(g(4, 4).is_gaussian_prime(), false);
    assert_eq!(g(4, 5).is_gaussian_prime(), true);
    assert_eq!(g(5, -5).is_gaussian_prime(), false);
    assert_eq!(g(5, -4).is_gaussian_prime(), true);
    assert_eq!(g(5, -3).is_gaussian_prime(), false);
    assert_eq!(g(5, -2).is_gaussian_prime(), true);
    assert_eq!(g(5, -1).is_gaussian_prime(), false);
    assert_eq!(g(5, 0).is_gaussian_prime(), false);
    assert_eq!(g(5, 1).is_gaussian_prime(), false);
    assert_eq!(g(5, 2).is_gaussian_prime(), true);
    assert_eq!(g(5, 3).is_gaussian_prime(), false);
    assert_eq!(g(5, 4).is_gaussian_prime(), true);
    assert_eq!(g(5, 5).is_gaussian_prime(), false);
}

#[test]
fn is_rational() {
    assert!(g(7, 0).is_rational());
    assert!(!g(5, 1).is_rational());
}

#[test]
fn congruence() {
    assert!(g(5, 0).congruent(g(1, 0), g(4, 0)));
    assert!(g(2, 5).congruent(g(0, 1), g(1, 2)));
}

#[test]
fn is_even() {
    assert!(g(4, 0).is_even());
    assert!(g(-3, 1).is_even());
}

#[test]
fn is_odd() {
    assert!(g(1, 0).is_odd());
    assert!(g(2, 1).is_odd());
}

#[test]
fn units() {
    let u = GaussianInt::units();
    let mut sum = GaussianInt::zero();
    for x in u {
        sum = sum + x;
    }
    assert_eq!(GaussianInt::from_int(0), sum);
}

#[test]
fn associated() {
    assert!(g(1, 0).is_associated(g(-1, 0)));

    let z1 = g(1, 1);
    let z2 = g(1, -1);
    assert!(z1.is_gaussian_prime());
    assert!(z2.is_gaussian_prime());
    assert!(z1.is_associated(z2));
    assert!(z2.is_associated(z1));

    assert!(g(2, 1).is_associated(g(-1, 2)));
    assert!(!g(2, 1).is_associated(g(-1, -2)));
}
