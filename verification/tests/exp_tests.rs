use matexp::{
    ell, factorial, onenorm_matrix_power_nonm, solve_p_q, ExpError, ExpmPadeHelper, MatrixN,
    ScalarField,
};

/// A real scalar field over IEEE-754 doubles.
#[derive(Clone, Copy, Debug, PartialEq)]
struct R(f64);

impl ScalarField for R {
    // The `_s` items are the trait's specification models; they are
    // never called at run time.
    fn zero_s() -> Self {
        panic!("specification-only item")
    }
    fn one_s() -> Self {
        panic!("specification-only item")
    }
    fn from_u128_s(_: u128) -> Self {
        panic!("specification-only item")
    }
    fn add_s(_: Self, _: Self) -> Self {
        panic!("specification-only item")
    }
    fn sub_s(_: Self, _: Self) -> Self {
        panic!("specification-only item")
    }
    fn mul_s(_: Self, _: Self) -> Self {
        panic!("specification-only item")
    }
    fn div_s(_: Self, _: Self) -> Self {
        panic!("specification-only item")
    }
    fn neg_s(_: Self) -> Self {
        panic!("specification-only item")
    }
    fn abs_s(_: Self) -> Self {
        panic!("specification-only item")
    }
    fn powf_s(_: Self, _: Self) -> Self {
        panic!("specification-only item")
    }
    fn exp_s(_: Self) -> Self {
        panic!("specification-only item")
    }
    fn log2_s(_: Self) -> Self {
        panic!("specification-only item")
    }
    fn ceil_s(_: Self) -> Self {
        panic!("specification-only item")
    }
    fn lt_s(_: Self, _: Self) -> bool {
        panic!("specification-only item")
    }
    fn is_zero_s(_: Self) -> bool {
        panic!("specification-only item")
    }
    fn trunc_u64_s(_: Self) -> u64 {
        panic!("specification-only item")
    }

    fn zero() -> R {
        R(0.0)
    }
    fn one() -> R {
        R(1.0)
    }
    fn from_u64(v: u64) -> R {
        R(v as f64)
    }
    fn from_u128(v: u128) -> R {
        R(v as f64)
    }
    fn plus(a: R, b: R) -> R {
        R(a.0 + b.0)
    }
    fn minus(a: R, b: R) -> R {
        R(a.0 - b.0)
    }
    fn times(a: R, b: R) -> R {
        R(a.0 * b.0)
    }
    fn divide(a: R, b: R) -> R {
        R(a.0 / b.0)
    }
    fn negate(a: R) -> R {
        R(-a.0)
    }
    fn abs(a: R) -> R {
        R(a.0.abs())
    }
    fn powf(a: R, e: R) -> R {
        R(a.0.powf(e.0))
    }
    fn exp(a: R) -> R {
        R(a.0.exp())
    }
    fn log2(a: R) -> R {
        R(a.0.log2())
    }
    fn ceil(a: R) -> R {
        R(a.0.ceil())
    }
    fn lt(a: R, b: R) -> bool {
        a.0 < b.0
    }
    fn is_zero(a: R) -> bool {
        a.0 == 0.0
    }
    fn trunc_u64(a: R) -> u64 {
        a.0 as u64
    }
}

/// A complex scalar field over pairs of IEEE-754 doubles; magnitudes are
/// carried as complex values with zero imaginary part.
#[derive(Clone, Copy, Debug, PartialEq)]
struct C {
    re: f64,
    im: f64,
}

fn c(re: f64, im: f64) -> C {
    C { re, im }
}

impl ScalarField for C {
    // The `_s` items are the trait's specification models; they are
    // never called at run time.
    fn zero_s() -> Self {
        panic!("specification-only item")
    }
    fn one_s() -> Self {
        panic!("specification-only item")
    }
    fn from_u128_s(_: u128) -> Self {
        panic!("specification-only item")
    }
    fn add_s(_: Self, _: Self) -> Self {
        panic!("specification-only item")
    }
    fn sub_s(_: Self, _: Self) -> Self {
        panic!("specification-only item")
    }
    fn mul_s(_: Self, _: Self) -> Self {
        panic!("specification-only item")
    }
    fn div_s(_: Self, _: Self) -> Self {
        panic!("specification-only item")
    }
    fn neg_s(_: Self) -> Self {
        panic!("specification-only item")
    }
    fn abs_s(_: Self) -> Self {
        panic!("specification-only item")
    }
    fn powf_s(_: Self, _: Self) -> Self {
        panic!("specification-only item")
    }
    fn exp_s(_: Self) -> Self {
        panic!("specification-only item")
    }
    fn log2_s(_: Self) -> Self {
        panic!("specification-only item")
    }
    fn ceil_s(_: Self) -> Self {
        panic!("specification-only item")
    }
    fn lt_s(_: Self, _: Self) -> bool {
        panic!("specification-only item")
    }
    fn is_zero_s(_: Self) -> bool {
        panic!("specification-only item")
    }
    fn trunc_u64_s(_: Self) -> u64 {
        panic!("specification-only item")
    }

    fn zero() -> C {
        c(0.0, 0.0)
    }
    fn one() -> C {
        c(1.0, 0.0)
    }
    fn from_u64(v: u64) -> C {
        c(v as f64, 0.0)
    }
    fn from_u128(v: u128) -> C {
        c(v as f64, 0.0)
    }
    fn plus(a: C, b: C) -> C {
        c(a.re + b.re, a.im + b.im)
    }
    fn minus(a: C, b: C) -> C {
        c(a.re - b.re, a.im - b.im)
    }
    fn times(a: C, b: C) -> C {
        c(a.re * b.re - a.im * b.im, a.re * b.im + a.im * b.re)
    }
    fn divide(a: C, b: C) -> C {
        let d = b.re * b.re + b.im * b.im;
        c((a.re * b.re + a.im * b.im) / d, (a.im * b.re - a.re * b.im) / d)
    }
    fn negate(a: C) -> C {
        c(-a.re, -a.im)
    }
    fn abs(a: C) -> C {
        c(a.re.hypot(a.im), 0.0)
    }
    fn powf(a: C, e: C) -> C {
        let p = e.re;
        let r = a.re.hypot(a.im);
        if r == 0.0 {
            return c(0.0, 0.0);
        }
        let th = a.im.atan2(a.re);
        let rp = r.powf(p);
        c(rp * (p * th).cos(), rp * (p * th).sin())
    }
    fn exp(a: C) -> C {
        let m = a.re.exp();
        c(m * a.im.cos(), m * a.im.sin())
    }
    fn log2(a: C) -> C {
        let ln2 = std::f64::consts::LN_2;
        c(a.re.hypot(a.im).ln() / ln2, a.im.atan2(a.re) / ln2)
    }
    fn ceil(a: C) -> C {
        c(a.re.ceil(), a.im.ceil())
    }
    fn lt(a: C, b: C) -> bool {
        a.re < b.re
    }
    fn is_zero(a: C) -> bool {
        a.re == 0.0 && a.im == 0.0
    }
    fn trunc_u64(a: C) -> u64 {
        a.re as u64
    }
}

fn rmat(n: usize, entries: &[f64]) -> MatrixN<R> {
    let data: Vec<R> = entries.iter().map(|&x| R(x)).collect();
    MatrixN::from_vec(n, data).unwrap()
}

fn cmat(n: usize, entries: &[(f64, f64)]) -> MatrixN<C> {
    let data: Vec<C> = entries.iter().map(|&(re, im)| c(re, im)).collect();
    MatrixN::from_vec(n, data).unwrap()
}

fn assert_close(m: &MatrixN<R>, want: &[f64], tol: f64) {
    let n = m.dim();
    assert_eq!(want.len(), n * n);
    for i in 0..n {
        for j in 0..n {
            let got = m.get(i, j).0;
            let w = want[i * n + j];
            assert!(
                (got - w).abs() <= tol,
                "entry ({}, {}): got {}, want {}",
                i,
                j,
                got,
                w
            );
        }
    }
}

#[test]
fn one_norm() {
    let m = rmat(3, &[-3.0, 5.0, 7.0, 2.0, 6.0, 4.0, 0.0, 2.0, 8.0]);
    assert_eq!(matexp::one_norm(&m), R(19.0));
}

#[test]
fn mat_mul_exact() {
    let a = rmat(2, &[1.0, 2.0, 3.0, 4.0]);
    let b = a.mat_mul(&a);
    assert_close(&b, &[7.0, 10.0, 15.0, 22.0], 0.0);
}

#[test]
fn exp_zero_matrix_is_identity_2x2() {
    let m = rmat(2, &[0.0, 0.0, 0.0, 0.0]);
    let e = m.exp().unwrap();
    assert_close(&e, &[1.0, 0.0, 0.0, 1.0], 1e-14);
}

#[test]
fn exp_zero_matrix_is_identity_4x4() {
    let m = rmat(4, &[0.0; 16]);
    let e = m.exp().unwrap();
    let mut want = [0.0; 16];
    for i in 0..4 {
        want[i * 4 + i] = 1.0;
    }
    assert_close(&e, &want, 1e-14);
}

#[test]
fn exp_diagonal_matrix() {
    let m = rmat(3, &[0.1, 0.0, 0.0, 0.0, -0.2, 0.0, 0.0, 0.0, 0.3]);
    let e = m.exp().unwrap();
    let want = [
        0.1f64.exp(),
        0.0,
        0.0,
        0.0,
        (-0.2f64).exp(),
        0.0,
        0.0,
        0.0,
        0.3f64.exp(),
    ];
    assert_close(&e, &want, 1e-12);
}

#[test]
fn exp_commuting_matrices_multiply() {
    // Matrices of the form [[a, b], [b, a]] commute with each other.
    let a = rmat(2, &[0.3, 0.1, 0.1, 0.3]);
    let b = rmat(2, &[0.2, -0.05, -0.05, 0.2]);
    let sum = a.mat_add(&b);
    let lhs = sum.exp().unwrap();
    let rhs = a.exp().unwrap().mat_mul(&b.exp().unwrap());
    for i in 0..2 {
        for j in 0..2 {
            assert!((lhs.get(i, j).0 - rhs.get(i, j).0).abs() <= 1e-12);
        }
    }
}

#[test]
fn exp_inverse_is_exp_of_negation() {
    let a = rmat(2, &[0.4, 0.7, -0.2, 0.5]);
    let neg = a.scale(R(-1.0));
    let prod = a.exp().unwrap().mat_mul(&neg.exp().unwrap());
    assert_close(&prod, &[1.0, 0.0, 0.0, 1.0], 1e-12);
}

#[test]
fn degree_selection_straddles_thresholds() {
    // For A = c * I the norm quantities d4, d6, d8, d10 all equal c, so
    // the etas equal c and the branch taken follows from c against the
    // literal thresholds (the backward-error correction is 0 for these
    // small norms). Check the predicates on both sides of each bound,
    // and the result's accuracy on every branch.
    let theta1 = 1.495585217958292e-2;
    let theta2 = 2.539398330063230e-1;
    let theta3 = 9.504178996162932e-1;
    let theta4 = 2.097847961257068;
    let cases = [
        (0.0140, "pade3"),
        (0.0160, "pade5"),
        (0.2500, "pade5"),
        (0.2600, "pade7"),
        (0.9400, "pade7"),
        (0.9600, "pade9"),
        (2.0900, "pade9"),
        (2.2000, "pade13"),
        (6.0000, "pade13-scaled"),
    ];
    for &(cc, _branch) in cases.iter() {
        let m = rmat(2, &[cc, 0.0, 0.0, cc]);
        let mut h = ExpmPadeHelper::new(m.duplicate(), true);
        let d4 = h.d4_loose().0;
        let d6 = h.d6_loose().0;
        let d8 = h.d8_loose().0;
        let d10 = h.d10_loose().0;
        for d in [d4, d6, d8, d10] {
            assert!((d - cc).abs() <= 1e-12 * cc.max(1.0));
        }
        let eta = d4.max(d6);
        // The predicate that picks each branch for this family:
        match _branch {
            "pade3" => assert!(eta < theta1 && ell(&m, 3) == 0),
            "pade5" => assert!(eta >= theta1 && eta < theta2 && ell(&m, 5) == 0),
            "pade7" => assert!(eta >= theta2 && eta < theta3 && ell(&m, 7) == 0),
            "pade9" => assert!(eta >= theta3 && eta < theta4 && ell(&m, 9) == 0),
            "pade13" => assert!(eta >= theta4 && eta < 4.25),
            _ => assert!(eta >= 4.25),
        }
        let e = m.exp().unwrap();
        let w = cc.exp();
        assert_close(&e, &[w, 0.0, 0.0, w], 1e-11 * w.max(1.0));
    }
}

#[test]
fn scaling_squaring_extra_step_is_stable() {
    // Norm about 6 forces at least one squaring; halving the input and
    // squaring once more must reproduce the same exponential.
    let a = rmat(2, &[5.0, 1.0, 0.0, 5.0]);
    let e1 = a.exp().unwrap();
    let half = a.scale(R(0.5));
    let eh = half.exp().unwrap();
    let e2 = eh.mat_mul(&eh);
    let scale = 5.0f64.exp();
    for i in 0..2 {
        for j in 0..2 {
            assert!((e1.get(i, j).0 - e2.get(i, j).0).abs() <= 1e-9 * scale);
        }
    }
    // Known closed form: exp([[5,1],[0,5]]) = e^5 * [[1,1],[0,1]].
    assert_close(
        &e1,
        &[scale, scale, 0.0, scale],
        1e-9 * scale,
    );
}

#[test]
fn exp_one_by_one_real() {
    for &x in [2.5f64, -3.0, 50.0, -40.0, 0.0].iter() {
        let m = rmat(1, &[x]);
        let e = m.exp().unwrap();
        assert_eq!(e.get(0, 0), R(x.exp()));
    }
}

#[test]
fn exp_one_by_one_complex() {
    let m = cmat(1, &[(1.0, 2.0)]);
    let e = m.exp().unwrap();
    let want = <C as ScalarField>::exp(c(1.0, 2.0));
    assert_eq!(e.get(0, 0), want);
    let got = e.get(0, 0);
    assert!((got.re - 1.0f64.exp() * 2.0f64.cos()).abs() <= 1e-14);
    assert!((got.im - 1.0f64.exp() * 2.0f64.sin()).abs() <= 1e-14);
}

#[test]
fn exp_complex_diagonal() {
    // exp(diag(i*pi, 0)) = diag(-1, 1).
    let pi = std::f64::consts::PI;
    let m = cmat(2, &[(0.0, pi), (0.0, 0.0), (0.0, 0.0), (0.0, 0.0)]);
    let e = m.exp().unwrap();
    assert!((e.get(0, 0).re + 1.0).abs() <= 1e-10);
    assert!(e.get(0, 0).im.abs() <= 1e-10);
    assert!((e.get(1, 1).re - 1.0).abs() <= 1e-10);
    assert!(e.get(1, 1).im.abs() <= 1e-10);
    assert!(e.get(0, 1).re.abs() <= 1e-10 && e.get(0, 1).im.abs() <= 1e-10);
    assert!(e.get(1, 0).re.abs() <= 1e-10 && e.get(1, 0).im.abs() <= 1e-10);
}

#[test]
fn factorial_exact_values() {
    assert_eq!(factorial(1), 1);
    assert_eq!(factorial(5), 120);
    assert_eq!(factorial(13), 6227020800);
    assert_eq!(factorial(27), 10888869450418352160768000000);
}

#[test]
fn onenorm_power_estimate_diagonal() {
    // For diag(2, 3) the iteration multiplies the ones vector by the
    // transpose twice: (4, 9); the maximum entry is 9.
    let m = rmat(2, &[2.0, 0.0, 0.0, 3.0]);
    assert_eq!(onenorm_matrix_power_nonm(&m, 2), R(9.0));
}

#[test]
fn ell_is_zero_for_zero_matrix() {
    let m = rmat(2, &[0.0, 0.0, 0.0, 0.0]);
    assert_eq!(ell(&m, 3), 0);
    assert_eq!(ell(&m, 13), 0);
}

#[test]
fn ell_positive_for_large_norm() {
    let m = rmat(2, &[100.0, 0.0, 0.0, 100.0]);
    assert!(ell(&m, 13) >= 1);
}

#[test]
fn solve_p_q_singular_system() {
    // With U = V = I the system matrix V - U is zero: singular.
    let u: MatrixN<R> = MatrixN::identity(2);
    let v: MatrixN<R> = MatrixN::identity(2);
    match solve_p_q(u, v) {
        Err(ExpError::Singular) => {}
        _ => panic!("expected a singular-system failure"),
    }
}

#[test]
fn from_vec_rejects_wrong_length() {
    let data = vec![R(1.0), R(2.0), R(3.0)];
    match MatrixN::from_vec(2, data) {
        Err(ExpError::InvalidDimension) => {}
        _ => panic!("expected an invalid-dimension failure"),
    }
}

#[test]
fn solve_p_q_recovers_exponential_factor() {
    // For the zero matrix the degree-3 pair is U = 0, V = 120 * I, so
    // the solve returns the identity exactly.
    let z = rmat(2, &[0.0, 0.0, 0.0, 0.0]);
    let mut h = ExpmPadeHelper::new(z, true);
    let (u, v) = h.pade3();
    let x = solve_p_q(u, v).unwrap();
    assert_close(&x, &[1.0, 0.0, 0.0, 1.0], 0.0);
}

#[test]
fn non_finite_entries_propagate_without_failure() {
    // No NaN detection or special-casing: the computation runs to a
    // result and the non-finite values propagate through it.
    let m = rmat(2, &[f64::NAN, 0.0, 0.0, 1.0]);
    let e = m.exp().unwrap();
    assert!(e.get(0, 0).0.is_nan());
}

#[test]
fn solve_p_q_pivots_by_row_exchange() {
    // U = 0 and V = [[0,1],[1,0]] give Q = P = V; the first pivot is
    // found in the second row, and the solution is the identity
    // exactly.
    let u = rmat(2, &[0.0, 0.0, 0.0, 0.0]);
    let v = rmat(2, &[0.0, 1.0, 1.0, 0.0]);
    let x = solve_p_q(u, v).unwrap();
    assert_close(&x, &[1.0, 0.0, 0.0, 1.0], 0.0);
}

#[test]
fn loose_accessor_fills_only_the_approximate_slot() {
    // With exact norms not demanded, the loose accessor computes the
    // same quantity into the separate approximate slot and leaves the
    // exact slot empty; a filled exact slot is returned unchanged.
    let m = rmat(2, &[0.5, 0.0, 0.0, 0.5]);
    let mut h = ExpmPadeHelper::new(m, false);
    let d8 = h.d8_loose();
    assert!(h.d8_approx.is_some());
    assert!(h.d8_exact.is_none());
    assert!(h.a8.is_some());
    assert!((d8.0 - 0.5).abs() <= 1e-12);
    let before = h.d10_approx;
    let t = h.d10_tight();
    let l = h.d10_loose();
    assert_eq!(t, l);
    assert_eq!(h.d10_approx, before);
}
