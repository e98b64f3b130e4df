//! Norm estimation: the exact matrix 1-norm, a power-iteration estimate
//! of the 1-norm of a matrix power, and the backward-error scaling
//! exponent `ell`.

use vstd::prelude::*;

use crate::matrix::{ment, mabs_s, mtrans_s, MatrixN};
use crate::scalar::{max_s, scalar_max, ScalarField};

verus! {

/// The sum of the magnitudes of the first `t` entries of column `j`,
/// accumulated top to bottom from zero.
pub open spec fn colsum_s<S: ScalarField>(a: Seq<S>, n: int, j: int, t: int) -> S
    decreases t,
{
    if t <= 0 {
        S::zero_s()
    } else {
        S::add_s(colsum_s(a, n, j, t - 1), S::abs_s(ment(a, n, t - 1, j)))
    }
}

/// The running maximum of the absolute column sums of the first `c`
/// columns, starting from zero.
pub open spec fn one_norm_rec<S: ScalarField>(a: Seq<S>, n: int, c: int) -> S
    decreases c,
{
    if c <= 0 {
        S::zero_s()
    } else {
        max_s(one_norm_rec(a, n, c - 1), colsum_s(a, n, c - 1, n))
    }
}

/// The 1-norm of the `n`-by-`n` matrix `a`: the maximum, over columns,
/// of the sum of the magnitudes of the column's entries.
pub open spec fn one_norm_s<S: ScalarField>(a: Seq<S>, n: int) -> S {
    one_norm_rec(a, n, n)
}

/// Exact 1-norm: maximum absolute column sum.
pub fn one_norm<S: ScalarField>(m: &MatrixN<S>) -> (r: S)
    requires
        m.wf(),
    ensures
        r == one_norm_s(m.data@, m.n as int),
{
    let n = m.n;
    let mut mx = S::zero();
    let mut i: usize = 0;
    while i < n
        invariant
            m.wf(),
            n == m.n,
            i <= n,
            mx == one_norm_rec(m.data@, n as int, i as int),
        decreases n - i,
    {
        let mut cs = S::zero();
        let mut j: usize = 0;
        while j < n
            invariant
                m.wf(),
                n == m.n,
                i < n,
                j <= n,
                cs == colsum_s(m.data@, n as int, i as int, j as int),
            decreases n - j,
        {
            cs = S::plus(cs, S::abs(m.get(j, i)));
            j += 1;
        }
        mx = scalar_max(mx, cs);
        i += 1;
    }
    mx
}

/// The all-ones vector of length `n`.
pub open spec fn ones_s<S: ScalarField>(n: int) -> Seq<S> {
    Seq::new(n as nat, |i: int| S::one_s())
}

/// The first `t` addends of the inner product of row `i` of `a` with the
/// vector `v`, accumulated left to right from zero.
pub open spec fn dotv_s<S: ScalarField>(a: Seq<S>, n: int, i: int, v: Seq<S>, t: int) -> S
    decreases t,
{
    if t <= 0 {
        S::zero_s()
    } else {
        S::add_s(dotv_s(a, n, i, v, t - 1), S::mul_s(ment(a, n, i, t - 1), v[t - 1]))
    }
}

/// The matrix-vector product `a * v`.
pub open spec fn matvec_s<S: ScalarField>(a: Seq<S>, v: Seq<S>, n: int) -> Seq<S> {
    Seq::new(n as nat, |i: int| dotv_s(a, n, i, v, n))
}

/// `p` applications of `v |-> a * v` to `v`.
pub open spec fn powiter_s<S: ScalarField>(a: Seq<S>, v: Seq<S>, n: int, p: nat) -> Seq<S>
    decreases p,
{
    if p == 0 {
        v
    } else {
        matvec_s(a, powiter_s(a, v, n, (p - 1) as nat), n)
    }
}

/// The running maximum of the first `t` entries of `v`, starting at the
/// first entry.
pub open spec fn vmax_s<S: ScalarField>(v: Seq<S>, t: int) -> S
    decreases t,
{
    if t <= 1 {
        v[0]
    } else {
        max_s(vmax_s(v, t - 1), v[t - 1])
    }
}

/// What the power-iteration estimate returns: the maximum entry after
/// `p` multiplications of the transpose of `a` into the all-ones vector.
pub open spec fn onp_s<S: ScalarField>(a: Seq<S>, n: int, p: nat) -> S {
    vmax_s(powiter_s(mtrans_s(a, n), ones_s(n), n, p), n)
}

/// The matrix-vector product `m * v`, each entry accumulated left to
/// right.
fn mat_vec_mul<S: ScalarField>(m: &MatrixN<S>, v: &Vec<S>) -> (r: Vec<S>)
    requires
        m.wf(),
        v@.len() == m.n,
    ensures
        r@ == matvec_s(m.data@, v@, m.n as int),
{
    let n = m.n;
    let mut d: Vec<S> = Vec::new();
    let mut i: usize = 0;
    while i < n
        invariant
            m.wf(),
            n == m.n,
            v@.len() == n,
            i <= n,
            d@.len() == i,
            forall|k: int| 0 <= k < i ==> d@[k] == matvec_s(m.data@, v@, n as int)[k],
        decreases n - i,
    {
        let mut acc = S::zero();
        let mut t: usize = 0;
        while t < n
            invariant
                m.wf(),
                n == m.n,
                v@.len() == n,
                i < n,
                t <= n,
                acc == dotv_s(m.data@, n as int, i as int, v@, t as int),
            decreases n - t,
        {
            acc = S::plus(acc, S::times(m.get(i, t), v[t]));
            t += 1;
        }
        d.push(acc);
        i += 1;
    }
    proof {
        assert(d@ =~= matvec_s(m.data@, v@, n as int));
    }
    d
}

/// Estimates the 1-norm of the `p`-th power of the entrywise nonnegative
/// matrix `a` without forming that power: starting from the all-ones
/// vector, left-multiplies by the transpose of `a` `p` times and returns
/// the maximum entry of the result.
pub fn onenorm_matrix_power_nonm<S: ScalarField>(a: &MatrixN<S>, p: u64) -> (r: S)
    requires
        a.wf(),
        1 <= a.n,
    ensures
        r == onp_s(a.data@, a.n as int, p as nat),
{
    let n = a.n;
    let mut v: Vec<S> = Vec::new();
    let mut i: usize = 0;
    while i < n
        invariant
            i <= n,
            v@.len() == i,
            forall|k: int| 0 <= k < i ==> v@[k] == S::one_s(),
        decreases n - i,
    {
        v.push(S::one());
        i += 1;
    }
    proof {
        assert(v@ =~= ones_s::<S>(n as int));
    }
    let m = a.transpose();
    let mut k: u64 = 0;
    while k < p
        invariant
            a.wf(),
            n == a.n,
            m.wf(),
            m.n == n,
            m.data@ == mtrans_s(a.data@, n as int),
            k <= p,
            v@ == powiter_s(mtrans_s(a.data@, n as int), ones_s::<S>(n as int), n as int, k as nat),
            v@.len() == n,
        decreases p - k,
    {
        v = mat_vec_mul(&m, &v);
        k += 1;
    }
    let mut mx = v[0];
    let mut t: usize = 1;
    while t < n
        invariant
            v@.len() == n,
            1 <= t <= n,
            mx == vmax_s(v@, t as int),
        decreases n - t,
    {
        mx = scalar_max(mx, v[t]);
        t += 1;
    }
    mx
}

/// The factorial, as a mathematical integer.
pub open spec fn fact_s(n: int) -> int
    decreases n,
{
    if n <= 1 {
        1
    } else {
        n * fact_s(n - 1)
    }
}

/// The factorial's exact values for every argument the library uses.
proof fn lemma_fact_values()
    ensures
        fact_s(1) == 1,
        fact_s(2) == 2,
        fact_s(3) == 6,
        fact_s(4) == 24,
        fact_s(5) == 120,
        fact_s(6) == 720,
        fact_s(7) == 5040,
        fact_s(8) == 40320,
        fact_s(9) == 362880,
        fact_s(10) == 3628800,
        fact_s(11) == 39916800,
        fact_s(12) == 479001600,
        fact_s(13) == 6227020800,
        fact_s(14) == 87178291200,
        fact_s(15) == 1307674368000,
        fact_s(16) == 20922789888000,
        fact_s(17) == 355687428096000,
        fact_s(18) == 6402373705728000,
        fact_s(19) == 121645100408832000,
        fact_s(20) == 2432902008176640000,
        fact_s(21) == 51090942171709440000,
        fact_s(22) == 1124000727777607680000,
        fact_s(23) == 25852016738884976640000,
        fact_s(24) == 620448401733239439360000,
        fact_s(25) == 15511210043330985984000000,
        fact_s(26) == 403291461126605635584000000,
        fact_s(27) == 10888869450418352160768000000,
{
    assert(fact_s(2) == 2 * fact_s(1));
    assert(fact_s(3) == 3 * fact_s(2));
    assert(fact_s(4) == 4 * fact_s(3));
    assert(fact_s(5) == 5 * fact_s(4));
    assert(fact_s(6) == 6 * fact_s(5));
    assert(fact_s(7) == 7 * fact_s(6));
    assert(fact_s(8) == 8 * fact_s(7));
    assert(fact_s(9) == 9 * fact_s(8));
    assert(fact_s(10) == 10 * fact_s(9));
    assert(fact_s(11) == 11 * fact_s(10));
    assert(fact_s(12) == 12 * fact_s(11));
    assert(fact_s(13) == 13 * fact_s(12));
    assert(fact_s(14) == 14 * fact_s(13));
    assert(fact_s(15) == 15 * fact_s(14));
    assert(fact_s(16) == 16 * fact_s(15));
    assert(fact_s(17) == 17 * fact_s(16));
    assert(fact_s(18) == 18 * fact_s(17));
    assert(fact_s(19) == 19 * fact_s(18));
    assert(fact_s(20) == 20 * fact_s(19));
    assert(fact_s(21) == 21 * fact_s(20));
    assert(fact_s(22) == 22 * fact_s(21));
    assert(fact_s(23) == 23 * fact_s(22));
    assert(fact_s(24) == 24 * fact_s(23));
    assert(fact_s(25) == 25 * fact_s(24));
    assert(fact_s(26) == 26 * fact_s(25));
    assert(fact_s(27) == 27 * fact_s(26));
}

/// The factorial is at least one.
proof fn lemma_fact_pos(x: int)
    requires
        1 <= x,
    ensures
        1 <= fact_s(x),
    decreases x,
{
    if x > 1 {
        lemma_fact_pos(x - 1);
        assert(fact_s(x) == x * fact_s(x - 1));
        assert(1 <= x * fact_s(x - 1)) by (nonlinear_arith)
            requires
                2 <= x,
                1 <= fact_s(x - 1),
        ;
    }
}

/// The factorial does not decrease, and stays at least one.
proof fn lemma_fact_mono(x: int, y: int)
    requires
        1 <= x <= y,
    ensures
        1 <= fact_s(x) <= fact_s(y),
    decreases y - x,
{
    lemma_fact_pos(x);
    if x < y {
        lemma_fact_mono(x, y - 1);
        assert(fact_s(y) == y * fact_s(y - 1));
        assert(fact_s(y - 1) <= y * fact_s(y - 1)) by (nonlinear_arith)
            requires
                2 <= y,
                1 <= fact_s(y - 1),
        ;
    }
}

/// The exact combinatorial constant of the backward-error bound at Padé
/// degree `2m + 1`: `C(2m, m) * (2m + 1)!`.
pub open spec fn ell_c_s(m: int) -> int {
    (fact_s(2 * m) / (fact_s(m) * fact_s(m))) * fact_s(2 * m + 1)
}

/// For every degree parameter the library admits, the factorials and the
/// combinatorial constant fit the 128-bit range used to compute them.
proof fn lemma_ell_c_fits(m: int)
    requires
        1 <= m <= 13,
    ensures
        1 <= fact_s(m),
        1 <= fact_s(2 * m),
        1 <= fact_s(2 * m + 1),
        1 <= fact_s(m) * fact_s(m),
        fact_s(m) * fact_s(m) <= u128::MAX,
        ell_c_s(m) <= u128::MAX,
        1 <= fact_s(2 * m) / (fact_s(m) * fact_s(m)),
{
    lemma_fact_values();
    if m == 1 {
        assert(fact_s(1) * fact_s(1) == 1);
        assert(fact_s(2) / 1 == 2);
        assert(ell_c_s(1) == 12);
    } else if m == 2 {
        assert(fact_s(2) * fact_s(2) == 4);
        assert(fact_s(4) / 4 == 6);
        assert(ell_c_s(2) == 720);
    } else if m == 3 {
        assert(fact_s(3) * fact_s(3) == 36);
        assert(fact_s(6) / 36 == 20);
        assert(ell_c_s(3) == 100800);
    } else if m == 4 {
        assert(fact_s(4) * fact_s(4) == 576);
        assert(fact_s(8) / 576 == 70);
        assert(ell_c_s(4) == 25401600);
    } else if m == 5 {
        assert(fact_s(5) * fact_s(5) == 14400);
        assert(fact_s(10) / 14400 == 252);
        assert(ell_c_s(5) == 10059033600);
    } else if m == 6 {
        assert(fact_s(6) * fact_s(6) == 518400);
        assert(fact_s(12) / 518400 == 924);
        assert(ell_c_s(6) == 5753767219200);
    } else if m == 7 {
        assert(fact_s(7) * fact_s(7) == 25401600);
        assert(fact_s(14) / 25401600 == 3432);
        assert(ell_c_s(7) == 4487938430976000);
    } else if m == 8 {
        assert(fact_s(8) * fact_s(8) == 1625702400);
        assert(fact_s(16) / 1625702400 == 12870);
        assert(ell_c_s(8) == 4577697199595520000);
    } else if m == 9 {
        assert(fact_s(9) * fact_s(9) == 131681894400);
        assert(fact_s(18) / 131681894400 == 48620);
        assert(ell_c_s(9) == 5914384781877411840000);
    } else if m == 10 {
        assert(fact_s(10) * fact_s(10) == 13168189440000);
        assert(fact_s(20) / 13168189440000 == 184756);
        assert(ell_c_s(10) == 9439358111876349296640000);
    } else if m == 11 {
        assert(fact_s(11) * fact_s(11) == 1593350922240000);
        assert(fact_s(22) / 1593350922240000 == 705432);
        assert(ell_c_s(11) == 18236839872145106841108480000);
    } else if m == 12 {
        assert(fact_s(12) * fact_s(12) == 229442532802560000);
        assert(fact_s(24) / 229442532802560000 == 2704156);
        assert(ell_c_s(12) == 41944731705933745734549504000000);
    } else {
        assert(fact_s(13) * fact_s(13) == 38775788043632640000);
        assert(fact_s(26) / 38775788043632640000 == 10400600);
        assert(ell_c_s(13) == 113250775606021113483283660800000000);
    }
}

/// The factorial. The argument stays small (at most `27`, reached by the
/// degree-thirteen backward-error constant), so the product fits `u128`.
pub fn factorial(n: u128) -> (r: u128)
    requires
        1 <= n <= 27,
    ensures
        r == fact_s(n as int),
    decreases n,
{
    if n == 1 {
        return 1;
    }
    let rec = factorial(n - 1);
    proof {
        lemma_fact_values();
        lemma_fact_mono(n as int, 27);
        assert(fact_s(n as int) == n * fact_s(n as int - 1));
    }
    n * rec
}

/// What `ell` returns, over the scalar field's models: zero when the
/// power-iteration estimate of the 1-norm of `|a|^(2m+1)` is the
/// recognized zero, else the ceiling of
/// `log2(alpha / 2^-53) / (2m)` clipped below at zero, where `alpha` is
/// the estimate divided by the 1-norm of `a` and by `C(2m, m)*(2m+1)!`.
pub open spec fn ell_s<S: ScalarField>(a: Seq<S>, n: int, m: int) -> int {
    let est = onp_s(mabs_s(a, n), n, (2 * m + 1) as nat);
    if S::is_zero_s(est) {
        0
    } else {
        let alpha = S::div_s(S::div_s(est, one_norm_s(a, n)), S::from_u128_s(ell_c_s(m) as u128));
        let u = S::powf_s(S::from_u128_s(2), S::neg_s(S::from_u128_s(53)));
        let value = S::ceil_s(S::div_s(S::log2_s(S::div_s(alpha, u)), S::from_u128_s((2 * m) as u128)));
        if S::lt_s(S::zero_s(), value) {
            S::trunc_u64_s(value) as int
        } else {
            0
        }
    }
}

/// The minimal extra power-of-two scaling needed for backward-error
/// control at Padé degree `2m + 1`: estimates the 1-norm of
/// `|a|^(2m+1)`, and when that is nonzero converts it into a scaling
/// exponent against unit roundoff `2^-53`.
pub fn ell<S: ScalarField>(a: &MatrixN<S>, m: u64) -> (r: u64)
    requires
        a.wf(),
        1 <= a.n,
        1 <= m <= 13,
    ensures
        r == ell_s::<S>(a.data@, a.n as int, m as int),
{
    let a_abs = a.abs_matrix();
    let a_abs_onenorm = onenorm_matrix_power_nonm(&a_abs, 2 * m + 1);

    if S::is_zero(a_abs_onenorm) {
        return 0;
    }

    proof {
        lemma_ell_c_fits(m as int);
    }
    let f2m = factorial(2 * (m as u128));
    let fm = factorial(m as u128);
    let fmm = factorial(2 * (m as u128) - (m as u128));
    let choose_2m_m = f2m / (fm * fmm);
    let f2m1 = factorial(2 * (m as u128) + 1);
    let abs_c_recip = choose_2m_m * f2m1;

    let alpha = S::divide(a_abs_onenorm, one_norm(a));
    let alpha = S::divide(alpha, S::from_u128(abs_c_recip));

    let u = S::powf(S::from_u64(2), S::negate(S::from_u64(53)));
    let log2_alpha_div_u = S::log2(S::divide(alpha, u));
    let value = S::ceil(S::divide(log2_alpha_div_u, S::from_u64(2 * m)));
    if S::lt(S::zero(), value) {
        S::trunc_u64(value)
    } else {
        0
    }
}

} // verus!
