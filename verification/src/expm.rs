//! The orchestrator: degree and scaling selection, the linear solve of
//! the Padé pair, and the squaring that undoes the scaling.
//!
//! The solver is specified exactly: `gauss_jordan_s` mirrors the
//! elimination over the scalar field's model, entry by entry, and the
//! exponential's contract ties the returned matrix to the solve of the
//! Padé pair that the threshold tests select.

use vstd::prelude::*;

use crate::matrix::{lemma_rc, madd_s, mmul_s, mscale_s, msub_s, ment, mat_new,
    ExpError, MatrixN};
use crate::norm::{ell, ell_s};
use crate::pade::{d10_s, d4_s, d6_s, d8_s, pade13_u_s, pade13_v_s, pade3_u_s, pade3_v_s,
    pade5_u_s, pade5_v_s, pade7_u_s, pade7_v_s, pade9_u_s, pade9_v_s, pow2_neg_s,
    ExpmPadeHelper};
use crate::scalar::{max_s, min_s, scalar_max, scalar_min, ScalarField};

verus! {

/// The degree-3 acceptance threshold, `1.495585217958292e-2`, formed in
/// the field as the exact ratio `1495585217958292 / 10^17`.
pub open spec fn theta3_s<S: ScalarField>() -> S {
    S::div_s(S::from_u128_s(1495585217958292), S::from_u128_s(100000000000000000))
}

/// The degree-5 acceptance threshold, `2.539398330063230e-1`, as
/// `2539398330063230 / 10^16`.
pub open spec fn theta5_s<S: ScalarField>() -> S {
    S::div_s(S::from_u128_s(2539398330063230), S::from_u128_s(10000000000000000))
}

/// The degree-7 acceptance threshold, `9.504178996162932e-1`, as
/// `9504178996162932 / 10^16`.
pub open spec fn theta7_s<S: ScalarField>() -> S {
    S::div_s(S::from_u128_s(9504178996162932), S::from_u128_s(10000000000000000))
}

/// The degree-9 acceptance threshold, `2.097847961257068`, as
/// `2097847961257068 / 10^15`.
pub open spec fn theta9_s<S: ScalarField>() -> S {
    S::div_s(S::from_u128_s(2097847961257068), S::from_u128_s(1000000000000000))
}

/// The degree-13 scaling threshold, `4.25`, as `17 / 4`.
pub open spec fn theta13_s<S: ScalarField>() -> S {
    S::div_s(S::from_u128_s(17), S::from_u128_s(4))
}

fn theta3<S: ScalarField>() -> (r: S)
    ensures
        r == theta3_s::<S>(),
{
    S::divide(S::from_u64(1495585217958292), S::from_u64(100000000000000000))
}

fn theta5<S: ScalarField>() -> (r: S)
    ensures
        r == theta5_s::<S>(),
{
    S::divide(S::from_u64(2539398330063230), S::from_u64(10000000000000000))
}

fn theta7<S: ScalarField>() -> (r: S)
    ensures
        r == theta7_s::<S>(),
{
    S::divide(S::from_u64(9504178996162932), S::from_u64(10000000000000000))
}

fn theta9<S: ScalarField>() -> (r: S)
    ensures
        r == theta9_s::<S>(),
{
    S::divide(S::from_u64(2097847961257068), S::from_u64(1000000000000000))
}

fn theta13<S: ScalarField>() -> (r: S)
    ensures
        r == theta13_s::<S>(),
{
    S::divide(S::from_u64(17), S::from_u64(4))
}

/// Row-major position of entry `(i, j)` of an `n`-by-`n` matrix.
fn lin_idx(i: usize, j: usize, n: usize) -> (r: usize)
    requires
        i < n,
        j < n,
        n * n <= usize::MAX,
    ensures
        r == i * n + j,
        r < n * n,
{
    proof {
        lemma_rc(i as int, j as int, n as int);
    }
    i * n + j
}

/// The pivot row the partial-pivoting scan picks for column `c` after
/// considering rows `c` up to (excluding) `t`: the first row whose
/// entry's magnitude no later considered row strictly exceeds.
pub open spec fn pivot_best_s<S: ScalarField>(q: Seq<S>, n: int, c: int, t: int) -> int
    decreases t - c,
{
    if t <= c + 1 {
        c
    } else {
        let b = pivot_best_s(q, n, c, t - 1);
        if S::lt_s(S::abs_s(ment(q, n, b, c)), S::abs_s(ment(q, n, t - 1, c))) {
            t - 1
        } else {
            b
        }
    }
}

/// The pivot row for column `c` over all rows `c..n`.
pub open spec fn pivot_of_s<S: ScalarField>(q: Seq<S>, n: int, c: int) -> int {
    pivot_best_s(q, n, c, n)
}

/// `a` with rows `r1` and `r2` exchanged.
pub open spec fn swap_rows_s<S: ScalarField>(a: Seq<S>, n: int, r1: int, r2: int) -> Seq<S> {
    mat_new(
        n,
        |i: int, j: int|
            if i == r1 {
                ment(a, n, r2, j)
            } else if i == r2 {
                ment(a, n, r1, j)
            } else {
                ment(a, n, i, j)
            },
    )
}

/// `a` with the entries of row `c` from column `lo` on divided by
/// `piv`.
pub open spec fn norm_row_s<S: ScalarField>(a: Seq<S>, n: int, c: int, piv: S, lo: int) -> Seq<
    S,
> {
    mat_new(
        n,
        |i: int, j: int|
            if i == c && j >= lo {
                S::div_s(ment(a, n, i, j), piv)
            } else {
                ment(a, n, i, j)
            },
    )
}

/// One elimination pass on the system matrix: every row but the pivot
/// row `c` has its column-`c` entry set to zero exactly and the
/// columns right of `c` reduced by that factor times the pivot row.
pub open spec fn elim_q_s<S: ScalarField>(q: Seq<S>, n: int, c: int) -> Seq<S> {
    mat_new(
        n,
        |i: int, j: int|
            if i == c {
                ment(q, n, i, j)
            } else if j == c {
                S::zero_s()
            } else if j > c {
                S::sub_s(ment(q, n, i, j), S::mul_s(ment(q, n, i, c), ment(q, n, c, j)))
            } else {
                ment(q, n, i, j)
            },
    )
}

/// The matching elimination pass on the right-hand side: every row but
/// `c` reduced by its factor (the column-`c` entry of the reduced
/// system matrix `q`) times row `c`.
pub open spec fn elim_p_s<S: ScalarField>(q: Seq<S>, p: Seq<S>, n: int, c: int) -> Seq<S> {
    mat_new(
        n,
        |i: int, j: int|
            if i == c {
                ment(p, n, i, j)
            } else {
                S::sub_s(ment(p, n, i, j), S::mul_s(ment(q, n, i, c), ment(p, n, c, j)))
            },
    )
}

/// One column step of the elimination: pick the pivot row; fail when
/// its entry is the recognized zero; else swap it up, divide the pivot
/// row by the pivot, and eliminate the column from every other row.
pub open spec fn gj_step_s<S: ScalarField>(q: Seq<S>, p: Seq<S>, n: int, c: int) -> Option<
    (Seq<S>, Seq<S>),
> {
    let b = pivot_of_s(q, n, c);
    if S::is_zero_s(ment(q, n, b, c)) {
        None
    } else {
        let q1 = swap_rows_s(q, n, c, b);
        let p1 = swap_rows_s(p, n, c, b);
        let piv = ment(q1, n, c, c);
        let q2 = norm_row_s(q1, n, c, piv, c);
        let p2 = norm_row_s(p1, n, c, piv, 0);
        Some((elim_q_s(q2, n, c), elim_p_s(q2, p2, n, c)))
    }
}

/// The elimination from column `c` to the last, or `None` at the first
/// singular column.
pub open spec fn gj_rec_s<S: ScalarField>(q: Seq<S>, p: Seq<S>, n: int, c: int) -> Option<
    (Seq<S>, Seq<S>),
>
    decreases n - c,
{
    if c >= n {
        Some((q, p))
    } else {
        match gj_step_s(q, p, n, c) {
            None => None,
            Some(st) => gj_rec_s(st.0, st.1, n, c + 1),
        }
    }
}

/// What the solver returns for `q * x = p`: the right-hand side after
/// Gauss-Jordan elimination with partial pivoting over the field's
/// model, or `None` when some column's best pivot is the recognized
/// zero.
pub open spec fn gauss_jordan_s<S: ScalarField>(q: Seq<S>, p: Seq<S>, n: int) -> Option<Seq<S>> {
    match gj_rec_s(q, p, n, 0) {
        None => None,
        Some(st) => Some(st.1),
    }
}

/// What the solve of a Padé pair `(u, v)` returns: the solution of
/// `(v - u) * x = (u + v)`.
pub open spec fn solve_uv_s<S: ScalarField>(u: Seq<S>, v: Seq<S>, n: int) -> Option<Seq<S>> {
    gauss_jordan_s(msub_s(v, u, n), madd_s(u, v, n), n)
}

fn build_swap<S: ScalarField>(a: &Vec<S>, n: usize, r1: usize, r2: usize) -> (r: Vec<S>)
    requires
        a@.len() == n * n,
        r1 < n,
        r2 < n,
        n * n <= usize::MAX,
    ensures
        r@ == swap_rows_s(a@, n as int, r1 as int, r2 as int),
{
    let mut d: Vec<S> = Vec::new();
    let mut i: usize = 0;
    while i < n
        invariant
            a@.len() == n * n,
            r1 < n,
            r2 < n,
            n * n <= usize::MAX,
            i <= n,
            d@.len() == i * n,
            forall|k: int| 0 <= k < d@.len() ==> d@[k] == swap_rows_s(
                a@,
                n as int,
                r1 as int,
                r2 as int,
            )[k],
        decreases n - i,
    {
        let mut j: usize = 0;
        while j < n
            invariant
                a@.len() == n * n,
                r1 < n,
                r2 < n,
                n * n <= usize::MAX,
                i < n,
                j <= n,
                d@.len() == i * n + j,
                forall|k: int| 0 <= k < d@.len() ==> d@[k] == swap_rows_s(
                    a@,
                    n as int,
                    r1 as int,
                    r2 as int,
                )[k],
            decreases n - j,
        {
            let x = if i == r1 {
                a[lin_idx(r2, j, n)]
            } else if i == r2 {
                a[lin_idx(r1, j, n)]
            } else {
                a[lin_idx(i, j, n)]
            };
            proof {
                lemma_rc(i as int, j as int, n as int);
            }
            d.push(x);
            j += 1;
        }
        proof {
            assert((i + 1) * n == i * n + n) by (nonlinear_arith);
        }
        i += 1;
    }
    proof {
        assert(d@ =~= swap_rows_s(a@, n as int, r1 as int, r2 as int));
    }
    d
}

fn build_norm_row<S: ScalarField>(a: &Vec<S>, n: usize, c: usize, piv: S, lo: usize) -> (r: Vec<
    S,
>)
    requires
        a@.len() == n * n,
        c < n,
        lo <= n,
        n * n <= usize::MAX,
    ensures
        r@ == norm_row_s(a@, n as int, c as int, piv, lo as int),
{
    let mut d: Vec<S> = Vec::new();
    let mut i: usize = 0;
    while i < n
        invariant
            a@.len() == n * n,
            c < n,
            lo <= n,
            n * n <= usize::MAX,
            i <= n,
            d@.len() == i * n,
            forall|k: int| 0 <= k < d@.len() ==> d@[k] == norm_row_s(
                a@,
                n as int,
                c as int,
                piv,
                lo as int,
            )[k],
        decreases n - i,
    {
        let mut j: usize = 0;
        while j < n
            invariant
                a@.len() == n * n,
                c < n,
                lo <= n,
                n * n <= usize::MAX,
                i < n,
                j <= n,
                d@.len() == i * n + j,
                forall|k: int| 0 <= k < d@.len() ==> d@[k] == norm_row_s(
                    a@,
                    n as int,
                    c as int,
                    piv,
                    lo as int,
                )[k],
            decreases n - j,
        {
            let base = a[lin_idx(i, j, n)];
            let x = if i == c && j >= lo {
                S::divide(base, piv)
            } else {
                base
            };
            proof {
                lemma_rc(i as int, j as int, n as int);
            }
            d.push(x);
            j += 1;
        }
        proof {
            assert((i + 1) * n == i * n + n) by (nonlinear_arith);
        }
        i += 1;
    }
    proof {
        assert(d@ =~= norm_row_s(a@, n as int, c as int, piv, lo as int));
    }
    d
}

fn build_elim_q<S: ScalarField>(q: &Vec<S>, n: usize, c: usize) -> (r: Vec<S>)
    requires
        q@.len() == n * n,
        c < n,
        n * n <= usize::MAX,
    ensures
        r@ == elim_q_s(q@, n as int, c as int),
{
    let mut d: Vec<S> = Vec::new();
    let mut i: usize = 0;
    while i < n
        invariant
            q@.len() == n * n,
            c < n,
            n * n <= usize::MAX,
            i <= n,
            d@.len() == i * n,
            forall|k: int| 0 <= k < d@.len() ==> d@[k] == elim_q_s(q@, n as int, c as int)[k],
        decreases n - i,
    {
        let mut j: usize = 0;
        while j < n
            invariant
                q@.len() == n * n,
                c < n,
                n * n <= usize::MAX,
                i < n,
                j <= n,
                d@.len() == i * n + j,
                forall|k: int| 0 <= k < d@.len() ==> d@[k] == elim_q_s(q@, n as int, c as int)[k],
            decreases n - j,
        {
            let x = if i == c {
                q[lin_idx(i, j, n)]
            } else if j == c {
                S::zero()
            } else if j > c {
                S::minus(q[lin_idx(i, j, n)], S::times(q[lin_idx(i, c, n)], q[lin_idx(c, j, n)]))
            } else {
                q[lin_idx(i, j, n)]
            };
            proof {
                lemma_rc(i as int, j as int, n as int);
            }
            d.push(x);
            j += 1;
        }
        proof {
            assert((i + 1) * n == i * n + n) by (nonlinear_arith);
        }
        i += 1;
    }
    proof {
        assert(d@ =~= elim_q_s(q@, n as int, c as int));
    }
    d
}

fn build_elim_p<S: ScalarField>(q: &Vec<S>, p: &Vec<S>, n: usize, c: usize) -> (r: Vec<S>)
    requires
        q@.len() == n * n,
        p@.len() == n * n,
        c < n,
        n * n <= usize::MAX,
    ensures
        r@ == elim_p_s(q@, p@, n as int, c as int),
{
    let mut d: Vec<S> = Vec::new();
    let mut i: usize = 0;
    while i < n
        invariant
            q@.len() == n * n,
            p@.len() == n * n,
            c < n,
            n * n <= usize::MAX,
            i <= n,
            d@.len() == i * n,
            forall|k: int| 0 <= k < d@.len() ==> d@[k] == elim_p_s(q@, p@, n as int, c as int)[k],
        decreases n - i,
    {
        let mut j: usize = 0;
        while j < n
            invariant
                q@.len() == n * n,
                p@.len() == n * n,
                c < n,
                n * n <= usize::MAX,
                i < n,
                j <= n,
                d@.len() == i * n + j,
                forall|k: int| 0 <= k < d@.len() ==> d@[k] == elim_p_s(
                    q@,
                    p@,
                    n as int,
                    c as int,
                )[k],
            decreases n - j,
        {
            let x = if i == c {
                p[lin_idx(i, j, n)]
            } else {
                S::minus(p[lin_idx(i, j, n)], S::times(q[lin_idx(i, c, n)], p[lin_idx(c, j, n)]))
            };
            proof {
                lemma_rc(i as int, j as int, n as int);
            }
            d.push(x);
            j += 1;
        }
        proof {
            assert((i + 1) * n == i * n + n) by (nonlinear_arith);
        }
        i += 1;
    }
    proof {
        assert(d@ =~= elim_p_s(q@, p@, n as int, c as int));
    }
    d
}

/// Solves `q * x = p` by Gauss-Jordan elimination with partial
/// pivoting, column by column; the result is exactly what
/// `gauss_jordan_s` gives over the field's model, and failure happens
/// exactly when that elimination meets a column whose best pivot is
/// the recognized zero.
fn lu_solve<S: ScalarField>(q: &MatrixN<S>, p: &MatrixN<S>) -> (r: Result<MatrixN<S>, ExpError>)
    requires
        q.wf(),
        p.wf(),
        p.n == q.n,
    ensures
        match r {
            Ok(x) => x.wf() && x.n == q.n && Some(x.data@) == gauss_jordan_s(
                q.data@,
                p.data@,
                q.n as int,
            ),
            Err(e) => e == ExpError::Singular && gauss_jordan_s(
                q.data@,
                p.data@,
                q.n as int,
            ) is None,
        },
{
    let n = q.n;
    let mut qd = q.duplicate().data;
    let mut pd = p.duplicate().data;
    let _l: usize = qd.len();
    let mut c: usize = 0;
    while c < n
        invariant
            n == q.n,
            n * n <= usize::MAX,
            qd@.len() == n * n,
            pd@.len() == n * n,
            c <= n,
            gj_rec_s(q.data@, p.data@, n as int, 0) == gj_rec_s(qd@, pd@, n as int, c as int),
        decreases n - c,
    {
        let mut best: usize = c;
        let mut ri: usize = c + 1;
        while ri < n
            invariant
                qd@.len() == n * n,
                n * n <= usize::MAX,
                c < n,
                c <= best < n,
                c + 1 <= ri <= n,
                best == pivot_best_s(qd@, n as int, c as int, ri as int),
            decreases n - ri,
        {
            let bst = qd[lin_idx(best, c, n)];
            let cur = qd[lin_idx(ri, c, n)];
            if S::lt(S::abs(bst), S::abs(cur)) {
                best = ri;
            }
            ri += 1;
        }
        let probe = qd[lin_idx(best, c, n)];
        if S::is_zero(probe) {
            proof {
                assert(gj_step_s(qd@, pd@, n as int, c as int) is None);
                assert(gj_rec_s(qd@, pd@, n as int, c as int) is None);
            }
            return Err(ExpError::Singular);
        }
        let q1 = build_swap(&qd, n, c, best);
        let p1 = build_swap(&pd, n, c, best);
        let piv = q1[lin_idx(c, c, n)];
        let q2 = build_norm_row(&q1, n, c, piv, c);
        let p2 = build_norm_row(&p1, n, c, piv, 0);
        let q3 = build_elim_q(&q2, n, c);
        let p3 = build_elim_p(&q2, &p2, n, c);
        proof {
            assert(gj_step_s(qd@, pd@, n as int, c as int) == Some((q3@, p3@)));
            assert(gj_rec_s(qd@, pd@, n as int, c as int) == gj_rec_s(
                q3@,
                p3@,
                n as int,
                c as int + 1,
            ));
        }
        qd = q3;
        pd = p3;
        c += 1;
    }
    proof {
        assert(gj_rec_s(qd@, pd@, n as int, n as int) == Some((qd@, pd@)));
    }
    Ok(MatrixN { n, data: pd })
}

/// Forms `P = U + V` and `Q = V - U` and solves `Q * X = P`; the
/// solution approximates the exponential when `(U, V)` is a Padé pair
/// of it. The result is exactly the Gauss-Jordan solve of that system
/// over the field's model; it fails exactly when that elimination
/// finds the system singular.
pub fn solve_p_q<S: ScalarField>(u: MatrixN<S>, v: MatrixN<S>) -> (r: Result<
    MatrixN<S>,
    ExpError,
>)
    requires
        u.wf(),
        v.wf(),
        v.n == u.n,
    ensures
        match r {
            Ok(x) => x.wf() && x.n == u.n && Some(x.data@) == solve_uv_s(
                u.data@,
                v.data@,
                u.n as int,
            ),
            Err(e) => e == ExpError::Singular && solve_uv_s(u.data@, v.data@, u.n as int) is None,
        },
{
    let p = u.mat_add(&v);
    let q = v.mat_sub(&u);
    lu_solve(&q, &p)
}

/// `x` squared `k` times: `x^(2^k)` as the repeated products compute
/// it.
pub open spec fn square_iter_s<S: ScalarField>(x: Seq<S>, n: int, k: nat) -> Seq<S>
    decreases k,
{
    if k == 0 {
        x
    } else {
        let y = square_iter_s(x, n, (k - 1) as nat);
        mmul_s(y, y, n)
    }
}

/// The scaling exponent of the degree-13 branch: `s0` from `eta5`
/// against the threshold `4.25`, refined by the backward-error
/// correction of the rescaled matrix; the sum saturates at the
/// integer's range instead of wrapping.
pub open spec fn exp_scaling_s<S: ScalarField>(a: Seq<S>, n: int) -> int {
    let eta_3 = max_s(d6_s::<S>(a, n), d8_s::<S>(a, n));
    let eta_4 = max_s(d8_s::<S>(a, n), d10_s::<S>(a, n));
    let eta_5 = min_s(eta_3, eta_4);
    let s0: int = if S::is_zero_s(eta_5) {
        0
    } else {
        let l2 = S::ceil_s(S::log2_s(S::div_s(eta_5, theta13_s::<S>())));
        if S::lt_s(l2, S::zero_s()) {
            0
        } else {
            S::trunc_u64_s(l2) as int
        }
    };
    let extra = ell_s::<S>(mscale_s(a, pow2_neg_s::<S>(s0), n), n, 13);
    if s0 + extra <= u64::MAX {
        s0 + extra
    } else {
        u64::MAX as int
    }
}

/// What the exponential returns on a matrix of dimension at least two:
/// the solve of the first Padé pair among degrees 3, 5, 7, 9 whose
/// norm quantity passes its threshold with a zero backward-error
/// correction; else the solve of the scaled degree-13 pair, squared
/// `s` times. `None` stands for the singular-system failure.
pub open spec fn exp_result_s<S: ScalarField>(a: Seq<S>, n: int) -> Option<Seq<S>> {
    let eta_1 = max_s(d4_s::<S>(a, n), d6_s::<S>(a, n));
    let eta_2 = max_s(d4_s::<S>(a, n), d6_s::<S>(a, n));
    let eta_3 = max_s(d6_s::<S>(a, n), d8_s::<S>(a, n));
    if S::lt_s(eta_1, theta3_s::<S>()) && ell_s::<S>(a, n, 3) == 0 {
        solve_uv_s(pade3_u_s::<S>(a, n), pade3_v_s::<S>(a, n), n)
    } else if S::lt_s(eta_2, theta5_s::<S>()) && ell_s::<S>(a, n, 5) == 0 {
        solve_uv_s(pade5_u_s::<S>(a, n), pade5_v_s::<S>(a, n), n)
    } else if S::lt_s(eta_3, theta7_s::<S>()) && ell_s::<S>(a, n, 7) == 0 {
        solve_uv_s(pade7_u_s::<S>(a, n), pade7_v_s::<S>(a, n), n)
    } else if S::lt_s(eta_3, theta9_s::<S>()) && ell_s::<S>(a, n, 9) == 0 {
        solve_uv_s(pade9_u_s::<S>(a, n), pade9_v_s::<S>(a, n), n)
    } else {
        let s = exp_scaling_s::<S>(a, n);
        match solve_uv_s(pade13_u_s::<S>(a, n, s), pade13_v_s::<S>(a, n, s), n) {
            None => None,
            Some(x) => Some(square_iter_s(x, n, s as nat)),
        }
    }
}

impl<S: ScalarField> MatrixN<S> {
    /// The matrix exponential, by scaled Padé approximation with
    /// automatic degree and scaling selection.
    ///
    /// A one-by-one matrix is sent straight to the scalar exponential,
    /// exactly. Otherwise the result is exactly `exp_result_s`: the
    /// cheapest Padé degree among 3, 5, 7, 9 whose norm quantities
    /// pass its acceptance threshold (with a zero backward-error
    /// correction) is built and solved; when none passes, the input is
    /// scaled down by `2^-s`, the degree-13 pair is built and solved,
    /// and the solution is squared `s` times. The only failure is a
    /// numerically singular Padé denominator system.
    pub fn exp(&self) -> (r: Result<Self, ExpError>)
        requires
            self.wf(),
            1 <= self.n,
        ensures
            (r matches Ok(e) ==> e.wf() && e.n == self.n),
            (r matches Err(e) ==> e == ExpError::Singular && self.n > 1),
            self.n == 1 ==> (r matches Ok(e) && e.data@ == seq![S::exp_s(self.data@[0])]),
            self.n > 1 ==> match exp_result_s::<S>(self.data@, self.n as int) {
                Some(x) => r matches Ok(e) && e.data@ == x,
                None => r matches Err(e) && e == ExpError::Singular,
            },
    {
        if self.n == 1 {
            let x = self.get(0, 0);
            let mut d: Vec<S> = Vec::new();
            d.push(S::exp(x));
            proof {
                assert(d@ =~= seq![S::exp_s(self.data@[0])]);
            }
            return Ok(MatrixN { n: 1, data: d });
        }

        let ghost a0 = self.data@;
        let ghost gn = self.n as int;
        let a = self.duplicate();
        let mut h = ExpmPadeHelper::new(a, true);

        let eta_1 = scalar_max(h.d4_loose(), h.d6_loose());
        if S::lt(eta_1, theta3()) && ell(&h.a, 3) == 0 {
            let (u, v) = h.pade3();
            let r = solve_p_q(u, v);
            proof {
                assert(exp_result_s::<S>(a0, gn) == solve_uv_s(u.data@, v.data@, gn));
            }
            return r;
        }

        let eta_2 = scalar_max(h.d4_tight(), h.d6_loose());
        if S::lt(eta_2, theta5()) && ell(&h.a, 5) == 0 {
            let (u, v) = h.pade5();
            let r = solve_p_q(u, v);
            proof {
                assert(exp_result_s::<S>(a0, gn) == solve_uv_s(u.data@, v.data@, gn));
            }
            return r;
        }

        let eta_3 = scalar_max(h.d6_tight(), h.d8_loose());
        if S::lt(eta_3, theta7()) && ell(&h.a, 7) == 0 {
            let (u, v) = h.pade7();
            let r = solve_p_q(u, v);
            proof {
                assert(exp_result_s::<S>(a0, gn) == solve_uv_s(u.data@, v.data@, gn));
            }
            return r;
        }
        if S::lt(eta_3, theta9()) && ell(&h.a, 9) == 0 {
            let (u, v) = h.pade9();
            let r = solve_p_q(u, v);
            proof {
                assert(exp_result_s::<S>(a0, gn) == solve_uv_s(u.data@, v.data@, gn));
            }
            return r;
        }

        let eta_4 = scalar_max(h.d8_loose(), h.d10_loose());
        let eta_5 = scalar_min(eta_3, eta_4);

        let mut s: u64 = if S::is_zero(eta_5) {
            0
        } else {
            let l2 = S::ceil(S::log2(S::divide(eta_5, theta13())));
            if S::lt(l2, S::zero()) {
                0
            } else {
                S::trunc_u64(l2)
            }
        };

        let scaled = h.a.scale(S::powf(S::from_u64(2), S::negate(S::from_u64(s))));
        let extra = ell(&scaled, 13);
        // The correction cannot approach the integer's range in any run
        // that terminates; saturate rather than wrap.
        s = if extra <= u64::MAX - s {
            s + extra
        } else {
            u64::MAX
        };
        proof {
            assert(s as int == exp_scaling_s::<S>(a0, gn));
        }

        let (u, v) = h.pade13_scaled(s);
        let solved = solve_p_q(u, v);
        match solved {
            Ok(x) => {
                let mut x = x;
                let ghost x0 = x.data@;
                let mut k: u64 = 0;
                while k < s
                    invariant
                        x.wf(),
                        x.n == self.n,
                        k <= s,
                        x.data@ == square_iter_s(x0, self.n as int, k as nat),
                    decreases s - k,
                {
                    x = x.mat_mul(&x);
                    k += 1;
                }
                proof {
                    assert(exp_result_s::<S>(a0, gn) == Some(
                        square_iter_s(x0, gn, s as nat),
                    ));
                }
                Ok(x)
            },
            Err(e) => {
                proof {
                    assert(exp_result_s::<S>(a0, gn) is None);
                }
                Err(e)
            },
        }
    }
}

} // verus!
