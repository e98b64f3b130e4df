//! Dense square matrices over a scalar field, with the entrywise
//! operations the exponential algorithm needs.
//!
//! A matrix of dimension `n` is a row-major vector of `n * n` entries.
//! Each executable operation is specified exactly, entry by entry, over
//! the scalar field's model operations.

use vstd::prelude::*;

use crate::scalar::ScalarField;

verus! {

/// Failure cases of the exponential: a right-hand side whose denominator
/// matrix is numerically singular, or an entry vector whose length does
/// not match the requested square dimension.
#[derive(Clone, Copy, Debug, PartialEq, Eq)]
pub enum ExpError {
    /// The linear system of the selected Padé approximant could not be
    /// solved: its matrix is numerically singular.
    Singular,
    /// The entry vector handed to the constructor does not hold exactly
    /// `n * n` entries.
    InvalidDimension,
}

/// Entry `(i, j)` of the row-major entry sequence `a` of an `n`-by-`n`
/// matrix.
pub open spec fn ment<S>(a: Seq<S>, n: int, i: int, j: int) -> S
    recommends
        0 <= i < n,
        0 <= j < n,
        a.len() == n * n,
{
    a[i * n + j]
}

/// The row-major entry sequence of the `n`-by-`n` matrix whose entry
/// `(i, j)` is `f(i, j)`.
pub open spec fn mat_new<S>(n: int, f: spec_fn(int, int) -> S) -> Seq<S> {
    Seq::new((n * n) as nat, |k: int| f(k / n, k % n))
}

/// Entrywise sum `a + b`.
pub open spec fn madd_s<S: ScalarField>(a: Seq<S>, b: Seq<S>, n: int) -> Seq<S> {
    mat_new(n, |i: int, j: int| S::add_s(ment(a, n, i, j), ment(b, n, i, j)))
}

/// Entrywise difference `a - b`.
pub open spec fn msub_s<S: ScalarField>(a: Seq<S>, b: Seq<S>, n: int) -> Seq<S> {
    mat_new(n, |i: int, j: int| S::sub_s(ment(a, n, i, j), ment(b, n, i, j)))
}

/// Entrywise product with the scalar `c` on the right.
pub open spec fn mscale_s<S: ScalarField>(a: Seq<S>, c: S, n: int) -> Seq<S> {
    mat_new(n, |i: int, j: int| S::mul_s(ment(a, n, i, j), c))
}

/// Entrywise magnitude.
pub open spec fn mabs_s<S: ScalarField>(a: Seq<S>, n: int) -> Seq<S> {
    mat_new(n, |i: int, j: int| S::abs_s(ment(a, n, i, j)))
}

/// The transpose of `a`.
pub open spec fn mtrans_s<S: ScalarField>(a: Seq<S>, n: int) -> Seq<S> {
    mat_new(n, |i: int, j: int| ment(a, n, j, i))
}

/// The identity matrix of dimension `n`.
pub open spec fn mident_s<S: ScalarField>(n: int) -> Seq<S> {
    mat_new(n, |i: int, j: int| if i == j { S::one_s() } else { S::zero_s() })
}

/// The first `t` addends of the inner product of row `i` of `a` with
/// column `j` of `b`, accumulated left to right from zero, exactly as the
/// executable multiplication accumulates them.
pub open spec fn dot_s<S: ScalarField>(a: Seq<S>, b: Seq<S>, n: int, i: int, j: int, t: int) -> S
    decreases t,
{
    if t <= 0 {
        S::zero_s()
    } else {
        S::add_s(dot_s(a, b, n, i, j, t - 1), S::mul_s(ment(a, n, i, t - 1), ment(b, n, t - 1, j)))
    }
}

/// The matrix product `a * b`.
pub open spec fn mmul_s<S: ScalarField>(a: Seq<S>, b: Seq<S>, n: int) -> Seq<S> {
    mat_new(n, |i: int, j: int| dot_s(a, b, n, i, j, n))
}

/// Row-major position of entry `(i, j)`, with the division facts that
/// connect it back to its row and column.
pub proof fn lemma_rc(i: int, j: int, n: int)
    requires
        0 <= i < n,
        0 <= j < n,
    ensures
        0 <= i * n + j,
        i * n + j < n * n,
        (i * n + j) / n == i,
        (i * n + j) % n == j,
{
    assert(0 <= i * n + j && i * n + j < n * n) by (nonlinear_arith)
        requires
            0 <= i < n,
            0 <= j < n,
    ;
    vstd::arithmetic::div_mod::lemma_fundamental_div_mod_converse(i * n + j, n, i, j);
}

/// A dense square matrix of dimension `n` over the scalar field `S`,
/// stored row-major.
pub struct MatrixN<S: ScalarField> {
    /// The dimension: number of rows and of columns.
    pub n: usize,
    /// The `n * n` entries, row-major.
    pub data: Vec<S>,
}

impl<S: ScalarField> MatrixN<S> {
    /// Well-formedness: the entry vector holds exactly `n * n` entries.
    pub open spec fn wf(self) -> bool {
        self.data@.len() == self.n * self.n
    }

    /// Builds the `n`-by-`n` matrix with the given row-major entries;
    /// rejects an entry vector whose length is not `n * n`.
    pub fn from_vec(n: usize, data: Vec<S>) -> (r: Result<Self, ExpError>)
        ensures
            match r {
                Ok(m) => m.wf() && m.n == n && m.data@ == data@ && data@.len() == n * n,
                Err(e) => e == ExpError::InvalidDimension && data@.len() != n * n,
            },
    {
        let l = data.len();
        if n == 0 {
            if l == 0 {
                Ok(MatrixN { n, data })
            } else {
                Err(ExpError::InvalidDimension)
            }
        } else {
            if l / n == n && l % n == 0 {
                proof {
                    vstd::arithmetic::div_mod::lemma_fundamental_div_mod(l as int, n as int);
                }
                Ok(MatrixN { n, data })
            } else {
                proof {
                    if l == n * n {
                        vstd::arithmetic::div_mod::lemma_fundamental_div_mod_converse(
                            l as int,
                            n as int,
                            n as int,
                            0,
                        );
                    }
                }
                Err(ExpError::InvalidDimension)
            }
        }
    }

    /// The dimension.
    pub fn dim(&self) -> (r: usize)
        ensures
            r == self.n,
    {
        self.n
    }

    /// Entry `(i, j)`.
    pub fn get(&self, i: usize, j: usize) -> (r: S)
        requires
            self.wf(),
            i < self.n,
            j < self.n,
        ensures
            r == ment(self.data@, self.n as int, i as int, j as int),
    {
        let n = self.n;
        let _l: usize = self.data.len();
        proof {
            lemma_rc(i as int, j as int, n as int);
        }
        self.data[i * n + j]
    }

    /// An entrywise copy.
    pub fn duplicate(&self) -> (r: Self)
        requires
            self.wf(),
        ensures
            r.wf(),
            r.n == self.n,
            r.data@ == self.data@,
    {
        let l: usize = self.data.len();
        let mut d: Vec<S> = Vec::new();
        let mut k: usize = 0;
        while k < l
            invariant
                l == self.data@.len(),
                k <= l,
                d@ == self.data@.subrange(0, k as int),
            decreases l - k,
        {
            d.push(self.data[k]);
            proof {
                assert(d@ =~= self.data@.subrange(0, k + 1 as int));
            }
            k += 1;
        }
        proof {
            assert(d@ =~= self.data@);
        }
        MatrixN { n: self.n, data: d }
    }

    /// The identity matrix of dimension `n`.
    pub fn identity(n: usize) -> (r: Self)
        requires
            n * n <= usize::MAX,
        ensures
            r.wf(),
            r.n == n,
            r.data@ == mident_s::<S>(n as int),
    {
        let mut d: Vec<S> = Vec::new();
        let mut i: usize = 0;
        while i < n
            invariant
                n * n <= usize::MAX,
                i <= n,
                d@.len() == i * n,
                forall|k: int| 0 <= k < d@.len() ==> d@[k] == mident_s::<S>(n as int)[k],
            decreases n - i,
        {
            let mut j: usize = 0;
            while j < n
                invariant
                    n * n <= usize::MAX,
                    i < n,
                    j <= n,
                    d@.len() == i * n + j,
                    forall|k: int| 0 <= k < d@.len() ==> d@[k] == mident_s::<S>(n as int)[k],
                decreases n - j,
            {
                let x = if i == j {
                    S::one()
                } else {
                    S::zero()
                };
                proof {
                    lemma_rc(i as int, j as int, n as int);
                }
                d.push(x);
                j += 1;
            }
            proof {
                assert((i + 1) * n == i * n + n) by (nonlinear_arith);
            }
            i += 1;
        }
        proof {
            assert(d@ =~= mident_s::<S>(n as int));
        }
        MatrixN { n, data: d }
    }

    /// Entrywise sum.
    pub fn mat_add(&self, o: &Self) -> (r: Self)
        requires
            self.wf(),
            o.wf(),
            o.n == self.n,
        ensures
            r.wf(),
            r.n == self.n,
            r.data@ == madd_s(self.data@, o.data@, self.n as int),
    {
        let n = self.n;
        let _l: usize = self.data.len();
        let mut d: Vec<S> = Vec::new();
        let mut i: usize = 0;
        while i < n
            invariant
                self.wf(),
                o.wf(),
                o.n == n,
                n == self.n,
                n * n <= usize::MAX,
                i <= n,
                d@.len() == i * n,
                forall|k: int| 0 <= k < d@.len() ==> d@[k] == madd_s(
                    self.data@,
                    o.data@,
                    n as int,
                )[k],
            decreases n - i,
        {
            let mut j: usize = 0;
            while j < n
                invariant
                    self.wf(),
                    o.wf(),
                    o.n == n,
                    n == self.n,
                    n * n <= usize::MAX,
                    i < n,
                    j <= n,
                    d@.len() == i * n + j,
                    forall|k: int| 0 <= k < d@.len() ==> d@[k] == madd_s(
                        self.data@,
                        o.data@,
                        n as int,
                    )[k],
                decreases n - j,
            {
                let x = S::plus(self.get(i, j), o.get(i, j));
                proof {
                    lemma_rc(i as int, j as int, n as int);
                }
                d.push(x);
                j += 1;
            }
            proof {
                assert((i + 1) * n == i * n + n) by (nonlinear_arith);
            }
            i += 1;
        }
        proof {
            assert(d@ =~= madd_s(self.data@, o.data@, n as int));
        }
        MatrixN { n, data: d }
    }

    /// Entrywise difference `self - o`.
    pub fn mat_sub(&self, o: &Self) -> (r: Self)
        requires
            self.wf(),
            o.wf(),
            o.n == self.n,
        ensures
            r.wf(),
            r.n == self.n,
            r.data@ == msub_s(self.data@, o.data@, self.n as int),
    {
        let n = self.n;
        let _l: usize = self.data.len();
        let mut d: Vec<S> = Vec::new();
        let mut i: usize = 0;
        while i < n
            invariant
                self.wf(),
                o.wf(),
                o.n == n,
                n == self.n,
                n * n <= usize::MAX,
                i <= n,
                d@.len() == i * n,
                forall|k: int| 0 <= k < d@.len() ==> d@[k] == msub_s(
                    self.data@,
                    o.data@,
                    n as int,
                )[k],
            decreases n - i,
        {
            let mut j: usize = 0;
            while j < n
                invariant
                    self.wf(),
                    o.wf(),
                    o.n == n,
                    n == self.n,
                    n * n <= usize::MAX,
                    i < n,
                    j <= n,
                    d@.len() == i * n + j,
                    forall|k: int| 0 <= k < d@.len() ==> d@[k] == msub_s(
                        self.data@,
                        o.data@,
                        n as int,
                    )[k],
                decreases n - j,
            {
                let x = S::minus(self.get(i, j), o.get(i, j));
                proof {
                    lemma_rc(i as int, j as int, n as int);
                }
                d.push(x);
                j += 1;
            }
            proof {
                assert((i + 1) * n == i * n + n) by (nonlinear_arith);
            }
            i += 1;
        }
        proof {
            assert(d@ =~= msub_s(self.data@, o.data@, n as int));
        }
        MatrixN { n, data: d }
    }

    /// Entrywise product with a scalar, the scalar on the right.
    pub fn scale(&self, c: S) -> (r: Self)
        requires
            self.wf(),
        ensures
            r.wf(),
            r.n == self.n,
            r.data@ == mscale_s(self.data@, c, self.n as int),
    {
        let n = self.n;
        let _l: usize = self.data.len();
        let mut d: Vec<S> = Vec::new();
        let mut i: usize = 0;
        while i < n
            invariant
                self.wf(),
                n == self.n,
                n * n <= usize::MAX,
                i <= n,
                d@.len() == i * n,
                forall|k: int| 0 <= k < d@.len() ==> d@[k] == mscale_s(self.data@, c, n as int)[k],
            decreases n - i,
        {
            let mut j: usize = 0;
            while j < n
                invariant
                    self.wf(),
                    n == self.n,
                    n * n <= usize::MAX,
                    i < n,
                    j <= n,
                    d@.len() == i * n + j,
                    forall|k: int| 0 <= k < d@.len() ==> d@[k] == mscale_s(
                        self.data@,
                        c,
                        n as int,
                    )[k],
                decreases n - j,
            {
                let x = S::times(self.get(i, j), c);
                proof {
                    lemma_rc(i as int, j as int, n as int);
                }
                d.push(x);
                j += 1;
            }
            proof {
                assert((i + 1) * n == i * n + n) by (nonlinear_arith);
            }
            i += 1;
        }
        proof {
            assert(d@ =~= mscale_s(self.data@, c, n as int));
        }
        MatrixN { n, data: d }
    }

    /// Entrywise magnitude.
    pub fn abs_matrix(&self) -> (r: Self)
        requires
            self.wf(),
        ensures
            r.wf(),
            r.n == self.n,
            r.data@ == mabs_s(self.data@, self.n as int),
    {
        let n = self.n;
        let _l: usize = self.data.len();
        let mut d: Vec<S> = Vec::new();
        let mut i: usize = 0;
        while i < n
            invariant
                self.wf(),
                n == self.n,
                n * n <= usize::MAX,
                i <= n,
                d@.len() == i * n,
                forall|k: int| 0 <= k < d@.len() ==> d@[k] == mabs_s(self.data@, n as int)[k],
            decreases n - i,
        {
            let mut j: usize = 0;
            while j < n
                invariant
                    self.wf(),
                    n == self.n,
                    n * n <= usize::MAX,
                    i < n,
                    j <= n,
                    d@.len() == i * n + j,
                    forall|k: int| 0 <= k < d@.len() ==> d@[k] == mabs_s(self.data@, n as int)[k],
                decreases n - j,
            {
                let x = S::abs(self.get(i, j));
                proof {
                    lemma_rc(i as int, j as int, n as int);
                }
                d.push(x);
                j += 1;
            }
            proof {
                assert((i + 1) * n == i * n + n) by (nonlinear_arith);
            }
            i += 1;
        }
        proof {
            assert(d@ =~= mabs_s(self.data@, n as int));
        }
        MatrixN { n, data: d }
    }

    /// The transpose.
    pub fn transpose(&self) -> (r: Self)
        requires
            self.wf(),
        ensures
            r.wf(),
            r.n == self.n,
            r.data@ == mtrans_s(self.data@, self.n as int),
    {
        let n = self.n;
        let _l: usize = self.data.len();
        let mut d: Vec<S> = Vec::new();
        let mut i: usize = 0;
        while i < n
            invariant
                self.wf(),
                n == self.n,
                n * n <= usize::MAX,
                i <= n,
                d@.len() == i * n,
                forall|k: int| 0 <= k < d@.len() ==> d@[k] == mtrans_s(self.data@, n as int)[k],
            decreases n - i,
        {
            let mut j: usize = 0;
            while j < n
                invariant
                    self.wf(),
                    n == self.n,
                    n * n <= usize::MAX,
                    i < n,
                    j <= n,
                    d@.len() == i * n + j,
                    forall|k: int| 0 <= k < d@.len() ==> d@[k] == mtrans_s(self.data@, n as int)[k],
                decreases n - j,
            {
                let x = self.get(j, i);
                proof {
                    lemma_rc(i as int, j as int, n as int);
                }
                d.push(x);
                j += 1;
            }
            proof {
                assert((i + 1) * n == i * n + n) by (nonlinear_arith);
            }
            i += 1;
        }
        proof {
            assert(d@ =~= mtrans_s(self.data@, n as int));
        }
        MatrixN { n, data: d }
    }

    /// The matrix product `self * o`, each entry accumulated left to
    /// right.
    pub fn mat_mul(&self, o: &Self) -> (r: Self)
        requires
            self.wf(),
            o.wf(),
            o.n == self.n,
        ensures
            r.wf(),
            r.n == self.n,
            r.data@ == mmul_s(self.data@, o.data@, self.n as int),
    {
        let n = self.n;
        let _l: usize = self.data.len();
        let mut d: Vec<S> = Vec::new();
        let mut i: usize = 0;
        while i < n
            invariant
                self.wf(),
                o.wf(),
                o.n == n,
                n == self.n,
                n * n <= usize::MAX,
                i <= n,
                d@.len() == i * n,
                forall|k: int| 0 <= k < d@.len() ==> d@[k] == mmul_s(
                    self.data@,
                    o.data@,
                    n as int,
                )[k],
            decreases n - i,
        {
            let mut j: usize = 0;
            while j < n
                invariant
                    self.wf(),
                    o.wf(),
                    o.n == n,
                    n == self.n,
                    n * n <= usize::MAX,
                    i < n,
                    j <= n,
                    d@.len() == i * n + j,
                    forall|k: int| 0 <= k < d@.len() ==> d@[k] == mmul_s(
                        self.data@,
                        o.data@,
                        n as int,
                    )[k],
                decreases n - j,
            {
                let mut acc = S::zero();
                let mut t: usize = 0;
                while t < n
                    invariant
                        self.wf(),
                        o.wf(),
                        o.n == n,
                        n == self.n,
                        i < n,
                        j < n,
                        t <= n,
                        acc == dot_s(self.data@, o.data@, n as int, i as int, j as int, t as int),
                    decreases n - t,
                {
                    let x = S::times(self.get(i, t), o.get(t, j));
                    acc = S::plus(acc, x);
                    t += 1;
                }
                proof {
                    lemma_rc(i as int, j as int, n as int);
                }
                d.push(acc);
                j += 1;
            }
            proof {
                assert((i + 1) * n == i * n + n) by (nonlinear_arith);
            }
            i += 1;
        }
        proof {
            assert(d@ =~= mmul_s(self.data@, o.data@, n as int));
        }
        MatrixN { n, data: d }
    }
}

} // verus!
