//! The Padé helper: owns the input matrix, lazily memoizes its even
//! powers and the norm-derived quantities, and builds the
//! (numerator, denominator) pair for each Padé degree.
//!
//! Every cache slot, once filled, holds a value pinned exactly by the
//! specification functions below; the "tight" and "loose" norm accessors
//! fill distinct slots but are proved to return the same quantity.

use vstd::prelude::*;

use crate::matrix::{madd_s, mident_s, mmul_s, mscale_s, MatrixN};
use crate::norm::{one_norm, one_norm_s};
use crate::scalar::ScalarField;

verus! {

/// The square of `a`.
pub open spec fn a2_s<S: ScalarField>(a: Seq<S>, n: int) -> Seq<S> {
    mmul_s(a, a, n)
}

/// The fourth power, as the square of the square.
pub open spec fn a4_s<S: ScalarField>(a: Seq<S>, n: int) -> Seq<S> {
    mmul_s(a2_s(a, n), a2_s(a, n), n)
}

/// The sixth power, as the fourth power times the square.
pub open spec fn a6_s<S: ScalarField>(a: Seq<S>, n: int) -> Seq<S> {
    mmul_s(a4_s(a, n), a2_s(a, n), n)
}

/// The eighth power, as the sixth power times the square.
pub open spec fn a8_s<S: ScalarField>(a: Seq<S>, n: int) -> Seq<S> {
    mmul_s(a6_s(a, n), a2_s(a, n), n)
}

/// The tenth power, as the sixth power times the fourth.
pub open spec fn a10_s<S: ScalarField>(a: Seq<S>, n: int) -> Seq<S> {
    mmul_s(a6_s(a, n), a4_s(a, n), n)
}

/// `one_norm(a^4) ^ (1/4)`.
pub open spec fn d4_s<S: ScalarField>(a: Seq<S>, n: int) -> S {
    S::powf_s(one_norm_s(a4_s(a, n), n), S::div_s(S::one_s(), S::from_u128_s(4)))
}

/// `one_norm(a^6) ^ (1/6)`.
pub open spec fn d6_s<S: ScalarField>(a: Seq<S>, n: int) -> S {
    S::powf_s(one_norm_s(a6_s(a, n), n), S::div_s(S::one_s(), S::from_u128_s(6)))
}

/// `one_norm(a^8) ^ (1/8)`.
pub open spec fn d8_s<S: ScalarField>(a: Seq<S>, n: int) -> S {
    S::powf_s(one_norm_s(a8_s(a, n), n), S::div_s(S::one_s(), S::from_u128_s(8)))
}

/// `one_norm(a^10) ^ (1/10)`.
pub open spec fn d10_s<S: ScalarField>(a: Seq<S>, n: int) -> S {
    S::powf_s(one_norm_s(a10_s(a, n), n), S::div_s(S::one_s(), S::from_u128_s(10)))
}

/// Numerator of the degree-3 Padé approximant:
/// `U = A * (A^2 * b3 + I * b1)` with `b = [120, 60, 12, 1]`.
pub open spec fn pade3_u_s<S: ScalarField>(a: Seq<S>, n: int) -> Seq<S> {
    mmul_s(
        a,
        madd_s(
            mscale_s(a2_s(a, n), S::from_u128_s(1), n),
            mscale_s(mident_s(n), S::from_u128_s(60), n),
            n,
        ),
        n,
    )
}

/// Denominator of the degree-3 Padé approximant:
/// `V = A^2 * b2 + I * b0`.
pub open spec fn pade3_v_s<S: ScalarField>(a: Seq<S>, n: int) -> Seq<S> {
    madd_s(
        mscale_s(a2_s(a, n), S::from_u128_s(12), n),
        mscale_s(mident_s(n), S::from_u128_s(120), n),
        n,
    )
}

/// Numerator of the degree-5 Padé approximant, with
/// `b = [30240, 15120, 3360, 420, 30, 1]`.
pub open spec fn pade5_u_s<S: ScalarField>(a: Seq<S>, n: int) -> Seq<S> {
    mmul_s(
        a,
        madd_s(
            madd_s(
                mscale_s(a4_s(a, n), S::from_u128_s(1), n),
                mscale_s(a2_s(a, n), S::from_u128_s(420), n),
                n,
            ),
            mscale_s(mident_s(n), S::from_u128_s(15120), n),
            n,
        ),
        n,
    )
}

/// Denominator of the degree-5 Padé approximant.
pub open spec fn pade5_v_s<S: ScalarField>(a: Seq<S>, n: int) -> Seq<S> {
    madd_s(
        madd_s(
            mscale_s(a4_s(a, n), S::from_u128_s(30), n),
            mscale_s(a2_s(a, n), S::from_u128_s(3360), n),
            n,
        ),
        mscale_s(mident_s(n), S::from_u128_s(30240), n),
        n,
    )
}

/// Numerator of the degree-7 Padé approximant, with
/// `b = [17297280, 8648640, 1995840, 277200, 25200, 1512, 56, 1]`.
pub open spec fn pade7_u_s<S: ScalarField>(a: Seq<S>, n: int) -> Seq<S> {
    mmul_s(
        a,
        madd_s(
            madd_s(
                madd_s(
                    mscale_s(a6_s(a, n), S::from_u128_s(1), n),
                    mscale_s(a4_s(a, n), S::from_u128_s(1512), n),
                    n,
                ),
                mscale_s(a2_s(a, n), S::from_u128_s(277200), n),
                n,
            ),
            mscale_s(mident_s(n), S::from_u128_s(8648640), n),
            n,
        ),
        n,
    )
}

/// Denominator of the degree-7 Padé approximant.
pub open spec fn pade7_v_s<S: ScalarField>(a: Seq<S>, n: int) -> Seq<S> {
    madd_s(
        madd_s(
            madd_s(
                mscale_s(a6_s(a, n), S::from_u128_s(56), n),
                mscale_s(a4_s(a, n), S::from_u128_s(25200), n),
                n,
            ),
            mscale_s(a2_s(a, n), S::from_u128_s(1995840), n),
            n,
        ),
        mscale_s(mident_s(n), S::from_u128_s(17297280), n),
        n,
    )
}

/// Numerator of the degree-9 Padé approximant, with
/// `b = [17643225600, 8821612800, 2075673600, 302702400, 30270240,
/// 2162160, 110880, 3960, 90, 1]`.
pub open spec fn pade9_u_s<S: ScalarField>(a: Seq<S>, n: int) -> Seq<S> {
    mmul_s(
        a,
        madd_s(
            madd_s(
                madd_s(
                    madd_s(
                        mscale_s(a8_s(a, n), S::from_u128_s(1), n),
                        mscale_s(a6_s(a, n), S::from_u128_s(3960), n),
                        n,
                    ),
                    mscale_s(a4_s(a, n), S::from_u128_s(2162160), n),
                    n,
                ),
                mscale_s(a2_s(a, n), S::from_u128_s(302702400), n),
                n,
            ),
            mscale_s(mident_s(n), S::from_u128_s(8821612800), n),
            n,
        ),
        n,
    )
}

/// Denominator of the degree-9 Padé approximant.
pub open spec fn pade9_v_s<S: ScalarField>(a: Seq<S>, n: int) -> Seq<S> {
    madd_s(
        madd_s(
            madd_s(
                madd_s(
                    mscale_s(a8_s(a, n), S::from_u128_s(90), n),
                    mscale_s(a6_s(a, n), S::from_u128_s(110880), n),
                    n,
                ),
                mscale_s(a4_s(a, n), S::from_u128_s(30270240), n),
                n,
            ),
            mscale_s(a2_s(a, n), S::from_u128_s(2075673600), n),
            n,
        ),
        mscale_s(mident_s(n), S::from_u128_s(17643225600), n),
        n,
    )
}

/// `2^-s`, as the field computes it.
pub open spec fn pow2_neg_s<S: ScalarField>(s: int) -> S {
    S::powf_s(S::from_u128_s(2), S::neg_s(S::from_u128_s(s as u128)))
}

/// `2^-(k*s)`, as the field computes it.
pub open spec fn pow2_neg_mul_s<S: ScalarField>(k: int, s: int) -> S {
    S::powf_s(S::from_u128_s(2), S::neg_s(S::mul_s(S::from_u128_s(k as u128), S::from_u128_s(s as u128))))
}

/// The scaled matrix `B = A * 2^-s` of the degree-13 construction.
pub open spec fn mb_s<S: ScalarField>(a: Seq<S>, n: int, s: int) -> Seq<S> {
    mscale_s(a, pow2_neg_s::<S>(s), n)
}

/// `B^2`, obtained by rescaling the cached `A^2`.
pub open spec fn mb2_s<S: ScalarField>(a: Seq<S>, n: int, s: int) -> Seq<S> {
    mscale_s(a2_s(a, n), pow2_neg_mul_s::<S>(2, s), n)
}

/// `B^4`, obtained by rescaling the cached `A^4`.
pub open spec fn mb4_s<S: ScalarField>(a: Seq<S>, n: int, s: int) -> Seq<S> {
    mscale_s(a4_s(a, n), pow2_neg_mul_s::<S>(4, s), n)
}

/// `B^6`, obtained by rescaling the cached `A^6`.
pub open spec fn mb6_s<S: ScalarField>(a: Seq<S>, n: int, s: int) -> Seq<S> {
    mscale_s(a6_s(a, n), pow2_neg_mul_s::<S>(6, s), n)
}

/// Numerator of the scaled degree-13 Padé approximant, with
/// `b = [64764752532480000, 32382376266240000, 7771770303897600,
/// 1187353796428800, 129060195264000, 10559470521600, 670442572800,
/// 33522128640, 1323241920, 40840800, 960960, 16380, 182, 1]`:
/// `U2 = B^6 * (B^6*b13 + B^4*b11 + B^2*b9)`,
/// `U = B * (U2 + B^6*b7 + B^4*b5 + B^2*b3 + I*b1)`.
pub open spec fn pade13_u_s<S: ScalarField>(a: Seq<S>, n: int, s: int) -> Seq<S> {
    let mb = mb_s(a, n, s);
    let mb2 = mb2_s(a, n, s);
    let mb4 = mb4_s(a, n, s);
    let mb6 = mb6_s(a, n, s);
    let u2 = mmul_s(
        mb6,
        madd_s(
            madd_s(
                mscale_s(mb6, S::from_u128_s(1), n),
                mscale_s(mb4, S::from_u128_s(16380), n),
                n,
            ),
            mscale_s(mb2, S::from_u128_s(40840800), n),
            n,
        ),
        n,
    );
    mmul_s(
        mb,
        madd_s(
            madd_s(
                madd_s(
                    madd_s(u2, mscale_s(mb6, S::from_u128_s(33522128640), n), n),
                    mscale_s(mb4, S::from_u128_s(10559470521600), n),
                    n,
                ),
                mscale_s(mb2, S::from_u128_s(1187353796428800), n),
                n,
            ),
            mscale_s(mident_s(n), S::from_u128_s(32382376266240000), n),
            n,
        ),
        n,
    )
}

/// Denominator of the scaled degree-13 Padé approximant:
/// `V2 = B^6 * (B^6*b12 + B^4*b10 + B^2*b8)`,
/// `V = V2 + B^6*b6 + B^4*b4 + B^2*b2 + I*b0`.
pub open spec fn pade13_v_s<S: ScalarField>(a: Seq<S>, n: int, s: int) -> Seq<S> {
    let mb2 = mb2_s(a, n, s);
    let mb4 = mb4_s(a, n, s);
    let mb6 = mb6_s(a, n, s);
    let v2 = mmul_s(
        mb6,
        madd_s(
            madd_s(
                mscale_s(mb6, S::from_u128_s(182), n),
                mscale_s(mb4, S::from_u128_s(960960), n),
                n,
            ),
            mscale_s(mb2, S::from_u128_s(1323241920), n),
            n,
        ),
        n,
    );
    madd_s(
        madd_s(
            madd_s(
                madd_s(v2, mscale_s(mb6, S::from_u128_s(670442572800), n), n),
                mscale_s(mb4, S::from_u128_s(129060195264000), n),
                n,
            ),
            mscale_s(mb2, S::from_u128_s(7771770303897600), n),
            n,
        ),
        mscale_s(mident_s(n), S::from_u128_s(64764752532480000), n),
        n,
    )
}

/// The memoizing helper of one top-level exponential call: the input
/// matrix `a`, an identity of the same shape, and ten lazily filled
/// cache slots, each computed at most once and never invalidated.
pub struct ExpmPadeHelper<S: ScalarField> {
    /// Whether the loose norm accessors must delegate to the tight ones.
    pub use_exact_norm: bool,
    /// The identity matrix of the input's dimension.
    pub ident: MatrixN<S>,
    /// The input matrix.
    pub a: MatrixN<S>,
    /// Cached `a^2`.
    pub a2: Option<MatrixN<S>>,
    /// Cached `a^4`.
    pub a4: Option<MatrixN<S>>,
    /// Cached `a^6`.
    pub a6: Option<MatrixN<S>>,
    /// Cached `a^8`.
    pub a8: Option<MatrixN<S>>,
    /// Cached `a^10`.
    pub a10: Option<MatrixN<S>>,
    /// Exact slot of `one_norm(a^4)^(1/4)`.
    pub d4_exact: Option<S>,
    /// Exact slot of `one_norm(a^6)^(1/6)`.
    pub d6_exact: Option<S>,
    /// Exact slot of `one_norm(a^8)^(1/8)`.
    pub d8_exact: Option<S>,
    /// Exact slot of `one_norm(a^10)^(1/10)`.
    pub d10_exact: Option<S>,
    /// Approximate slot of the degree-4 quantity; holds the same value
    /// as the exact slot when filled.
    pub d4_approx: Option<S>,
    /// Approximate slot of the degree-6 quantity.
    pub d6_approx: Option<S>,
    /// Approximate slot of the degree-8 quantity.
    pub d8_approx: Option<S>,
    /// Approximate slot of the degree-10 quantity.
    pub d10_approx: Option<S>,
}

impl<S: ScalarField> ExpmPadeHelper<S> {
    /// Well-formedness: the identity matches the input's shape, and
    /// every filled cache slot holds exactly the quantity its
    /// specification function gives.
    pub open spec fn inv(self) -> bool {
        let a = self.a.data@;
        let n = self.a.n as int;
        &&& self.a.wf()
        &&& self.ident.wf()
        &&& self.ident.n == self.a.n
        &&& self.ident.data@ == mident_s::<S>(n)
        &&& (self.a2 matches Some(m) ==> m.wf() && m.n == self.a.n && m.data@ == a2_s(a, n))
        &&& (self.a4 matches Some(m) ==> m.wf() && m.n == self.a.n && m.data@ == a4_s(a, n))
        &&& (self.a6 matches Some(m) ==> m.wf() && m.n == self.a.n && m.data@ == a6_s(a, n))
        &&& (self.a8 matches Some(m) ==> m.wf() && m.n == self.a.n && m.data@ == a8_s(a, n))
        &&& (self.a10 matches Some(m) ==> m.wf() && m.n == self.a.n && m.data@ == a10_s(a, n))
        &&& (self.d4_exact matches Some(v) ==> v == d4_s::<S>(a, n))
        &&& (self.d6_exact matches Some(v) ==> v == d6_s::<S>(a, n))
        &&& (self.d8_exact matches Some(v) ==> v == d8_s::<S>(a, n))
        &&& (self.d10_exact matches Some(v) ==> v == d10_s::<S>(a, n))
        &&& (self.d4_approx matches Some(v) ==> v == d4_s::<S>(a, n))
        &&& (self.d6_approx matches Some(v) ==> v == d6_s::<S>(a, n))
        &&& (self.d8_approx matches Some(v) ==> v == d8_s::<S>(a, n))
        &&& (self.d10_approx matches Some(v) ==> v == d10_s::<S>(a, n))
        &&& (self.a4 is Some ==> self.a2 is Some)
        &&& (self.a6 is Some ==> self.a4 is Some)
        &&& (self.a8 is Some ==> self.a6 is Some)
        &&& (self.a10 is Some ==> self.a6 is Some && self.a4 is Some)
    }

    /// How one helper state extends another: same input, same flag,
    /// same identity, and no filled cache slot forgotten or changed.
    pub open spec fn grows(h1: Self, h2: Self) -> bool {
        &&& h2.a == h1.a
        &&& h2.use_exact_norm == h1.use_exact_norm
        &&& h2.ident == h1.ident
        &&& (h1.a2 is Some ==> h2.a2 == h1.a2)
        &&& (h1.a4 is Some ==> h2.a4 == h1.a4)
        &&& (h1.a6 is Some ==> h2.a6 == h1.a6)
        &&& (h1.a8 is Some ==> h2.a8 == h1.a8)
        &&& (h1.a10 is Some ==> h2.a10 == h1.a10)
        &&& (h1.d4_exact is Some ==> h2.d4_exact == h1.d4_exact)
        &&& (h1.d6_exact is Some ==> h2.d6_exact == h1.d6_exact)
        &&& (h1.d8_exact is Some ==> h2.d8_exact == h1.d8_exact)
        &&& (h1.d10_exact is Some ==> h2.d10_exact == h1.d10_exact)
        &&& (h1.d4_approx is Some ==> h2.d4_approx == h1.d4_approx)
        &&& (h1.d6_approx is Some ==> h2.d6_approx == h1.d6_approx)
        &&& (h1.d8_approx is Some ==> h2.d8_approx == h1.d8_approx)
        &&& (h1.d10_approx is Some ==> h2.d10_approx == h1.d10_approx)
    }

    /// A fresh helper over `a`, with every cache slot empty.
    pub fn new(a: MatrixN<S>, use_exact_norm: bool) -> (r: Self)
        requires
            a.wf(),
        ensures
            r.inv(),
            r.a == a,
            r.use_exact_norm == use_exact_norm,
            r.a2 is None,
            r.a4 is None,
            r.a6 is None,
            r.a8 is None,
            r.a10 is None,
            r.d4_exact is None,
            r.d6_exact is None,
            r.d8_exact is None,
            r.d10_exact is None,
            r.d4_approx is None,
            r.d6_approx is None,
            r.d8_approx is None,
            r.d10_approx is None,
    {
        let n = a.n;
        let _l: usize = a.data.len();
        ExpmPadeHelper {
            use_exact_norm,
            ident: MatrixN::identity(n),
            a,
            a2: None,
            a4: None,
            a6: None,
            a8: None,
            a10: None,
            d4_exact: None,
            d6_exact: None,
            d8_exact: None,
            d10_exact: None,
            d4_approx: None,
            d6_approx: None,
            d8_approx: None,
            d10_approx: None,
        }
    }

    /// Fills the `a^2` slot if it is empty.
    pub fn calc_a2(&mut self)
        requires
            old(self).inv(),
        ensures
            final(self).inv(),
            Self::grows(*old(self), *final(self)),
            final(self).a2 is Some,
            final(self).a4 == old(self).a4,
            final(self).a6 == old(self).a6,
            final(self).a8 == old(self).a8,
            final(self).a10 == old(self).a10,
            final(self).d4_exact == old(self).d4_exact,
            final(self).d6_exact == old(self).d6_exact,
            final(self).d8_exact == old(self).d8_exact,
            final(self).d10_exact == old(self).d10_exact,
            final(self).d4_approx == old(self).d4_approx,
            final(self).d6_approx == old(self).d6_approx,
            final(self).d8_approx == old(self).d8_approx,
            final(self).d10_approx == old(self).d10_approx,
    {
        if self.a2.is_none() {
            let m = self.a.mat_mul(&self.a);
            self.a2 = Some(m);
        }
    }

    /// Fills the `a^4` slot if it is empty, as the square of `a^2`.
    pub fn calc_a4(&mut self)
        requires
            old(self).inv(),
        ensures
            final(self).inv(),
            Self::grows(*old(self), *final(self)),
            final(self).a2 is Some,
            final(self).a4 is Some,
            final(self).a6 == old(self).a6,
            final(self).a8 == old(self).a8,
            final(self).a10 == old(self).a10,
            final(self).d4_exact == old(self).d4_exact,
            final(self).d6_exact == old(self).d6_exact,
            final(self).d8_exact == old(self).d8_exact,
            final(self).d10_exact == old(self).d10_exact,
            final(self).d4_approx == old(self).d4_approx,
            final(self).d6_approx == old(self).d6_approx,
            final(self).d8_approx == old(self).d8_approx,
            final(self).d10_approx == old(self).d10_approx,
    {
        if self.a4.is_none() {
            self.calc_a2();
            match &self.a2 {
                Some(a2m) => {
                    let m = a2m.mat_mul(a2m);
                    self.a4 = Some(m);
                },
                None => {
                    proof {
                        assert(false);
                    }
                },
            }
        }
    }

    /// Fills the `a^6` slot if it is empty, as `a^4 * a^2`.
    pub fn calc_a6(&mut self)
        requires
            old(self).inv(),
        ensures
            final(self).inv(),
            Self::grows(*old(self), *final(self)),
            final(self).a2 is Some,
            final(self).a4 is Some,
            final(self).a6 is Some,
            final(self).a8 == old(self).a8,
            final(self).a10 == old(self).a10,
            final(self).d4_exact == old(self).d4_exact,
            final(self).d6_exact == old(self).d6_exact,
            final(self).d8_exact == old(self).d8_exact,
            final(self).d10_exact == old(self).d10_exact,
            final(self).d4_approx == old(self).d4_approx,
            final(self).d6_approx == old(self).d6_approx,
            final(self).d8_approx == old(self).d8_approx,
            final(self).d10_approx == old(self).d10_approx,
    {
        if self.a6.is_none() {
            self.calc_a2();
            self.calc_a4();
            match (&self.a2, &self.a4) {
                (Some(a2m), Some(a4m)) => {
                    let m = a4m.mat_mul(a2m);
                    self.a6 = Some(m);
                },
                _ => {
                    proof {
                        assert(false);
                    }
                },
            }
        }
    }

    /// Fills the `a^8` slot if it is empty, as `a^6 * a^2`.
    pub fn calc_a8(&mut self)
        requires
            old(self).inv(),
        ensures
            final(self).inv(),
            Self::grows(*old(self), *final(self)),
            final(self).a2 is Some,
            final(self).a6 is Some,
            final(self).a8 is Some,
            final(self).a10 == old(self).a10,
            final(self).d4_exact == old(self).d4_exact,
            final(self).d6_exact == old(self).d6_exact,
            final(self).d8_exact == old(self).d8_exact,
            final(self).d10_exact == old(self).d10_exact,
            final(self).d4_approx == old(self).d4_approx,
            final(self).d6_approx == old(self).d6_approx,
            final(self).d8_approx == old(self).d8_approx,
            final(self).d10_approx == old(self).d10_approx,
    {
        if self.a8.is_none() {
            self.calc_a2();
            self.calc_a6();
            match (&self.a2, &self.a6) {
                (Some(a2m), Some(a6m)) => {
                    let m = a6m.mat_mul(a2m);
                    self.a8 = Some(m);
                },
                _ => {
                    proof {
                        assert(false);
                    }
                },
            }
        }
    }

    /// Fills the `a^10` slot if it is empty, as `a^6 * a^4`.
    pub fn calc_a10(&mut self)
        requires
            old(self).inv(),
        ensures
            final(self).inv(),
            Self::grows(*old(self), *final(self)),
            final(self).a4 is Some,
            final(self).a6 is Some,
            final(self).a10 is Some,
            final(self).a8 == old(self).a8,
            final(self).d4_exact == old(self).d4_exact,
            final(self).d6_exact == old(self).d6_exact,
            final(self).d8_exact == old(self).d8_exact,
            final(self).d10_exact == old(self).d10_exact,
            final(self).d4_approx == old(self).d4_approx,
            final(self).d6_approx == old(self).d6_approx,
            final(self).d8_approx == old(self).d8_approx,
            final(self).d10_approx == old(self).d10_approx,
    {
        if self.a10.is_none() {
            self.calc_a4();
            self.calc_a6();
            match (&self.a4, &self.a6) {
                (Some(a4m), Some(a6m)) => {
                    let m = a6m.mat_mul(a4m);
                    self.a10 = Some(m);
                },
                _ => {
                    proof {
                        assert(false);
                    }
                },
            }
        }
    }

    /// `one_norm(a^4)^(1/4)`, always through the exact slot.
    pub fn d4_tight(&mut self) -> (r: S)
        requires
            old(self).inv(),
        ensures
            final(self).inv(),
            Self::grows(*old(self), *final(self)),
            final(self).d4_exact is Some,
            final(self).d4_approx == old(self).d4_approx,
            final(self).d6_exact == old(self).d6_exact,
            final(self).d6_approx == old(self).d6_approx,
            final(self).d8_exact == old(self).d8_exact,
            final(self).d8_approx == old(self).d8_approx,
            final(self).d10_exact == old(self).d10_exact,
            final(self).d10_approx == old(self).d10_approx,
            old(self).d4_exact is Some ==> *final(self) == *old(self),
            old(self).d4_exact is None ==> final(self).a4 is Some,
            r == d4_s::<S>(old(self).a.data@, old(self).a.n as int),
    {
        if self.d4_exact.is_none() {
            self.calc_a4();
            let nv = match &self.a4 {
                Some(m) => S::powf(one_norm(m), S::divide(S::one(), S::from_u64(4))),
                None => {
                    proof {
                        assert(false);
                    }
                    S::zero()
                },
            };
            self.d4_exact = Some(nv);
        }
        self.d4_exact.unwrap()
    }

    /// `one_norm(a^6)^(1/6)`, always through the exact slot.
    pub fn d6_tight(&mut self) -> (r: S)
        requires
            old(self).inv(),
        ensures
            final(self).inv(),
            Self::grows(*old(self), *final(self)),
            final(self).d6_exact is Some,
            final(self).d6_approx == old(self).d6_approx,
            final(self).d4_exact == old(self).d4_exact,
            final(self).d4_approx == old(self).d4_approx,
            final(self).d8_exact == old(self).d8_exact,
            final(self).d8_approx == old(self).d8_approx,
            final(self).d10_exact == old(self).d10_exact,
            final(self).d10_approx == old(self).d10_approx,
            old(self).d6_exact is Some ==> *final(self) == *old(self),
            old(self).d6_exact is None ==> final(self).a6 is Some,
            r == d6_s::<S>(old(self).a.data@, old(self).a.n as int),
    {
        if self.d6_exact.is_none() {
            self.calc_a6();
            let nv = match &self.a6 {
                Some(m) => S::powf(one_norm(m), S::divide(S::one(), S::from_u64(6))),
                None => {
                    proof {
                        assert(false);
                    }
                    S::zero()
                },
            };
            self.d6_exact = Some(nv);
        }
        self.d6_exact.unwrap()
    }

    /// `one_norm(a^8)^(1/8)`, always through the exact slot.
    pub fn d8_tight(&mut self) -> (r: S)
        requires
            old(self).inv(),
        ensures
            final(self).inv(),
            Self::grows(*old(self), *final(self)),
            final(self).d8_exact is Some,
            final(self).d8_approx == old(self).d8_approx,
            final(self).d4_exact == old(self).d4_exact,
            final(self).d4_approx == old(self).d4_approx,
            final(self).d6_exact == old(self).d6_exact,
            final(self).d6_approx == old(self).d6_approx,
            final(self).d10_exact == old(self).d10_exact,
            final(self).d10_approx == old(self).d10_approx,
            old(self).d8_exact is Some ==> *final(self) == *old(self),
            old(self).d8_exact is None ==> final(self).a8 is Some,
            r == d8_s::<S>(old(self).a.data@, old(self).a.n as int),
    {
        if self.d8_exact.is_none() {
            self.calc_a8();
            let nv = match &self.a8 {
                Some(m) => S::powf(one_norm(m), S::divide(S::one(), S::from_u64(8))),
                None => {
                    proof {
                        assert(false);
                    }
                    S::zero()
                },
            };
            self.d8_exact = Some(nv);
        }
        self.d8_exact.unwrap()
    }

    /// `one_norm(a^10)^(1/10)`, always through the exact slot.
    pub fn d10_tight(&mut self) -> (r: S)
        requires
            old(self).inv(),
        ensures
            final(self).inv(),
            Self::grows(*old(self), *final(self)),
            final(self).d10_exact is Some,
            final(self).d10_approx == old(self).d10_approx,
            final(self).d4_exact == old(self).d4_exact,
            final(self).d4_approx == old(self).d4_approx,
            final(self).d6_exact == old(self).d6_exact,
            final(self).d6_approx == old(self).d6_approx,
            final(self).d8_exact == old(self).d8_exact,
            final(self).d8_approx == old(self).d8_approx,
            old(self).d10_exact is Some ==> *final(self) == *old(self),
            old(self).d10_exact is None ==> final(self).a10 is Some,
            r == d10_s::<S>(old(self).a.data@, old(self).a.n as int),
    {
        if self.d10_exact.is_none() {
            self.calc_a10();
            let nv = match &self.a10 {
                Some(m) => S::powf(one_norm(m), S::divide(S::one(), S::from_u64(10))),
                None => {
                    proof {
                        assert(false);
                    }
                    S::zero()
                },
            };
            self.d10_exact = Some(nv);
        }
        self.d10_exact.unwrap()
    }

    /// The degree-4 norm quantity through the loose path: delegates to
    /// the tight accessor when exact norms are demanded, reuses the
    /// exact slot when already filled, and otherwise fills the separate
    /// approximate slot with the identical formula — so it returns the
    /// same quantity on every path.
    pub fn d4_loose(&mut self) -> (r: S)
        requires
            old(self).inv(),
        ensures
            final(self).inv(),
            Self::grows(*old(self), *final(self)),
            old(self).use_exact_norm ==> final(self).d4_exact is Some && final(self).d4_approx
                == old(self).d4_approx,
            !old(self).use_exact_norm ==> final(self).d4_exact == old(self).d4_exact,
            !old(self).use_exact_norm && (old(self).d4_exact is Some || old(self).d4_approx
                is Some) ==> *final(self) == *old(self),
            !old(self).use_exact_norm && old(self).d4_exact is None ==> final(self).d4_approx
                is Some,
            !old(self).use_exact_norm && old(self).d4_exact is None && old(self).d4_approx
                is None ==> final(self).a4 is Some,
            final(self).d6_exact == old(self).d6_exact,
            final(self).d6_approx == old(self).d6_approx,
            final(self).d8_exact == old(self).d8_exact,
            final(self).d8_approx == old(self).d8_approx,
            final(self).d10_exact == old(self).d10_exact,
            final(self).d10_approx == old(self).d10_approx,
            r == d4_s::<S>(old(self).a.data@, old(self).a.n as int),
    {
        if self.use_exact_norm {
            return self.d4_tight();
        }
        if self.d4_exact.is_some() {
            return self.d4_exact.unwrap();
        }
        if self.d4_approx.is_none() {
            self.calc_a4();
            let nv = match &self.a4 {
                Some(m) => S::powf(one_norm(m), S::divide(S::one(), S::from_u64(4))),
                None => {
                    proof {
                        assert(false);
                    }
                    S::zero()
                },
            };
            self.d4_approx = Some(nv);
        }
        self.d4_approx.unwrap()
    }

    /// The degree-6 norm quantity through the loose path.
    pub fn d6_loose(&mut self) -> (r: S)
        requires
            old(self).inv(),
        ensures
            final(self).inv(),
            Self::grows(*old(self), *final(self)),
            old(self).use_exact_norm ==> final(self).d6_exact is Some && final(self).d6_approx
                == old(self).d6_approx,
            !old(self).use_exact_norm ==> final(self).d6_exact == old(self).d6_exact,
            !old(self).use_exact_norm && (old(self).d6_exact is Some || old(self).d6_approx
                is Some) ==> *final(self) == *old(self),
            !old(self).use_exact_norm && old(self).d6_exact is None ==> final(self).d6_approx
                is Some,
            !old(self).use_exact_norm && old(self).d6_exact is None && old(self).d6_approx
                is None ==> final(self).a6 is Some,
            final(self).d4_exact == old(self).d4_exact,
            final(self).d4_approx == old(self).d4_approx,
            final(self).d8_exact == old(self).d8_exact,
            final(self).d8_approx == old(self).d8_approx,
            final(self).d10_exact == old(self).d10_exact,
            final(self).d10_approx == old(self).d10_approx,
            r == d6_s::<S>(old(self).a.data@, old(self).a.n as int),
    {
        if self.use_exact_norm {
            return self.d6_tight();
        }
        if self.d6_exact.is_some() {
            return self.d6_exact.unwrap();
        }
        if self.d6_approx.is_none() {
            self.calc_a6();
            let nv = match &self.a6 {
                Some(m) => S::powf(one_norm(m), S::divide(S::one(), S::from_u64(6))),
                None => {
                    proof {
                        assert(false);
                    }
                    S::zero()
                },
            };
            self.d6_approx = Some(nv);
        }
        self.d6_approx.unwrap()
    }

    /// The degree-8 norm quantity through the loose path.
    pub fn d8_loose(&mut self) -> (r: S)
        requires
            old(self).inv(),
        ensures
            final(self).inv(),
            Self::grows(*old(self), *final(self)),
            old(self).use_exact_norm ==> final(self).d8_exact is Some && final(self).d8_approx
                == old(self).d8_approx,
            !old(self).use_exact_norm ==> final(self).d8_exact == old(self).d8_exact,
            !old(self).use_exact_norm && (old(self).d8_exact is Some || old(self).d8_approx
                is Some) ==> *final(self) == *old(self),
            !old(self).use_exact_norm && old(self).d8_exact is None ==> final(self).d8_approx
                is Some,
            !old(self).use_exact_norm && old(self).d8_exact is None && old(self).d8_approx
                is None ==> final(self).a8 is Some,
            final(self).d4_exact == old(self).d4_exact,
            final(self).d4_approx == old(self).d4_approx,
            final(self).d6_exact == old(self).d6_exact,
            final(self).d6_approx == old(self).d6_approx,
            final(self).d10_exact == old(self).d10_exact,
            final(self).d10_approx == old(self).d10_approx,
            r == d8_s::<S>(old(self).a.data@, old(self).a.n as int),
    {
        if self.use_exact_norm {
            return self.d8_tight();
        }
        if self.d8_exact.is_some() {
            return self.d8_exact.unwrap();
        }
        if self.d8_approx.is_none() {
            self.calc_a8();
            let nv = match &self.a8 {
                Some(m) => S::powf(one_norm(m), S::divide(S::one(), S::from_u64(8))),
                None => {
                    proof {
                        assert(false);
                    }
                    S::zero()
                },
            };
            self.d8_approx = Some(nv);
        }
        self.d8_approx.unwrap()
    }

    /// The degree-10 norm quantity through the loose path.
    pub fn d10_loose(&mut self) -> (r: S)
        requires
            old(self).inv(),
        ensures
            final(self).inv(),
            Self::grows(*old(self), *final(self)),
            old(self).use_exact_norm ==> final(self).d10_exact is Some && final(self).d10_approx
                == old(self).d10_approx,
            !old(self).use_exact_norm ==> final(self).d10_exact == old(self).d10_exact,
            !old(self).use_exact_norm && (old(self).d10_exact is Some || old(self).d10_approx
                is Some) ==> *final(self) == *old(self),
            !old(self).use_exact_norm && old(self).d10_exact is None ==> final(self).d10_approx
                is Some,
            !old(self).use_exact_norm && old(self).d10_exact is None && old(self).d10_approx
                is None ==> final(self).a10 is Some,
            final(self).d4_exact == old(self).d4_exact,
            final(self).d4_approx == old(self).d4_approx,
            final(self).d6_exact == old(self).d6_exact,
            final(self).d6_approx == old(self).d6_approx,
            final(self).d8_exact == old(self).d8_exact,
            final(self).d8_approx == old(self).d8_approx,
            r == d10_s::<S>(old(self).a.data@, old(self).a.n as int),
    {
        if self.use_exact_norm {
            return self.d10_tight();
        }
        if self.d10_exact.is_some() {
            return self.d10_exact.unwrap();
        }
        if self.d10_approx.is_none() {
            self.calc_a10();
            let nv = match &self.a10 {
                Some(m) => S::powf(one_norm(m), S::divide(S::one(), S::from_u64(10))),
                None => {
                    proof {
                        assert(false);
                    }
                    S::zero()
                },
            };
            self.d10_approx = Some(nv);
        }
        self.d10_approx.unwrap()
    }

    /// The degree-3 Padé pair `(U, V)`.
    pub fn pade3(&mut self) -> (r: (MatrixN<S>, MatrixN<S>))
        requires
            old(self).inv(),
        ensures
            final(self).inv(),
            Self::grows(*old(self), *final(self)),
            r.0.wf() && r.0.n == old(self).a.n,
            r.1.wf() && r.1.n == old(self).a.n,
            r.0.data@ == pade3_u_s(old(self).a.data@, old(self).a.n as int),
            r.1.data@ == pade3_v_s(old(self).a.data@, old(self).a.n as int),
    {
        self.calc_a2();
        match &self.a2 {
            Some(a2m) => {
                let u = self.a.mat_mul(
                    &a2m.scale(S::from_u64(1)).mat_add(&self.ident.scale(S::from_u64(60))),
                );
                let v = a2m.scale(S::from_u64(12)).mat_add(&self.ident.scale(S::from_u64(120)));
                (u, v)
            },
            None => {
                proof {
                    assert(false);
                }
                (self.a.duplicate(), self.a.duplicate())
            },
        }
    }

    /// The degree-5 Padé pair `(U, V)`.
    pub fn pade5(&mut self) -> (r: (MatrixN<S>, MatrixN<S>))
        requires
            old(self).inv(),
        ensures
            final(self).inv(),
            Self::grows(*old(self), *final(self)),
            r.0.wf() && r.0.n == old(self).a.n,
            r.1.wf() && r.1.n == old(self).a.n,
            r.0.data@ == pade5_u_s(old(self).a.data@, old(self).a.n as int),
            r.1.data@ == pade5_v_s(old(self).a.data@, old(self).a.n as int),
    {
        self.calc_a2();
        self.calc_a6();
        match (&self.a2, &self.a4) {
            (Some(a2m), Some(a4m)) => {
                let u = self.a.mat_mul(
                    &a4m.scale(S::from_u64(1)).mat_add(&a2m.scale(S::from_u64(420))).mat_add(
                        &self.ident.scale(S::from_u64(15120)),
                    ),
                );
                let v = a4m.scale(S::from_u64(30)).mat_add(&a2m.scale(S::from_u64(3360))).mat_add(
                    &self.ident.scale(S::from_u64(30240)),
                );
                (u, v)
            },
            _ => {
                proof {
                    assert(false);
                }
                (self.a.duplicate(), self.a.duplicate())
            },
        }
    }

    /// The degree-7 Padé pair `(U, V)`.
    pub fn pade7(&mut self) -> (r: (MatrixN<S>, MatrixN<S>))
        requires
            old(self).inv(),
        ensures
            final(self).inv(),
            Self::grows(*old(self), *final(self)),
            r.0.wf() && r.0.n == old(self).a.n,
            r.1.wf() && r.1.n == old(self).a.n,
            r.0.data@ == pade7_u_s(old(self).a.data@, old(self).a.n as int),
            r.1.data@ == pade7_v_s(old(self).a.data@, old(self).a.n as int),
    {
        self.calc_a2();
        self.calc_a4();
        self.calc_a6();
        match (&self.a2, &self.a4, &self.a6) {
            (Some(a2m), Some(a4m), Some(a6m)) => {
                let u = self.a.mat_mul(
                    &a6m.scale(S::from_u64(1)).mat_add(&a4m.scale(S::from_u64(1512))).mat_add(
                        &a2m.scale(S::from_u64(277200)),
                    ).mat_add(&self.ident.scale(S::from_u64(8648640))),
                );
                let v = a6m.scale(S::from_u64(56)).mat_add(&a4m.scale(S::from_u64(25200))).mat_add(
                    &a2m.scale(S::from_u64(1995840)),
                ).mat_add(&self.ident.scale(S::from_u64(17297280)));
                (u, v)
            },
            _ => {
                proof {
                    assert(false);
                }
                (self.a.duplicate(), self.a.duplicate())
            },
        }
    }

    /// The degree-9 Padé pair `(U, V)`.
    pub fn pade9(&mut self) -> (r: (MatrixN<S>, MatrixN<S>))
        requires
            old(self).inv(),
        ensures
            final(self).inv(),
            Self::grows(*old(self), *final(self)),
            r.0.wf() && r.0.n == old(self).a.n,
            r.1.wf() && r.1.n == old(self).a.n,
            r.0.data@ == pade9_u_s(old(self).a.data@, old(self).a.n as int),
            r.1.data@ == pade9_v_s(old(self).a.data@, old(self).a.n as int),
    {
        self.calc_a2();
        self.calc_a4();
        self.calc_a6();
        self.calc_a8();
        match (&self.a2, &self.a4, &self.a6, &self.a8) {
            (Some(a2m), Some(a4m), Some(a6m), Some(a8m)) => {
                let u = self.a.mat_mul(
                    &a8m.scale(S::from_u64(1)).mat_add(&a6m.scale(S::from_u64(3960))).mat_add(
                        &a4m.scale(S::from_u64(2162160)),
                    ).mat_add(&a2m.scale(S::from_u64(302702400))).mat_add(
                        &self.ident.scale(S::from_u64(8821612800)),
                    ),
                );
                let v = a8m.scale(S::from_u64(90)).mat_add(&a6m.scale(S::from_u64(110880))).mat_add(
                    &a4m.scale(S::from_u64(30270240)),
                ).mat_add(&a2m.scale(S::from_u64(2075673600))).mat_add(
                    &self.ident.scale(S::from_u64(17643225600)),
                );
                (u, v)
            },
            _ => {
                proof {
                    assert(false);
                }
                (self.a.duplicate(), self.a.duplicate())
            },
        }
    }

    /// The scaled degree-13 Padé pair `(U, V)`, built against
    /// `B = A * 2^-s` with `B^2`, `B^4`, `B^6` obtained by rescaling the
    /// cached powers of `A`.
    pub fn pade13_scaled(&mut self, s: u64) -> (r: (MatrixN<S>, MatrixN<S>))
        requires
            old(self).inv(),
        ensures
            final(self).inv(),
            Self::grows(*old(self), *final(self)),
            r.0.wf() && r.0.n == old(self).a.n,
            r.1.wf() && r.1.n == old(self).a.n,
            r.0.data@ == pade13_u_s(old(self).a.data@, old(self).a.n as int, s as int),
            r.1.data@ == pade13_v_s(old(self).a.data@, old(self).a.n as int, s as int),
    {
        let sf = S::from_u64(s);
        let mb = self.a.scale(S::powf(S::from_u64(2), S::negate(sf)));
        self.calc_a2();
        self.calc_a4();
        self.calc_a6();
        match (&self.a2, &self.a4, &self.a6) {
            (Some(a2m), Some(a4m), Some(a6m)) => {
                let mb2 = a2m.scale(
                    S::powf(S::from_u64(2), S::negate(S::times(S::from_u64(2), sf))),
                );
                let mb4 = a4m.scale(
                    S::powf(S::from_u64(2), S::negate(S::times(S::from_u64(4), sf))),
                );
                let mb6 = a6m.scale(
                    S::powf(S::from_u64(2), S::negate(S::times(S::from_u64(6), sf))),
                );
                let u2 = mb6.mat_mul(
                    &mb6.scale(S::from_u64(1)).mat_add(&mb4.scale(S::from_u64(16380))).mat_add(
                        &mb2.scale(S::from_u64(40840800)),
                    ),
                );
                let u = mb.mat_mul(
                    &u2.mat_add(&mb6.scale(S::from_u64(33522128640))).mat_add(
                        &mb4.scale(S::from_u64(10559470521600)),
                    ).mat_add(&mb2.scale(S::from_u64(1187353796428800))).mat_add(
                        &self.ident.scale(S::from_u64(32382376266240000)),
                    ),
                );
                let v2 = mb6.mat_mul(
                    &mb6.scale(S::from_u64(182)).mat_add(&mb4.scale(S::from_u64(960960))).mat_add(
                        &mb2.scale(S::from_u64(1323241920)),
                    ),
                );
                let v = v2.mat_add(&mb6.scale(S::from_u64(670442572800))).mat_add(
                    &mb4.scale(S::from_u64(129060195264000)),
                ).mat_add(&mb2.scale(S::from_u64(7771770303897600))).mat_add(
                    &self.ident.scale(S::from_u64(64764752532480000)),
                );
                (u, v)
            },
            _ => {
                proof {
                    assert(false);
                }
                (self.a.duplicate(), self.a.duplicate())
            },
        }
    }
}

} // verus!
