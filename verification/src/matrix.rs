//! Fixed-dimension linear algebra for the per-peer filter: 2-vectors and
//! 2x2 matrices over saturating 32.32 fixed-point scalars.

use vstd::prelude::*;
use crate::fixed::{
    clamp128, div_floor_128, fadd, fdiv, fmul, fsub, isqrt128, lemma_isqrt_unique,
    lemma_s_isqrt_bounds, s_add, s_div, s_isqrt, s_mul, s_sub, MAX_VALUE,
};

verus! {

/// A 2-vector `[offset, frequency]` of fixed-point scalars.
#[derive(Clone, Copy, Debug, PartialEq, Eq, Structural)]
pub struct Vector {
    pub e0: i64,
    pub e1: i64,
}

/// A 2x2 matrix of fixed-point scalars, row major.
#[derive(Clone, Copy, Debug, PartialEq, Eq, Structural)]
pub struct Matrix {
    pub e00: i64,
    pub e01: i64,
    pub e10: i64,
    pub e11: i64,
}

/// Entry-wise saturating sum of two vectors.
pub open spec fn spec_vec_plus(a: Vector, b: Vector) -> Vector {
    Vector { e0: s_add(a.e0 as int, b.e0 as int) as i64, e1: s_add(a.e1 as int, b.e1 as int) as i64 }
}

/// Entry-wise saturating difference of two vectors.
pub open spec fn spec_vec_minus(a: Vector, b: Vector) -> Vector {
    Vector { e0: s_sub(a.e0 as int, b.e0 as int) as i64, e1: s_sub(a.e1 as int, b.e1 as int) as i64 }
}

/// Entry-wise saturating sum of two matrices.
pub open spec fn spec_mat_plus(a: Matrix, b: Matrix) -> Matrix {
    Matrix {
        e00: s_add(a.e00 as int, b.e00 as int) as i64,
        e01: s_add(a.e01 as int, b.e01 as int) as i64,
        e10: s_add(a.e10 as int, b.e10 as int) as i64,
        e11: s_add(a.e11 as int, b.e11 as int) as i64,
    }
}

/// Saturating matrix product.
pub open spec fn spec_mat_times(a: Matrix, b: Matrix) -> Matrix {
    Matrix {
        e00: s_add(s_mul(a.e00 as int, b.e00 as int), s_mul(a.e01 as int, b.e10 as int)) as i64,
        e01: s_add(s_mul(a.e00 as int, b.e01 as int), s_mul(a.e01 as int, b.e11 as int)) as i64,
        e10: s_add(s_mul(a.e10 as int, b.e00 as int), s_mul(a.e11 as int, b.e10 as int)) as i64,
        e11: s_add(s_mul(a.e10 as int, b.e01 as int), s_mul(a.e11 as int, b.e11 as int)) as i64,
    }
}

/// Saturating matrix-vector product.
pub open spec fn spec_mat_times_vec(a: Matrix, v: Vector) -> Vector {
    Vector {
        e0: s_add(s_mul(a.e00 as int, v.e0 as int), s_mul(a.e01 as int, v.e1 as int)) as i64,
        e1: s_add(s_mul(a.e10 as int, v.e0 as int), s_mul(a.e11 as int, v.e1 as int)) as i64,
    }
}

/// The fixed-point determinant of `a`.
pub open spec fn spec_determinant(a: Matrix) -> int {
    s_sub(s_mul(a.e00 as int, a.e11 as int), s_mul(a.e01 as int, a.e10 as int))
}

/// The fixed-point inverse of `a`: the adjugate over the determinant.
pub open spec fn spec_inverse(a: Matrix) -> Matrix
    recommends
        spec_determinant(a) > 0,
{
    let det = spec_determinant(a);
    Matrix {
        e00: s_div(a.e11 as int, det) as i64,
        e01: s_div(-(a.e01 as int), det) as i64,
        e10: s_div(-(a.e10 as int), det) as i64,
        e11: s_div(a.e00 as int, det) as i64,
    }
}

/// A symmetric positive-semidefinite matrix: nonnegative diagonal, equal
/// off-diagonal entries, and a nonnegative raw determinant.
pub open spec fn spec_psd(a: Matrix) -> bool {
    &&& a.e00 >= 0
    &&& a.e11 >= 0
    &&& a.e01 == a.e10
    &&& (a.e01 as int) * (a.e01 as int) <= (a.e00 as int) * (a.e11 as int)
}

/// The nearest symmetric positive-semidefinite matrix the regularization
/// step produces: diagonal entries clipped to be nonnegative, off-diagonal
/// entries averaged and clipped so that the determinant cannot be negative.
pub open spec fn spec_regularize(m: Matrix) -> Matrix {
    let a = if m.e00 < 0 {
        0
    } else {
        m.e00 as int
    };
    let c = if m.e11 < 0 {
        0
    } else {
        m.e11 as int
    };
    let t = (m.e01 + m.e10) / 2;
    let limit = s_isqrt((a * c) as nat) as int;
    let b = if t > limit {
        limit
    } else if t < -limit {
        -limit
    } else {
        t
    };
    Matrix { e00: a as i64, e01: b as i64, e10: b as i64, e11: c as i64 }
}

/// Regularization always yields a symmetric positive-semidefinite matrix.
pub proof fn lemma_regularize_psd(m: Matrix)
    ensures
        spec_psd(spec_regularize(m)),
{
    let a = if m.e00 < 0 {
        0
    } else {
        m.e00 as int
    };
    let c = if m.e11 < 0 {
        0
    } else {
        m.e11 as int
    };
    let limit = s_isqrt((a * c) as nat) as int;
    lemma_s_isqrt_bounds((a * c) as nat);
    let r = spec_regularize(m);
    assert(r.e01 as int * (r.e01 as int) <= limit * limit) by (nonlinear_arith)
        requires
            -limit <= r.e01 as int <= limit,
            limit >= 0,
    ;
}

impl Vector {
    /// The vector with the given entries.
    pub fn new(e0: i64, e1: i64) -> (r: Vector)
        ensures
            r == (Vector { e0, e1 }),
    {
        Vector { e0, e1 }
    }

    /// Entry-wise saturating sum.
    pub fn plus(self, other: Vector) -> (r: Vector)
        ensures
            r == spec_vec_plus(self, other),
    {
        Vector { e0: fadd(self.e0, other.e0), e1: fadd(self.e1, other.e1) }
    }

    /// Entry-wise saturating difference.
    pub fn minus(self, other: Vector) -> (r: Vector)
        ensures
            r == spec_vec_minus(self, other),
    {
        Vector { e0: fsub(self.e0, other.e0), e1: fsub(self.e1, other.e1) }
    }
}

impl Matrix {
    /// The matrix with the given entries, row major.
    pub fn new(e00: i64, e01: i64, e10: i64, e11: i64) -> (r: Matrix)
        ensures
            r == (Matrix { e00, e01, e10, e11 }),
    {
        Matrix { e00, e01, e10, e11 }
    }

    /// Entry-wise saturating sum.
    pub fn plus(self, other: Matrix) -> (r: Matrix)
        ensures
            r == spec_mat_plus(self, other),
    {
        Matrix {
            e00: fadd(self.e00, other.e00),
            e01: fadd(self.e01, other.e01),
            e10: fadd(self.e10, other.e10),
            e11: fadd(self.e11, other.e11),
        }
    }

    /// Saturating matrix product.
    pub fn times(self, other: Matrix) -> (r: Matrix)
        ensures
            r == spec_mat_times(self, other),
    {
        Matrix {
            e00: fadd(fmul(self.e00, other.e00), fmul(self.e01, other.e10)),
            e01: fadd(fmul(self.e00, other.e01), fmul(self.e01, other.e11)),
            e10: fadd(fmul(self.e10, other.e00), fmul(self.e11, other.e10)),
            e11: fadd(fmul(self.e10, other.e01), fmul(self.e11, other.e11)),
        }
    }

    /// Saturating matrix-vector product.
    pub fn times_vec(self, v: Vector) -> (r: Vector)
        ensures
            r == spec_mat_times_vec(self, v),
    {
        Vector {
            e0: fadd(fmul(self.e00, v.e0), fmul(self.e01, v.e1)),
            e1: fadd(fmul(self.e10, v.e0), fmul(self.e11, v.e1)),
        }
    }

    /// The fixed-point determinant.
    pub fn determinant(self) -> (r: i64)
        ensures
            r == spec_determinant(self),
    {
        fsub(fmul(self.e00, self.e11), fmul(self.e01, self.e10))
    }

    /// The fixed-point inverse, for a matrix whose determinant is positive.
    pub fn inverse(self) -> (r: Matrix)
        requires
            spec_determinant(self) > 0,
        ensures
            r == spec_inverse(self),
    {
        let det = self.determinant();
        Matrix {
            e00: fdiv(self.e11, det),
            e01: fdiv_neg(self.e01, det),
            e10: fdiv_neg(self.e10, det),
            e11: fdiv(self.e00, det),
        }
    }

    /// Symmetrize and clip this matrix so it is positive semidefinite:
    /// negative variances are raised to zero and the covariance entry is
    /// clipped into the square-root bound, as the averaging step a filter
    /// applies after every covariance update.
    pub fn regularize(self) -> (r: Matrix)
        requires
            -MAX_VALUE <= self.e00 <= MAX_VALUE,
            -MAX_VALUE <= self.e11 <= MAX_VALUE,
        ensures
            r == spec_regularize(self),
            spec_psd(r),
    {
        let a: i64 = if self.e00 < 0 {
            0
        } else {
            self.e00
        };
        let c: i64 = if self.e11 < 0 {
            0
        } else {
            self.e11
        };
        let t128: i128 = self.e01 as i128 + self.e10 as i128;
        let th = div_floor_128(t128, 2);
        let t: i64 = th as i64;
        proof {
            assert((a as int) * (c as int) < 0x1_0000_0000_0000_0000_0000_0000) by (nonlinear_arith)
                requires
                    0 <= a as int <= MAX_VALUE,
                    0 <= c as int <= MAX_VALUE,
            ;
        }
        let prod: u128 = (a as u128) * (c as u128);
        let limit_wide = isqrt128(prod);
        proof {
            lemma_isqrt_unique(prod as nat, limit_wide as nat);
            lemma_s_isqrt_bounds(prod as nat);
        }
        let limit: i64 = limit_wide as i64;
        let b: i64 = if t > limit {
            limit
        } else if t < -limit {
            -limit
        } else {
            t
        };
        proof {
            lemma_regularize_psd(self);
        }
        Matrix { e00: a, e01: b, e10: b, e11: c }
    }
}

/// Division helper for the inverse: the negated entry over the
/// determinant.
fn fdiv_neg(a: i64, det: i64) -> (r: i64)
    requires
        det > 0,
    ensures
        r as int == s_div(-(a as int), det as int),
{
    if a == i64::MIN {
        // negating the entry directly would overflow `i64`, so divide the
        // scaled positive magnitude through `i128` instead
        let p: i128 = 0x8000_0000_0000_0000_0000_0000;
        let q = div_floor_128(p, det as i128);
        clamp128(q)
    } else {
        fdiv(-a, det)
    }
}

} // verus!
