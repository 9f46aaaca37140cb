//! Square matrices and affine transforms.
//!
//! `Matrix4` is the workhorse: object placement, camera orientation and
//! pattern frames are all 4x4 transforms.  The 3x3 and 2x2 forms exist for
//! the cofactor expansion that computes determinants and inverses.  Every
//! entry of every result is pinned down by the spec constructors below, so
//! the inverse's contract states each entry as the transposed cofactor
//! divided by the determinant.

use crate::scalar::{add_v, div_v, mul_v, neg_v, sub_v, within, Scalar, SCALE};
use crate::tuples::{sc, tup, Tuple};
use crate::{float_eq, EPSILON};
use vstd::prelude::*;

verus! {

/// A 2x2 matrix of scaled entries.
#[derive(Clone, Copy, Debug)]
pub struct Matrix2 {
    pub rows: [[Scalar; 2]; 2],
}

/// A 3x3 matrix of scaled entries.
#[derive(Clone, Copy, Debug)]
pub struct Matrix3 {
    pub rows: [[Scalar; 3]; 3],
}

/// A 4x4 matrix of scaled entries.
#[derive(Clone, Copy, Debug)]
pub struct Matrix4 {
    pub rows: [[Scalar; 4]; 4],
}

/// Raw value of one 2x2 entry.
pub open spec fn at2(m: Matrix2, r: int, c: int) -> int {
    m.rows[r][c].v as int
}

/// Raw value of one 3x3 entry.
pub open spec fn at3(m: Matrix3, r: int, c: int) -> int {
    m.rows[r][c].v as int
}

/// Raw value of one 4x4 entry.
pub open spec fn at4(m: Matrix4, r: int, c: int) -> int {
    m.rows[r][c].v as int
}

/// A 2x2 matrix from raw entry values, row by row.
pub open spec fn mat2(a: int, b: int, c: int, d: int) -> Matrix2 {
    Matrix2 { rows: [[sc(a), sc(b)], [sc(c), sc(d)]] }
}

/// A 3x3 matrix from raw entry values, row by row.
pub open spec fn mat3(
    a: int,
    b: int,
    c: int,
    d: int,
    e: int,
    f: int,
    g: int,
    h: int,
    i: int,
) -> Matrix3 {
    Matrix3 { rows: [[sc(a), sc(b), sc(c)], [sc(d), sc(e), sc(f)], [sc(g), sc(h), sc(i)]] }
}

/// A 4x4 matrix from raw entry values, row by row.
pub open spec fn mat4(
    a: int,
    b: int,
    c: int,
    d: int,
    e: int,
    f: int,
    g: int,
    h: int,
    i: int,
    j: int,
    k: int,
    l: int,
    m: int,
    n: int,
    o: int,
    p: int,
) -> Matrix4 {
    Matrix4 {
        rows: [
            [sc(a), sc(b), sc(c), sc(d)],
            [sc(e), sc(f), sc(g), sc(h)],
            [sc(i), sc(j), sc(k), sc(l)],
            [sc(m), sc(n), sc(o), sc(p)],
        ],
    }
}

/// Determinant of a 2x2 matrix: `ad - bc`.
pub open spec fn det2_m(m: Matrix2) -> int {
    sub_v(mul_v(at2(m, 0, 0), at2(m, 1, 1)), mul_v(at2(m, 0, 1), at2(m, 1, 0)))
}

/// The index that survives deleting row or column `del`: indices below `del`
/// keep their place, the rest shift up by one.
pub open spec fn skip(i: int, del: int) -> int {
    if i < del {
        i
    } else {
        i + 1
    }
}

/// The 2x2 matrix left after deleting one row and one column of a 3x3.
pub open spec fn submatrix3_m(m: Matrix3, dr: int, dc: int) -> Matrix2 {
    mat2(
        at3(m, skip(0, dr), skip(0, dc)),
        at3(m, skip(0, dr), skip(1, dc)),
        at3(m, skip(1, dr), skip(0, dc)),
        at3(m, skip(1, dr), skip(1, dc)),
    )
}

/// Minor of a 3x3 entry: determinant of its submatrix.
pub open spec fn minor3_m(m: Matrix3, r: int, c: int) -> int {
    det2_m(submatrix3_m(m, r, c))
}

/// Cofactor of a 3x3 entry: the minor, negated on odd positions.
pub open spec fn cofactor3_m(m: Matrix3, r: int, c: int) -> int {
    if (r + c) % 2 != 0 {
        neg_v(minor3_m(m, r, c))
    } else {
        minor3_m(m, r, c)
    }
}

/// Determinant of a 3x3 matrix by cofactor expansion along the first row.
pub open spec fn det3_m(m: Matrix3) -> int {
    add_v(
        add_v(
            mul_v(at3(m, 0, 0), cofactor3_m(m, 0, 0)),
            mul_v(at3(m, 0, 1), cofactor3_m(m, 0, 1)),
        ),
        mul_v(at3(m, 0, 2), cofactor3_m(m, 0, 2)),
    )
}

/// The 3x3 matrix left after deleting one row and one column of a 4x4.
pub open spec fn submatrix4_m(m: Matrix4, dr: int, dc: int) -> Matrix3 {
    mat3(
        at4(m, skip(0, dr), skip(0, dc)),
        at4(m, skip(0, dr), skip(1, dc)),
        at4(m, skip(0, dr), skip(2, dc)),
        at4(m, skip(1, dr), skip(0, dc)),
        at4(m, skip(1, dr), skip(1, dc)),
        at4(m, skip(1, dr), skip(2, dc)),
        at4(m, skip(2, dr), skip(0, dc)),
        at4(m, skip(2, dr), skip(1, dc)),
        at4(m, skip(2, dr), skip(2, dc)),
    )
}

/// Minor of a 4x4 entry: determinant of its submatrix.
#[verifier::opaque]
pub open spec fn minor4_m(m: Matrix4, r: int, c: int) -> int {
    det3_m(submatrix4_m(m, r, c))
}

/// Cofactor of a 4x4 entry: the minor, negated on odd positions.
pub open spec fn cofactor4_m(m: Matrix4, r: int, c: int) -> int {
    if (r + c) % 2 != 0 {
        neg_v(minor4_m(m, r, c))
    } else {
        minor4_m(m, r, c)
    }
}

/// Determinant of a 4x4 matrix by cofactor expansion along the first row.
#[verifier::opaque]
pub open spec fn det4_m(m: Matrix4) -> int {
    add_v(
        add_v(
            add_v(
                mul_v(at4(m, 0, 0), cofactor4_m(m, 0, 0)),
                mul_v(at4(m, 0, 1), cofactor4_m(m, 0, 1)),
            ),
            mul_v(at4(m, 0, 2), cofactor4_m(m, 0, 2)),
        ),
        mul_v(at4(m, 0, 3), cofactor4_m(m, 0, 3)),
    )
}

/// A matrix is invertible exactly when its determinant is nonzero.
pub open spec fn is_invertible_m(m: Matrix4) -> bool {
    det4_m(m) != 0
}

/// Rows and columns swapped.
pub open spec fn transpose_m(m: Matrix4) -> Matrix4 {
    mat4(
        at4(m, 0, 0),
        at4(m, 1, 0),
        at4(m, 2, 0),
        at4(m, 3, 0),
        at4(m, 0, 1),
        at4(m, 1, 1),
        at4(m, 2, 1),
        at4(m, 3, 1),
        at4(m, 0, 2),
        at4(m, 1, 2),
        at4(m, 2, 2),
        at4(m, 3, 2),
        at4(m, 0, 3),
        at4(m, 1, 3),
        at4(m, 2, 3),
        at4(m, 3, 3),
    )
}

/// The matrix of cofactors, entry by entry.
#[verifier::opaque]
pub open spec fn cofactor_matrix_m(m: Matrix4) -> Matrix4 {
    mat4(
        cofactor4_m(m, 0, 0),
        cofactor4_m(m, 0, 1),
        cofactor4_m(m, 0, 2),
        cofactor4_m(m, 0, 3),
        cofactor4_m(m, 1, 0),
        cofactor4_m(m, 1, 1),
        cofactor4_m(m, 1, 2),
        cofactor4_m(m, 1, 3),
        cofactor4_m(m, 2, 0),
        cofactor4_m(m, 2, 1),
        cofactor4_m(m, 2, 2),
        cofactor4_m(m, 2, 3),
        cofactor4_m(m, 3, 0),
        cofactor4_m(m, 3, 1),
        cofactor4_m(m, 3, 2),
        cofactor4_m(m, 3, 3),
    )
}

/// Every entry divided by the raw value `k`.
pub open spec fn div_m(m: Matrix4, k: int) -> Matrix4 {
    mat4(
        div_v(at4(m, 0, 0), k),
        div_v(at4(m, 0, 1), k),
        div_v(at4(m, 0, 2), k),
        div_v(at4(m, 0, 3), k),
        div_v(at4(m, 1, 0), k),
        div_v(at4(m, 1, 1), k),
        div_v(at4(m, 1, 2), k),
        div_v(at4(m, 1, 3), k),
        div_v(at4(m, 2, 0), k),
        div_v(at4(m, 2, 1), k),
        div_v(at4(m, 2, 2), k),
        div_v(at4(m, 2, 3), k),
        div_v(at4(m, 3, 0), k),
        div_v(at4(m, 3, 1), k),
        div_v(at4(m, 3, 2), k),
        div_v(at4(m, 3, 3), k),
    )
}

/// The inverse: transposed cofactor matrix, divided by the determinant.
#[verifier::opaque]
pub open spec fn inverse_m(m: Matrix4) -> Matrix4 {
    div_m(transpose_m(cofactor_matrix_m(m)), det4_m(m))
}

/// One entry of a matrix product: the row of `a` against the column of `b`,
/// folded left to right.
pub open spec fn row_col(a: Matrix4, b: Matrix4, r: int, c: int) -> int {
    add_v(
        add_v(
            add_v(mul_v(at4(a, r, 0), at4(b, 0, c)), mul_v(at4(a, r, 1), at4(b, 1, c))),
            mul_v(at4(a, r, 2), at4(b, 2, c)),
        ),
        mul_v(at4(a, r, 3), at4(b, 3, c)),
    )
}

/// Matrix product.
pub open spec fn matmul_m(a: Matrix4, b: Matrix4) -> Matrix4 {
    mat4(
        row_col(a, b, 0, 0),
        row_col(a, b, 0, 1),
        row_col(a, b, 0, 2),
        row_col(a, b, 0, 3),
        row_col(a, b, 1, 0),
        row_col(a, b, 1, 1),
        row_col(a, b, 1, 2),
        row_col(a, b, 1, 3),
        row_col(a, b, 2, 0),
        row_col(a, b, 2, 1),
        row_col(a, b, 2, 2),
        row_col(a, b, 2, 3),
        row_col(a, b, 3, 0),
        row_col(a, b, 3, 1),
        row_col(a, b, 3, 2),
        row_col(a, b, 3, 3),
    )
}

/// One component of a matrix-tuple product: the row against the tuple,
/// folded left to right.
pub open spec fn row_tup(m: Matrix4, r: int, t: Tuple) -> int {
    add_v(
        add_v(
            add_v(mul_v(at4(m, r, 0), t.x.v as int), mul_v(at4(m, r, 1), t.y.v as int)),
            mul_v(at4(m, r, 2), t.z.v as int),
        ),
        mul_v(at4(m, r, 3), t.w.v as int),
    )
}

/// Matrix-tuple product.
pub open spec fn mul_tuple_m(m: Matrix4, t: Tuple) -> Tuple {
    tup(row_tup(m, 0, t), row_tup(m, 1, t), row_tup(m, 2, t), row_tup(m, 3, t))
}

/// The identity transform.
pub open spec fn identity_m() -> Matrix4 {
    mat4(
        SCALE as int,
        0,
        0,
        0,
        0,
        SCALE as int,
        0,
        0,
        0,
        0,
        SCALE as int,
        0,
        0,
        0,
        0,
        SCALE as int,
    )
}

/// A translation by `(x, y, z)` (raw values).
pub open spec fn translation_m(x: int, y: int, z: int) -> Matrix4 {
    mat4(
        SCALE as int,
        0,
        0,
        x,
        0,
        SCALE as int,
        0,
        y,
        0,
        0,
        SCALE as int,
        z,
        0,
        0,
        0,
        SCALE as int,
    )
}

/// A scaling by `(x, y, z)` (raw values).
pub open spec fn scaling_m(x: int, y: int, z: int) -> Matrix4 {
    mat4(x, 0, 0, 0, 0, y, 0, 0, 0, 0, z, 0, 0, 0, 0, SCALE as int)
}

/// A rotation about the x axis from the angle's cosine and sine (raw values).
pub open spec fn rotation_x_m(c: int, s: int) -> Matrix4 {
    mat4(SCALE as int, 0, 0, 0, 0, c, neg_v(s), 0, 0, s, c, 0, 0, 0, 0, SCALE as int)
}

/// A rotation about the y axis from the angle's cosine and sine (raw values).
pub open spec fn rotation_y_m(c: int, s: int) -> Matrix4 {
    mat4(c, 0, s, 0, 0, SCALE as int, 0, 0, neg_v(s), 0, c, 0, 0, 0, 0, SCALE as int)
}

/// A rotation about the z axis from the angle's cosine and sine (raw values).
pub open spec fn rotation_z_m(c: int, s: int) -> Matrix4 {
    mat4(c, neg_v(s), 0, 0, s, c, 0, 0, 0, 0, SCALE as int, 0, 0, 0, 0, SCALE as int)
}

/// Tolerance equality of 2x2 matrices, entry by entry.
pub open spec fn approx2(a: Matrix2, b: Matrix2) -> bool {
    forall|r: int, c: int|
        0 <= r < 2 && 0 <= c < 2 ==> within(at2(a, r, c), at2(b, r, c), EPSILON as int)
}

/// Tolerance equality of 3x3 matrices, entry by entry.
pub open spec fn approx3(a: Matrix3, b: Matrix3) -> bool {
    forall|r: int, c: int|
        0 <= r < 3 && 0 <= c < 3 ==> within(at3(a, r, c), at3(b, r, c), EPSILON as int)
}

/// Tolerance equality of 4x4 matrices, entry by entry.
pub open spec fn approx4(a: Matrix4, b: Matrix4) -> bool {
    forall|r: int, c: int|
        0 <= r < 4 && 0 <= c < 4 ==> within(at4(a, r, c), at4(b, r, c), EPSILON as int)
}

/// Translation does not affect vectors: a translation matrix applied to any
/// tuple with `w` zero gives that tuple back exactly, whatever the offsets.
pub proof fn lemma_translation_fixes_vectors(a: int, b: int, c: int, v: Tuple)
    requires
        crate::tuples::is_vector_t(v),
    ensures
        mul_tuple_m(translation_m(a, b, c), v) == v,
{
    let m = translation_m(a, b, c);
    crate::scalar::lemma_mul_one(v.x.v as int);
    crate::scalar::lemma_mul_one(v.y.v as int);
    crate::scalar::lemma_mul_one(v.z.v as int);
    crate::scalar::lemma_mul_zero(v.x.v as int);
    crate::scalar::lemma_mul_zero(v.y.v as int);
    crate::scalar::lemma_mul_zero(v.z.v as int);
    crate::scalar::lemma_mul_zero(v.w.v as int);
    crate::scalar::lemma_mul_zero(a);
    crate::scalar::lemma_mul_zero(b);
    crate::scalar::lemma_mul_zero(c);
    assert(row_tup(m, 0, v) == v.x.v);
    assert(row_tup(m, 1, v) == v.y.v);
    assert(row_tup(m, 2, v) == v.z.v);
    assert(row_tup(m, 3, v) == 0);
}

impl Matrix2 {
    /// A 2x2 matrix from its rows.
    pub fn from_rows(rows: [[Scalar; 2]; 2]) -> (r: Matrix2)
        ensures
            r == (Matrix2 { rows }),
    {
        Matrix2 { rows }
    }

    /// Determinant: `ad - bc`.
    pub fn determinant(&self) -> (r: Scalar)
        ensures
            r.v == det2_m(*self),
    {
        self.rows[0][0].times(self.rows[1][1]).minus(self.rows[0][1].times(self.rows[1][0]))
    }
}

impl PartialEq for Matrix2 {
    /// Tolerance equality, entry by entry.
    fn eq(&self, other: &Matrix2) -> (r: bool) {
        let e00 = float_eq(self.rows[0][0], other.rows[0][0]);
        let e01 = float_eq(self.rows[0][1], other.rows[0][1]);
        let e10 = float_eq(self.rows[1][0], other.rows[1][0]);
        let e11 = float_eq(self.rows[1][1], other.rows[1][1]);
        let r = e00 && e01 && e10 && e11;
        proof {
            if r {
                assert forall|i: int, j: int| 0 <= i < 2 && 0 <= j < 2 implies within(
                    at2(*self, i, j),
                    at2(*other, i, j),
                    EPSILON as int,
                ) by {
                    assert(i == 0 || i == 1);
                    assert(j == 0 || j == 1);
                }
            } else {
                if !e00 {
                    assert(!within(at2(*self, 0, 0), at2(*other, 0, 0), EPSILON as int));
                } else if !e01 {
                    assert(!within(at2(*self, 0, 1), at2(*other, 0, 1), EPSILON as int));
                } else if !e10 {
                    assert(!within(at2(*self, 1, 0), at2(*other, 1, 0), EPSILON as int));
                } else {
                    assert(!within(at2(*self, 1, 1), at2(*other, 1, 1), EPSILON as int));
                }
                assert(!approx2(*self, *other));
            }
        }
        r
    }
}

impl vstd::std_specs::cmp::PartialEqSpecImpl for Matrix2 {
    open spec fn obeys_eq_spec() -> bool {
        true
    }

    open spec fn eq_spec(&self, other: &Matrix2) -> bool {
        approx2(*self, *other)
    }
}

impl Matrix3 {
    /// A 3x3 matrix from its rows.
    pub fn from_rows(rows: [[Scalar; 3]; 3]) -> (r: Matrix3)
        ensures
            r == (Matrix3 { rows }),
    {
        Matrix3 { rows }
    }

    /// The 2x2 matrix left after deleting `del_row` and `del_col`.
    pub fn submatrix(&self, del_row: usize, del_col: usize) -> (r: Matrix2)
        requires
            del_row < 3,
            del_col < 3,
        ensures
            r == submatrix3_m(*self, del_row as int, del_col as int),
    {
        let r0: usize = if del_row == 0 {
            1
        } else {
            0
        };
        let r1: usize = if del_row <= 1 {
            2
        } else {
            1
        };
        let c0: usize = if del_col == 0 {
            1
        } else {
            0
        };
        let c1: usize = if del_col <= 1 {
            2
        } else {
            1
        };
        Matrix2 {
            rows: [
                [self.rows[r0][c0], self.rows[r0][c1]],
                [self.rows[r1][c0], self.rows[r1][c1]],
            ],
        }
    }

    /// Minor of an entry: determinant of its submatrix.
    pub fn minor(&self, row: usize, col: usize) -> (r: Scalar)
        requires
            row < 3,
            col < 3,
        ensures
            r.v == minor3_m(*self, row as int, col as int),
    {
        self.submatrix(row, col).determinant()
    }

    /// Cofactor of an entry: the minor, negated on odd positions.
    pub fn cofactor(&self, row: usize, col: usize) -> (r: Scalar)
        requires
            row < 3,
            col < 3,
        ensures
            r.v == cofactor3_m(*self, row as int, col as int),
    {
        let val = self.minor(row, col);
        if (row + col) % 2 != 0 {
            val.negated()
        } else {
            val
        }
    }

    /// Determinant by cofactor expansion along the first row.
    pub fn determinant(&self) -> (r: Scalar)
        ensures
            r.v == det3_m(*self),
    {
        self.rows[0][0].times(self.cofactor(0, 0)).plus(
            self.rows[0][1].times(self.cofactor(0, 1)),
        ).plus(self.rows[0][2].times(self.cofactor(0, 2)))
    }
}

impl PartialEq for Matrix3 {
    /// Tolerance equality, entry by entry.
    fn eq(&self, other: &Matrix3) -> (r: bool) {
        let mut ok = true;
        let mut row: usize = 0;
        while row < 3
            invariant
                row <= 3,
                ok ==> forall|i: int, j: int|
                    0 <= i < row && 0 <= j < 3 ==> within(
                        at3(*self, i, j),
                        at3(*other, i, j),
                        EPSILON as int,
                    ),
                !ok ==> !approx3(*self, *other),
            decreases 3 - row,
        {
            let e0 = float_eq(self.rows[row][0], other.rows[row][0]);
            let e1 = float_eq(self.rows[row][1], other.rows[row][1]);
            let e2 = float_eq(self.rows[row][2], other.rows[row][2]);
            let fits = e0 && e1 && e2;
            proof {
                if ok && fits {
                    assert forall|i: int, j: int| 0 <= i < row + 1 && 0 <= j < 3 implies within(
                        at3(*self, i, j),
                        at3(*other, i, j),
                        EPSILON as int,
                    ) by {
                        if i == row {
                            assert(j == 0 || j == 1 || j == 2);
                        }
                    }
                }
                if !fits {
                    if !e0 {
                        assert(!within(at3(*self, row as int, 0), at3(*other, row as int, 0), EPSILON as int));
                    } else if !e1 {
                        assert(!within(at3(*self, row as int, 1), at3(*other, row as int, 1), EPSILON as int));
                    } else {
                        assert(!within(at3(*self, row as int, 2), at3(*other, row as int, 2), EPSILON as int));
                    }
                    assert(!approx3(*self, *other));
                }
            }
            ok = ok && fits;
            row = row + 1;
        }
        proof {
            if ok {
                assert forall|i: int, j: int| 0 <= i < 3 && 0 <= j < 3 implies within(
                    at3(*self, i, j),
                    at3(*other, i, j),
                    EPSILON as int,
                ) by {}
            }
        }
        ok
    }
}

impl vstd::std_specs::cmp::PartialEqSpecImpl for Matrix3 {
    open spec fn obeys_eq_spec() -> bool {
        true
    }

    open spec fn eq_spec(&self, other: &Matrix3) -> bool {
        approx3(*self, *other)
    }
}

impl Matrix4 {
    /// A 4x4 matrix from its rows.
    pub fn from_rows(rows: [[Scalar; 4]; 4]) -> (r: Matrix4)
        ensures
            r == (Matrix4 { rows }),
    {
        Matrix4 { rows }
    }

    /// The identity transform.
    pub fn identity() -> (r: Matrix4)
        ensures
            r == identity_m(),
    {
        let o = Scalar { v: SCALE };
        let z = Scalar { v: 0 };
        Matrix4 { rows: [[o, z, z, z], [z, o, z, z], [z, z, o, z], [z, z, z, o]] }
    }

    /// A translation by `(x, y, z)`.
    pub fn translation(x: Scalar, y: Scalar, z: Scalar) -> (r: Matrix4)
        ensures
            r == translation_m(x.v as int, y.v as int, z.v as int),
    {
        let o = Scalar { v: SCALE };
        let n = Scalar { v: 0 };
        Matrix4 { rows: [[o, n, n, x], [n, o, n, y], [n, n, o, z], [n, n, n, o]] }
    }

    /// A scaling by `(x, y, z)`.
    pub fn scaling(x: Scalar, y: Scalar, z: Scalar) -> (r: Matrix4)
        ensures
            r == scaling_m(x.v as int, y.v as int, z.v as int),
    {
        let o = Scalar { v: SCALE };
        let n = Scalar { v: 0 };
        Matrix4 { rows: [[x, n, n, n], [n, y, n, n], [n, n, z, n], [n, n, n, o]] }
    }

    /// A rotation about the x axis.  The caller supplies the angle's cosine
    /// and sine, since the fixed-point core keeps no trigonometry of its own.
    pub fn rotation_x(cos_t: Scalar, sin_t: Scalar) -> (r: Matrix4)
        ensures
            r == rotation_x_m(cos_t.v as int, sin_t.v as int),
    {
        let o = Scalar { v: SCALE };
        let n = Scalar { v: 0 };
        Matrix4 {
            rows: [
                [o, n, n, n],
                [n, cos_t, sin_t.negated(), n],
                [n, sin_t, cos_t, n],
                [n, n, n, o],
            ],
        }
    }

    /// A rotation about the y axis, from the angle's cosine and sine.
    pub fn rotation_y(cos_t: Scalar, sin_t: Scalar) -> (r: Matrix4)
        ensures
            r == rotation_y_m(cos_t.v as int, sin_t.v as int),
    {
        let o = Scalar { v: SCALE };
        let n = Scalar { v: 0 };
        Matrix4 {
            rows: [
                [cos_t, n, sin_t, n],
                [n, o, n, n],
                [sin_t.negated(), n, cos_t, n],
                [n, n, n, o],
            ],
        }
    }

    /// A rotation about the z axis, from the angle's cosine and sine.
    pub fn rotation_z(cos_t: Scalar, sin_t: Scalar) -> (r: Matrix4)
        ensures
            r == rotation_z_m(cos_t.v as int, sin_t.v as int),
    {
        let o = Scalar { v: SCALE };
        let n = Scalar { v: 0 };
        Matrix4 {
            rows: [
                [cos_t, sin_t.negated(), n, n],
                [sin_t, cos_t, n, n],
                [n, n, o, n],
                [n, n, n, o],
            ],
        }
    }

    /// Rows and columns swapped.
    pub fn transpose(&self) -> (r: Matrix4)
        ensures
            r == transpose_m(*self),
    {
        Matrix4 {
            rows: [
                [self.rows[0][0], self.rows[1][0], self.rows[2][0], self.rows[3][0]],
                [self.rows[0][1], self.rows[1][1], self.rows[2][1], self.rows[3][1]],
                [self.rows[0][2], self.rows[1][2], self.rows[2][2], self.rows[3][2]],
                [self.rows[0][3], self.rows[1][3], self.rows[2][3], self.rows[3][3]],
            ],
        }
    }

    /// The 3x3 matrix left after deleting `del_row` and `del_col`.
    pub fn submatrix(&self, del_row: usize, del_col: usize) -> (r: Matrix3)
        requires
            del_row < 4,
            del_col < 4,
        ensures
            r == submatrix4_m(*self, del_row as int, del_col as int),
    {
        let r0: usize = if del_row == 0 {
            1
        } else {
            0
        };
        let r1: usize = if del_row <= 1 {
            2
        } else {
            1
        };
        let r2: usize = if del_row <= 2 {
            3
        } else {
            2
        };
        let c0: usize = if del_col == 0 {
            1
        } else {
            0
        };
        let c1: usize = if del_col <= 1 {
            2
        } else {
            1
        };
        let c2: usize = if del_col <= 2 {
            3
        } else {
            2
        };
        Matrix3 {
            rows: [
                [self.rows[r0][c0], self.rows[r0][c1], self.rows[r0][c2]],
                [self.rows[r1][c0], self.rows[r1][c1], self.rows[r1][c2]],
                [self.rows[r2][c0], self.rows[r2][c1], self.rows[r2][c2]],
            ],
        }
    }

    /// Minor of an entry: determinant of its submatrix.
    pub fn minor(&self, row: usize, col: usize) -> (r: Scalar)
        requires
            row < 4,
            col < 4,
        ensures
            r.v == minor4_m(*self, row as int, col as int),
    {
        proof {
            reveal(minor4_m);
        }
        self.submatrix(row, col).determinant()
    }

    /// Cofactor of an entry: the minor, negated on odd positions.
    pub fn cofactor(&self, row: usize, col: usize) -> (r: Scalar)
        requires
            row < 4,
            col < 4,
        ensures
            r.v == cofactor4_m(*self, row as int, col as int),
    {
        let val = self.minor(row, col);
        if (row + col) % 2 != 0 {
            val.negated()
        } else {
            val
        }
    }

    /// Determinant by cofactor expansion along the first row.
    pub fn determinant(&self) -> (r: Scalar)
        ensures
            r.v == det4_m(*self),
    {
        proof {
            reveal(det4_m);
        }
        self.rows[0][0].times(self.cofactor(0, 0)).plus(
            self.rows[0][1].times(self.cofactor(0, 1)),
        ).plus(self.rows[0][2].times(self.cofactor(0, 2))).plus(
            self.rows[0][3].times(self.cofactor(0, 3)),
        )
    }

    /// Whether the determinant is nonzero, so an inverse exists.
    pub fn is_invertible(&self) -> (r: bool)
        ensures
            r == is_invertible_m(*self),
    {
        let d = self.determinant();
        d.v != 0
    }

    /// The inverse: transposed cofactor matrix divided by the determinant.
    /// A non-invertible transform is a scene-authoring error, so callers must
    /// establish invertibility first.
    pub fn inverse(&self) -> (r: Matrix4)
        requires
            is_invertible_m(*self),
        ensures
            r == inverse_m(*self),
    {
        proof {
            reveal(inverse_m);
            reveal(cofactor_matrix_m);
        }
        let cofactors = Matrix4 {
            rows: [
                [
                    self.cofactor(0, 0),
                    self.cofactor(0, 1),
                    self.cofactor(0, 2),
                    self.cofactor(0, 3),
                ],
                [
                    self.cofactor(1, 0),
                    self.cofactor(1, 1),
                    self.cofactor(1, 2),
                    self.cofactor(1, 3),
                ],
                [
                    self.cofactor(2, 0),
                    self.cofactor(2, 1),
                    self.cofactor(2, 2),
                    self.cofactor(2, 3),
                ],
                [
                    self.cofactor(3, 0),
                    self.cofactor(3, 1),
                    self.cofactor(3, 2),
                    self.cofactor(3, 3),
                ],
            ],
        };
        let transposed = cofactors.transpose();
        let det = self.determinant();
        transposed.divided_by(det)
    }

    /// Every entry divided by `k`, which must be nonzero.
    pub fn divided_by(self, k: Scalar) -> (r: Matrix4)
        requires
            k.v != 0,
        ensures
            r == div_m(self, k.v as int),
    {
        Matrix4 {
            rows: [
                [
                    self.rows[0][0].over(k),
                    self.rows[0][1].over(k),
                    self.rows[0][2].over(k),
                    self.rows[0][3].over(k),
                ],
                [
                    self.rows[1][0].over(k),
                    self.rows[1][1].over(k),
                    self.rows[1][2].over(k),
                    self.rows[1][3].over(k),
                ],
                [
                    self.rows[2][0].over(k),
                    self.rows[2][1].over(k),
                    self.rows[2][2].over(k),
                    self.rows[2][3].over(k),
                ],
                [
                    self.rows[3][0].over(k),
                    self.rows[3][1].over(k),
                    self.rows[3][2].over(k),
                    self.rows[3][3].over(k),
                ],
            ],
        }
    }

    /// One entry of the product of `self` and `other`.
    fn product_entry(&self, other: &Matrix4, r: usize, c: usize) -> (e: Scalar)
        requires
            r < 4,
            c < 4,
        ensures
            e.v == row_col(*self, *other, r as int, c as int),
    {
        self.rows[r][0].times(other.rows[0][c]).plus(self.rows[r][1].times(other.rows[1][c])).plus(
            self.rows[r][2].times(other.rows[2][c]),
        ).plus(self.rows[r][3].times(other.rows[3][c]))
    }

    /// Matrix product.
    pub fn matmul(&self, other: Matrix4) -> (r: Matrix4)
        ensures
            r == matmul_m(*self, other),
    {
        Matrix4 {
            rows: [
                [
                    self.product_entry(&other, 0, 0),
                    self.product_entry(&other, 0, 1),
                    self.product_entry(&other, 0, 2),
                    self.product_entry(&other, 0, 3),
                ],
                [
                    self.product_entry(&other, 1, 0),
                    self.product_entry(&other, 1, 1),
                    self.product_entry(&other, 1, 2),
                    self.product_entry(&other, 1, 3),
                ],
                [
                    self.product_entry(&other, 2, 0),
                    self.product_entry(&other, 2, 1),
                    self.product_entry(&other, 2, 2),
                    self.product_entry(&other, 2, 3),
                ],
                [
                    self.product_entry(&other, 3, 0),
                    self.product_entry(&other, 3, 1),
                    self.product_entry(&other, 3, 2),
                    self.product_entry(&other, 3, 3),
                ],
            ],
        }
    }

    /// One component of the product of `self` and a tuple.
    fn tuple_entry(&self, t: Tuple, r: usize) -> (e: Scalar)
        requires
            r < 4,
        ensures
            e.v == row_tup(*self, r as int, t),
    {
        self.rows[r][0].times(t.x).plus(self.rows[r][1].times(t.y)).plus(
            self.rows[r][2].times(t.z),
        ).plus(self.rows[r][3].times(t.w))
    }

    /// Matrix-tuple product.
    pub fn mul_tuple(&self, t: Tuple) -> (r: Tuple)
        ensures
            r == mul_tuple_m(*self, t),
    {
        Tuple {
            x: self.tuple_entry(t, 0),
            y: self.tuple_entry(t, 1),
            z: self.tuple_entry(t, 2),
            w: self.tuple_entry(t, 3),
        }
    }
}

impl Default for Matrix4 {
    /// The identity transform.
    fn default() -> (r: Matrix4)
        ensures
            r == identity_m(),
    {
        Matrix4::identity()
    }
}

impl PartialEq for Matrix4 {
    /// Tolerance equality, entry by entry.
    fn eq(&self, other: &Matrix4) -> (r: bool) {
        let mut ok = true;
        let mut row: usize = 0;
        while row < 4
            invariant
                row <= 4,
                ok ==> forall|i: int, j: int|
                    0 <= i < row && 0 <= j < 4 ==> within(
                        at4(*self, i, j),
                        at4(*other, i, j),
                        EPSILON as int,
                    ),
                !ok ==> !approx4(*self, *other),
            decreases 4 - row,
        {
            let e0 = float_eq(self.rows[row][0], other.rows[row][0]);
            let e1 = float_eq(self.rows[row][1], other.rows[row][1]);
            let e2 = float_eq(self.rows[row][2], other.rows[row][2]);
            let e3 = float_eq(self.rows[row][3], other.rows[row][3]);
            let fits = e0 && e1 && e2 && e3;
            proof {
                if ok && fits {
                    assert forall|i: int, j: int| 0 <= i < row + 1 && 0 <= j < 4 implies within(
                        at4(*self, i, j),
                        at4(*other, i, j),
                        EPSILON as int,
                    ) by {
                        if i == row {
                            assert(j == 0 || j == 1 || j == 2 || j == 3);
                        }
                    }
                }
                if !fits {
                    if !e0 {
                        assert(!within(at4(*self, row as int, 0), at4(*other, row as int, 0), EPSILON as int));
                    } else if !e1 {
                        assert(!within(at4(*self, row as int, 1), at4(*other, row as int, 1), EPSILON as int));
                    } else if !e2 {
                        assert(!within(at4(*self, row as int, 2), at4(*other, row as int, 2), EPSILON as int));
                    } else {
                        assert(!within(at4(*self, row as int, 3), at4(*other, row as int, 3), EPSILON as int));
                    }
                    assert(!approx4(*self, *other));
                }
            }
            ok = ok && fits;
            row = row + 1;
        }
        proof {
            if ok {
                assert forall|i: int, j: int| 0 <= i < 4 && 0 <= j < 4 implies within(
                    at4(*self, i, j),
                    at4(*other, i, j),
                    EPSILON as int,
                ) by {}
            }
        }
        ok
    }
}

impl vstd::std_specs::cmp::PartialEqSpecImpl for Matrix4 {
    open spec fn obeys_eq_spec() -> bool {
        true
    }

    open spec fn eq_spec(&self, other: &Matrix4) -> bool {
        approx4(*self, *other)
    }
}

} // verus!
