//! The mathematical model of a matrix: a sequence of rows of one length,
//! and what each operation of the library computes on it.

use crate::arith::wrap;
use crate::error::LinalgError;
use crate::vector::{dot, scaled, sum_of};
use vstd::prelude::*;

verus! {

/// The rows of a vector of vectors, each seen as a sequence.
pub open spec fn rows_view(array: Seq<Vec<i32>>) -> Seq<Seq<i32>> {
    Seq::new(array.len(), |i: int| array[i]@)
}

/// The length of the first row, and 0 where there is no row.
pub open spec fn width(m: Seq<Seq<i32>>) -> nat {
    if m.len() == 0 {
        0
    } else {
        m[0].len()
    }
}

/// Every row is as long as the first.
pub open spec fn is_uniform(m: Seq<Seq<i32>>) -> bool {
    forall|i: int| 0 <= i < m.len() ==> (#[trigger] m[i]).len() == width(m)
}

/// The rows form a matrix: they have one length, and if there is a row, it
/// has an entry. The only matrix without entries is the one without rows.
pub open spec fn is_matrix(m: Seq<Seq<i32>>) -> bool {
    &&& is_uniform(m)
    &&& m.len() > 0 ==> width(m) > 0
}

/// Both have the same number of rows and of columns.
pub open spec fn same_shape(a: Seq<Seq<i32>>, b: Seq<Seq<i32>>) -> bool {
    a.len() == b.len() && width(a) == width(b)
}

/// The error that two matrices of different shapes give.
pub open spec fn dimension_mismatch(a: Seq<Seq<i32>>, b: Seq<Seq<i32>>) -> LinalgError {
    LinalgError::DimensionMismatch {
        left_rows: a.len() as usize,
        left_cols: width(a) as usize,
        right_rows: b.len() as usize,
        right_cols: width(b) as usize,
    }
}

/// The error that two matrices give whose product does not exist.
pub open spec fn incompatible_shapes(a: Seq<Seq<i32>>, b: Seq<Seq<i32>>) -> LinalgError {
    LinalgError::IncompatibleShapes { left_cols: width(a) as usize, right_rows: b.len() as usize }
}

/// The error that a matrix gives of which no determinant is taken.
pub open spec fn not_square(m: Seq<Seq<i32>>) -> LinalgError {
    LinalgError::NotSquare { n_rows: m.len() as usize, n_cols: width(m) as usize }
}

/// The error that a matrix gives that is taken for 2×2 and is not.
pub open spec fn wrong_shape(m: Seq<Seq<i32>>) -> LinalgError {
    LinalgError::WrongShape { n_rows: m.len() as usize, n_cols: width(m) as usize }
}

/// The rows themselves where they form a matrix, and the empty matrix
/// where they do not.
pub open spec fn normalized(rows: Seq<Seq<i32>>) -> Seq<Seq<i32>> {
    if is_matrix(rows) {
        rows
    } else {
        Seq::empty()
    }
}

/// Row `i` is the first row whose length is not that of the first row.
pub open spec fn first_ragged(rows: Seq<Seq<i32>>, i: int) -> bool {
    &&& 0 <= i < rows.len()
    &&& rows[i].len() != width(rows)
    &&& forall|k: int| 0 <= k < i ==> (#[trigger] rows[k]).len() == width(rows)
}

/// Column `j`: entry `j` of every row, from the first row to the last.
pub open spec fn column(m: Seq<Seq<i32>>, j: int) -> Seq<i32> {
    Seq::new(m.len(), |i: int| m[i][j])
}

/// The matrix whose rows are the columns of `m`.
pub open spec fn transposed(m: Seq<Seq<i32>>) -> Seq<Seq<i32>> {
    Seq::new(width(m), |j: int| column(m, j))
}

/// The `n`×`n` matrix with 1 on the diagonal and 0 elsewhere.
pub open spec fn identity(n: nat) -> Seq<Seq<i32>> {
    Seq::new(
        n,
        |i: int|
            Seq::new(
                n,
                |j: int|
                    if i == j {
                        1i32
                    } else {
                        0i32
                    },
            ),
    )
}

/// The matrix of the shape of `m` whose entries are all 0.
pub open spec fn zero_like(m: Seq<Seq<i32>>) -> Seq<Seq<i32>> {
    Seq::new(m.len(), |i: int| Seq::new(m[i].len(), |j: int| 0i32))
}

/// Every entry of `m` multiplied by `k`.
pub open spec fn mat_scaled(m: Seq<Seq<i32>>, k: i32) -> Seq<Seq<i32>> {
    Seq::new(m.len(), |i: int| scaled(m[i], k))
}

/// The entry-wise sum of two matrices of one shape.
pub open spec fn mat_sum(a: Seq<Seq<i32>>, b: Seq<Seq<i32>>) -> Seq<Seq<i32>> {
    Seq::new(a.len(), |i: int| sum_of(a[i], b[i]))
}

/// The entry-wise difference: `a` plus the negation of `b`.
pub open spec fn mat_diff(a: Seq<Seq<i32>>, b: Seq<Seq<i32>>) -> Seq<Seq<i32>> {
    mat_sum(a, mat_scaled(b, -1i32))
}

/// The matrix product: entry (`i`, `j`) is the dot product of row `i` of
/// `a` and column `j` of `b`.
pub open spec fn product(a: Seq<Seq<i32>>, b: Seq<Seq<i32>>) -> Seq<Seq<i32>> {
    Seq::new(a.len(), |i: int| Seq::new(width(b), |j: int| wrap(dot(a[i], column(b, j)))))
}

/// `s` with the element at `i` taken out, and `s` itself where there is no
/// such element.
pub open spec fn without<T>(s: Seq<T>, i: int) -> Seq<T> {
    if 0 <= i < s.len() {
        Seq::new(
            (s.len() - 1) as nat,
            |k: int|
                if k < i {
                    s[k]
                } else {
                    s[k + 1]
                },
        )
    } else {
        s
    }
}

/// The rows of `m` but row `r`, each without its entry `c`.
pub open spec fn minor_rows(m: Seq<Seq<i32>>, r: int, c: int) -> Seq<Seq<i32>> {
    Seq::new(without(m, r).len(), |i: int| without(without(m, r)[i], c))
}

/// The minor of `m`: row `r` and column `c` deleted. Where that leaves no
/// entry, it is the empty matrix.
pub open spec fn minor(m: Seq<Seq<i32>>, r: int, c: int) -> Seq<Seq<i32>> {
    normalized(minor_rows(m, r, c))
}

/// The sign of the cofactor of an entry in the first row: 1 in an even
/// column, -1 in an odd one.
pub open spec fn sign(j: int) -> int {
    if j % 2 == 0 {
        1
    } else {
        -1
    }
}

/// The determinant of a square matrix with at least one entry, as a
/// mathematical integer: the entry of a 1×1 matrix, and otherwise the
/// Laplace expansion along the first row.
pub open spec fn det(m: Seq<Seq<i32>>) -> int
    decreases m.len(), m.len() + 1,
{
    if m.len() == 1 {
        m[0][0] as int
    } else {
        cofactors(m, m.len())
    }
}

/// The first `k` terms of the Laplace expansion of `m` along its first row:
/// the sum over the columns `j < k` of `sign(j) * m[0][j] * det(minor(m, 0, j))`.
pub open spec fn cofactors(m: Seq<Seq<i32>>, k: nat) -> int
    decreases m.len(), k,
{
    if k == 0 || m.len() < 2 {
        0
    } else {
        let j: int = k - 1;
        cofactors(m, j as nat) + sign(j) * (m[0][j] * det(minor(m, 0, j)))
    }
}

} // verus!
