//! Minors and the determinant by Laplace expansion along the first row.

use crate::arith::{
    add_wrap, lemma_wrap_add, lemma_wrap_mul, lemma_wrap_sub, mul_wrap, sub_wrap, wrap,
};
use crate::error::LinalgError;
use crate::matrix::model::{
    cofactors, det, is_matrix, minor, minor_rows, not_square, rows_view, sign, width, without,
    wrong_shape,
};
use crate::matrix::Matrix;
use crate::vector;
use vstd::prelude::*;

verus! {

/// Deleting a row and a column that a matrix has, where it has two rows
/// and two columns or more, leaves a matrix with one row less and one
/// column less.
pub proof fn lemma_minor_shape(m: Seq<Seq<i32>>, r: int, c: int)
    requires
        is_matrix(m),
        m.len() >= 2,
        width(m) >= 2,
        0 <= r < m.len(),
        0 <= c < width(m),
    ensures
        minor(m, r, c) == minor_rows(m, r, c),
        is_matrix(minor(m, r, c)),
        minor(m, r, c).len() == m.len() - 1,
        width(minor(m, r, c)) == width(m) - 1,
{
    let rows: Seq<Seq<i32>> = minor_rows(m, r, c);
    assert forall|i: int| 0 <= i < rows.len() implies (#[trigger] rows[i]).len() == width(m)
        - 1 by {
        let from: int = if i < r {
            i
        } else {
            i + 1
        };
        assert(without(m, r)[i] == m[from]);
        assert(m[from].len() == width(m));
    }
}

/// The entries of such a minor: its row `i` is row `i` of the matrix before
/// the deleted row and row `i + 1` from there on, and likewise for its
/// columns.
pub proof fn lemma_minor_entry(m: Seq<Seq<i32>>, r: int, c: int, i: int, k: int)
    requires
        is_matrix(m),
        m.len() >= 2,
        width(m) >= 2,
        0 <= r < m.len(),
        0 <= c < width(m),
        0 <= i < m.len() - 1,
        0 <= k < width(m) - 1,
    ensures
        minor(m, r, c)[i].len() == width(m) - 1,
        minor(m, r, c)[i][k] == m[if i < r {
            i
        } else {
            i + 1
        }][if k < c {
            k
        } else {
            k + 1
        }],
{
    lemma_minor_shape(m, r, c);
    let from: int = if i < r {
        i
    } else {
        i + 1
    };
    assert(without(m, r)[i] == m[from]);
    assert(m[from].len() == width(m));
}

/// The determinant of a 2×2 matrix is the product of its diagonal less the
/// product of the other two entries.
pub proof fn lemma_det_2x2(m: Seq<Seq<i32>>)
    requires
        is_matrix(m),
        m.len() == 2,
        width(m) == 2,
    ensures
        det(m) == m[0][0] * m[1][1] - m[0][1] * m[1][0],
{
    lemma_minor_shape(m, 0, 0);
    lemma_minor_shape(m, 0, 1);
    assert(m[1].len() == 2);
    let m0: Seq<Seq<i32>> = minor(m, 0, 0);
    let m1: Seq<Seq<i32>> = minor(m, 0, 1);
    assert(without(m, 0)[0] == m[1]);
    assert(m0[0][0] == m[1][1]);
    assert(m1[0][0] == m[1][0]);
    assert(det(m0) == m[1][1]);
    assert(det(m1) == m[1][0]);
    assert(cofactors(m, 0) == 0);
    assert(cofactors(m, 1) == cofactors(m, 0) + sign(0) * (m[0][0] * det(m0)));
    assert(cofactors(m, 2) == cofactors(m, 1) + sign(1) * (m[0][1] * det(m1)));
}

impl Matrix {
    /// The minor: this matrix without row `i_row` and without column
    /// `i_col`. An index past the end deletes nothing. Where no entry is
    /// left, the result is the empty matrix.
    pub fn sub_matrix(&self, i_row: usize, i_col: usize) -> (m: Matrix)
        ensures
            m@ == minor(self@, i_row as int, i_col as int),
            i_row < self@.len() && i_col < width(self@) && self@.len() >= 2 && width(self@) >= 2
                ==> m@.len() == self@.len() - 1 && width(m@) == width(self@) - 1,
    {
        let n_rows: usize = self.n_rows();
        let n_cols: usize = self.n_cols();
        let mut array: Vec<Vec<i32>> = Self::empty_array(n_rows);
        let mut x: usize = 0;
        while x < n_rows
            invariant
                is_matrix(self@),
                n_rows == self@.len(),
                n_cols == width(self@),
                x <= n_rows,
                array@.len() == (if i_row < x {
                    x - 1
                } else {
                    x as int
                }),
                forall|k: int|
                    0 <= k < array@.len() ==> (#[trigger] array@[k])@ == minor_rows(
                        self@,
                        i_row as int,
                        i_col as int,
                    )[k],
            decreases n_rows - x,
        {
            let mut row: Vec<i32> = vector::new(n_cols);
            let mut y: usize = 0;
            while y < n_cols
                invariant
                    is_matrix(self@),
                    n_rows == self@.len(),
                    n_cols == width(self@),
                    x < n_rows,
                    y <= n_cols,
                    row@.len() == (if i_col < y {
                        y - 1
                    } else {
                        y as int
                    }),
                    forall|k: int|
                        0 <= k < row@.len() ==> row@[k] == without(
                            self@[x as int],
                            i_col as int,
                        )[k],
                decreases n_cols - y,
            {
                assert(self@[x as int].len() == n_cols);
                if y != i_col {
                    if let Ok(entry) = self.get(x, y) {
                        row.push(entry);
                    }
                }
                y = y + 1;
            }
            assert(self@[x as int].len() == n_cols);
            assert(row@ =~= without(self@[x as int], i_col as int));
            if x != i_row {
                proof {
                    let k: int = array@.len() as int;
                    assert(without(self@, i_row as int)[k] == self@[x as int]);
                }
                array.push(row);
            }
            x = x + 1;
        }
        assert(rows_view(array@) =~= minor_rows(self@, i_row as int, i_col as int));
        proof {
            if i_row < n_rows && i_col < n_cols && n_rows >= 2 && n_cols >= 2 {
                lemma_minor_shape(self@, i_row as int, i_col as int);
            }
        }
        Self::from(array)
    }

    /// The determinant of a 2×2 matrix, taken modulo 2^32. A matrix of
    /// another shape gives `WrongShape`.
    pub fn det_2x2(&self) -> (r: Result<i32, LinalgError>)
        ensures
            match r {
                Ok(d) => self@.len() == 2 && width(self@) == 2 && d == wrap(det(self@)) && d
                    == wrap(self@[0][0] * self@[1][1] - self@[0][1] * self@[1][0]),
                Err(e) => !(self@.len() == 2 && width(self@) == 2) && e == wrong_shape(self@),
            },
    {
        let n_rows: usize = self.n_rows();
        let n_cols: usize = self.n_cols();
        if n_rows == 2 && n_cols == 2 {
            let a = self.get(0, 0);
            let b = self.get(0, 1);
            let c = self.get(1, 0);
            let d = self.get(1, 1);
            assert(self@[1].len() == 2);
            if let (Ok(a), Ok(b), Ok(c), Ok(d)) = (a, b, c, d) {
                proof {
                    lemma_det_2x2(self@);
                    lemma_wrap_sub(a * d, c * b);
                    assert(c * b == b * c) by (nonlinear_arith);
                }
                return Ok(sub_wrap(mul_wrap(a, d), mul_wrap(c, b)));
            }
        }
        Err(LinalgError::WrongShape { n_rows, n_cols })
    }

    /// The determinant of a square matrix with at least one entry, by
    /// Laplace expansion along the first row with alternating signs, taken
    /// modulo 2^32. Any other matrix gives `NotSquare`.
    pub fn det(&self) -> (r: Result<i32, LinalgError>)
        ensures
            match r {
                Ok(d) => self@.len() == width(self@) && self@.len() > 0 && d == wrap(det(self@)),
                Err(e) => !(self@.len() == width(self@) && self@.len() > 0) && e == not_square(
                    self@,
                ),
            },
        decreases self@.len(),
    {
        let n: usize = self.n_rows();
        if self.is_sqr() {
            if n == 1 {
                if let Ok(entry) = self.get(0, 0) {
                    return Ok(entry);
                }
            } else if n == 2 {
                if let Ok(d) = self.det_2x2() {
                    return Ok(d);
                }
            } else if n > 2 {
                let mut acc: i32 = 0;
                let mut i: usize = 0;
                while i < n
                    invariant
                        is_matrix(self@),
                        n == self@.len(),
                        n == width(self@),
                        n > 2,
                        i <= n,
                        acc == wrap(cofactors(self@, i as nat)),
                    decreases n - i,
                {
                    proof {
                        lemma_minor_shape(self@, 0, i as int);
                    }
                    let sub: Matrix = self.sub_matrix(0, i);
                    if let Ok(entry) = self.get(0, i) {
                        if let Ok(sub_det) = sub.det() {
                            let term: i32 = mul_wrap(entry, sub_det);
                            let ghost before: int = cofactors(self@, i as nat);
                            let ghost t: int = entry * det(sub@);
                            proof {
                                lemma_wrap_mul(entry as int, det(sub@));
                                assert(term == wrap(t));
                                assert(cofactors(self@, (i + 1) as nat) == before + sign(i as int)
                                    * t);
                            }
                            if i % 2 == 0 {
                                proof {
                                    lemma_wrap_add(before, t);
                                    assert(sign(i as int) * t == t);
                                }
                                acc = add_wrap(acc, term);
                            } else {
                                proof {
                                    lemma_wrap_sub(before, t);
                                    assert(sign(i as int) * t == -t);
                                }
                                acc = sub_wrap(acc, term);
                            }
                        }
                    }
                    i = i + 1;
                }
                return Ok(acc);
            }
        }
        Err(LinalgError::NotSquare { n_rows: n, n_cols: self.n_cols() })
    }
}

} // verus!
