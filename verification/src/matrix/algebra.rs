//! Transpose, sum, difference, scalar multiple and product of matrices.

use crate::error::LinalgError;
use crate::matrix::model::{
    column, dimension_mismatch, incompatible_shapes, is_matrix, mat_diff, mat_scaled, mat_sum,
    product, rows_view, same_shape, transposed, width,
};
use crate::matrix::Matrix;
use crate::vector;
use vstd::prelude::*;

verus! {

impl Matrix {
    /// The matrix whose rows are the columns of this one.
    pub fn transpose(&self) -> (m: Matrix)
        ensures
            m@ == transposed(self@),
    {
        proof {
            use_type_invariant(self);
        }
        let columns: Vec<Vec<i32>> = self.cols();
        assert(is_matrix(transposed(self@))) by {
            assert forall|j: int| 0 <= j < transposed(self@).len() implies (
            #[trigger] transposed(self@)[j]).len() == width(transposed(self@)) by {
                assert(transposed(self@)[j] == column(self@, j));
                assert(transposed(self@)[0] == column(self@, 0));
            }
        }
        Self::from(columns)
    }

    /// Every entry of `matrix` multiplied by `scalar`.
    pub fn scalar_mult(matrix: &Matrix, scalar: i32) -> (m: Matrix)
        ensures
            m@ == mat_scaled(matrix@, scalar),
    {
        let rows: &Vec<Vec<i32>> = matrix.rows();
        let n: usize = rows.len();
        let mut result: Vec<Vec<i32>> = Self::empty_array(n);
        let mut i: usize = 0;
        while i < n
            invariant
                n == rows@.len(),
                rows_view(rows@) == matrix@,
                i <= n,
                result@.len() == i,
                forall|k: int|
                    0 <= k < i ==> (#[trigger] result@[k])@ == mat_scaled(matrix@, scalar)[k],
            decreases n - i,
        {
            assert(rows_view(rows@)[i as int] == rows@[i as int]@);
            result.push(vector::scalar_mult(rows[i].as_slice(), scalar));
            i = i + 1;
        }
        assert(rows_view(result@) =~= mat_scaled(matrix@, scalar));
        assert(is_matrix(mat_scaled(matrix@, scalar))) by {
            assert forall|k: int| 0 <= k < matrix@.len() implies (#[trigger] mat_scaled(
                matrix@,
                scalar,
            )[k]).len() == width(matrix@) by {
                assert(matrix@[k].len() == width(matrix@));
            }
        }
        Self::from(result)
    }

    /// The entry-wise sum of two matrices of one shape.
    pub fn sum(m1: &Matrix, m2: &Matrix) -> (r: Result<Matrix, LinalgError>)
        ensures
            match r {
                Ok(m) => same_shape(m1@, m2@) && m@ == mat_sum(m1@, m2@),
                Err(e) => !same_shape(m1@, m2@) && e == dimension_mismatch(m1@, m2@),
            },
    {
        proof {
            use_type_invariant(m1);
            use_type_invariant(m2);
        }
        if Self::equal_size(m1, m2) {
            let size: usize = m1.n_rows();
            let mut result: Vec<Vec<i32>> = Self::empty_array(size);
            let mut index: usize = 0;
            while index < size
                invariant
                    same_shape(m1@, m2@),
                    is_matrix(m1@),
                    is_matrix(m2@),
                    size == m1@.len(),
                    index <= size,
                    result@.len() == index,
                    forall|k: int|
                        0 <= k < index ==> (#[trigger] result@[k])@ == mat_sum(m1@, m2@)[k],
                decreases size - index,
            {
                if let Some(vec1) = m1.row(index) {
                    if let Some(vec2) = m2.row(index) {
                        assert(m1@[index as int].len() == width(m1@));
                        assert(m2@[index as int].len() == width(m2@));
                        if let Ok(sum) = vector::sum(vec1.as_slice(), vec2.as_slice()) {
                            result.push(sum);
                        }
                    }
                }
                index = index + 1;
            }
            assert(rows_view(result@) =~= mat_sum(m1@, m2@));
            assert(is_matrix(mat_sum(m1@, m2@))) by {
                assert forall|k: int| 0 <= k < m1@.len() implies (#[trigger] mat_sum(
                    m1@,
                    m2@,
                )[k]).len() == width(m1@) by {
                    assert(m1@[k].len() == width(m1@));
                }
            }
            return Ok(Self::from(result));
        }
        Err(
            LinalgError::DimensionMismatch {
                left_rows: m1.n_rows(),
                left_cols: m1.n_cols(),
                right_rows: m2.n_rows(),
                right_cols: m2.n_cols(),
            },
        )
    }

    /// The entry-wise difference of two matrices of one shape.
    pub fn diff(m1: &Matrix, m2: &Matrix) -> (r: Result<Matrix, LinalgError>)
        ensures
            match r {
                Ok(m) => same_shape(m1@, m2@) && m@ == mat_diff(m1@, m2@),
                Err(e) => !same_shape(m1@, m2@) && e == dimension_mismatch(m1@, m2@),
            },
    {
        let negated: Matrix = Self::scalar_mult(m2, -1);
        Self::sum(m1, &negated)
    }

    /// The matrix product of `m1` and `m2`, which exists where `m1` has as
    /// many columns as `m2` has rows.
    pub fn dot_prod(m1: &Matrix, m2: &Matrix) -> (r: Result<Matrix, LinalgError>)
        ensures
            match r {
                Ok(m) => width(m1@) == m2@.len() && m@ == product(m1@, m2@),
                Err(e) => width(m1@) != m2@.len() && e == incompatible_shapes(m1@, m2@),
            },
    {
        let n_rows: usize = m1.n_rows();
        let n_cols: usize = m2.n_cols();
        if m1.n_cols() == m2.n_rows() {
            let mut result: Vec<Vec<i32>> = Self::empty_array(n_rows);
            let mut row: usize = 0;
            while row < n_rows
                invariant
                    is_matrix(m1@),
                    is_matrix(m2@),
                    width(m1@) == m2@.len(),
                    n_rows == m1@.len(),
                    n_cols == width(m2@),
                    row <= n_rows,
                    result@.len() == row,
                    forall|k: int|
                        0 <= k < row ==> (#[trigger] result@[k])@ == product(m1@, m2@)[k],
                decreases n_rows - row,
            {
                let mut vec: Vec<i32> = vector::new(n_cols);
                let mut col: usize = 0;
                while col < n_cols
                    invariant
                        is_matrix(m1@),
                        is_matrix(m2@),
                        width(m1@) == m2@.len(),
                        n_rows == m1@.len(),
                        n_cols == width(m2@),
                        row < n_rows,
                        col <= n_cols,
                        vec@.len() == col,
                        forall|k: int|
                            0 <= k < col ==> vec@[k] == product(m1@, m2@)[row as int][k],
                    decreases n_cols - col,
                {
                    if let Some(v) = m1.row(row) {
                        let column: Vec<i32> = m2.col(col);
                        assert(m1@[row as int].len() == width(m1@));
                        if let Ok(prod) = vector::dot_prod(v.as_slice(), column.as_slice()) {
                            vec.push(prod);
                        }
                    }
                    col = col + 1;
                }
                assert(vec@ =~= product(m1@, m2@)[row as int]);
                result.push(vec);
                row = row + 1;
            }
            assert(rows_view(result@) =~= product(m1@, m2@));
            assert(is_matrix(product(m1@, m2@))) by {
                if m1@.len() > 0 {
                    assert(m1@[0].len() == width(m1@));
                    assert(product(m1@, m2@)[0].len() == width(m2@));
                }
            }
            return Ok(Self::from(result));
        }
        Err(LinalgError::IncompatibleShapes { left_cols: m1.n_cols(), right_rows: m2.n_rows() })
    }

    /// Whether the two matrices have the same numbers of rows and columns.
    pub fn equal_size(m1: &Matrix, m2: &Matrix) -> (b: bool)
        ensures
            b == same_shape(m1@, m2@),
    {
        m1.n_cols() == m2.n_cols() && m1.n_rows() == m2.n_rows()
    }
}

} // verus!
