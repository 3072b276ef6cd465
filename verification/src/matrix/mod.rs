//! Dense matrices of `i32`.

pub mod algebra;
pub mod determinant;
pub mod model;
pub mod random;

use crate::error::LinalgError;
use crate::matrix::model::{
    column, first_ragged, identity, is_matrix, is_uniform, normalized, rows_view, transposed,
    width,
};
use crate::vector;
use vstd::prelude::*;

verus! {

/// A rectangular array of `i32` with its numbers of rows and of columns.
///
/// A matrix is built by [`Matrix::from`] or another constructor and never
/// changes. Its view is the sequence of its rows, which always satisfies
/// [`is_matrix`].
#[derive(Debug)]
pub struct Matrix {
    array: Vec<Vec<i32>>,
    n_rows: usize,
    n_cols: usize,
}

impl View for Matrix {
    type V = Seq<Seq<i32>>;

    closed spec fn view(&self) -> Seq<Seq<i32>> {
        rows_view(self.array@)
    }
}

impl Matrix {
    #[verifier::type_invariant]
    spec fn inv(&self) -> bool {
        &&& is_matrix(self@)
        &&& self.n_rows == self@.len()
        &&& self.n_cols == width(self@)
    }

    /// The number of rows.
    pub fn n_rows(&self) -> (n: usize)
        ensures
            n == self@.len(),
            is_matrix(self@),
    {
        proof {
            use_type_invariant(self);
        }
        self.n_rows
    }

    /// The number of columns.
    pub fn n_cols(&self) -> (n: usize)
        ensures
            n == width(self@),
            is_matrix(self@),
    {
        proof {
            use_type_invariant(self);
        }
        self.n_cols
    }

    /// Whether the matrix has as many rows as columns.
    pub fn is_sqr(&self) -> (b: bool)
        ensures
            b == (self@.len() == width(self@)),
    {
        proof {
            use_type_invariant(self);
        }
        self.n_rows == self.n_cols
    }

    /// Row `index`, if there is one.
    pub fn row(&self, index: usize) -> (r: Option<&Vec<i32>>)
        ensures
            match r {
                Some(v) => index < self@.len() && v@ == self@[index as int],
                None => index >= self@.len(),
            },
    {
        if index < self.array.len() {
            Some(&self.array[index])
        } else {
            None
        }
    }

    /// All rows, from the first to the last.
    pub fn rows(&self) -> (r: &Vec<Vec<i32>>)
        ensures
            rows_view(r@) == self@,
            is_matrix(self@),
    {
        proof {
            use_type_invariant(self);
        }
        &self.array
    }

    /// Column `index` from the first row to the last, and the empty vector
    /// where the matrix has no such column.
    pub fn col(&self, index: usize) -> (r: Vec<i32>)
        ensures
            index < width(self@) ==> r@ == column(self@, index as int),
            index >= width(self@) ==> r@.len() == 0,
    {
        proof {
            use_type_invariant(self);
        }
        let mut res: Vec<i32> = vector::new(self.n_rows);
        if index >= self.n_cols {
            return res;
        }
        let mut i: usize = 0;
        while i < self.array.len()
            invariant
                is_matrix(self@),
                self@ == rows_view(self.array@),
                index < width(self@),
                i <= self.array@.len(),
                res@.len() == i,
                forall|k: int| 0 <= k < i ==> res@[k] == self@[k][index as int],
            decreases self.array@.len() - i,
        {
            let row: &Vec<i32> = &self.array[i];
            assert(row@ == self@[i as int]);
            res.push(row[index]);
            i = i + 1;
        }
        assert(res@ =~= column(self@, index as int));
        res
    }

    /// All columns, from the first to the last.
    pub fn cols(&self) -> (r: Vec<Vec<i32>>)
        ensures
            rows_view(r@) == transposed(self@),
    {
        proof {
            use_type_invariant(self);
        }
        let mut result: Vec<Vec<i32>> = Vec::with_capacity(self.n_cols);
        let mut j: usize = 0;
        while j < self.n_cols
            invariant
                self.n_cols == width(self@),
                j <= self.n_cols,
                result@.len() == j,
                forall|k: int| 0 <= k < j ==> (#[trigger] result@[k])@ == column(self@, k),
            decreases self.n_cols - j,
        {
            result.push(self.col(j));
            j = j + 1;
        }
        assert(rows_view(result@) =~= transposed(self@));
        result
    }

    /// The entry in row `i_row` and column `i_col`.
    pub fn get(&self, i_row: usize, i_col: usize) -> (r: Result<i32, LinalgError>)
        ensures
            match r {
                Ok(x) => i_row < self@.len() && i_col < width(self@) && x == self@[i_row as int][i_col as int],
                Err(e) => (i_row >= self@.len() || i_col >= width(self@)) && e == (
                LinalgError::IndexOutOfBounds { row: i_row, col: i_col }),
            },
    {
        proof {
            use_type_invariant(self);
        }
        if let Some(row) = self.row(i_row) {
            if i_col < row.len() {
                return Ok(row[i_col]);
            }
        }
        Err(LinalgError::IndexOutOfBounds { row: i_row, col: i_col })
    }
}

impl Matrix {
    /// The matrix without rows.
    fn empty() -> (m: Matrix)
        ensures
            m@.len() == 0,
    {
        Matrix { array: Self::empty_array(0), n_rows: 0, n_cols: 0 }
    }

    /// The matrix of the given rows where they all have the length of the
    /// first, or where the first has no entry, which gives the empty
    /// matrix; and otherwise the first row that has another length.
    pub fn from_rows(array: Vec<Vec<i32>>) -> (r: Result<Matrix, LinalgError>)
        ensures
            match r {
                Ok(m) => (width(rows_view(array@)) == 0 || is_uniform(rows_view(array@))) && m@
                    == normalized(rows_view(array@)),
                Err(e) => width(rows_view(array@)) > 0 && (e matches LinalgError::RaggedInput {
                    row,
                    expected,
                    found,
                } && first_ragged(rows_view(array@), row as int) && expected == width(
                    rows_view(array@),
                ) && found == rows_view(array@)[row as int].len()),
            },
    {
        let (is_empty, n_rows, n_cols) = Self::is_empty(&array);
        if is_empty {
            return Ok(Self::empty());
        }
        let mut i: usize = 1;
        while i < n_rows
            invariant
                n_rows == array@.len(),
                n_cols == width(rows_view(array@)),
                n_cols > 0,
                1 <= i <= n_rows,
                forall|k: int| 0 <= k < i ==> (#[trigger] rows_view(array@)[k]).len() == n_cols,
            decreases n_rows - i,
        {
            let found: usize = array[i].len();
            assert(rows_view(array@)[i as int] == array@[i as int]@);
            if found != n_cols {
                return Err(LinalgError::RaggedInput { row: i, expected: n_cols, found });
            }
            i = i + 1;
        }
        Ok(Matrix { array, n_rows, n_cols })
    }

    /// The matrix of the given rows. Rows that do not form a matrix (the
    /// first has no entry, or one differs in length from the first) give
    /// the empty matrix.
    pub fn from(array: Vec<Vec<i32>>) -> (m: Matrix)
        ensures
            m@ == normalized(rows_view(array@)),
    {
        match Self::from_rows(array) {
            Ok(m) => m,
            Err(_) => Self::empty(),
        }
    }

    /// The identity matrix with `sqr_n` rows and columns.
    pub fn id(sqr_n: usize) -> (m: Matrix)
        ensures
            m@ == identity(sqr_n as nat),
    {
        let mut array: Vec<Vec<i32>> = Self::empty_array(sqr_n);
        let mut row: usize = 0;
        while row < sqr_n
            invariant
                row <= sqr_n,
                array@.len() == row,
                forall|k: int| 0 <= k < row ==> (#[trigger] array@[k])@ == identity(sqr_n as nat)[k],
            decreases sqr_n - row,
        {
            let mut vec: Vec<i32> = vector::new(sqr_n);
            let mut col: usize = 0;
            while col < sqr_n
                invariant
                    row < sqr_n,
                    col <= sqr_n,
                    vec@.len() == col,
                    forall|k: int| 0 <= k < col ==> vec@[k] == identity(sqr_n as nat)[row as int][k],
                decreases sqr_n - col,
            {
                if col == row {
                    vec.push(1);
                } else {
                    vec.push(0);
                }
                col = col + 1;
            }
            assert(vec@ =~= identity(sqr_n as nat)[row as int]);
            array.push(vec);
            row = row + 1;
        }
        assert(rows_view(array@) =~= identity(sqr_n as nat));
        Self::from(array)
    }

    /// Whether the rows give the empty matrix at first sight (there is no
    /// row, or the first row has no entry), with the number of rows and the
    /// length of the first row.
    fn is_empty(array: &Vec<Vec<i32>>) -> (r: (bool, usize, usize))
        ensures
            r.0 == (width(rows_view(array@)) == 0),
            r.1 == array@.len(),
            r.2 == width(rows_view(array@)),
    {
        if array.len() == 0 {
            (true, 0, 0)
        } else {
            let first: &Vec<i32> = &array[0];
            (first.len() == 0, array.len(), first.len())
        }
    }

    /// No rows yet, with room for `size` of them.
    fn empty_array(size: usize) -> (array: Vec<Vec<i32>>)
        ensures
            array@.len() == 0,
    {
        Vec::with_capacity(size)
    }
}

} // verus!
