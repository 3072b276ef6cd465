//! Matrices with entries drawn at random.

use crate::matrix::model::{is_matrix, rows_view, width};
use crate::matrix::Matrix;
use crate::vector;
use rand::Rng;
use vstd::prelude::*;

verus! {

/// The least value of a random entry.
pub const ENTRY_MIN: i32 = -4;

/// The greatest value of a random entry.
pub const ENTRY_MAX: i32 = 4;

/// The least number of rows, and of columns, of a matrix of random shape.
pub const DIM_MIN: usize = 1;

/// The greatest number of rows, and of columns, of a matrix of random
/// shape.
pub const DIM_MAX: usize = 4;

/// Every entry lies between `low` and `high`, both included.
pub open spec fn entries_within(m: Seq<Seq<i32>>, low: int, high: int) -> bool {
    forall|i: int, j: int|
        0 <= i < m.len() && 0 <= j < m[i].len() ==> low <= #[trigger] m[i][j] <= high
}

/// Draws from the thread's generator with `rand::Rng::gen_range`.
///
/// Trusted: for `low < high` the call returns a value that is at least
/// `low` and less than `high`. Nothing is claimed of which value it is. The
/// call does not return for `low >= high`, which `requires` leaves out, and
/// gives up where the operating system cannot seed the generator.
#[verifier::external_body]
fn gen_range(low: i32, high: i32) -> (r: i32)
    requires
        low < high,
    ensures
        low <= r < high,
{
    rand::thread_rng().gen_range(low, high)
}

impl Matrix {
    /// A square matrix with `size` rows whose entries are drawn from
    /// `ENTRY_MIN` to `ENTRY_MAX`.
    pub fn rand_sqr(size: usize) -> (m: Matrix)
        ensures
            is_matrix(m@),
            m@.len() == size,
            width(m@) == size,
            entries_within(m@, ENTRY_MIN as int, ENTRY_MAX as int),
    {
        Self::from(Self::rand_array(size, size))
    }

    /// A matrix whose numbers of rows and of columns are each drawn from
    /// `DIM_MIN` to `DIM_MAX`, and whose entries are drawn from `ENTRY_MIN`
    /// to `ENTRY_MAX`.
    pub fn rand() -> (m: Matrix)
        ensures
            is_matrix(m@),
            DIM_MIN <= m@.len() <= DIM_MAX,
            DIM_MIN <= width(m@) <= DIM_MAX,
            entries_within(m@, ENTRY_MIN as int, ENTRY_MAX as int),
    {
        let rows: usize = gen_range(1, 5) as usize;
        let cols: usize = gen_range(1, 5) as usize;
        Self::from(Self::rand_array(rows, cols))
    }

    /// `n_rows` rows of `n_cols` entries each, every entry drawn from
    /// `ENTRY_MIN` to `ENTRY_MAX`.
    fn rand_array(n_rows: usize, n_cols: usize) -> (array: Vec<Vec<i32>>)
        ensures
            array@.len() == n_rows,
            forall|i: int| 0 <= i < n_rows ==> (#[trigger] rows_view(array@)[i]).len() == n_cols,
            entries_within(rows_view(array@), ENTRY_MIN as int, ENTRY_MAX as int),
    {
        let mut array: Vec<Vec<i32>> = Self::empty_array(n_rows);
        let mut row: usize = 0;
        while row < n_rows
            invariant
                row <= n_rows,
                array@.len() == row,
                forall|i: int| 0 <= i < row ==> (#[trigger] array@[i])@.len() == n_cols,
                forall|i: int, j: int|
                    0 <= i < row && 0 <= j < n_cols ==> ENTRY_MIN <= #[trigger] array@[i]@[j]
                        <= ENTRY_MAX,
            decreases n_rows - row,
        {
            let mut vec: Vec<i32> = vector::new(n_cols);
            let mut col: usize = 0;
            while col < n_cols
                invariant
                    col <= n_cols,
                    vec@.len() == col,
                    forall|j: int| 0 <= j < col ==> ENTRY_MIN <= #[trigger] vec@[j] <= ENTRY_MAX,
                decreases n_cols - col,
            {
                vec.push(gen_range(ENTRY_MIN, ENTRY_MAX + 1));
                col = col + 1;
            }
            array.push(vec);
            row = row + 1;
        }
        array
    }
}

} // verus!
