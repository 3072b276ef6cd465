//! The failures that vector and matrix operations report.

use vstd::prelude::*;

verus! {

/// Why an operation could not be carried out. Each variant carries the
/// lengths, shapes or indices that were at odds.
#[derive(Debug, Clone, Copy, PartialEq, Eq, Structural)]
pub enum LinalgError {
    /// Two vectors that must have one length have the lengths `left` and
    /// `right`.
    SizeMismatch { left: usize, right: usize },
    /// Two matrices that must have one shape have different shapes.
    DimensionMismatch { left_rows: usize, left_cols: usize, right_rows: usize, right_cols: usize },
    /// A matrix product whose left factor has `left_cols` columns and whose
    /// right factor has `right_rows` rows.
    IncompatibleShapes { left_cols: usize, right_rows: usize },
    /// A determinant was asked of a matrix that is not square, or that has
    /// no entry at all.
    NotSquare { n_rows: usize, n_cols: usize },
    /// The 2×2 determinant was asked of a matrix of another shape.
    WrongShape { n_rows: usize, n_cols: usize },
    /// There is no entry at (`row`, `col`).
    IndexOutOfBounds { row: usize, col: usize },
    /// Row `row` has `found` entries where the first row has `expected`.
    RaggedInput { row: usize, expected: usize, found: usize },
}

} // verus!
