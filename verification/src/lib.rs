//! Dense matrices and vectors of `i32` with verified arithmetic.
//!
//! Every operation is total: sums and products are taken modulo 2^32
//! (two's complement), so no input makes an operation fail for want of
//! room. Contracts state results over mathematical integers through
//! [`arith::wrap`], which is the identity on every value that fits an `i32`.

pub mod arith;
pub mod error;
pub mod vector;
pub mod laws;
pub mod matrix;
