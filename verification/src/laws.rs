//! What holds of the operations for every matrix.

use crate::arith::{lemma_wrap_add, wrap};
use crate::matrix::determinant::{lemma_det_2x2, lemma_minor_entry, lemma_minor_shape};
use crate::matrix::model::{
    cofactors, column, det, identity, is_matrix, mat_diff, mat_scaled, mat_sum, minor, product,
    same_shape, sign, transposed, width, zero_like,
};
use crate::vector::dot;
use vstd::prelude::*;

verus! {

/// A dot product with a vector of zeros is 0.
pub proof fn lemma_dot_zero(a: Seq<i32>, z: Seq<i32>)
    requires
        a.len() == z.len(),
        forall|i: int| 0 <= i < z.len() ==> z[i] == 0,
    ensures
        dot(a, z) == 0,
    decreases a.len(),
{
    if a.len() > 0 {
        lemma_dot_zero(a.drop_last(), z.drop_last());
        let x: int = a.last() as int;
        let y: int = z.last() as int;
        assert(x * y == 0) by (nonlinear_arith)
            requires
                y == 0,
        ;
    }
}

/// The dot product with the vector that is 1 at `j` and 0 elsewhere is the
/// element at `j`.
pub proof fn lemma_dot_unit(a: Seq<i32>, e: Seq<i32>, j: int)
    requires
        a.len() == e.len(),
        0 <= j < a.len(),
        forall|i: int| 0 <= i < e.len() ==> e[i] == (if i == j { 1i32 } else { 0i32 }),
    ensures
        dot(a, e) == a[j],
    decreases a.len(),
{
    let x: int = a.last() as int;
    let y: int = e.last() as int;
    if j == a.len() - 1 {
        lemma_dot_zero(a.drop_last(), e.drop_last());
        assert(x * y == x) by (nonlinear_arith)
            requires
                y == 1,
        ;
    } else {
        lemma_dot_unit(a.drop_last(), e.drop_last(), j);
        assert(x * y == 0) by (nonlinear_arith)
            requires
                y == 0,
        ;
    }
}

/// Each entry of a difference of two matrices of one shape is the wrapped
/// difference of the entries.
pub proof fn lemma_diff_entries(a: Seq<Seq<i32>>, b: Seq<Seq<i32>>, i: int, j: int)
    requires
        is_matrix(a),
        is_matrix(b),
        same_shape(a, b),
        0 <= i < a.len(),
        0 <= j < width(a),
    ensures
        mat_diff(a, b)[i].len() == width(a),
        mat_diff(a, b)[i][j] == wrap(a[i][j] - b[i][j]),
{
    assert(a[i].len() == width(a));
    assert(b[i].len() == width(b));
    crate::vector::lemma_diff_entries(a[i], b[i], j);
}

/// Adding a matrix and taking it away again gives the matrix one began
/// with.
pub proof fn lemma_sum_then_diff(a: Seq<Seq<i32>>, b: Seq<Seq<i32>>)
    requires
        is_matrix(a),
        is_matrix(b),
        same_shape(a, b),
    ensures
        mat_diff(mat_sum(a, b), b) == a,
{
    let r: Seq<Seq<i32>> = mat_diff(mat_sum(a, b), b);
    assert(r.len() == a.len());
    assert forall|i: int| 0 <= i < a.len() implies #[trigger] r[i] =~= a[i] by {
        assert(a[i].len() == width(a));
        assert(b[i].len() == width(b));
        assert forall|j: int| 0 <= j < a[i].len() implies r[i][j] == a[i][j] by {
            lemma_wrap_add(a[i][j] + b[i][j], b[i][j] * -1);
        }
    }
    assert(r =~= a);
}

/// Transposing twice gives the matrix one began with.
pub proof fn lemma_transpose_twice(m: Seq<Seq<i32>>)
    requires
        is_matrix(m),
    ensures
        transposed(transposed(m)) == m,
{
    let t: Seq<Seq<i32>> = transposed(m);
    let r: Seq<Seq<i32>> = transposed(t);
    if m.len() > 0 {
        assert(t[0] == column(m, 0));
        assert(width(t) == m.len());
        assert forall|i: int| 0 <= i < m.len() implies #[trigger] r[i] =~= m[i] by {
            assert(m[i].len() == width(m));
            assert forall|j: int| 0 <= j < m[i].len() implies r[i][j] == m[i][j] by {
                assert(t[j] == column(m, j));
            }
        }
    }
    assert(r =~= m);
}

/// Multiplying by the identity on the right gives the matrix one began
/// with.
pub proof fn lemma_product_identity(a: Seq<Seq<i32>>)
    requires
        is_matrix(a),
    ensures
        product(a, identity(width(a))) == a,
{
    let n: nat = width(a);
    let id: Seq<Seq<i32>> = identity(n);
    let r: Seq<Seq<i32>> = product(a, id);
    if a.len() > 0 {
        assert(id[0].len() == n);
        assert(width(id) == n);
        assert forall|i: int| 0 <= i < a.len() implies #[trigger] r[i] =~= a[i] by {
            assert(a[i].len() == n);
            assert forall|j: int| 0 <= j < n implies r[i][j] == a[i][j] by {
                lemma_dot_unit(a[i], column(id, j), j);
            }
        }
    }
    assert(r =~= a);
}

/// Multiplying every entry by 1 changes nothing.
pub proof fn lemma_scale_by_one(m: Seq<Seq<i32>>)
    ensures
        mat_scaled(m, 1) == m,
{
    assert forall|i: int| 0 <= i < m.len() implies #[trigger] mat_scaled(m, 1)[i] =~= m[i] by {}
    assert(mat_scaled(m, 1) =~= m);
}

/// Multiplying every entry by 0 gives the matrix of zeros of the same
/// shape.
pub proof fn lemma_scale_by_zero(m: Seq<Seq<i32>>)
    ensures
        mat_scaled(m, 0) == zero_like(m),
        same_shape(zero_like(m), m),
{
    assert forall|i: int| 0 <= i < m.len() implies #[trigger] mat_scaled(m, 0)[i] =~= zero_like(
        m,
    )[i] by {}
    assert(mat_scaled(m, 0) =~= zero_like(m));
}

/// An identity matrix without its first row and first column is the
/// identity matrix with one row less.
pub proof fn lemma_minor_identity(n: nat)
    requires
        n >= 2,
    ensures
        minor(identity(n), 0, 0) == identity((n - 1) as nat),
{
    let m: Seq<Seq<i32>> = identity(n);
    let smaller: Seq<Seq<i32>> = identity((n - 1) as nat);
    assert(m[0].len() == n);
    lemma_minor_shape(m, 0, 0);
    assert forall|i: int| 0 <= i < n - 1 implies #[trigger] minor(m, 0, 0)[i] =~= smaller[i] by {
        assert forall|j: int| 0 <= j < n - 1 implies minor(m, 0, 0)[i][j] == smaller[i][j] by {
            lemma_minor_entry(m, 0, 0, i, j);
        }
        lemma_minor_entry(m, 0, 0, i, 0);
    }
    assert(minor(m, 0, 0) =~= smaller);
}

/// The first `k` terms of the Laplace expansion of an identity matrix with
/// two rows or more add up to 1, for every `k` but 0.
proof fn lemma_cofactors_identity(n: nat, k: nat)
    requires
        n >= 2,
        1 <= k <= n,
    ensures
        cofactors(identity(n), k) == 1,
    decreases n, k,
{
    let m: Seq<Seq<i32>> = identity(n);
    assert(m[0].len() == n);
    if k == 1 {
        lemma_minor_identity(n);
        lemma_det_identity((n - 1) as nat);
        assert(cofactors(m, 0) == 0);
        assert(cofactors(m, 1) == cofactors(m, 0) + sign(0) * (m[0][0] * det(minor(m, 0, 0))));
    } else {
        lemma_cofactors_identity(n, (k - 1) as nat);
        let j: int = k - 1;
        assert(m[0][j] == 0);
        assert(cofactors(m, k) == cofactors(m, j as nat) + sign(j) * (m[0][j] * det(
            minor(m, 0, j),
        )));
        assert(m[0][j] * det(minor(m, 0, j)) == 0) by (nonlinear_arith)
            requires
                m[0][j] == 0,
        ;
    }
}

/// The determinant of an identity matrix is 1.
pub proof fn lemma_det_identity(n: nat)
    requires
        n >= 1,
    ensures
        det(identity(n)) == 1,
    decreases n, n + 1,
{
    if n >= 2 {
        lemma_cofactors_identity(n, n);
    }
}

/// The determinant of a 1×1 matrix is its entry.
pub proof fn lemma_det_1x1(m: Seq<Seq<i32>>)
    requires
        is_matrix(m),
        m.len() == 1,
        width(m) == 1,
    ensures
        det(m) == m[0][0],
{
}

/// The determinant of a 3×3 matrix as the sum over the six permutations of
/// its columns: the product of the entries that a permutation picks, one
/// in each row, with the sign of the permutation.
pub open spec fn permutation_sum_3(m: Seq<Seq<i32>>) -> int {
    m[0][0] * m[1][1] * m[2][2]
        - m[0][0] * m[1][2] * m[2][1]
        - m[0][1] * m[1][0] * m[2][2]
        + m[0][1] * m[1][2] * m[2][0]
        + m[0][2] * m[1][0] * m[2][1]
        - m[0][2] * m[1][1] * m[2][0]
}

/// The determinant of a 4×4 matrix as the sum over the twenty-four
/// permutations of its columns: the product of the entries that a
/// permutation picks, one in each row, with the sign of the permutation.
pub open spec fn permutation_sum_4(m: Seq<Seq<i32>>) -> int {
    m[0][0] * m[1][1] * m[2][2] * m[3][3]
        - m[0][0] * m[1][1] * m[2][3] * m[3][2]
        - m[0][0] * m[1][2] * m[2][1] * m[3][3]
        + m[0][0] * m[1][2] * m[2][3] * m[3][1]
        + m[0][0] * m[1][3] * m[2][1] * m[3][2]
        - m[0][0] * m[1][3] * m[2][2] * m[3][1]
        - m[0][1] * m[1][0] * m[2][2] * m[3][3]
        + m[0][1] * m[1][0] * m[2][3] * m[3][2]
        + m[0][1] * m[1][2] * m[2][0] * m[3][3]
        - m[0][1] * m[1][2] * m[2][3] * m[3][0]
        - m[0][1] * m[1][3] * m[2][0] * m[3][2]
        + m[0][1] * m[1][3] * m[2][2] * m[3][0]
        + m[0][2] * m[1][0] * m[2][1] * m[3][3]
        - m[0][2] * m[1][0] * m[2][3] * m[3][1]
        - m[0][2] * m[1][1] * m[2][0] * m[3][3]
        + m[0][2] * m[1][1] * m[2][3] * m[3][0]
        + m[0][2] * m[1][3] * m[2][0] * m[3][1]
        - m[0][2] * m[1][3] * m[2][1] * m[3][0]
        - m[0][3] * m[1][0] * m[2][1] * m[3][2]
        + m[0][3] * m[1][0] * m[2][2] * m[3][1]
        + m[0][3] * m[1][1] * m[2][0] * m[3][2]
        - m[0][3] * m[1][1] * m[2][2] * m[3][0]
        - m[0][3] * m[1][2] * m[2][0] * m[3][1]
        + m[0][3] * m[1][2] * m[2][1] * m[3][0]
}

/// The determinant of a 3×3 matrix is the sum over the permutations of its
/// columns.
pub proof fn lemma_det_3x3(m: Seq<Seq<i32>>)
    requires
        is_matrix(m),
        m.len() == 3,
        width(m) == 3,
    ensures
        det(m) == permutation_sum_3(m),
{
    assert(m[0].len() == 3);
    assert(m[1].len() == 3);
    assert(m[2].len() == 3);
    let e00: int = m[0][0] as int;
    let e01: int = m[0][1] as int;
    let e02: int = m[0][2] as int;
    let e10: int = m[1][0] as int;
    let e11: int = m[1][1] as int;
    let e12: int = m[1][2] as int;
    let e20: int = m[2][0] as int;
    let e21: int = m[2][1] as int;
    let e22: int = m[2][2] as int;
    let t0: int = det(minor(m, 0, 0));
    assert(t0 == e11 * e22 - e12 * e21) by {
        lemma_minor_shape(m, 0, 0);
        lemma_det_2x2(minor(m, 0, 0));
        lemma_minor_entry(m, 0, 0, 0, 0);
        lemma_minor_entry(m, 0, 0, 0, 1);
        lemma_minor_entry(m, 0, 0, 1, 0);
        lemma_minor_entry(m, 0, 0, 1, 1);
    }
    let t1: int = det(minor(m, 0, 1));
    assert(t1 == e10 * e22 - e12 * e20) by {
        lemma_minor_shape(m, 0, 1);
        lemma_det_2x2(minor(m, 0, 1));
        lemma_minor_entry(m, 0, 1, 0, 0);
        lemma_minor_entry(m, 0, 1, 0, 1);
        lemma_minor_entry(m, 0, 1, 1, 0);
        lemma_minor_entry(m, 0, 1, 1, 1);
    }
    let t2: int = det(minor(m, 0, 2));
    assert(t2 == e10 * e21 - e11 * e20) by {
        lemma_minor_shape(m, 0, 2);
        lemma_det_2x2(minor(m, 0, 2));
        lemma_minor_entry(m, 0, 2, 0, 0);
        lemma_minor_entry(m, 0, 2, 0, 1);
        lemma_minor_entry(m, 0, 2, 1, 0);
        lemma_minor_entry(m, 0, 2, 1, 1);
    }
    assert(cofactors(m, 0) == 0);
    assert(cofactors(m, 1) == cofactors(m, 0) + sign(0) * (e00 * t0));
    assert(cofactors(m, 2) == cofactors(m, 1) + sign(1) * (e01 * t1));
    assert(cofactors(m, 3) == cofactors(m, 2) + sign(2) * (e02 * t2));
    assert(e00 * t0 == e00 * e11 * e22 - e00 * e12 * e21) by (nonlinear_arith)
        requires
            t0 == e11 * e22 - e12 * e21,
    ;
    assert(e01 * t1 == e01 * e10 * e22 - e01 * e12 * e20) by (nonlinear_arith)
        requires
            t1 == e10 * e22 - e12 * e20,
    ;
    assert(e02 * t2 == e02 * e10 * e21 - e02 * e11 * e20) by (nonlinear_arith)
        requires
            t2 == e10 * e21 - e11 * e20,
    ;
}

/// A factor before a sum of six terms with the signs of the permutations
/// of three things goes into each term.
proof fn lemma_distribute_six(k: int, p0: int, p1: int, p2: int, p3: int, p4: int, p5: int)
    by (nonlinear_arith)
    ensures
        k * (p0 - p1 - p2 + p3 + p4 - p5) == k * p0 - k * p1 - k * p2 + k * p3 + k * p4 - k * p5,
{
}

/// A factor before a product of three goes to its front.
proof fn lemma_factor_to_front(k: int, a: int, b: int, c: int)
    by (nonlinear_arith)
    ensures
        k * (a * b * c) == k * a * b * c,
{
}

/// The determinant of a 4×4 matrix is the sum over the permutations of its
/// columns.
pub proof fn lemma_det_4x4(m: Seq<Seq<i32>>)
    requires
        is_matrix(m),
        m.len() == 4,
        width(m) == 4,
    ensures
        det(m) == permutation_sum_4(m),
{
    assert(m[0].len() == 4);
    assert(m[1].len() == 4);
    assert(m[2].len() == 4);
    assert(m[3].len() == 4);
    let e00: int = m[0][0] as int;
    let e01: int = m[0][1] as int;
    let e02: int = m[0][2] as int;
    let e03: int = m[0][3] as int;
    let e10: int = m[1][0] as int;
    let e11: int = m[1][1] as int;
    let e12: int = m[1][2] as int;
    let e13: int = m[1][3] as int;
    let e20: int = m[2][0] as int;
    let e21: int = m[2][1] as int;
    let e22: int = m[2][2] as int;
    let e23: int = m[2][3] as int;
    let e30: int = m[3][0] as int;
    let e31: int = m[3][1] as int;
    let e32: int = m[3][2] as int;
    let e33: int = m[3][3] as int;
    let t0: int = det(minor(m, 0, 0));
    assert(t0 == e11 * e22 * e33 - e11 * e23 * e32 - e12 * e21 * e33 + e12 * e23 * e31 + e13 * e21 * e32 - e13 * e22 * e31) by {
        lemma_minor_shape(m, 0, 0);
        lemma_det_3x3(minor(m, 0, 0));
        lemma_minor_entry(m, 0, 0, 0, 0);
        lemma_minor_entry(m, 0, 0, 0, 1);
        lemma_minor_entry(m, 0, 0, 0, 2);
        lemma_minor_entry(m, 0, 0, 1, 0);
        lemma_minor_entry(m, 0, 0, 1, 1);
        lemma_minor_entry(m, 0, 0, 1, 2);
        lemma_minor_entry(m, 0, 0, 2, 0);
        lemma_minor_entry(m, 0, 0, 2, 1);
        lemma_minor_entry(m, 0, 0, 2, 2);
    }
    assert(e00 * t0 == e00 * e11 * e22 * e33 - e00 * e11 * e23 * e32 - e00 * e12 * e21 * e33 + e00 * e12 * e23 * e31 + e00 * e13 * e21 * e32 - e00 * e13 * e22 * e31) by {
        lemma_distribute_six(e00, e11 * e22 * e33, e11 * e23 * e32, e12 * e21 * e33, e12 * e23 * e31, e13 * e21 * e32, e13 * e22 * e31);
        lemma_factor_to_front(e00, e11, e22, e33);
        lemma_factor_to_front(e00, e11, e23, e32);
        lemma_factor_to_front(e00, e12, e21, e33);
        lemma_factor_to_front(e00, e12, e23, e31);
        lemma_factor_to_front(e00, e13, e21, e32);
        lemma_factor_to_front(e00, e13, e22, e31);
    }
    let t1: int = det(minor(m, 0, 1));
    assert(t1 == e10 * e22 * e33 - e10 * e23 * e32 - e12 * e20 * e33 + e12 * e23 * e30 + e13 * e20 * e32 - e13 * e22 * e30) by {
        lemma_minor_shape(m, 0, 1);
        lemma_det_3x3(minor(m, 0, 1));
        lemma_minor_entry(m, 0, 1, 0, 0);
        lemma_minor_entry(m, 0, 1, 0, 1);
        lemma_minor_entry(m, 0, 1, 0, 2);
        lemma_minor_entry(m, 0, 1, 1, 0);
        lemma_minor_entry(m, 0, 1, 1, 1);
        lemma_minor_entry(m, 0, 1, 1, 2);
        lemma_minor_entry(m, 0, 1, 2, 0);
        lemma_minor_entry(m, 0, 1, 2, 1);
        lemma_minor_entry(m, 0, 1, 2, 2);
    }
    assert(e01 * t1 == e01 * e10 * e22 * e33 - e01 * e10 * e23 * e32 - e01 * e12 * e20 * e33 + e01 * e12 * e23 * e30 + e01 * e13 * e20 * e32 - e01 * e13 * e22 * e30) by {
        lemma_distribute_six(e01, e10 * e22 * e33, e10 * e23 * e32, e12 * e20 * e33, e12 * e23 * e30, e13 * e20 * e32, e13 * e22 * e30);
        lemma_factor_to_front(e01, e10, e22, e33);
        lemma_factor_to_front(e01, e10, e23, e32);
        lemma_factor_to_front(e01, e12, e20, e33);
        lemma_factor_to_front(e01, e12, e23, e30);
        lemma_factor_to_front(e01, e13, e20, e32);
        lemma_factor_to_front(e01, e13, e22, e30);
    }
    let t2: int = det(minor(m, 0, 2));
    assert(t2 == e10 * e21 * e33 - e10 * e23 * e31 - e11 * e20 * e33 + e11 * e23 * e30 + e13 * e20 * e31 - e13 * e21 * e30) by {
        lemma_minor_shape(m, 0, 2);
        lemma_det_3x3(minor(m, 0, 2));
        lemma_minor_entry(m, 0, 2, 0, 0);
        lemma_minor_entry(m, 0, 2, 0, 1);
        lemma_minor_entry(m, 0, 2, 0, 2);
        lemma_minor_entry(m, 0, 2, 1, 0);
        lemma_minor_entry(m, 0, 2, 1, 1);
        lemma_minor_entry(m, 0, 2, 1, 2);
        lemma_minor_entry(m, 0, 2, 2, 0);
        lemma_minor_entry(m, 0, 2, 2, 1);
        lemma_minor_entry(m, 0, 2, 2, 2);
    }
    assert(e02 * t2 == e02 * e10 * e21 * e33 - e02 * e10 * e23 * e31 - e02 * e11 * e20 * e33 + e02 * e11 * e23 * e30 + e02 * e13 * e20 * e31 - e02 * e13 * e21 * e30) by {
        lemma_distribute_six(e02, e10 * e21 * e33, e10 * e23 * e31, e11 * e20 * e33, e11 * e23 * e30, e13 * e20 * e31, e13 * e21 * e30);
        lemma_factor_to_front(e02, e10, e21, e33);
        lemma_factor_to_front(e02, e10, e23, e31);
        lemma_factor_to_front(e02, e11, e20, e33);
        lemma_factor_to_front(e02, e11, e23, e30);
        lemma_factor_to_front(e02, e13, e20, e31);
        lemma_factor_to_front(e02, e13, e21, e30);
    }
    let t3: int = det(minor(m, 0, 3));
    assert(t3 == e10 * e21 * e32 - e10 * e22 * e31 - e11 * e20 * e32 + e11 * e22 * e30 + e12 * e20 * e31 - e12 * e21 * e30) by {
        lemma_minor_shape(m, 0, 3);
        lemma_det_3x3(minor(m, 0, 3));
        lemma_minor_entry(m, 0, 3, 0, 0);
        lemma_minor_entry(m, 0, 3, 0, 1);
        lemma_minor_entry(m, 0, 3, 0, 2);
        lemma_minor_entry(m, 0, 3, 1, 0);
        lemma_minor_entry(m, 0, 3, 1, 1);
        lemma_minor_entry(m, 0, 3, 1, 2);
        lemma_minor_entry(m, 0, 3, 2, 0);
        lemma_minor_entry(m, 0, 3, 2, 1);
        lemma_minor_entry(m, 0, 3, 2, 2);
    }
    assert(e03 * t3 == e03 * e10 * e21 * e32 - e03 * e10 * e22 * e31 - e03 * e11 * e20 * e32 + e03 * e11 * e22 * e30 + e03 * e12 * e20 * e31 - e03 * e12 * e21 * e30) by {
        lemma_distribute_six(e03, e10 * e21 * e32, e10 * e22 * e31, e11 * e20 * e32, e11 * e22 * e30, e12 * e20 * e31, e12 * e21 * e30);
        lemma_factor_to_front(e03, e10, e21, e32);
        lemma_factor_to_front(e03, e10, e22, e31);
        lemma_factor_to_front(e03, e11, e20, e32);
        lemma_factor_to_front(e03, e11, e22, e30);
        lemma_factor_to_front(e03, e12, e20, e31);
        lemma_factor_to_front(e03, e12, e21, e30);
    }
    assert(cofactors(m, 0) == 0);
    assert(cofactors(m, 1) == cofactors(m, 0) + sign(0) * (e00 * t0));
    assert(cofactors(m, 2) == cofactors(m, 1) + sign(1) * (e01 * t1));
    assert(cofactors(m, 3) == cofactors(m, 2) + sign(2) * (e02 * t2));
    assert(cofactors(m, 4) == cofactors(m, 3) + sign(3) * (e03 * t3));
}

} // verus!
