use linalg::arith;
use linalg::error::LinalgError;
use linalg::matrix::Matrix;

fn without_rows() -> Vec<Vec<i32>> {
    Vec::new()
}

/// Every ordering of `0..n`, each with its sign.
fn signed_permutations(n: usize) -> Vec<(Vec<usize>, i64)> {
    let mut all: Vec<(Vec<usize>, i64)> = vec![(Vec::new(), 1)];
    for _ in 0..n {
        let mut next: Vec<(Vec<usize>, i64)> = Vec::new();
        for (picked, sign) in &all {
            for c in 0..n {
                if !picked.contains(&c) {
                    let larger: usize = picked.iter().filter(|p| **p > c).count();
                    let mut grown: Vec<usize> = picked.clone();
                    grown.push(c);
                    next.push((grown, if larger % 2 == 0 { *sign } else { -*sign }));
                }
            }
        }
        all = next;
    }
    all
}

/// The determinant as the sum over all permutations of the columns.
fn reference_det(rows: &Vec<Vec<i32>>) -> i64 {
    let n: usize = rows.len();
    let mut total: i64 = 0;
    for (perm, sign) in signed_permutations(n) {
        let mut product: i64 = sign;
        for i in 0..n {
            product *= rows[i][perm[i]] as i64;
        }
        total += product;
    }
    total
}

/// A square matrix of small entries that depend on `seed`.
fn sample(n: usize, seed: u32) -> Vec<Vec<i32>> {
    let mut state: u32 = seed.wrapping_mul(2654435761).wrapping_add(12345);
    let mut rows: Vec<Vec<i32>> = Vec::new();
    for _ in 0..n {
        let mut row: Vec<i32> = Vec::new();
        for _ in 0..n {
            state = state.wrapping_mul(1664525).wrapping_add(1013904223);
            row.push(((state >> 16) % 19) as i32 - 9);
        }
        rows.push(row);
    }
    rows
}

#[test]
fn det_identity_is_one() {
    for n in 1..7 {
        assert_eq!(Matrix::id(n).det(), Ok(1));
    }
}

#[test]
fn det_one_by_one_is_entry() {
    assert_eq!(Matrix::from(vec![vec![7]]).det(), Ok(7));
    assert_eq!(Matrix::from(vec![vec![-3]]).det(), Ok(-3));
    assert_eq!(Matrix::from(vec![vec![i32::MIN]]).det(), Ok(i32::MIN));
}

#[test]
fn det_two_by_two() {
    let a: Matrix = Matrix::from(vec![vec![1, 2], vec![3, 4]]);
    assert_eq!(a.det(), Ok(-2));
    assert_eq!(a.det_2x2(), Ok(-2));
    assert_eq!(Matrix::from(vec![vec![2, 0], vec![0, 3]]).det(), Ok(6));
}

#[test]
fn det_three_by_three_has_alternating_signs() {
    let m: Matrix = Matrix::from(vec![vec![1, 2, 3], vec![4, 5, 6], vec![7, 8, 10]]);
    assert_eq!(m.det(), Ok(-3));
    let k: Matrix = Matrix::from(vec![vec![0, 1, 0], vec![1, 0, 0], vec![0, 0, 1]]);
    assert_eq!(k.det(), Ok(-1));
    let s: Matrix = Matrix::from(vec![vec![2, 0, 1], vec![1, 3, 2], vec![1, 1, 1]]);
    assert_eq!(s.det(), Ok(0));
}

#[test]
fn det_four_by_four() {
    let m: Matrix = Matrix::from(vec![
        vec![1, 0, 2, -1],
        vec![3, 0, 0, 5],
        vec![2, 1, 4, -3],
        vec![1, 0, 5, 0],
    ]);
    assert_eq!(m.det(), Ok(30));
}

#[test]
fn det_matches_permutation_sum_up_to_four() {
    for n in 1..5 {
        for seed in 0..60 {
            let rows: Vec<Vec<i32>> = sample(n, seed);
            let expected: i64 = reference_det(&rows);
            assert_eq!(Matrix::from(rows).det(), Ok(expected as i32));
        }
    }
}

#[test]
fn det_of_five_by_five_matches_permutation_sum() {
    for seed in 0..10 {
        let rows: Vec<Vec<i32>> = sample(5, seed);
        let expected: i64 = reference_det(&rows);
        assert_eq!(Matrix::from(rows).det(), Ok(expected as i32));
    }
}

#[test]
fn det_wraps_around() {
    let m: Matrix = Matrix::from(vec![vec![65536, 0], vec![0, 65536]]);
    assert_eq!(m.det(), Ok(0));
    let k: Matrix = Matrix::from(vec![vec![i32::MAX, 1], vec![-1, 1]]);
    assert_eq!(k.det(), Ok(i32::MIN));
}

#[test]
fn det_rejects_matrix_that_is_not_square() {
    let m: Matrix = Matrix::from(vec![vec![1, 2, 3], vec![4, 5, 6]]);
    assert_eq!(m.det(), Err(LinalgError::NotSquare { n_rows: 2, n_cols: 3 }));
    let k: Matrix = Matrix::from(vec![vec![1], vec![2]]);
    assert_eq!(k.det(), Err(LinalgError::NotSquare { n_rows: 2, n_cols: 1 }));
}

#[test]
fn det_rejects_empty_matrix() {
    let m: Matrix = Matrix::from(without_rows());
    assert_eq!(m.det(), Err(LinalgError::NotSquare { n_rows: 0, n_cols: 0 }));
}

#[test]
fn det_2x2_rejects_other_shapes() {
    assert_eq!(Matrix::id(3).det_2x2(), Err(LinalgError::WrongShape { n_rows: 3, n_cols: 3 }));
    assert_eq!(Matrix::id(1).det_2x2(), Err(LinalgError::WrongShape { n_rows: 1, n_cols: 1 }));
    let m: Matrix = Matrix::from(vec![vec![1, 2, 3], vec![4, 5, 6]]);
    assert_eq!(m.det_2x2(), Err(LinalgError::WrongShape { n_rows: 2, n_cols: 3 }));
    assert_eq!(
        Matrix::from(without_rows()).det_2x2(),
        Err(LinalgError::WrongShape { n_rows: 0, n_cols: 0 })
    );
}

#[test]
fn sub_matrix_of_identity() {
    let m: Matrix = Matrix::id(3).sub_matrix(0, 0);
    assert_eq!(m.rows(), &vec![vec![1, 0], vec![0, 1]]);
    assert_eq!(m.rows(), Matrix::id(2).rows());
}

#[test]
fn sub_matrix_deletes_row_and_column() {
    let m: Matrix = Matrix::from(vec![vec![1, 2, 3], vec![4, 5, 6], vec![7, 8, 9]]);
    assert_eq!(m.sub_matrix(0, 1).rows(), &vec![vec![4, 6], vec![7, 9]]);
    assert_eq!(m.sub_matrix(1, 1).rows(), &vec![vec![1, 3], vec![7, 9]]);
    assert_eq!(m.sub_matrix(2, 2).rows(), &vec![vec![1, 2], vec![4, 5]]);
    let r: Matrix = Matrix::from(vec![vec![1, 2, 3], vec![4, 5, 6]]);
    let s: Matrix = r.sub_matrix(1, 0);
    assert_eq!(s.n_rows(), 1);
    assert_eq!(s.n_cols(), 2);
    assert_eq!(s.rows(), &vec![vec![2, 3]]);
}

#[test]
fn sub_matrix_past_the_end_deletes_nothing_there() {
    let m: Matrix = Matrix::from(vec![vec![1, 2, 3], vec![4, 5, 6]]);
    assert_eq!(m.sub_matrix(5, 0).rows(), &vec![vec![2, 3], vec![5, 6]]);
    assert_eq!(m.sub_matrix(0, 5).rows(), &vec![vec![4, 5, 6]]);
    assert_eq!(m.sub_matrix(5, 5).rows(), &vec![vec![1, 2, 3], vec![4, 5, 6]]);
}

#[test]
fn sub_matrix_without_entries_is_empty() {
    let one: Matrix = Matrix::from(vec![vec![9]]);
    assert_eq!(one.sub_matrix(0, 0).n_rows(), 0);
    assert_eq!(one.sub_matrix(0, 0).n_cols(), 0);
    let column: Matrix = Matrix::from(vec![vec![1], vec![2], vec![3]]);
    assert_eq!(column.sub_matrix(0, 0).n_rows(), 0);
    assert_eq!(column.sub_matrix(0, 0).n_cols(), 0);
    let row: Matrix = Matrix::from(vec![vec![1, 2, 3]]);
    assert_eq!(row.sub_matrix(0, 0).n_rows(), 0);
    assert_eq!(Matrix::from(without_rows()).sub_matrix(0, 0).n_rows(), 0);
}

#[test]
fn wrapped_arithmetic_is_exact_where_it_fits() {
    assert_eq!(arith::add_wrap(2, 3), 5);
    assert_eq!(arith::sub_wrap(2, 3), -1);
    assert_eq!(arith::mul_wrap(-4, 6), -24);
    assert_eq!(arith::add_wrap(i32::MAX, 1), i32::MIN);
    assert_eq!(arith::sub_wrap(i32::MIN, 1), i32::MAX);
    assert_eq!(arith::mul_wrap(i32::MIN, -1), i32::MIN);
}
