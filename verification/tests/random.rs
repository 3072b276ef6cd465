use linalg::matrix::random::{DIM_MAX, DIM_MIN, ENTRY_MAX, ENTRY_MIN};
use linalg::matrix::Matrix;

fn within(m: &Matrix) -> bool {
    m.rows().iter().all(|row| row.iter().all(|e| ENTRY_MIN <= *e && *e <= ENTRY_MAX))
}

#[test]
fn bounds_of_random_matrices() {
    assert_eq!(ENTRY_MIN, -4);
    assert_eq!(ENTRY_MAX, 4);
    assert_eq!(DIM_MIN, 1);
    assert_eq!(DIM_MAX, 4);
}

#[test]
fn rand_sqr_has_shape_and_range() {
    for size in 0..9 {
        let m: Matrix = Matrix::rand_sqr(size);
        assert_eq!(m.n_rows(), size);
        assert_eq!(m.n_cols(), size);
        assert!(m.is_sqr());
        assert!(m.rows().iter().all(|row| row.len() == size));
        assert!(within(&m));
    }
}

#[test]
fn rand_has_shape_and_range() {
    for _ in 0..200 {
        let m: Matrix = Matrix::rand();
        assert!(DIM_MIN <= m.n_rows() && m.n_rows() <= DIM_MAX);
        assert!(DIM_MIN <= m.n_cols() && m.n_cols() <= DIM_MAX);
        assert_eq!(m.rows().len(), m.n_rows());
        assert!(m.rows().iter().all(|row| row.len() == m.n_cols()));
        assert!(within(&m));
    }
}

#[test]
fn rand_sqr_entries_are_not_all_the_lower_bound() {
    let m: Matrix = Matrix::rand_sqr(12);
    assert!(m.rows().iter().any(|row| row.iter().any(|e| *e != ENTRY_MIN)));
    assert!(m.rows().iter().any(|row| row.iter().any(|e| *e != m.rows()[0][0])));
}

#[test]
fn rand_shapes_are_not_all_the_lower_bound() {
    let mut rows_vary: bool = false;
    let mut cols_vary: bool = false;
    for _ in 0..400 {
        let m: Matrix = Matrix::rand();
        rows_vary = rows_vary || m.n_rows() != DIM_MIN;
        cols_vary = cols_vary || m.n_cols() != DIM_MIN;
    }
    assert!(rows_vary);
    assert!(cols_vary);
}

#[test]
fn rand_sqr_has_determinant() {
    for size in 1..5 {
        assert!(Matrix::rand_sqr(size).det().is_ok());
    }
}
