use linalg::error::LinalgError;
use linalg::vector;

#[test]
fn new_vector_is_empty() {
    let v: Vec<i32> = vector::new(8);
    assert!(v.is_empty());
    assert!(vector::new(0).is_empty());
}

#[test]
fn equal_size_accepts_same_length() {
    assert_eq!(vector::equal_size(&[1, 2, 3], &[4, 5, 6]), Ok(()));
    assert_eq!(vector::equal_size(&[], &[]), Ok(()));
}

#[test]
fn equal_size_reports_both_lengths() {
    assert_eq!(
        vector::equal_size(&[1, 2, 3], &[4, 5]),
        Err(LinalgError::SizeMismatch { left: 3, right: 2 })
    );
    assert_eq!(
        vector::equal_size(&[], &[7]),
        Err(LinalgError::SizeMismatch { left: 0, right: 1 })
    );
}

#[test]
fn sum_adds_element_wise() {
    assert_eq!(vector::sum(&[1, 2, 3], &[10, 20, 30]), Ok(vec![11, 22, 33]));
    assert_eq!(vector::sum(&[-5, 0], &[5, -7]), Ok(vec![0, -7]));
    assert_eq!(vector::sum(&[], &[]), Ok(vec![]));
}

#[test]
fn sum_rejects_different_lengths() {
    assert_eq!(
        vector::sum(&[1, 2], &[1, 2, 3]),
        Err(LinalgError::SizeMismatch { left: 2, right: 3 })
    );
}

#[test]
fn sum_wraps_around() {
    assert_eq!(vector::sum(&[i32::MAX], &[1]), Ok(vec![i32::MIN]));
    assert_eq!(vector::sum(&[i32::MIN], &[-1]), Ok(vec![i32::MAX]));
}

#[test]
fn diff_subtracts_element_wise() {
    assert_eq!(vector::diff(&[11, 22, 33], &[1, 2, 3]), Ok(vec![10, 20, 30]));
    assert_eq!(vector::diff(&[0, 0], &[4, -4]), Ok(vec![-4, 4]));
}

#[test]
fn diff_rejects_different_lengths() {
    assert_eq!(
        vector::diff(&[1, 2, 3], &[1]),
        Err(LinalgError::SizeMismatch { left: 3, right: 1 })
    );
}

#[test]
fn diff_of_least_value_wraps_around() {
    assert_eq!(vector::diff(&[0], &[i32::MIN]), Ok(vec![i32::MIN]));
    assert_eq!(vector::diff(&[i32::MIN], &[i32::MIN]), Ok(vec![0]));
}

#[test]
fn sum_then_diff_gives_back_vector() {
    let a: Vec<i32> = vec![7, -3, i32::MAX, i32::MIN, 0];
    let b: Vec<i32> = vec![100, i32::MIN, i32::MAX, -1, 12];
    let s: Vec<i32> = vector::sum(&a, &b).unwrap();
    assert_eq!(vector::diff(&s, &b), Ok(a));
}

#[test]
fn scalar_mult_multiplies_each_element() {
    assert_eq!(vector::scalar_mult(&[1, -2, 3], 4), vec![4, -8, 12]);
    assert_eq!(vector::scalar_mult(&[1, -2, 3], -1), vec![-1, 2, -3]);
    assert_eq!(vector::scalar_mult(&[], 9), Vec::<i32>::new());
}

#[test]
fn scalar_mult_by_one_and_zero() {
    assert_eq!(vector::scalar_mult(&[5, -6, i32::MIN], 1), vec![5, -6, i32::MIN]);
    assert_eq!(vector::scalar_mult(&[5, -6, i32::MIN], 0), vec![0, 0, 0]);
}

#[test]
fn scalar_mult_wraps_around() {
    assert_eq!(vector::scalar_mult(&[i32::MAX], 2), vec![-2]);
    assert_eq!(vector::scalar_mult(&[i32::MIN], -1), vec![i32::MIN]);
    assert_eq!(vector::scalar_mult(&[65536], 65536), vec![0]);
}

#[test]
fn dot_prod_sums_products() {
    assert_eq!(vector::dot_prod(&[1, 2, 3], &[4, 5, 6]), Ok(32));
    assert_eq!(vector::dot_prod(&[1, 3], &[5, 7]), Ok(26));
    assert_eq!(vector::dot_prod(&[2, -2], &[3, 3]), Ok(0));
    assert_eq!(vector::dot_prod(&[], &[]), Ok(0));
}

#[test]
fn dot_prod_rejects_different_lengths() {
    assert_eq!(
        vector::dot_prod(&[1, 2, 3], &[4, 5]),
        Err(LinalgError::SizeMismatch { left: 3, right: 2 })
    );
}

#[test]
fn dot_prod_wraps_around() {
    assert_eq!(vector::dot_prod(&[65536, 1], &[65536, 5]), Ok(5));
    assert_eq!(vector::dot_prod(&[i32::MAX, 1], &[1, 1]), Ok(i32::MIN));
}
