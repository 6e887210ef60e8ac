use analog_spectral::matrix::{diagonal_matrix, element_or, entry, entry_or, identity_matrix, rows_from_flat};

#[test]
fn rows_from_flat_square() {
    let rows = rows_from_flat(&[1.0, 0.0, 0.0, 1.0], 2);
    assert_eq!(rows, vec![vec![1.0, 0.0], vec![0.0, 1.0]]);
}

#[test]
fn rows_from_flat_short_last_row() {
    let rows = rows_from_flat(&[1, 2, 3, 4, 5], 2);
    assert_eq!(rows, vec![vec![1, 2], vec![3, 4], vec![5]]);
}

#[test]
fn rows_from_flat_empty() {
    let rows: Vec<Vec<f64>> = rows_from_flat(&[], 3);
    assert!(rows.is_empty());
}

#[test]
fn identity_layout() {
    let m = identity_matrix(3, 1.0, 0.0);
    assert_eq!(m, vec![vec![1.0, 0.0, 0.0], vec![0.0, 1.0, 0.0], vec![0.0, 0.0, 1.0]]);
}

#[test]
fn identity_empty() {
    let m = identity_matrix(0, 1.0, 0.0);
    assert!(m.is_empty());
}

#[test]
fn diagonal_layout() {
    let m = diagonal_matrix(&[2.0, 5.0], 0.0);
    assert_eq!(m, vec![vec![2.0, 0.0], vec![0.0, 5.0]]);
}

#[test]
fn entry_in_ragged_matrix() {
    let m = vec![vec![1.0, 2.0, 3.0], vec![4.0]];
    assert_eq!(entry(&m, 0, 2), Some(3.0));
    assert_eq!(entry(&m, 1, 0), Some(4.0));
    assert_eq!(entry(&m, 1, 1), None);
    assert_eq!(entry(&m, 2, 0), None);
    assert_eq!(entry_or(&m, 1, 2, 1.0), 1.0);
    assert_eq!(entry_or(&m, 0, 1, 1.0), 2.0);
}

#[test]
fn element_or_past_end() {
    let v = [0.5, 0.25];
    assert_eq!(element_or(&v, 1, 0.0), 0.25);
    assert_eq!(element_or(&v, 2, 0.0), 0.0);
}
