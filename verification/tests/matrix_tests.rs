use learning_lm::matrix::Mat;

fn sample() -> Mat<f64> {
    Mat::from_fn(3, 2, |i, j| (10 * i + j) as f64)
}

fn entries(m: &Mat<f64>) -> Vec<Vec<f64>> {
    (0..m.rows()).map(|i| (0..m.cols()).map(|j| m.get(i, j)).collect()).collect()
}

#[test]
fn from_fn_fills_row_major() {
    let m = sample();
    assert_eq!(m.rows(), 3);
    assert_eq!(m.cols(), 2);
    assert_eq!(entries(&m), vec![vec![0.0, 1.0], vec![10.0, 11.0], vec![20.0, 21.0]]);
}

#[test]
fn zeros_and_identity_and_diag() {
    let z = Mat::zeros(2, 3, 0.0);
    assert_eq!(entries(&z), vec![vec![0.0; 3]; 2]);
    let i = Mat::identity(3, 0.0, 1.0);
    assert_eq!(entries(&i), vec![vec![1.0, 0.0, 0.0], vec![0.0, 1.0, 0.0], vec![0.0, 0.0, 1.0]]);
    let d = Mat::diag(&[3.0, -4.0], 0.0);
    assert_eq!(entries(&d), vec![vec![3.0, 0.0], vec![0.0, -4.0]]);
    let empty = Mat::<f64>::zeros(0, 4, 0.0);
    assert_eq!(empty.rows(), 0);
    assert_eq!(empty.cols(), 4);
}

#[test]
fn transpose_swaps_indices_and_is_an_involution() {
    let m = sample();
    let t = m.transpose();
    assert_eq!(t.rows(), 2);
    assert_eq!(t.cols(), 3);
    assert_eq!(entries(&t), vec![vec![0.0, 10.0, 20.0], vec![1.0, 11.0, 21.0]]);
    assert_eq!(entries(&t.transpose()), entries(&m));
    let wide = Mat::<f64>::zeros(0, 3, 0.0).transpose();
    assert_eq!((wide.rows(), wide.cols()), (3, 0));
}

#[test]
fn set_changes_one_entry() {
    let mut m = sample();
    m.set(1, 0, -5.0);
    assert_eq!(entries(&m), vec![vec![0.0, 1.0], vec![-5.0, 11.0], vec![20.0, 21.0]]);
}

#[test]
fn columns_and_segments() {
    let mut m = sample();
    assert_eq!(m.col(1), vec![1.0, 11.0, 21.0]);
    assert_eq!(m.col_segment(0, 1), vec![10.0, 20.0]);
    assert_eq!(m.col_segment(0, 3), Vec::<f64>::new());
    m.set_col_segment(1, 1, &[7.0, 8.0]);
    assert_eq!(entries(&m), vec![vec![0.0, 1.0], vec![10.0, 7.0], vec![20.0, 8.0]]);
}

#[test]
fn swap_rows_exchanges_two_rows() {
    let mut m = sample();
    m.swap_rows(0, 2);
    assert_eq!(entries(&m), vec![vec![20.0, 21.0], vec![10.0, 11.0], vec![0.0, 1.0]]);
    m.swap_rows(1, 1);
    assert_eq!(entries(&m), vec![vec![20.0, 21.0], vec![10.0, 11.0], vec![0.0, 1.0]]);
}

#[test]
fn select_cols_reorders_and_repeats() {
    let m = sample();
    let s = m.select_cols(&[1, 0, 1]);
    assert_eq!(entries(&s), vec![vec![1.0, 0.0, 1.0], vec![11.0, 10.0, 11.0], vec![21.0, 20.0, 21.0]]);
    assert_eq!(m.select_cols(&[]).cols(), 0);
}

#[test]
fn upper_triangle_has_exact_zeros_below_diagonal() {
    let m = Mat::from_fn(4, 3, |i, j| (1 + 3 * i + j) as f64);
    let r = m.upper_triangle(0.0);
    assert_eq!(entries(&r), vec![vec![1.0, 2.0, 3.0], vec![0.0, 5.0, 6.0], vec![0.0, 0.0, 9.0]]);
    for i in 0..3 {
        for j in 0..i {
            assert_eq!(r.get(i, j), 0.0);
        }
    }
}

#[test]
fn write_block_copies_a_block() {
    let mut big = Mat::zeros(4, 5, 0.0);
    let block = Mat::from_fn(2, 3, |i, j| (1 + 3 * i + j) as f64);
    big.write_block(2, 1, &block);
    assert_eq!(
        entries(&big),
        vec![
            vec![0.0; 5],
            vec![0.0; 5],
            vec![0.0, 1.0, 2.0, 3.0, 0.0],
            vec![0.0, 4.0, 5.0, 6.0, 0.0],
        ]
    );
}

#[test]
fn clone_keeps_shape_and_entries() {
    let m = sample();
    let c = m.clone();
    assert_eq!((c.rows(), c.cols()), (3, 2));
    assert_eq!(entries(&c), entries(&m));
}

#[test]
fn matrix_of_integers() {
    let m: Mat<i64> = Mat::from_fn(2, 2, |i, j| (i as i64) - (j as i64));
    assert_eq!(m.transpose().get(0, 1), 1);
    assert_eq!(m.get(0, 1), -1);
}
