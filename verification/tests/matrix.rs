use linalg::{Mat, R};

fn r(x: f64) -> R {
    R::from_bits(x.to_bits())
}

fn f(x: R) -> f64 {
    f64::from_bits(x.to_bits())
}

fn sample() -> Mat<2, 3> {
    Mat::<2, 3>::from([[r(1.0), r(2.0), r(3.0)], [r(4.0), r(5.0), r(6.0)]])
}

fn rows<const M: usize, const N: usize>(m: &Mat<M, N>) -> Vec<Vec<f64>> {
    (1..=M).map(|i| (1..=N).map(|j| f(m.index(i, j))).collect()).collect()
}

fn spd() -> Mat<3, 3> {
    Mat::<3, 3>::from([
        [r(4.0), r(12.0), r(-16.0)],
        [r(12.0), r(37.0), r(-43.0)],
        [r(-16.0), r(-43.0), r(98.0)],
    ])
}

#[test]
fn zero_and_new_are_all_positive_zero() {
    let z = Mat::<3, 2>::zero();
    let n = Mat::<3, 2>::new();
    for i in 1..=3 {
        for j in 1..=2 {
            assert_eq!(z.index(i, j).to_bits(), 0);
            assert_eq!(n.index(i, j).to_bits(), 0);
        }
    }
}

#[test]
fn empty_matrices_are_fine() {
    let z = Mat::<0, 4>::zero();
    assert_eq!(z.dimensions(), (0, 4));
    assert!(!z.contains_nan());
    assert!(z.is_upper_triangular());
    let t = z.transpose();
    assert_eq!(t.dimensions(), (4, 0));
    assert!(!Mat::<0, 0>::eye().contains_nan());
}

#[test]
fn from_reads_rows_as_written() {
    let a = sample();
    assert_eq!(rows(&a), vec![vec![1.0, 2.0, 3.0], vec![4.0, 5.0, 6.0]]);
    assert_eq!(f(a.index(1, 3)), 3.0);
    assert_eq!(f(a.index(2, 1)), 4.0);
}

#[test]
fn store_is_column_major() {
    let a = sample();
    assert_eq!(a.col_raw(1).iter().map(|x| f(*x)).collect::<Vec<_>>(), vec![1.0, 4.0]);
    assert_eq!(a.col_raw(3).iter().map(|x| f(*x)).collect::<Vec<_>>(), vec![3.0, 6.0]);
    let filled = Mat::<2, 3>::from_fn(|i, j| r((10 * i + j) as f64));
    assert_eq!(rows(&filled), vec![vec![11.0, 12.0, 13.0], vec![21.0, 22.0, 23.0]]);
}

#[test]
fn from_fn_fills_column_by_column() {
    let order = std::cell::RefCell::new(Vec::new());
    let _ = Mat::<2, 2>::from_fn(|i, j| {
        order.borrow_mut().push((i, j));
        R::zero()
    });
    assert_eq!(order.into_inner(), vec![(1, 1), (2, 1), (1, 2), (2, 2)]);
}

#[test]
fn set_changes_one_cell_only() {
    let mut a = sample();
    a.set(2, 2, r(-7.5));
    assert_eq!(rows(&a), vec![vec![1.0, 2.0, 3.0], vec![4.0, -7.5, 6.0]]);
    a.set(1, 3, r(0.25));
    assert_eq!(rows(&a), vec![vec![1.0, 2.0, 0.25], vec![4.0, -7.5, 6.0]]);
}

#[test]
fn dimensions_are_those_of_the_type() {
    let a = sample();
    assert_eq!(a.dimensions(), (2, 3));
    assert_eq!(a.nrows(), 2);
    assert_eq!(a.ncols(), 3);
    assert_eq!(a.row_iter(), 1..=2);
    assert_eq!(a.col_iter(), 1..=3);
    assert_eq!(a.row_iter().collect::<Vec<_>>(), vec![1, 2]);
}

#[test]
fn transpose_mirrors_every_cell() {
    let a = sample();
    let t = a.transpose();
    assert_eq!(t.dimensions(), (3, 2));
    assert_eq!(rows(&t), vec![vec![1.0, 4.0], vec![2.0, 5.0], vec![3.0, 6.0]]);
    assert_eq!(rows(&a.t()), rows(&t));
}

#[test]
fn transpose_twice_gives_the_matrix_back() {
    let a = sample();
    assert_eq!(rows(&a.transpose().transpose()), rows(&a));
}

#[test]
fn transpose_inplace_agrees_with_transpose() {
    let a = spd();
    let mut b = Mat::<3, 3>::from([
        [r(1.0), r(2.0), r(3.0)],
        [r(4.0), r(5.0), r(6.0)],
        [r(7.0), r(8.0), r(9.0)],
    ]);
    let t = b.transpose();
    b.transpose_inplace();
    assert_eq!(rows(&b), rows(&t));
    assert_eq!(rows(&b), vec![vec![1.0, 4.0, 7.0], vec![2.0, 5.0, 8.0], vec![3.0, 6.0, 9.0]]);
    let mut s = a.clone();
    s.transpose_inplace();
    assert_eq!(rows(&s), rows(&a));
}

#[test]
fn row_and_col_extract() {
    let a = sample();
    assert_eq!(rows(&a.row(2)), vec![vec![4.0, 5.0, 6.0]]);
    assert_eq!(rows(&a.col(2)), vec![vec![2.0], vec![5.0]]);
}

#[test]
fn set_row_and_set_col_replace() {
    let mut a = sample();
    a.set_row(1, Mat::<1, 3>::from([[r(7.0), r(8.0), r(9.0)]]));
    assert_eq!(rows(&a), vec![vec![7.0, 8.0, 9.0], vec![4.0, 5.0, 6.0]]);
    a.set_col(3, Mat::<2, 1>::from([[r(-1.0)], [r(-2.0)]]));
    assert_eq!(rows(&a), vec![vec![7.0, 8.0, -1.0], vec![4.0, 5.0, -2.0]]);
}

#[test]
fn swap_columns_counts_from_one() {
    let mut a = sample();
    a.swap_columns(1, 3);
    assert_eq!(rows(&a), vec![vec![3.0, 2.0, 1.0], vec![6.0, 5.0, 4.0]]);
    a.swap_columns(2, 2);
    assert_eq!(rows(&a), vec![vec![3.0, 2.0, 1.0], vec![6.0, 5.0, 4.0]]);
    a.swap_columns(2, 1);
    assert_eq!(rows(&a), vec![vec![2.0, 3.0, 1.0], vec![5.0, 6.0, 4.0]]);
}

#[test]
fn on_each_maps_every_cell() {
    let a = sample();
    let b = a.on_each(|x| r(f(x) * 2.0));
    assert_eq!(rows(&b), vec![vec![2.0, 4.0, 6.0], vec![8.0, 10.0, 12.0]]);
    assert_eq!(rows(&a), vec![vec![1.0, 2.0, 3.0], vec![4.0, 5.0, 6.0]]);
}

#[test]
fn on_each_goes_row_by_row() {
    let a = sample();
    let seen = std::cell::RefCell::new(Vec::new());
    let _ = a.on_each(|x| {
        seen.borrow_mut().push(f(x));
        x
    });
    assert_eq!(seen.into_inner(), vec![1.0, 2.0, 3.0, 4.0, 5.0, 6.0]);
}

#[test]
fn on_each_mut_maps_in_place() {
    let mut a = sample();
    a.on_each_mut(|x| r(f(x) + 0.5));
    assert_eq!(rows(&a), vec![vec![1.5, 2.5, 3.5], vec![4.5, 5.5, 6.5]]);
}

#[test]
fn on_each2_zips_two_matrices() {
    let a = sample();
    let b = a.on_each(|x| r(10.0 * f(x)));
    let c = a.on_each2(&b, |x, y| r(f(y) - f(x)));
    assert_eq!(rows(&c), vec![vec![9.0, 18.0, 27.0], vec![36.0, 45.0, 54.0]]);
}

#[test]
fn rand_draws_once_per_cell_row_by_row() {
    let next = std::cell::Cell::new(0.0f64);
    let m = Mat::<2, 3>::rand(|| {
        next.set(next.get() + 1.0);
        r(next.get())
    });
    assert_eq!(rows(&m), vec![vec![1.0, 2.0, 3.0], vec![4.0, 5.0, 6.0]]);
    assert_eq!(next.get(), 6.0);
}

#[test]
fn neg_flips_every_sign() {
    let a = sample();
    let n = a.neg();
    assert_eq!(rows(&n), vec![vec![-1.0, -2.0, -3.0], vec![-4.0, -5.0, -6.0]]);
    let z = Mat::<1, 2>::from([[r(0.0), r(f64::INFINITY)]]).neg();
    assert_eq!(z.index(1, 1).to_bits(), (-0.0f64).to_bits());
    assert_eq!(f(z.index(1, 2)), f64::NEG_INFINITY);
    assert_eq!(rows(&n.neg()), rows(&a));
}

#[test]
fn clone_copies_every_cell() {
    let a = sample();
    let mut b = a.clone();
    assert_eq!(rows(&a), rows(&b));
    b.set(1, 1, r(100.0));
    assert_eq!(f(a.index(1, 1)), 1.0);
}

#[test]
fn upper_triangular_predicate() {
    let a = spd();
    assert!(!a.is_upper_triangular());
    assert!(a.upper_triangular().is_upper_triangular());
    assert!(Mat::<4, 4>::eye().is_upper_triangular());
    assert!(Mat::<3, 3>::zero().is_upper_triangular());
    let mut b = Mat::<3, 3>::eye();
    b.set(3, 1, r(-0.0));
    assert!(b.is_upper_triangular());
    b.set(3, 1, r(f64::NAN));
    assert!(!b.is_upper_triangular());
    b.set(3, 1, r(5e-324));
    assert!(!b.is_upper_triangular());
    b.set(3, 1, r(0.0));
    b.set(1, 3, r(9.0));
    assert!(b.is_upper_triangular());
}

#[test]
fn upper_triangular_predicate_on_rectangles() {
    let mut tall = Mat::<6, 4>::zero();
    assert!(tall.is_upper_triangular());
    tall.set(6, 4, r(1.0));
    assert!(!tall.is_upper_triangular());
    tall.set(6, 4, r(0.0));
    tall.set(4, 4, r(1.0));
    assert!(tall.is_upper_triangular());
    let mut wide = Mat::<2, 5>::from_fn(|_, _| r(1.0));
    assert!(!wide.is_upper_triangular());
    wide.set(2, 1, r(0.0));
    assert!(wide.is_upper_triangular());
}

#[test]
fn triangular_parts() {
    let a = spd();
    assert_eq!(
        rows(&a.upper_triangular()),
        vec![vec![4.0, 12.0, -16.0], vec![0.0, 37.0, -43.0], vec![0.0, 0.0, 98.0]]
    );
    assert_eq!(
        rows(&a.lower_triangular()),
        vec![vec![4.0, 0.0, 0.0], vec![12.0, 37.0, 0.0], vec![-16.0, -43.0, 98.0]]
    );
    let mut u = a.clone();
    u.to_upper_triangular();
    assert_eq!(rows(&u), rows(&a.upper_triangular()));
    let mut l = a.clone();
    l.to_lower_triangular();
    assert_eq!(rows(&l), rows(&a.lower_triangular()));
    assert_eq!(rows(&a), rows(&spd()));
}

#[test]
fn triangular_parts_write_positive_zero() {
    let mut a = Mat::<2, 2>::from_fn(|_, _| r(f64::NAN));
    a.to_upper_triangular();
    assert_eq!(a.index(2, 1).to_bits(), 0);
    assert!(a.index(1, 2).is_nan());
    a.to_lower_triangular();
    assert_eq!(a.index(1, 2).to_bits(), 0);
    assert!(a.contains_nan());
}

#[test]
fn triangular_parts_of_rectangles() {
    let tall = Mat::<4, 2>::from_fn(|_, _| r(1.0));
    assert_eq!(
        rows(&tall.upper_triangular()),
        vec![vec![1.0, 1.0], vec![0.0, 1.0], vec![0.0, 0.0], vec![0.0, 0.0]]
    );
    assert_eq!(
        rows(&tall.lower_triangular()),
        vec![vec![1.0, 0.0], vec![1.0, 1.0], vec![1.0, 1.0], vec![1.0, 1.0]]
    );
    let wide = Mat::<2, 4>::from_fn(|_, _| r(1.0));
    assert_eq!(
        rows(&wide.upper_triangular()),
        vec![vec![1.0, 1.0, 1.0, 1.0], vec![0.0, 1.0, 1.0, 1.0]]
    );
    assert_eq!(
        rows(&wide.lower_triangular()),
        vec![vec![1.0, 0.0, 0.0, 0.0], vec![1.0, 1.0, 0.0, 0.0]]
    );
}

#[test]
fn top_rows() {
    let tall = Mat::<4, 2>::from_fn(|i, j| r((10 * i + j) as f64));
    let top = tall.top_n_rows::<3>();
    assert_eq!(rows(&top), vec![vec![11.0, 12.0], vec![21.0, 22.0], vec![31.0, 32.0]]);
    assert_eq!(rows(&tall.top_square()), vec![vec![11.0, 12.0], vec![21.0, 22.0]]);
    assert_eq!(rows(&tall.top_n_rows::<4>()), rows(&tall));
    assert_eq!(tall.top_n_rows::<0>().dimensions(), (0, 2));
}

#[test]
fn contains_nan_scans_every_cell() {
    let mut a = sample();
    assert!(!a.contains_nan());
    a.set(2, 3, r(f64::NAN));
    assert!(a.contains_nan());
    a.set(2, 3, r(f64::INFINITY));
    assert!(!a.contains_nan());
    a.set(1, 1, r(-f64::NAN));
    assert!(a.contains_nan());
    let sqrt_of_negative = Mat::<1, 1>::from([[r((-1.0f64).sqrt())]]);
    assert!(sqrt_of_negative.contains_nan());
}

#[test]
fn eye_is_the_identity() {
    let e = Mat::<3, 3>::eye();
    assert_eq!(
        rows(&e),
        vec![vec![1.0, 0.0, 0.0], vec![0.0, 1.0, 0.0], vec![0.0, 0.0, 1.0]]
    );
    assert_eq!(e.index(1, 2).to_bits(), 0);
}

#[test]
fn scalar_of_a_one_by_one_matrix() {
    let m = Mat::<1, 1>::from([[r(42.5)]]);
    let x = R::from(m);
    assert_eq!(f(x), 42.5);
}
