use phfe::group::{G1, G2, Gt};
use phfe::phfe::matrix::Matrix;
use phfe::phfe::utils::{
    identity_tensor_product_with_matrix, matrix_tensor_product_with_identity, parse_field_str,
    scalar_matrix_to_g1, scalar_matrix_to_g2, scalar_vec_to_g1, scalar_vec_to_g2,
    vec_tensor_product_with_identity, ElementKind, PhfeElement,
};
use phfe::error::Error;
use phfe::scalar::Scalar;

fn s(v: u64) -> PhfeElement {
    PhfeElement::Scalar(Scalar::from_u64(v))
}

fn g1(v: u64) -> PhfeElement {
    PhfeElement::G1(G1::generator().scale(&Scalar::from_u64(v)))
}

fn g2(v: u64) -> PhfeElement {
    PhfeElement::G2(G2::generator().scale(&Scalar::from_u64(v)))
}

fn gt(v: u64) -> PhfeElement {
    PhfeElement::Gt(Gt::generator().scale(&Scalar::from_u64(v)))
}

fn scalars(rows: &[&[u64]]) -> Matrix {
    let cells: Vec<Vec<Scalar>> =
        rows.iter().map(|r| r.iter().map(|v| Scalar::from_u64(*v)).collect()).collect();
    let ncols = if rows.is_empty() { 0 } else { rows[0].len() };
    Matrix::from_scalars(&cells, ncols).unwrap()
}

#[test]
fn sums_stay_in_their_structure() {
    assert!(s(2).add(&s(3)).equals(&s(5)));
    assert!(g1(2).add(&g1(3)).equals(&g1(5)));
    assert!(g2(2).add(&g2(3)).equals(&g2(5)));
    assert!(gt(2).add(&gt(3)).equals(&gt(5)));
    assert!(!g1(2).add(&g1(3)).equals(&g1(2)));
    let mut e = g1(4);
    e.add_assign(&g1(6));
    assert!(e.equals(&g1(10)));
}

#[test]
fn the_legal_products() {
    assert!(s(2).mul(&s(3)).equals(&s(6)));
    assert!(g1(2).mul(&s(3)).equals(&g1(6)));
    assert!(s(3).mul(&g1(2)).equals(&g1(6)));
    assert!(g2(2).mul(&s(3)).equals(&g2(6)));
    assert!(s(3).mul(&g2(2)).equals(&g2(6)));
    assert!(gt(2).mul(&s(3)).equals(&gt(6)));
    assert!(s(3).mul(&gt(2)).equals(&gt(6)));
    assert!(g1(2).mul(&g2(3)).equals(&gt(6)));
    assert!(g2(3).mul(&g1(2)).equals(&gt(6)));
    assert!(g1(2).mul(&g2(3)).equals(&g2(3).mul(&g1(2))));
    let mut e = s(4);
    e.mul_assign(&g2(5));
    assert!(e.equals(&g2(20)));
    assert_eq!(e.get_kind(), ElementKind::G2);
}

#[test]
fn negation_zero_and_one() {
    assert!(s(2).neg().add(&s(2)).is_zero());
    assert!(g1(2).neg().add(&g1(2)).is_zero());
    assert!(g2(2).neg().add(&g2(2)).is_zero());
    assert!(gt(2).neg().add(&gt(2)).is_zero());
    assert!(!g1(2).neg().equals(&g1(2)));
    assert!(PhfeElement::zero().equals(&s(0)));
    assert!(PhfeElement::one().equals(&s(1)));
    assert_eq!(PhfeElement::zero().get_kind(), ElementKind::Scalar);
    assert!(PhfeElement::zero().is_zero());
    assert!(!PhfeElement::zero().is_one());
    assert!(PhfeElement::one().is_one());
    assert!(g1(0).is_zero() && g2(0).is_zero() && gt(0).is_zero());
    assert!(g1(1).is_one() && g2(1).is_one() && gt(1).is_one());
    assert!(!g1(2).is_one() && !g2(2).is_one() && !gt(2).is_one());
    assert!(!g1(1).is_zero());
}

#[test]
fn elements_of_different_kinds_differ() {
    assert!(!s(1).equals(&g1(1)));
    assert!(!g1(1).equals(&g2(1)));
    assert!(!g2(1).equals(&gt(1)));
    assert!(s(1).to_g1().equals(&g1(1)));
    assert!(s(7).to_g2().equals(&g2(7)));
}

#[test]
fn matrix_product_and_sum() {
    let a = scalars(&[&[1, 2], &[3, 4]]);
    let b = scalars(&[&[5, 6], &[7, 8]]);
    assert!(a.mul(&b).equals(&scalars(&[&[19, 22], &[43, 50]])));
    assert!(!a.mul(&b).equals(&b.mul(&a)));
    assert!(a.add(&b).equals(&scalars(&[&[6, 8], &[10, 12]])));
    assert!(a.add(&a.neg()).equals(&Matrix::zeros(2, 2)));
    assert!(a.transpose().equals(&scalars(&[&[1, 3], &[2, 4]])));
    assert!(a.hstack(&b).equals(&scalars(&[&[1, 2, 5, 6], &[3, 4, 7, 8]])));
    assert!(a.vstack(&b).equals(&scalars(&[&[1, 2], &[3, 4], &[5, 6], &[7, 8]])));
    assert!(a.hstack(&b).columns(1, 2).equals(&scalars(&[&[2, 5], &[4, 7]])));
    assert!(a.copy().equals(&a));
    assert!(a.get(1, 0).equals(&s(3)));
    let row = scalars(&[&[1, 2, 3]]);
    let col = scalars(&[&[4], &[5], &[6]]);
    assert!(row.mul(&col).equals(&scalars(&[&[32]])));
    assert_eq!(col.mul(&row).nrows, 3);
}

#[test]
fn matrix_product_pairs_group_elements() {
    let a = scalars(&[&[1, 2], &[3, 4]]);
    let b = scalars(&[&[5, 6], &[7, 8]]);
    let product = scalars(&[&[19, 22], &[43, 50]]);
    let in_g1 = scalar_matrix_to_g1(&a);
    let in_g2 = scalar_matrix_to_g2(&b);
    assert!(in_g1.mul(&b).equals(&scalar_matrix_to_g1(&product)));
    assert!(a.mul(&in_g2).equals(&scalar_matrix_to_g2(&product)));
    let paired = in_g1.mul(&in_g2);
    assert!(paired.get(0, 0).equals(&gt(19)));
    assert!(paired.get(1, 1).equals(&gt(50)));
    assert!(scalar_vec_to_g1(&a).equals(&in_g1));
    assert!(scalar_vec_to_g2(&b).equals(&in_g2));
    assert!(!in_g1.equals(&a));
}

#[test]
fn product_without_inner_dimension_is_zero() {
    let a = Matrix::zeros(2, 0);
    let b = Matrix::zeros(0, 3);
    assert!(a.mul(&b).equals(&Matrix::zeros(2, 3)));
}

#[test]
fn kronecker_product_of_vectors_and_matrices() {
    let a = scalars(&[&[1, 2]]);
    let b = scalars(&[&[3, 4, 5]]);
    assert!(a.kronecker(&b).equals(&scalars(&[&[3, 4, 5, 6, 8, 10]])));
    let m = scalars(&[&[1, 2], &[3, 4]]);
    let n = scalars(&[&[0, 1], &[1, 0]]);
    assert!(m.kronecker(&n).equals(&scalars(&[
        &[0, 1, 0, 2],
        &[1, 0, 2, 0],
        &[0, 3, 0, 4],
        &[3, 0, 4, 0],
    ])));
}

#[test]
fn tensor_products_with_the_identity() {
    let x = scalars(&[&[7], &[8]]);
    assert!(vec_tensor_product_with_identity(&x, 2)
        .equals(&scalars(&[&[7, 0], &[0, 7], &[8, 0], &[0, 8]])));
    let m = scalars(&[&[1, 2], &[3, 4]]);
    assert!(identity_tensor_product_with_matrix(&m, 2).equals(&scalars(&[
        &[1, 2, 0, 0],
        &[3, 4, 0, 0],
        &[0, 0, 1, 2],
        &[0, 0, 3, 4],
    ])));
    assert!(matrix_tensor_product_with_identity(&m, 2).equals(&scalars(&[
        &[1, 0, 2, 0],
        &[0, 1, 0, 2],
        &[3, 0, 4, 0],
        &[0, 3, 0, 4],
    ])));
    let wide = scalars(&[&[1, 2, 3]]);
    let t = identity_tensor_product_with_matrix(&wide, 2);
    assert!(t.equals(&scalars(&[&[1, 2, 3, 0, 0, 0], &[0, 0, 0, 1, 2, 3]])));
    let u = matrix_tensor_product_with_identity(&wide, 2);
    assert!(u.equals(&scalars(&[&[1, 0, 2, 0, 3, 0], &[0, 1, 0, 2, 0, 3]])));
}

#[test]
fn rows_of_different_lengths_make_no_matrix() {
    let cells = vec![vec![Scalar::one(), Scalar::one()], vec![Scalar::one()]];
    assert!(Matrix::from_scalars(&cells, 2).is_none());
    let rows = vec![vec![s(1)], vec![s(1), s(2)]];
    assert!(Matrix::from_rows(rows, 1).is_none());
    let rows = vec![vec![s(1), g1(1)], vec![s(1), s(2)]];
    assert!(Matrix::from_rows(rows, 2).is_some());
    let v = vec![Scalar::from_u64(1), Scalar::from_u64(2)];
    assert!(Matrix::column_from_scalars(&v).equals(&scalars(&[&[1], &[2]])));
    assert!(Matrix::row_from_scalars(&v).equals(&scalars(&[&[1, 2]])));
}

#[test]
fn field_elements_are_read_with_a_sign() {
    assert!(parse_field_str("12").unwrap().equals(&Scalar::from_u64(12)));
    assert!(parse_field_str("0").unwrap().is_zero());
    assert!(parse_field_str("-1").unwrap().equals(&Scalar::one().neg()));
    assert!(parse_field_str("-0").unwrap().is_zero());
    assert!(parse_field_str("007").unwrap().equals(&Scalar::from_u64(7)));
    assert!(parse_field_str("00").unwrap().is_zero());
    assert!(parse_field_str("-007").unwrap().equals(&Scalar::from_u64(7).neg()));
    assert!(parse_field_str("0000000000000000000000000000000000000000012")
        .unwrap()
        .equals(&Scalar::from_u64(12)));
    assert!(parse_field_str(
        "21888242871839275222246405745257275088548364400416034343698204186575808495620"
    )
    .unwrap()
    .equals(&Scalar::from_u64(3)));
    for bad in ["", "-", "--1", "1-", "1.5", " 1", "x1", "+1", "-+1", "0x7", "7 "] {
        match parse_field_str(bad) {
            Err(Error::InvalidFieldString(text)) => assert_eq!(text, bad),
            _ => panic!("{} was accepted", bad),
        }
    }
    let e = parse_field_str("abc").err().unwrap();
    assert_eq!(e.message(), "The given string abc is invalid for field element.");
}

#[test]
fn equality_operators_compare_elements() {
    assert!(Scalar::from_u64(5) == Scalar::from_u64(2).add(&Scalar::from_u64(3)));
    assert!(Scalar::from_u64(5) != Scalar::from_u64(6));
    assert!(G1::generator().scale(&Scalar::from_u64(2)) == G1::generator().add(&G1::generator()));
    assert!(G1::generator() != G1::generator().neg());
    assert!(G2::generator().scale(&Scalar::from_u64(2)) == G2::generator().add(&G2::generator()));
    assert!(G2::generator() != G2::generator().neg());
    assert!(Gt::generator().scale(&Scalar::from_u64(2)) == Gt::generator().add(&Gt::generator()));
    assert!(Gt::generator() != Gt::generator().neg());
    assert!(g1(6) == g1(2).mul(&s(3)));
    assert!(g1(6) != g2(6));
    assert!(scalars(&[&[1, 2]]) == scalars(&[&[1, 2]]));
    assert!(scalars(&[&[1, 2]]) != scalars(&[&[1], &[2]]));
    let m = scalars(&[&[1, 2], &[3, 4]]);
    assert!(m.clone() == m);
    assert!(scalar_matrix_to_g1(&m) != m);
}
