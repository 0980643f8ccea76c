use phfe::group::Gt;
use phfe::phfe::func::PhfeFunc;
use phfe::phfe::matrix::Matrix;
use phfe::phfe::linear_phfe::LinearPhfe;
use phfe::phfe::Phfe;
use phfe::poly::{Monomial, Polynomial, Variable, VariableType};
use phfe::scalar::Scalar;
use rand::rngs::StdRng;
use rand::SeedableRng;

fn public_var(index: u32) -> Variable {
    Variable { index, variable_type: VariableType::Public }
}

fn constant(c: u64) -> Polynomial {
    Polynomial::new(vec![Monomial::new(vec![], Scalar::from_u64(c))])
}

fn single_var(index: u32) -> Polynomial {
    Polynomial::new(vec![Monomial::new(vec![public_var(index)], Scalar::one())])
}

fn scalar_rows(rows: &[&[u64]]) -> Vec<Vec<Scalar>> {
    rows.iter().map(|r| r.iter().map(|v| Scalar::from_u64(*v)).collect()).collect()
}

/// f(x, z1, z2) = x0 * z1 * z2, encoded with one row and two columns.
fn product_function() -> PhfeFunc {
    let l0 = Matrix::from_scalars(&scalar_rows(&[&[1, 0]]), 2).unwrap();
    let l1 = Matrix::from_scalars(&scalar_rows(&[&[0, 0]]), 2).unwrap();
    PhfeFunc::new(
        1,
        1,
        1,
        vec![single_var(0)],
        vec![single_var(0), single_var(0), constant(0)],
        l0,
        l1,
    )
}

fn decrypt_product(x: u64, z1: u64, z2: u64, seed: u64) -> Gt {
    let f = product_function();
    let scheme = Phfe::new(1, 1, 1, 1);
    let mut rng = StdRng::seed_from_u64(seed);
    let (mpk, msk) = scheme.setup(&mut rng);
    let ct = scheme.enc(
        &mpk,
        &vec![Scalar::from_u64(x)],
        &vec![Scalar::from_u64(z1)],
        &vec![Scalar::from_u64(z2)],
        &mut rng,
    );
    let fsk = scheme.gen_fsk(&msk, &f, &mut rng);
    scheme.dec(&ct, &f, &fsk)
}

#[test]
fn concrete_scenario_all_ones_gives_generator() {
    let out = decrypt_product(1, 1, 1, 7);
    assert!(out.equals(&Gt::generator()));
    assert!(!out.is_identity());
}

#[test]
fn concrete_scenario_zero_private_gives_identity() {
    let out = decrypt_product(1, 0, 1, 8);
    assert!(out.is_identity());
}

#[test]
fn checked_calls_refuse_what_does_not_fit() {
    let f = product_function();
    let scheme = Phfe::checked_new(1, 1, 1, 1).unwrap();
    assert!(scheme.is_valid());
    assert!(scheme.accepts(&f));
    let mut rng = StdRng::seed_from_u64(3);
    let (mpk, msk) = scheme.checked_setup(&mut rng).unwrap();
    assert!(mpk.check(&scheme) && msk.check(&scheme));
    let one = vec![Scalar::one()];
    let two = vec![Scalar::one(), Scalar::one()];
    assert!(scheme.checked_enc(&mpk, &two, &one, &one, &mut rng).is_none());
    assert!(scheme.checked_enc(&mpk, &one, &two, &one, &mut rng).is_none());
    assert!(scheme.checked_enc(&mpk, &one, &one, &two, &mut rng).is_none());
    let ct = scheme.checked_enc(&mpk, &one, &one, &one, &mut rng).unwrap();
    assert!(ct.check(&scheme));
    let fsk = scheme.checked_gen_fsk(&msk, &f, &mut rng).unwrap();
    assert!(fsk.check(&scheme, 2));
    assert!(!fsk.check(&scheme, 3));
    let out = scheme.checked_dec(&ct, &f, &fsk).unwrap();
    assert!(out == Gt::generator());

    // other parameters: neither the keys nor the ciphertext belong to them
    let wider = Phfe::checked_new(1, 2, 1, 1).unwrap();
    assert!(!mpk.check(&wider) && !msk.check(&wider) && !ct.check(&wider));
    assert!(wider.checked_enc(&mpk, &one, &two, &one, &mut rng).is_none());
    assert!(wider.checked_gen_fsk(&msk, &f, &mut rng).is_none());
    assert!(wider.checked_dec(&ct, &f, &fsk).is_none());

    // a security parameter that is not below the number of columns of l0
    let large = Phfe::checked_new(1, 1, 1, 2).unwrap();
    assert!(!large.accepts(&f));
    let (_, large_msk) = large.checked_setup(&mut rng).unwrap();
    assert!(large.checked_gen_fsk(&large_msk, &f, &mut rng).is_none());

    // a coefficient polynomial in a private variable, or in a public variable
    // that the public vector lacks
    let mut private = product_function();
    private.dfx_coeffs[2] = Polynomial::new(vec![Monomial::new(
        vec![Variable { index: 0, variable_type: VariableType::Private }],
        Scalar::one(),
    )]);
    assert!(!scheme.accepts(&private));
    assert!(scheme.checked_dec(&ct, &private, &fsk).is_none());
    let mut beyond = product_function();
    beyond.polys[0] = single_var(1);
    assert!(!scheme.accepts(&beyond));
    assert!(!single_var(1).is_public_below(1));
    assert!(single_var(1).is_public_below(2));

    // numbers that no parameters can be made of
    assert!(Phfe::checked_new(0, 1, 1, 1).is_none());
    assert!(Phfe::checked_new(1, 0, 1, 1).is_some());
    assert!(Phfe::checked_new(1, 1, 0, 1).is_some());
    assert!(Phfe::checked_new(1, 1, 1, 0).is_none());
    assert!(Phfe::checked_new(1, usize::MAX, 1, 1).is_none());
    assert!(Phfe::checked_new(1, usize::MAX / 2, usize::MAX / 2, 1).is_none());
    assert!(Phfe::checked_new(2, 1, 1, usize::MAX / 2 + 1).is_none());
    let mut broken = scheme;
    broken.k1 = 7;
    assert!(!broken.is_valid());
    assert!(broken.checked_setup(&mut rng).is_none());
}

#[test]
fn encoding_that_is_not_sound_does_not_decrypt_to_the_value() {
    let mut f = product_function();
    f.l0 = Matrix::from_scalars(&scalar_rows(&[&[2, 0]]), 2).unwrap();
    let scheme = Phfe::new(1, 1, 1, 1);
    assert!(scheme.accepts(&f));
    let mut rng = StdRng::seed_from_u64(10);
    let (mpk, msk) = scheme.setup(&mut rng);
    let one = vec![Scalar::one()];
    let ct = scheme.enc(&mpk, &one, &one, &one, &mut rng);
    let fsk = scheme.gen_fsk(&msk, &f, &mut rng);
    let out = scheme.dec(&ct, &f, &fsk);
    assert!(!out.equals(&Gt::generator()));
}

#[test]
fn linear_key_for_a_mask_without_columns() {
    let scheme = LinearPhfe::new(1, 2, 1);
    assert!(scheme.is_valid());
    let mut rng = StdRng::seed_from_u64(12);
    let (mpk, msk) = scheme.setup(&mut rng);
    let l0 = Matrix::from_scalars(&scalar_rows(&[&[1, 0]]), 2).unwrap();
    let l1 = Matrix::from_scalars(&scalar_rows(&[&[0, 0]]), 2).unwrap();
    let f = PhfeFunc::new(1, 0, 0, vec![], vec![constant(0), single_var(0)], l0, l1);
    let mask = Matrix::zeros(2, 0);
    assert!(scheme.accepts(&f, 0));
    assert!(scheme.accepts(&f, 1));
    assert!(!scheme.accepts(&f, 2));
    assert!(scheme.can_decrypt(&f, 0));
    let fsk = scheme.gen_fsk(&msk, &f, &mask, &mut rng);
    assert_eq!((fsk.tm_matrix.nrows, fsk.tm_matrix.ncols), (2, 0));
    assert_eq!((fsk.m_matrix.nrows, fsk.m_matrix.ncols), (2, 0));
    assert_eq!((fsk.l1_matrix.nrows, fsk.l1_matrix.ncols), (2, 2));
    assert_eq!((fsk.l0_matrix.nrows, fsk.l0_matrix.ncols), (2, 2));
    assert_eq!((fsk.r_matrix.nrows, fsk.r_matrix.ncols), (1, 2));
    assert!(fsk.check(&scheme, 0, 2));
    let z = Matrix::row_from_scalars(&vec![Scalar::from_u64(3), Scalar::from_u64(4)]);
    let z_g1 = phfe::phfe::utils::scalar_vec_to_g1(&z);
    let ct = scheme.enc(&mpk, &vec![Scalar::from_u64(5)], &z_g1, &mut rng);
    assert!(ct.check(&scheme));
    let out = scheme.dec(&ct, &f, &fsk);
    assert!(out.is_identity());
}

#[test]
fn keys_are_made_for_parameters_of_zero() {
    let mut rng = StdRng::seed_from_u64(14);
    let linear = LinearPhfe::new(0, 0, 0);
    assert!(linear.is_representable());
    assert!(!linear.is_valid());
    let (mpk, msk) = linear.setup(&mut rng);
    assert_eq!((mpk.a_matrix.nrows, mpk.a_matrix.ncols), (0, 1));
    assert_eq!((mpk.aw_matrix.nrows, mpk.aw_matrix.ncols), (0, 0));
    assert_eq!((msk.w_matrix.nrows, msk.w_matrix.ncols), (1, 0));
    assert_eq!((msk.v_matrix.nrows, msk.v_matrix.ncols), (1, 0));
    assert!(mpk.check(&linear) && msk.check(&linear));

    let linear = LinearPhfe::new(0, 3, 2);
    let (mpk, msk) = linear.setup(&mut rng);
    assert_eq!((mpk.au_matrix.nrows, mpk.au_matrix.ncols), (2, 0));
    assert_eq!((mpk.aw_matrix.nrows, mpk.aw_matrix.ncols), (2, 3));
    assert_eq!((msk.u_matrix.nrows, msk.u_matrix.ncols), (3, 0));
    assert!(mpk.aw_matrix == mpk.a_matrix.mul(&msk.w_matrix));
    assert!(mpk.check(&linear) && msk.check(&linear));

    for (nx, n1, n2, k) in [(0, 0, 0, 0), (1, 0, 2, 1), (1, 2, 0, 1), (0, 1, 1, 1), (2, 1, 1, 0)] {
        let scheme = Phfe::new(nx, n1, n2, k);
        assert!(scheme.is_consistent());
        assert_eq!(scheme.is_valid(), nx >= 1 && k >= 1);
        assert_eq!(Phfe::checked_new(nx, n1, n2, k).is_some(), nx >= 1 && k >= 1);
        let (mpk, msk) = scheme.setup(&mut rng);
        assert!(mpk.check(&scheme) && msk.check(&scheme));
        assert_eq!(mpk.m_matrix.nrows, (n2 + 1) * n1 + (n1 + 1) * n2);
        assert_eq!(mpk.m_matrix.ncols, n1 * n2);
        assert_eq!((mpk.a1_g1_matrix.nrows, mpk.a1_g1_matrix.ncols), (n1 + 1, n1));
        assert_eq!((mpk.a2_g2_matrix.nrows, mpk.a2_g2_matrix.ncols), (n2 + 1, n2));
        assert!(mpk.m_matrix == msk.m_matrix);
        assert!(scheme.checked_setup(&mut rng).is_some());
        let none = vec![];
        assert!(scheme.checked_enc(&mpk, &none, &none, &none, &mut rng).is_none());
    }
    let mut broken = Phfe::new(1, 1, 1, 1);
    broken.k2 = 5;
    assert!(!broken.is_consistent());
    assert!(broken.checked_setup(&mut rng).is_none());
    broken = Phfe::new(1, 1, 1, usize::MAX);
    assert!(!broken.is_consistent());
    assert!(broken.checked_setup(&mut rng).is_none());
}

#[test]
fn an_empty_private_vector_is_encrypted_but_not_decrypted() {
    let mut rng = StdRng::seed_from_u64(15);
    let l0 = Matrix::from_scalars(&scalar_rows(&[&[1, 0]]), 2).unwrap();
    let l1 = Matrix::from_scalars(&scalar_rows(&[&[0, 0]]), 2).unwrap();
    let f = PhfeFunc::new(1, 0, 2, vec![], vec![constant(0), single_var(0)], l0, l1);
    for (n1, n2) in [(0usize, 2usize), (2, 0), (0, 0)] {
        let scheme = Phfe::checked_new(1, n1, n2, 1).unwrap();
        let (mpk, msk) = scheme.checked_setup(&mut rng).unwrap();
        let x = vec![Scalar::from_u64(9)];
        let z1: Vec<Scalar> = (0..n1).map(|i| Scalar::from_usize(i + 2)).collect();
        let z2: Vec<Scalar> = (0..n2).map(|i| Scalar::from_usize(i + 5)).collect();
        let ct = scheme.checked_enc(&mpk, &x, &z1, &z2, &mut rng).unwrap();
        assert!(ct.check(&scheme));
        assert_eq!((ct.y1_vec.nrows, ct.y1_vec.ncols), (1, n1));
        assert_eq!((ct.y2_vec.nrows, ct.y2_vec.ncols), (1, n2));
        assert_eq!(ct.linear_ct.z_vec.ncols, (n2 + 1) * n1 + (n1 + 1) * n2);
        assert_eq!(ct.linear_ct.sa_vec.ncols, 2);
        let fsk = scheme.checked_gen_fsk(&msk, &f, &mut rng).unwrap();
        assert!(fsk.check(&scheme, 2));
        assert_eq!(fsk.linear_fsk.m_matrix.ncols, 0);
        assert_eq!(fsk.linear_fsk.tm_matrix.ncols, 0);
        assert!(!scheme.accepts(&f));
        assert!(scheme.checked_dec(&ct, &f, &fsk).is_none());
        // the linear scheme decrypts the pair: there is nothing to weigh
        let out = scheme.linear_phfe.dec(&ct.linear_ct, &f, &fsk.linear_fsk);
        assert!(out.is_identity());
    }
    // without a private vector at all, a mask with columns finds no key
    let linear = LinearPhfe::new(1, 0, 1);
    assert!(linear.is_valid());
    assert!(linear.can_decrypt(&f, 0));
    assert!(!linear.can_decrypt(&f, 1));
}

#[test]
fn concrete_scenario_scales_with_inputs() {
    let out = decrypt_product(3, 5, 7, 9);
    assert!(out.equals(&Gt::generator().scale(&Scalar::from_u64(105))));
}
