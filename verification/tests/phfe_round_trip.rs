use ark_ec::pairing::PairingOutput;
use ark_ec::Group;
use ark_serialize::CanonicalSerialize;
use phfe::group::Gt;
use phfe::phfe::func::{PhfeFunc, PhfeFuncJson};
use phfe::phfe::matrix::Matrix;
use phfe::phfe::{Phfe, PhfeCt};
use phfe::poly::{Assignment, Polynomial};
use phfe::scalar::Scalar;
use rand::rngs::StdRng;
use rand::{Rng, SeedableRng};

const ENCODING_COLUMNS: usize = 3;

/// The weights that the encoding multiplies its columns with.
fn weight_texts(num_public_vars: usize) -> Vec<String> {
    if num_public_vars >= 2 {
        vec!["1".to_string(), "x0".to_string(), "x1".to_string()]
    } else {
        vec!["1".to_string(), "x0".to_string(), "x0*x0".to_string()]
    }
}

/// A description of a bilinear function with a sound encoding: row `i` of
/// `l1 (x (x) I) + l0`, applied to the weights, is output polynomial `i`.
fn description(num_public_vars: usize, n1: usize, n2: usize) -> PhfeFuncJson {
    let rows = n1 * n2;
    let weights = weight_texts(num_public_vars);
    let factor = |j: usize| if j == 0 { String::new() } else { format!("*{}", weights[j]) };
    let mut l0 = Vec::new();
    let mut l1 = Vec::new();
    let mut polys = Vec::new();
    for i in 0..rows {
        let mut row0 = Vec::new();
        let mut row1 = Vec::new();
        let mut terms = Vec::new();
        for j in 0..ENCODING_COLUMNS {
            let c = (i + 2 * j + 1) % 5;
            row0.push(c.to_string());
            terms.push(format!("{}{}", c, factor(j)));
        }
        for p in 0..num_public_vars {
            for j in 0..ENCODING_COLUMNS {
                let c = (i + p + j) % 3;
                row1.push(c.to_string());
                terms.push(format!("{}*x{}{}", c, p, factor(j)));
            }
        }
        l0.push(row0);
        l1.push(row1);
        polys.push(terms.join("+"));
    }
    let mut dfx_coeffs = polys.clone();
    dfx_coeffs.extend(weights);
    PhfeFuncJson {
        num_public_vars,
        num_private_vars1: n1,
        num_private_vars2: n2,
        polys,
        dfx_coeffs,
        l0,
        l1,
    }
}

fn load(num_public_vars: usize, n1: usize, n2: usize) -> PhfeFunc {
    match PhfeFunc::from_json(description(num_public_vars, n1, n2)) {
        Ok(f) => f,
        Err(e) => panic!("{}", e.message()),
    }
}

fn bits(rng: &mut StdRng, n: usize) -> Vec<Scalar> {
    (0..n).map(|_| Scalar::from_u64(rng.gen_range(0..=1))).collect()
}

fn small(rng: &mut StdRng, n: usize) -> Vec<Scalar> {
    (0..n).map(|_| Scalar::from_u64(rng.gen_range(0..1000))).collect()
}

/// The sum over `i` of `polys[i](x)` times entry `i` of the tensor product
/// of `z1` and `z2`.
fn expected(f: &PhfeFunc, x: &[Scalar], z1: &[Scalar], z2: &[Scalar]) -> Scalar {
    let assignment = Assignment::new(x.to_vec(), vec![]);
    let mut total = Scalar::zero();
    for i in 0..z1.len() {
        for j in 0..z2.len() {
            let poly: &Polynomial = &f.polys[i * z2.len() + j];
            let weight = poly.eval(&assignment);
            total = total.add(&weight.mul(&z1[i].mul(&z2[j])));
        }
    }
    total
}

fn round_trip(nx: usize, n1: usize, n2: usize, k: usize, seed: u64, binary: bool) {
    let f = load(nx, n1, n2);
    let scheme = Phfe::new(f.num_public_vars, f.num_private_vars1, f.num_private_vars2, k);
    let mut rng = StdRng::seed_from_u64(seed);
    let (mpk, msk) = scheme.setup(&mut rng);
    let (x, z1, z2) = if binary {
        (bits(&mut rng, nx), bits(&mut rng, n1), bits(&mut rng, n2))
    } else {
        (small(&mut rng, nx), small(&mut rng, n1), small(&mut rng, n2))
    };
    let ct = scheme.enc(&mpk, &x, &z1, &z2, &mut rng);
    let fsk = scheme.gen_fsk(&msk, &f, &mut rng);
    let out_gt = scheme.dec(&ct, &f, &fsk);
    let expected_out = expected(&f, &x, &z1, &z2);
    assert!(out_gt.equals(&Gt::generator().scale(&expected_out)));
}

#[test]
fn test_valid_case1() {
    round_trip(3, 2, 3, 2, 1, true);
}

#[test]
fn test_valid_case2() {
    round_trip(14, 2, 5, 2, 2, true);
}

#[test]
fn test_valid_case3() {
    round_trip(20, 4, 5, 2, 3, true);
}

#[test]
fn round_trip_with_large_values() {
    round_trip(2, 2, 2, 1, 4, false);
}

#[test]
fn round_trip_with_one_first_private_variable() {
    round_trip(2, 1, 3, 2, 5, false);
}

#[test]
fn round_trip_with_one_second_private_variable() {
    round_trip(2, 3, 1, 2, 6, false);
}

#[test]
fn round_trip_with_one_of_each() {
    round_trip(1, 1, 1, 1, 7, false);
}

fn same_ciphertext(a: &PhfeCt, b: &PhfeCt) -> bool {
    a.y1_vec.equals(&b.y1_vec)
        && a.y2_vec.equals(&b.y2_vec)
        && a.linear_ct.sa_vec.equals(&b.linear_ct.sa_vec)
        && a.linear_ct.z_vec.equals(&b.linear_ct.z_vec)
        && a.linear_ct.x_vec.equals(&b.linear_ct.x_vec)
}

#[test]
fn fresh_ciphertexts_differ_and_decrypt_alike() {
    let f = load(2, 2, 2);
    let scheme = Phfe::new(2, 2, 2, 1);
    let mut rng = StdRng::seed_from_u64(11);
    let (mpk, msk) = scheme.setup(&mut rng);
    let x = small(&mut rng, 2);
    let z1 = small(&mut rng, 2);
    let z2 = small(&mut rng, 2);
    let ct_a = scheme.enc(&mpk, &x, &z1, &z2, &mut rng);
    let ct_b = scheme.enc(&mpk, &x, &z1, &z2, &mut rng);
    assert!(!same_ciphertext(&ct_a, &ct_b));
    assert!(same_ciphertext(&ct_a, &ct_a));
    let fsk_a = scheme.gen_fsk(&msk, &f, &mut rng);
    let fsk_b = scheme.gen_fsk(&msk, &f, &mut rng);
    assert!(!fsk_a.linear_fsk.r_matrix.equals(&fsk_b.linear_fsk.r_matrix));
    let out_a = scheme.dec(&ct_a, &f, &fsk_a);
    let out_b = scheme.dec(&ct_b, &f, &fsk_b);
    assert!(out_a.equals(&out_b));
    assert!(out_a.equals(&Gt::generator().scale(&expected(&f, &x, &z1, &z2))));
    let cross = scheme.dec(&ct_a, &f, &fsk_b);
    assert!(cross.equals(&out_a));
}

#[test]
fn decrypted_value_is_that_of_the_curve_library() {
    let f = load(2, 2, 2);
    let scheme = Phfe::new(2, 2, 2, 1);
    let mut rng = StdRng::seed_from_u64(17);
    let (mpk, msk) = scheme.setup(&mut rng);
    let x = vec![Scalar::from_u64(3), Scalar::from_u64(4)];
    let z1 = vec![Scalar::from_u64(5), Scalar::from_u64(6)];
    let z2 = vec![Scalar::from_u64(7), Scalar::from_u64(8)];
    let ct = scheme.enc(&mpk, &x, &z1, &z2, &mut rng);
    let fsk = scheme.gen_fsk(&msk, &f, &mut rng);
    let out = scheme.dec(&ct, &f, &fsk);
    // polynomial i is sum over j of (l0[i][j] + sum over p of l1[i][p*3+j] x_p) w_j
    // with the weights w = (1, x0, x1)
    let xs = [3u64, 4];
    let w = [1u64, 3, 4];
    let zs = [5u64 * 7, 5 * 8, 6 * 7, 6 * 8];
    let mut total = 0u64;
    for i in 0..4usize {
        let mut value = 0u64;
        for j in 0..3usize {
            let mut cell = ((i + 2 * j + 1) % 5) as u64;
            for p in 0..2usize {
                cell += ((i + p + j) % 3) as u64 * xs[p];
            }
            value += cell * w[j];
        }
        total += value * zs[i];
    }
    let expected = PairingOutput::<ark_bn254::Bn254>::generator() * ark_bn254::Fr::from(total);
    let mut bytes = Vec::new();
    expected.serialize_compressed(&mut bytes).unwrap();
    assert_eq!(out.to_bytes(), bytes);
}

#[test]
fn keys_of_the_checked_setup_belong_together() {
    let scheme = Phfe::new(2, 1, 2, 1);
    let mut rng = StdRng::seed_from_u64(32);
    let (mpk, msk) = scheme.checked_setup(&mut rng).unwrap();
    assert!(mpk.m_matrix == msk.m_matrix);
    assert!(mpk.linear_mpk.aw_matrix == mpk.linear_mpk.a_matrix.mul(&msk.linear_msk.w_matrix));
    assert!(mpk.linear_mpk.au_matrix == mpk.linear_mpk.a_matrix.mul(&msk.linear_msk.u_matrix));
    assert!(mpk.linear_mpk.av_matrix == mpk.linear_mpk.a_matrix.mul(&msk.linear_msk.v_matrix));
    let one = Matrix::column_from_scalars(&vec![Scalar::one()]);
    let one_g1 = phfe::phfe::utils::scalar_matrix_to_g1(&one);
    let one_g2 = phfe::phfe::utils::scalar_matrix_to_g2(&one);
    // the second mask matrix is the same in both groups
    for i in 0..3 {
        for j in 0..2 {
            let in_g1 = mpk.a2_g1_matrix.get(i, j).mul(&one_g2.get(0, 0));
            let in_g2 = one_g1.get(0, 0).mul(&mpk.a2_g2_matrix.get(i, j));
            assert!(in_g1.equals(&in_g2));
        }
    }
}

#[test]
fn same_seed_gives_same_ciphertext() {
    let scheme = Phfe::new(2, 2, 2, 1);
    let mut rng_a = StdRng::seed_from_u64(21);
    let mut rng_b = StdRng::seed_from_u64(21);
    let (mpk_a, _) = scheme.setup(&mut rng_a);
    let (mpk_b, _) = scheme.setup(&mut rng_b);
    assert!(mpk_a.m_matrix.equals(&mpk_b.m_matrix));
    let x = vec![Scalar::from_u64(3), Scalar::from_u64(4)];
    let z1 = vec![Scalar::from_u64(5), Scalar::from_u64(6)];
    let z2 = vec![Scalar::from_u64(7), Scalar::from_u64(8)];
    let ct_a = scheme.enc(&mpk_a, &x, &z1, &z2, &mut rng_a);
    let ct_b = scheme.enc(&mpk_b, &x, &z1, &z2, &mut rng_b);
    assert!(same_ciphertext(&ct_a, &ct_b));
}

#[test]
fn public_key_is_secret_key_in_the_exponent() {
    let scheme = Phfe::new(2, 1, 2, 1);
    let mut rng = StdRng::seed_from_u64(31);
    let (mpk, msk) = scheme.setup(&mut rng);
    assert!(mpk.m_matrix.equals(&msk.m_matrix));
    assert_eq!(mpk.m_matrix.nrows, 3 * 1 + 2 * 2);
    assert_eq!(mpk.m_matrix.ncols, 2);
    assert_eq!(mpk.linear_mpk.a_matrix.nrows, 1);
    assert_eq!(mpk.linear_mpk.a_matrix.ncols, 2);
    assert_eq!(msk.linear_msk.w_matrix.nrows, 2);
    assert_eq!(msk.linear_msk.w_matrix.ncols, 7);
    assert_eq!(msk.linear_msk.u_matrix.ncols, 2);
    assert!(mpk.linear_mpk.aw_matrix == mpk.linear_mpk.a_matrix.mul(&msk.linear_msk.w_matrix));
    assert!(mpk.linear_mpk.au_matrix == mpk.linear_mpk.a_matrix.mul(&msk.linear_msk.u_matrix));
    assert!(mpk.linear_mpk.av_matrix == mpk.linear_mpk.a_matrix.mul(&msk.linear_msk.v_matrix));
    assert!(mpk.a2_g1_matrix.nrows == 3 && mpk.a2_g2_matrix.ncols == 2);
    assert!(mpk.a2_g1_matrix.mul(&Matrix::column_from_scalars(&vec![Scalar::one(), Scalar::zero()]))
        == mpk.a2_g1_matrix.columns(0, 1));
}
