use ark_ec::pairing::{Pairing, PairingOutput};
use ark_ec::Group;
use ark_ff::{Field, PrimeField};
use ark_serialize::{CanonicalDeserialize, CanonicalSerialize};
use phfe::group::{pairing, G1, G2, Gt};
use phfe::scalar::{Scalar, ScalarDistribution};
use rand::rngs::StdRng;
use rand::SeedableRng;
use std::str::FromStr;

const MODULUS: &str =
    "21888242871839275222246405745257275088548364400416034343698204186575808495617";
const MODULUS_MINUS_ONE: &str =
    "21888242871839275222246405745257275088548364400416034343698204186575808495616";

fn ark(s: &Scalar) -> ark_bn254::Fr {
    ark_bn254::Fr::from_str(&s.to_decimal()).unwrap()
}

fn decimal(f: &ark_bn254::Fr) -> String {
    f.into_bigint().to_string()
}

#[test]
fn from_usize_test() {
    let five_from_usize = Scalar::from_usize(5);
    let one = Scalar::one();
    let five = one.add(&one).add(&one).add(&one).add(&one);
    assert!(five_from_usize.equals(&five));
}

#[test]
fn small_numbers_keep_their_value() {
    assert_eq!(Scalar::from_u64(0).to_decimal(), "0");
    assert_eq!(Scalar::zero().to_decimal(), "0");
    assert_eq!(Scalar::one().to_decimal(), "1");
    assert_eq!(Scalar::from_u64(u64::MAX).to_decimal(), "18446744073709551615");
    assert_eq!(Scalar::from_usize(12345).to_decimal(), "12345");
    assert_eq!(Scalar::from_usize(0).to_decimal(), "0");
    assert_eq!(Scalar::from_usize(usize::MAX).to_decimal(), (usize::MAX as u128).to_string());
    assert!(Scalar::from_usize(1 << 40) == Scalar::from_u64(1 << 40));
    assert!(Scalar::zero().is_zero());
    assert!(!Scalar::one().is_zero());
    assert!(Scalar::one().is_one());
    assert!(!Scalar::from_u64(2).is_one());
}

#[test]
fn arithmetic_is_modular() {
    let a = Scalar::from_u64(7);
    let b = Scalar::from_u64(5);
    assert_eq!(a.add(&b).to_decimal(), "12");
    assert_eq!(a.mul(&b).to_decimal(), "35");
    assert_eq!(Scalar::one().neg().to_decimal(), MODULUS_MINUS_ONE);
    assert_eq!(Scalar::zero().neg().to_decimal(), "0");
    let top = Scalar::from_decimal(MODULUS_MINUS_ONE).unwrap();
    assert!(top.add(&Scalar::one()).is_zero());
    assert_eq!(top.mul(&top).to_decimal(), "1");
    assert!(a.neg().add(&a).is_zero());
    assert!(!a.equals(&b));
    assert!(a.equals(&Scalar::from_u64(7)));
}

#[test]
fn arithmetic_agrees_with_the_field_library() {
    let mut rng = StdRng::seed_from_u64(42);
    for _ in 0..20 {
        let a = Scalar::random(&mut rng);
        let b = Scalar::random(&mut rng);
        assert_eq!(decimal(&(ark(&a) + ark(&b))), a.add(&b).to_decimal());
        assert_eq!(decimal(&(ark(&a) * ark(&b))), a.mul(&b).to_decimal());
        assert_eq!(decimal(&(-ark(&a))), a.neg().to_decimal());
        assert_eq!(decimal(&ark(&a).square()), a.mul(&a).to_decimal());
        assert!(!a.equals(&b));
    }
}

#[test]
fn subtraction_and_division() {
    let a = Scalar::from_u64(84);
    let b = Scalar::from_u64(2);
    assert_eq!(a.sub(&b).to_decimal(), "82");
    assert_eq!(b.sub(&a).to_decimal(), Scalar::from_u64(82).neg().to_decimal());
    assert_eq!(a.div(&b).to_decimal(), "42");
    assert!(Scalar::zero().invert().is_none());
    let inverse = b.invert().unwrap();
    assert!(inverse.mul(&b).is_one());
    assert!(!inverse.equals(&b));
    assert_eq!(
        inverse.to_decimal(),
        "10944121435919637611123202872628637544274182200208017171849102093287904247809"
    );
    assert!(a.checked_div(&Scalar::zero()).is_none());
    assert!(a.checked_div(&b).unwrap().equals(&Scalar::from_u64(42)));
    let third = Scalar::one().div(&Scalar::from_u64(3));
    assert!(third.add(&third).add(&third).is_one());
    assert_eq!(decimal(&(ark(&a) / ark(&Scalar::from_u64(3)))), a.div(&Scalar::from_u64(3)).to_decimal());
}

#[test]
fn distribution_draws_from_the_generator() {
    let mut rng_a = StdRng::seed_from_u64(9);
    let mut rng_b = StdRng::seed_from_u64(9);
    let a = ScalarDistribution.sample(&mut rng_a);
    let b = Scalar::random(&mut rng_b);
    assert!(a.equals(&b));
}

#[test]
fn random_elements_follow_the_seed() {
    let mut rng_a = StdRng::seed_from_u64(5);
    let mut rng_b = StdRng::seed_from_u64(5);
    let mut rng_c = StdRng::seed_from_u64(6);
    let a = Scalar::random(&mut rng_a);
    let b = Scalar::random(&mut rng_b);
    let c = Scalar::random(&mut rng_c);
    assert!(a.equals(&b));
    assert!(!a.equals(&c));
    assert!(!Scalar::random(&mut rng_a).equals(&a));
}

#[test]
fn decimal_notation_is_read_strictly() {
    assert_eq!(Scalar::from_decimal("0").unwrap().to_decimal(), "0");
    assert_eq!(Scalar::from_decimal("42").unwrap().to_decimal(), "42");
    assert_eq!(Scalar::from_decimal(MODULUS).unwrap().to_decimal(), "0");
    assert_eq!(
        Scalar::from_decimal("21888242871839275222246405745257275088548364400416034343698204186575808495620")
            .unwrap()
            .to_decimal(),
        "3"
    );
    assert!(Scalar::from_decimal("").is_none());
    assert!(Scalar::from_decimal("007").is_none());
    assert!(Scalar::from_decimal("00").is_none());
    assert!(Scalar::from_decimal("-1").is_none());
    assert!(Scalar::from_decimal("+1").is_none());
    assert!(Scalar::from_decimal("1 ").is_none());
    assert!(Scalar::from_decimal("12a").is_none());
    assert!(Scalar::from_decimal("y5").is_none());
}

#[test]
fn digits_are_read_with_leading_zeros() {
    assert_eq!(Scalar::from_digits("0").unwrap().to_decimal(), "0");
    assert_eq!(Scalar::from_digits("00").unwrap().to_decimal(), "0");
    assert_eq!(Scalar::from_digits("007").unwrap().to_decimal(), "7");
    assert_eq!(Scalar::from_digits("42").unwrap().to_decimal(), "42");
    assert_eq!(Scalar::from_digits("0100").unwrap().to_decimal(), "100");
    assert_eq!(Scalar::from_digits(MODULUS).unwrap().to_decimal(), "0");
    assert_eq!(Scalar::from_digits(&format!("000{}", MODULUS_MINUS_ONE)).unwrap().to_decimal(), MODULUS_MINUS_ONE);
    for bad in ["", "-1", "+1", "1 ", " 1", "12a", "y5", "0x1"] {
        assert!(Scalar::from_digits(bad).is_none());
    }
    assert_eq!(phfe::decimal::strip_leading_zeros("000"), "0");
    assert_eq!(phfe::decimal::strip_leading_zeros("0012"), "12");
    assert_eq!(phfe::decimal::strip_leading_zeros("120"), "120");
    assert_eq!(phfe::decimal::strip_leading_zeros(""), "");
    assert_eq!(phfe::decimal::strip_leading_zeros("0a"), "a");
}

#[test]
fn copies_are_the_same_element() {
    let a = Scalar::from_u64(99);
    let b = a;
    let c = a.clone();
    assert!(a.equals(&b));
    assert!(c.equals(&a));
    let g = G1::generator().scale(&a);
    let h = g;
    assert!(g.clone().equals(&h));
}

fn check_group_laws<T>(
    generator: T,
    add: impl Fn(&T, &T) -> T,
    neg: impl Fn(&T) -> T,
    scale: impl Fn(&T, &Scalar) -> T,
    equals: impl Fn(&T, &T) -> bool,
    is_identity: impl Fn(&T) -> bool,
) {
    let two = Scalar::from_u64(2);
    let three = Scalar::from_u64(3);
    let five = Scalar::from_u64(5);
    let doubled = add(&generator, &generator);
    assert!(equals(&doubled, &scale(&generator, &two)));
    assert!(!equals(&doubled, &generator));
    assert!(!is_identity(&generator));
    assert!(is_identity(&scale(&generator, &Scalar::zero())));
    assert!(is_identity(&add(&generator, &neg(&generator))));
    assert!(!equals(&neg(&generator), &generator));
    assert!(equals(&neg(&neg(&generator)), &generator));
    assert!(equals(&scale(&generator, &Scalar::one()), &generator));
    let left = add(&scale(&generator, &two), &scale(&generator, &three));
    assert!(equals(&left, &scale(&generator, &five)));
    assert!(equals(&scale(&scale(&generator, &two), &three), &scale(&generator, &Scalar::from_u64(6))));
    assert!(equals(&neg(&generator), &scale(&generator, &Scalar::one().neg())));
}

#[test]
fn first_source_group_is_a_group() {
    check_group_laws(
        G1::generator(),
        |a, b| a.add(b),
        |a| a.neg(),
        |a, s| a.scale(s),
        |a, b| a.equals(b),
        |a| a.is_identity(),
    );
}

#[test]
fn second_source_group_is_a_group() {
    check_group_laws(
        G2::generator(),
        |a, b| a.add(b),
        |a| a.neg(),
        |a, s| a.scale(s),
        |a, b| a.equals(b),
        |a| a.is_identity(),
    );
}

#[test]
fn target_group_is_a_group() {
    check_group_laws(
        Gt::generator(),
        |a, b| a.add(b),
        |a| a.neg(),
        |a, s| a.scale(s),
        |a, b| a.equals(b),
        |a| a.is_identity(),
    );
}

fn written<T: CanonicalSerialize>(value: &T) -> Vec<u8> {
    let mut bytes = Vec::new();
    value.serialize_compressed(&mut bytes).unwrap();
    bytes
}

#[test]
fn bytes_are_those_of_the_curve_library() {
    let six = ark_bn254::Fr::from(6u64);
    let seven = ark_bn254::Fr::from(7u64);
    let p = ark_bn254::G1Projective::generator() * six;
    let q = ark_bn254::G2Projective::generator() * seven;
    let e = ark_bn254::Bn254::pairing(p, q);
    let ours_p = G1::generator().scale(&Scalar::from_u64(6));
    let ours_q = G2::generator().scale(&Scalar::from_u64(7));
    assert_eq!(ours_p.to_bytes(), written(&p));
    assert_eq!(ours_q.to_bytes(), written(&q));
    assert_eq!(pairing(&ours_p, &ours_q).to_bytes(), written(&e));
    assert_eq!(
        Gt::generator().scale(&Scalar::from_u64(42)).to_bytes(),
        written(&(PairingOutput::<ark_bn254::Bn254>::generator() * ark_bn254::Fr::from(42u64)))
    );
    assert_eq!(G1::generator().to_bytes(), written(&ark_bn254::G1Projective::generator()));
    assert_eq!(
        ours_p.add(&ours_p).neg().to_bytes(),
        written(&(-(p + p)))
    );
    assert_eq!(
        ours_q.add(&G2::generator()).neg().to_bytes(),
        written(&(-(q + ark_bn254::G2Projective::generator())))
    );
    assert_ne!(ours_p.to_bytes(), G1::generator().to_bytes());
    assert_ne!(ours_q.to_bytes(), G2::generator().to_bytes());
    assert_ne!(Gt::generator().to_bytes(), Gt::generator().neg().to_bytes());
    let back = ark_bn254::G1Projective::deserialize_compressed(&ours_p.to_bytes()[..]).unwrap();
    assert_eq!(back, p);
    let back =
        PairingOutput::<ark_bn254::Bn254>::deserialize_compressed(&Gt::generator().to_bytes()[..])
            .unwrap();
    assert_eq!(back, PairingOutput::<ark_bn254::Bn254>::generator());
}

#[test]
fn pairing_multiplies_exponents() {
    let a = Scalar::from_u64(6);
    let b = Scalar::from_u64(7);
    let p = G1::generator().scale(&a);
    let q = G2::generator().scale(&b);
    assert!(pairing(&G1::generator(), &G2::generator()).equals(&Gt::generator()));
    assert!(pairing(&p, &q).equals(&Gt::generator().scale(&Scalar::from_u64(42))));
    assert!(!pairing(&p, &q).equals(&Gt::generator()));
    assert!(pairing(&p, &G2::generator()).equals(&pairing(&G1::generator(), &G2::generator().scale(&a))));
    assert!(pairing(&p, &G2::generator().scale(&Scalar::zero())).is_identity());
}

#[test]
fn powers_take_limbs_as_exponent() {
    let three = Scalar::from_u64(3);
    assert_eq!(three.pow(&vec![]).to_decimal(), "1");
    assert_eq!(three.pow(&vec![0]).to_decimal(), "1");
    assert_eq!(three.pow(&vec![1]).to_decimal(), "3");
    assert_eq!(three.pow(&vec![5]).to_decimal(), "243");
    assert_eq!(three.pow(&vec![5, 0]).to_decimal(), "243");
    assert_eq!(Scalar::zero().pow(&vec![0]).to_decimal(), "1");
    assert_eq!(Scalar::zero().pow(&vec![7]).to_decimal(), "0");
    let two = Scalar::from_u64(2);
    let mut by_hand = Scalar::one();
    for _ in 0..64 {
        by_hand = by_hand.mul(&two);
    }
    assert!(two.pow(&vec![64]) == by_hand);
    assert_eq!(by_hand.to_decimal(), "18446744073709551616");
    let mut squared = two;
    for _ in 0..64 {
        squared = squared.mul(&squared);
    }
    assert!(two.pow(&vec![0, 1]) == squared);
    assert!(two.pow(&vec![1, 1]) == squared.mul(&two));
    assert_eq!(Scalar::multiplicative_generator().to_decimal(), "5");
    assert_eq!(Scalar::pow_generator(&vec![3]).to_decimal(), "125");
    let order_minus_one = vec![
        0x43e1f593f0000000u64,
        0x2833e84879b97091,
        0xb85045b68181585d,
        0x30644e72e131a029,
    ];
    assert!(Scalar::pow_generator(&order_minus_one).is_one());
    assert!(three.pow(&order_minus_one).is_one());
}
