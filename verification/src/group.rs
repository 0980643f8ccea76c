//! The three groups of the BN254 pairing, each of prime order `r`, and the
//! pairing itself. The curve arithmetic is `ark_bn254`'s; an element is known
//! here by its exponent to the base of the group's fixed generator.
use crate::scalar::{add_mod, lemma_mod_twice, lemma_modulus_large, modulus, mul_mod, neg_mod, Scalar};
use ark_ec::pairing::Pairing;
use ark_ec::Group;
use ark_serialize::CanonicalSerialize;
use ark_std::Zero;
use vstd::prelude::*;

verus! {

/// An element of the first source group. The value inside is an
/// `ark_bn254::G1Projective`, which Verus does not look into. Every value is
/// made by the functions of this module from the generator, so it lies in the
/// group of order `r` that the generator spans.
#[verifier::external_body]
pub struct G1 {
    inner: ark_bn254::G1Projective,
}

/// The exponent `e` in `[0, r)` with which the generator of the first source
/// group gives this element.
pub uninterp spec fn g1_exponent(p: G1) -> int;

/// The compressed canonical bytes that the curve library writes an element
/// of the first source group as.
pub uninterp spec fn g1_bytes(p: G1) -> Seq<u8>;

impl Clone for G1 {
    fn clone(&self) -> (r: Self)
        ensures
            r == *self,
    {
        *self
    }
}

impl Copy for G1 {

}

impl PartialEq for G1 {
    fn eq(&self, other: &Self) -> (r: bool) {
        g1_same(self, other)
    }
}

impl Eq for G1 {

}

impl vstd::std_specs::cmp::PartialEqSpecImpl for G1 {
    open spec fn obeys_eq_spec() -> bool {
        true
    }

    open spec fn eq_spec(&self, other: &Self) -> bool {
        self.exp() == other.exp()
    }
}

/// `G1Projective::generator`: the fixed generator of the first source group,
/// of exponent one.
#[verifier::external_body]
fn g1_generator() -> (r: G1)
    ensures
        g1_exponent(r) == 1,
{
    G1 { inner: <ark_bn254::G1Projective>::generator() }
}

/// `G1Projective + G1Projective`: the group operation adds exponents modulo
/// the group order.
#[verifier::external_body]
fn g1_sum(a: &G1, b: &G1) -> (r: G1)
    ensures
        g1_exponent(r) == add_mod(a.exp(), b.exp()),
{
    G1 { inner: a.inner + b.inner }
}

/// `-G1Projective`: the inverse element negates the exponent modulo the group
/// order.
#[verifier::external_body]
fn g1_inverse(a: &G1) -> (r: G1)
    ensures
        g1_exponent(r) == neg_mod(a.exp()),
{
    G1 { inner: -a.inner }
}

/// `G1Projective * Fr`: scalar multiplication multiplies the exponent by the
/// scalar modulo the group order.
#[verifier::external_body]
fn g1_scaled(a: &G1, s: &Scalar) -> (r: G1)
    ensures
        g1_exponent(r) == mul_mod(a.exp(), s.value()),
{
    G1 { inner: a.inner * s.inner }
}

/// `G1Projective == G1Projective`: elements of a group of prime order are
/// equal exactly when their exponents are.
#[verifier::external_body]
fn g1_same(a: &G1, b: &G1) -> (r: bool)
    ensures
        r == (a.exp() == b.exp()),
{
    a.inner == b.inner
}

/// `G1Projective::is_zero`: the identity is the element of exponent zero.
#[verifier::external_body]
fn g1_is_identity(a: &G1) -> (r: bool)
    ensures
        r == (a.exp() == 0),
{
    a.inner.is_zero()
}

/// `CanonicalSerialize::serialize_compressed` on `G1Projective`, into a vector: the
/// bytes depend on the element alone, and writing to a vector does not fail.
#[verifier::external_body]
fn g1_serialized(a: &G1) -> (r: Vec<u8>)
    ensures
        r@ == g1_bytes(*a),
{
    let mut bytes = Vec::new();
    a.inner.serialize_compressed(&mut bytes).expect("writing to a vector does not fail");
    bytes
}

impl G1 {
    /// The exponent of this element to the base of the generator, in `[0,
    /// r)`.
    pub open spec fn exp(&self) -> int {
        g1_exponent(*self) % modulus()
    }

    /// The fixed generator.
    pub fn generator() -> (r: G1)
        ensures
            r.exp() == 1,
    {
        proof {
            lemma_modulus_large();
            vstd::arithmetic::div_mod::lemma_small_mod(1, modulus() as nat);
        }
        g1_generator()
    }

    /// The group operation.
    pub fn add(&self, rhs: &G1) -> (r: G1)
        ensures
            r.exp() == add_mod(self.exp(), rhs.exp()),
    {
        proof {
            lemma_mod_twice(self.exp() + rhs.exp());
        }
        g1_sum(self, rhs)
    }

    /// The inverse element.
    pub fn neg(&self) -> (r: G1)
        ensures
            r.exp() == neg_mod(self.exp()),
    {
        proof {
            lemma_mod_twice(-self.exp());
        }
        g1_inverse(self)
    }

    /// The element taken `s` times.
    pub fn scale(&self, s: &Scalar) -> (r: G1)
        ensures
            r.exp() == mul_mod(self.exp(), s.value()),
    {
        proof {
            lemma_mod_twice(self.exp() * s.value());
        }
        g1_scaled(self, s)
    }

    /// The compressed canonical bytes of this element, as the curve library
    /// writes and reads them.
    pub fn to_bytes(&self) -> (r: Vec<u8>)
        ensures
            r@ == g1_bytes(*self),
    {
        g1_serialized(self)
    }

    /// Whether two elements are the same.
    pub fn equals(&self, rhs: &G1) -> (r: bool)
        ensures
            r == (self.exp() == rhs.exp()),
    {
        g1_same(self, rhs)
    }

    /// Whether this is the identity element.
    pub fn is_identity(&self) -> (r: bool)
        ensures
            r == (self.exp() == 0),
    {
        g1_is_identity(self)
    }
}

/// An element of the second source group. The value inside is an
/// `ark_bn254::G2Projective`, which Verus does not look into. Every value is
/// made by the functions of this module from the generator, so it lies in the
/// group of order `r` that the generator spans.
#[verifier::external_body]
pub struct G2 {
    inner: ark_bn254::G2Projective,
}

/// The exponent `e` in `[0, r)` with which the generator of the second source
/// group gives this element.
pub uninterp spec fn g2_exponent(p: G2) -> int;

/// The compressed canonical bytes that the curve library writes an element
/// of the second source group as.
pub uninterp spec fn g2_bytes(p: G2) -> Seq<u8>;

impl Clone for G2 {
    fn clone(&self) -> (r: Self)
        ensures
            r == *self,
    {
        *self
    }
}

impl Copy for G2 {

}

impl PartialEq for G2 {
    fn eq(&self, other: &Self) -> (r: bool) {
        g2_same(self, other)
    }
}

impl Eq for G2 {

}

impl vstd::std_specs::cmp::PartialEqSpecImpl for G2 {
    open spec fn obeys_eq_spec() -> bool {
        true
    }

    open spec fn eq_spec(&self, other: &Self) -> bool {
        self.exp() == other.exp()
    }
}

/// `G2Projective::generator`: the fixed generator of the second source group,
/// of exponent one.
#[verifier::external_body]
fn g2_generator() -> (r: G2)
    ensures
        g2_exponent(r) == 1,
{
    G2 { inner: <ark_bn254::G2Projective>::generator() }
}

/// `G2Projective + G2Projective`: the group operation adds exponents modulo
/// the group order.
#[verifier::external_body]
fn g2_sum(a: &G2, b: &G2) -> (r: G2)
    ensures
        g2_exponent(r) == add_mod(a.exp(), b.exp()),
{
    G2 { inner: a.inner + b.inner }
}

/// `-G2Projective`: the inverse element negates the exponent modulo the group
/// order.
#[verifier::external_body]
fn g2_inverse(a: &G2) -> (r: G2)
    ensures
        g2_exponent(r) == neg_mod(a.exp()),
{
    G2 { inner: -a.inner }
}

/// `G2Projective * Fr`: scalar multiplication multiplies the exponent by the
/// scalar modulo the group order.
#[verifier::external_body]
fn g2_scaled(a: &G2, s: &Scalar) -> (r: G2)
    ensures
        g2_exponent(r) == mul_mod(a.exp(), s.value()),
{
    G2 { inner: a.inner * s.inner }
}

/// `G2Projective == G2Projective`: elements of a group of prime order are
/// equal exactly when their exponents are.
#[verifier::external_body]
fn g2_same(a: &G2, b: &G2) -> (r: bool)
    ensures
        r == (a.exp() == b.exp()),
{
    a.inner == b.inner
}

/// `G2Projective::is_zero`: the identity is the element of exponent zero.
#[verifier::external_body]
fn g2_is_identity(a: &G2) -> (r: bool)
    ensures
        r == (a.exp() == 0),
{
    a.inner.is_zero()
}

/// `CanonicalSerialize::serialize_compressed` on `G2Projective`, into a vector: the
/// bytes depend on the element alone, and writing to a vector does not fail.
#[verifier::external_body]
fn g2_serialized(a: &G2) -> (r: Vec<u8>)
    ensures
        r@ == g2_bytes(*a),
{
    let mut bytes = Vec::new();
    a.inner.serialize_compressed(&mut bytes).expect("writing to a vector does not fail");
    bytes
}

impl G2 {
    /// The exponent of this element to the base of the generator, in `[0,
    /// r)`.
    pub open spec fn exp(&self) -> int {
        g2_exponent(*self) % modulus()
    }

    /// The fixed generator.
    pub fn generator() -> (r: G2)
        ensures
            r.exp() == 1,
    {
        proof {
            lemma_modulus_large();
            vstd::arithmetic::div_mod::lemma_small_mod(1, modulus() as nat);
        }
        g2_generator()
    }

    /// The group operation.
    pub fn add(&self, rhs: &G2) -> (r: G2)
        ensures
            r.exp() == add_mod(self.exp(), rhs.exp()),
    {
        proof {
            lemma_mod_twice(self.exp() + rhs.exp());
        }
        g2_sum(self, rhs)
    }

    /// The inverse element.
    pub fn neg(&self) -> (r: G2)
        ensures
            r.exp() == neg_mod(self.exp()),
    {
        proof {
            lemma_mod_twice(-self.exp());
        }
        g2_inverse(self)
    }

    /// The element taken `s` times.
    pub fn scale(&self, s: &Scalar) -> (r: G2)
        ensures
            r.exp() == mul_mod(self.exp(), s.value()),
    {
        proof {
            lemma_mod_twice(self.exp() * s.value());
        }
        g2_scaled(self, s)
    }

    /// The compressed canonical bytes of this element, as the curve library
    /// writes and reads them.
    pub fn to_bytes(&self) -> (r: Vec<u8>)
        ensures
            r@ == g2_bytes(*self),
    {
        g2_serialized(self)
    }

    /// Whether two elements are the same.
    pub fn equals(&self, rhs: &G2) -> (r: bool)
        ensures
            r == (self.exp() == rhs.exp()),
    {
        g2_same(self, rhs)
    }

    /// Whether this is the identity element.
    pub fn is_identity(&self) -> (r: bool)
        ensures
            r == (self.exp() == 0),
    {
        g2_is_identity(self)
    }
}

/// An element of the target group. The value inside is an
/// `ark_ec::pairing::PairingOutput<ark_bn254::Bn254>`, which Verus does not
/// look into. Every value is made by the functions of this module, from the
/// generator or by the pairing, so it lies in the group of order `r` that
/// the generator spans.
#[verifier::external_body]
pub struct Gt {
    inner: ark_ec::pairing::PairingOutput<ark_bn254::Bn254>,
}

/// The exponent `e` in `[0, r)` with which the generator of the target group
/// gives this element.
pub uninterp spec fn gt_exponent(p: Gt) -> int;

/// The compressed canonical bytes that the curve library writes an element
/// of the target group as.
pub uninterp spec fn gt_bytes(p: Gt) -> Seq<u8>;

impl Clone for Gt {
    fn clone(&self) -> (r: Self)
        ensures
            r == *self,
    {
        *self
    }
}

impl Copy for Gt {

}

impl PartialEq for Gt {
    fn eq(&self, other: &Self) -> (r: bool) {
        gt_same(self, other)
    }
}

impl Eq for Gt {

}

impl vstd::std_specs::cmp::PartialEqSpecImpl for Gt {
    open spec fn obeys_eq_spec() -> bool {
        true
    }

    open spec fn eq_spec(&self, other: &Self) -> bool {
        self.exp() == other.exp()
    }
}

/// `PairingOutput::generator`: the fixed generator of the target group, of
/// exponent one.
#[verifier::external_body]
fn gt_generator() -> (r: Gt)
    ensures
        gt_exponent(r) == 1,
{
    Gt { inner: <ark_ec::pairing::PairingOutput<ark_bn254::Bn254>>::generator() }
}

/// `PairingOutput + PairingOutput`: the group operation adds exponents modulo
/// the group order.
#[verifier::external_body]
fn gt_sum(a: &Gt, b: &Gt) -> (r: Gt)
    ensures
        gt_exponent(r) == add_mod(a.exp(), b.exp()),
{
    Gt { inner: a.inner + b.inner }
}

/// `-PairingOutput`: the inverse element negates the exponent modulo the
/// group order.
#[verifier::external_body]
fn gt_inverse(a: &Gt) -> (r: Gt)
    ensures
        gt_exponent(r) == neg_mod(a.exp()),
{
    Gt { inner: -a.inner }
}

/// `PairingOutput * Fr`: scalar multiplication multiplies the exponent by the
/// scalar modulo the group order.
#[verifier::external_body]
fn gt_scaled(a: &Gt, s: &Scalar) -> (r: Gt)
    ensures
        gt_exponent(r) == mul_mod(a.exp(), s.value()),
{
    Gt { inner: a.inner * s.inner }
}

/// `PairingOutput == PairingOutput`: elements of a group of prime order are
/// equal exactly when their exponents are.
#[verifier::external_body]
fn gt_same(a: &Gt, b: &Gt) -> (r: bool)
    ensures
        r == (a.exp() == b.exp()),
{
    a.inner == b.inner
}

/// `PairingOutput::is_zero`: the identity is the element of exponent zero.
#[verifier::external_body]
fn gt_is_identity(a: &Gt) -> (r: bool)
    ensures
        r == (a.exp() == 0),
{
    a.inner.is_zero()
}

/// `CanonicalSerialize::serialize_compressed` on `PairingOutput`, into a vector: the
/// bytes depend on the element alone, and writing to a vector does not fail.
#[verifier::external_body]
fn gt_serialized(a: &Gt) -> (r: Vec<u8>)
    ensures
        r@ == gt_bytes(*a),
{
    let mut bytes = Vec::new();
    a.inner.serialize_compressed(&mut bytes).expect("writing to a vector does not fail");
    bytes
}

impl Gt {
    /// The exponent of this element to the base of the generator, in `[0,
    /// r)`.
    pub open spec fn exp(&self) -> int {
        gt_exponent(*self) % modulus()
    }

    /// The fixed generator.
    pub fn generator() -> (r: Gt)
        ensures
            r.exp() == 1,
    {
        proof {
            lemma_modulus_large();
            vstd::arithmetic::div_mod::lemma_small_mod(1, modulus() as nat);
        }
        gt_generator()
    }

    /// The group operation.
    pub fn add(&self, rhs: &Gt) -> (r: Gt)
        ensures
            r.exp() == add_mod(self.exp(), rhs.exp()),
    {
        proof {
            lemma_mod_twice(self.exp() + rhs.exp());
        }
        gt_sum(self, rhs)
    }

    /// The inverse element.
    pub fn neg(&self) -> (r: Gt)
        ensures
            r.exp() == neg_mod(self.exp()),
    {
        proof {
            lemma_mod_twice(-self.exp());
        }
        gt_inverse(self)
    }

    /// The element taken `s` times.
    pub fn scale(&self, s: &Scalar) -> (r: Gt)
        ensures
            r.exp() == mul_mod(self.exp(), s.value()),
    {
        proof {
            lemma_mod_twice(self.exp() * s.value());
        }
        gt_scaled(self, s)
    }

    /// The compressed canonical bytes of this element, as the curve library
    /// writes and reads them.
    pub fn to_bytes(&self) -> (r: Vec<u8>)
        ensures
            r@ == gt_bytes(*self),
    {
        gt_serialized(self)
    }

    /// Whether two elements are the same.
    pub fn equals(&self, rhs: &Gt) -> (r: bool)
        ensures
            r == (self.exp() == rhs.exp()),
    {
        gt_same(self, rhs)
    }

    /// Whether this is the identity element.
    pub fn is_identity(&self) -> (r: bool)
        ensures
            r == (self.exp() == 0),
    {
        gt_is_identity(self)
    }
}

/// `Bn254::pairing`: the pairing is bilinear and sends the two generators to
/// the generator of Gt, so it multiplies exponents modulo the group order.
#[verifier::external_body]
fn pairing_of(p: &G1, q: &G2) -> (r: Gt)
    ensures
        gt_exponent(r) == mul_mod(p.exp(), q.exp()),
{
    Gt { inner: ark_bn254::Bn254::pairing(p.inner, q.inner) }
}

/// The pairing `e(p, q)`.
pub fn pairing(p: &G1, q: &G2) -> (r: Gt)
    ensures
        r.exp() == mul_mod(p.exp(), q.exp()),
{
    proof {
        lemma_mod_twice(p.exp() * q.exp());
    }
    pairing_of(p, q)
}

} // verus!
