//! The scalar field of the pairing groups: integers modulo the prime group
//! order, computed by the `ark_bn254` field implementation.
use crate::decimal::{
    canonical_decimal, decimal_digits, decimal_value, is_number, lemma_without_leading_zeros,
    str_all_digits, strip_leading_zeros,
};
use ark_ff::{Field, PrimeField, UniformRand};
use std::str::FromStr;
use vstd::prelude::*;

verus! {

/// `rand::rngs::StdRng`, the random number generator that field elements are
/// drawn from. It is handed on to the field implementation and never looked
/// into.
#[verifier::external_type_specification]
#[verifier::external_body]
pub struct ExStdRng(rand::rngs::StdRng);

/// The prime order `r` of the scalar field and of the groups G1, G2 and Gt.
pub open spec fn modulus() -> int {
    0x43e1f593f0000001int + 0x2833e84879b97091int * 0x1_0000_0000_0000_0000int
        + 0xb85045b68181585dint * 0x1_0000_0000_0000_0000int * 0x1_0000_0000_0000_0000int
        + 0x30644e72e131a029int * 0x1_0000_0000_0000_0000int * 0x1_0000_0000_0000_0000int
        * 0x1_0000_0000_0000_0000int
}

/// Sum in the field, on representatives.
pub open spec fn add_mod(a: int, b: int) -> int {
    (a + b) % modulus()
}

/// Product in the field, on representatives.
pub open spec fn mul_mod(a: int, b: int) -> int {
    (a * b) % modulus()
}

/// Additive inverse in the field, on a representative.
pub open spec fn neg_mod(a: int) -> int {
    (-a) % modulus()
}

/// The power `b^e` in the field, on a representative.
pub open spec fn pow_mod(b: int, e: nat) -> int
    decreases e,
{
    if e == 0 {
        1
    } else {
        mul_mod(pow_mod(b, (e - 1) as nat), b)
    }
}

/// The number that 64-bit limbs denote, least significant limb first.
pub open spec fn limbs_value(limbs: Seq<u64>) -> nat
    decreases limbs.len(),
{
    if limbs.len() == 0 {
        0
    } else {
        limbs[0] as nat + 0x1_0000_0000_0000_0000 * limbs_value(limbs.skip(1))
    }
}

/// The modulus exceeds every 64-bit number.
pub proof fn lemma_modulus_large()
    ensures
        modulus() > 0xffff_ffff_ffff_ffff,
{
}

/// An element of the scalar field. The value inside is an `ark_bn254::Fr`,
/// which Verus does not look into.
#[verifier::external_body]
pub struct Scalar {
    pub(crate) inner: ark_bn254::Fr,
}

/// The least non-negative integer that the field element stands for.
pub uninterp spec fn scalar_residue(x: Scalar) -> int;

impl Clone for Scalar {
    fn clone(&self) -> (r: Self)
        ensures
            r == *self,
    {
        *self
    }
}

impl Copy for Scalar {

}

impl PartialEq for Scalar {
    fn eq(&self, other: &Self) -> (r: bool) {
        field_eq(self, other)
    }
}

impl Eq for Scalar {

}

impl vstd::std_specs::cmp::PartialEqSpecImpl for Scalar {
    open spec fn obeys_eq_spec() -> bool {
        true
    }

    open spec fn eq_spec(&self, other: &Self) -> bool {
        self.value() == other.value()
    }
}

/// `Fr::from(u64)`: the field element of a 64-bit number, which is below the
/// modulus and therefore its own residue.
#[verifier::external_body]
fn field_from_u64(x: u64) -> (r: Scalar)
    ensures
        scalar_residue(r) == x,
{
    Scalar { inner: ark_bn254::Fr::from(x) }
}

/// `Fr + Fr`: addition modulo the group order.
#[verifier::external_body]
fn field_add(a: &Scalar, b: &Scalar) -> (r: Scalar)
    ensures
        scalar_residue(r) == add_mod(a.value(), b.value()),
{
    Scalar { inner: a.inner + b.inner }
}

/// `Fr * Fr`: multiplication modulo the group order.
#[verifier::external_body]
fn field_mul(a: &Scalar, b: &Scalar) -> (r: Scalar)
    ensures
        scalar_residue(r) == mul_mod(a.value(), b.value()),
{
    Scalar { inner: a.inner * b.inner }
}

/// `-Fr`: the additive inverse modulo the group order.
#[verifier::external_body]
fn field_neg(a: &Scalar) -> (r: Scalar)
    ensures
        scalar_residue(r) == neg_mod(a.value()),
{
    Scalar { inner: -a.inner }
}

/// `Field::inverse` on `Fr`: the multiplicative inverse, which every element
/// but zero has.
#[verifier::external_body]
fn field_inverse(a: &Scalar) -> (r: Option<Scalar>)
    ensures
        r.is_some() == (a.value() != 0),
        r.is_some() ==> mul_mod(a.value(), scalar_residue(r.unwrap()) % modulus()) == 1,
{
    match a.inner.inverse() {
        Some(v) => Some(Scalar { inner: v }),
        None => None,
    }
}

/// `Field::pow` on `Fr`: the power whose exponent the limbs denote, least
/// significant limb first; the power with exponent zero is one.
#[verifier::external_body]
fn field_pow(a: &Scalar, exp: &Vec<u64>) -> (r: Scalar)
    ensures
        scalar_residue(r) == pow_mod(a.value(), limbs_value(exp@)),
{
    Scalar { inner: a.inner.pow(exp) }
}

/// `FftField::GENERATOR` of `Fr`: the number five, which generates the
/// multiplicative group of the field.
#[verifier::external_body]
fn field_generator() -> (r: Scalar)
    ensures
        scalar_residue(r) == 5,
{
    Scalar { inner: <ark_bn254::Fr as ark_ff::FftField>::GENERATOR }
}

/// `Fr == Fr`: two field elements are equal exactly when their residues are.
#[verifier::external_body]
fn field_eq(a: &Scalar, b: &Scalar) -> (r: bool)
    ensures
        r == (a.value() == b.value()),
{
    a.inner == b.inner
}

/// `Fr::rand`: a field element drawn from the generator. Nothing is claimed
/// of which one.
#[verifier::external_body]
fn field_random(rng: &mut rand::rngs::StdRng) -> (r: Scalar) {
    Scalar { inner: ark_bn254::Fr::rand(rng) }
}

/// `Fr::from_str`: accepts exactly the non-empty digit strings without a
/// superfluous leading zero, and yields the denoted number modulo the group
/// order.
#[verifier::external_body]
fn field_from_decimal(s: &str) -> (r: Option<Scalar>)
    ensures
        r.is_some() == canonical_decimal(s@),
        r.is_some() ==> scalar_residue(r.unwrap()) == decimal_value(s@) as int % modulus(),
{
    match ark_bn254::Fr::from_str(s) {
        Ok(v) => Some(Scalar { inner: v }),
        Err(_) => None,
    }
}

/// `Fr::into_bigint` followed by `BigInt::to_string`: the residue in decimal
/// notation without leading zeros, `"0"` for zero.
#[verifier::external_body]
fn field_to_decimal(a: &Scalar) -> (r: String)
    ensures
        r@ == decimal_digits(a.value() as nat),
{
    a.inner.into_bigint().to_string()
}

impl Scalar {
    /// The integer in `[0, r)` that this element stands for.
    pub open spec fn value(&self) -> int {
        scalar_residue(*self) % modulus()
    }

    /// The field element of a 64-bit number.
    pub fn from_u64(x: u64) -> (r: Scalar)
        ensures
            r.value() == x,
    {
        proof {
            lemma_modulus_large();
            vstd::arithmetic::div_mod::lemma_small_mod(x as nat, modulus() as nat);
        }
        field_from_u64(x)
    }

    /// The field element of a machine-sized number, made of the bits of the
    /// number by doubling and adding.
    pub fn from_usize(x: usize) -> (r: Scalar)
        ensures
            r.value() == x,
    {
        let mut sum = Scalar::zero();
        let mut t = Scalar::one();
        let mut n: usize = x;
        proof {
            lemma_modulus_large();
        }
        while n > 0
            invariant
                sum.value() + t.value() * n == x,
                0 <= sum.value(),
                1 <= t.value(),
                modulus() > 0xffff_ffff_ffff_ffff,
            decreases n,
        {
            let ghost tv = t.value();
            let ghost sv = sum.value();
            proof {
                assert(tv <= tv * n) by (nonlinear_arith)
                    requires
                        n >= 1,
                        tv >= 1,
                ;
                assert(tv * n == tv * (2 * (n / 2)) + tv * (n % 2)) by (nonlinear_arith)
                    requires
                        n == 2 * (n / 2) + n % 2,
                ;
                assert(tv * (2 * (n / 2)) == (tv + tv) * (n / 2)) by (nonlinear_arith);
                vstd::arithmetic::div_mod::lemma_small_mod((sv + tv) as nat, modulus() as nat);
                vstd::arithmetic::div_mod::lemma_small_mod((tv + tv) as nat, modulus() as nat);
                assert(tv * 1 == tv && tv * 0 == 0);
            }
            if n % 2 == 1 {
                sum = sum.add(&t);
            }
            t = t.add(&t);
            n = n / 2;
        }
        proof {
            assert(t.value() * 0 == 0);
        }
        sum
    }

    /// The additive identity.
    pub fn zero() -> (r: Scalar)
        ensures
            r.value() == 0,
    {
        Scalar::from_u64(0)
    }

    /// The multiplicative identity.
    pub fn one() -> (r: Scalar)
        ensures
            r.value() == 1,
    {
        Scalar::from_u64(1)
    }

    /// Sum of two field elements.
    pub fn add(&self, rhs: &Scalar) -> (r: Scalar)
        ensures
            r.value() == add_mod(self.value(), rhs.value()),
    {
        proof {
            lemma_mod_twice(self.value() + rhs.value());
        }
        field_add(self, rhs)
    }

    /// Product of two field elements.
    pub fn mul(&self, rhs: &Scalar) -> (r: Scalar)
        ensures
            r.value() == mul_mod(self.value(), rhs.value()),
    {
        proof {
            lemma_mod_twice(self.value() * rhs.value());
        }
        field_mul(self, rhs)
    }

    /// Additive inverse of a field element.
    pub fn neg(&self) -> (r: Scalar)
        ensures
            r.value() == neg_mod(self.value()),
    {
        proof {
            lemma_mod_twice(-self.value());
        }
        field_neg(self)
    }

    /// The difference of two field elements.
    pub fn sub(&self, rhs: &Scalar) -> (r: Scalar)
        ensures
            r.value() == add_mod(self.value(), neg_mod(rhs.value())),
    {
        let n = rhs.neg();
        self.add(&n)
    }

    /// The multiplicative inverse, which every element but zero has.
    pub fn invert(&self) -> (r: Option<Scalar>)
        ensures
            r.is_some() == (self.value() != 0),
            r.is_some() ==> mul_mod(self.value(), r.unwrap().value()) == 1,
    {
        field_inverse(self)
    }

    /// The quotient of two field elements.
    pub fn div(&self, rhs: &Scalar) -> (r: Scalar)
        requires
            rhs.value() != 0,
        ensures
            mul_mod(r.value(), rhs.value()) == self.value(),
    {
        let inverse = match rhs.invert() {
            Some(v) => v,
            None => vstd::pervasive::unreached(),
        };
        let r = self.mul(&inverse);
        proof {
            let m = modulus();
            let a = self.value();
            let b = rhs.value();
            let c = inverse.value();
            lemma_mod_twice(scalar_residue(*self));
            vstd::arithmetic::div_mod::lemma_mul_mod_noop_general(a * c, b, m);
            assert((a * c) * b == a * (b * c)) by (nonlinear_arith);
            vstd::arithmetic::div_mod::lemma_mul_mod_noop_general(a, b * c, m);
            assert(a * 1 == a);
            vstd::arithmetic::div_mod::lemma_small_mod(a as nat, m as nat);
        }
        r
    }

    /// The power whose exponent the limbs `exp` denote, least significant
    /// limb first.
    pub fn pow(&self, exp: &Vec<u64>) -> (r: Scalar)
        ensures
            r.value() == pow_mod(self.value(), limbs_value(exp@)),
    {
        proof {
            lemma_pow_reduced(self.value(), limbs_value(exp@));
        }
        field_pow(self, exp)
    }

    /// The generator of the multiplicative group of the field that the
    /// field implementation fixes, which is five.
    pub fn multiplicative_generator() -> (r: Scalar)
        ensures
            r.value() == 5,
    {
        proof {
            lemma_modulus_large();
            vstd::arithmetic::div_mod::lemma_small_mod(5, modulus() as nat);
        }
        field_generator()
    }

    /// The power of the multiplicative generator whose exponent the limbs
    /// `exp` denote.
    pub fn pow_generator(exp: &Vec<u64>) -> (r: Scalar)
        ensures
            r.value() == pow_mod(5, limbs_value(exp@)),
    {
        let g = Scalar::multiplicative_generator();
        g.pow(exp)
    }

    /// The quotient of two field elements, where the divisor is not zero.
    pub fn checked_div(&self, rhs: &Scalar) -> (r: Option<Scalar>)
        ensures
            r.is_some() == (rhs.value() != 0),
            r.is_some() ==> mul_mod(r.unwrap().value(), rhs.value()) == self.value(),
    {
        if rhs.is_zero() {
            None
        } else {
            Some(self.div(rhs))
        }
    }

    /// Whether two field elements are the same.
    pub fn equals(&self, rhs: &Scalar) -> (r: bool)
        ensures
            r == (self.value() == rhs.value()),
    {
        field_eq(self, rhs)
    }

    /// Whether this is the additive identity.
    pub fn is_zero(&self) -> (r: bool)
        ensures
            r == (self.value() == 0),
    {
        let z = Scalar::zero();
        field_eq(self, &z)
    }

    /// Whether this is the multiplicative identity.
    pub fn is_one(&self) -> (r: bool)
        ensures
            r == (self.value() == 1),
    {
        let o = Scalar::one();
        field_eq(self, &o)
    }

    /// A field element drawn from `rng`.
    pub fn random(rng: &mut rand::rngs::StdRng) -> (r: Scalar)
        ensures
            0 <= r.value() < modulus(),
    {
        proof {
            lemma_modulus_large();
        }
        field_random(rng)
    }

    /// Reads a field element from canonical decimal notation: digits only,
    /// at least one, no superfluous leading zero. Numbers at or above the
    /// modulus are reduced.
    pub fn from_decimal(s: &str) -> (r: Option<Scalar>)
        ensures
            r.is_some() == canonical_decimal(s@),
            r.is_some() ==> r.unwrap().value() == decimal_value(s@) as int % modulus(),
    {
        let r = field_from_decimal(s);
        proof {
            lemma_mod_twice(decimal_value(s@) as int);
        }
        r
    }

    /// Reads a field element from digits: at least one digit and nothing
    /// else. Leading zeros are accepted, and numbers at or above the modulus
    /// are reduced.
    pub fn from_digits(s: &str) -> (r: Option<Scalar>)
        ensures
            r.is_some() == is_number(s@),
            r.is_some() ==> r.unwrap().value() == decimal_value(s@) as int % modulus(),
    {
        if s.unicode_len() == 0 || !str_all_digits(s) {
            return None;
        }
        proof {
            lemma_without_leading_zeros(s@);
        }
        Scalar::from_decimal(strip_leading_zeros(s))
    }

    /// The residue in canonical decimal notation.
    pub fn to_decimal(&self) -> (r: String)
        ensures
            r@ == decimal_digits(self.value() as nat),
    {
        field_to_decimal(self)
    }
}

/// The uniform distribution on the scalar field.
#[derive(Debug, Clone, Copy, PartialEq, Eq)]
pub struct ScalarDistribution;

impl ScalarDistribution {
    /// A field element drawn from `rng`.
    pub fn sample(&self, rng: &mut rand::rngs::StdRng) -> (r: Scalar)
        ensures
            0 <= r.value() < modulus(),
    {
        Scalar::random(rng)
    }
}

/// A power is reduced.
pub proof fn lemma_pow_reduced(b: int, e: nat)
    ensures
        0 <= pow_mod(b, e) < modulus(),
        pow_mod(b, e) % modulus() == pow_mod(b, e),
{
    lemma_modulus_large();
    if e > 0 {
        lemma_mod_twice(pow_mod(b, (e - 1) as nat) * b);
    } else {
        vstd::arithmetic::div_mod::lemma_small_mod(1, modulus() as nat);
    }
}

/// Reducing twice is reducing once.
pub proof fn lemma_mod_twice(a: int)
    ensures
        (a % modulus()) % modulus() == a % modulus(),
        0 <= a % modulus() < modulus(),
{
    lemma_modulus_large();
    vstd::arithmetic::div_mod::lemma_mod_twice(a, modulus());
}

} // verus!
