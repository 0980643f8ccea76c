//! The parameters of a learning-with-errors instance.
use vstd::prelude::*;
use vstd::string::*;

verus! {

/// `num_bigint::BigUint`, the type of the modulus. It is kept as it is given
/// and never looked into.
#[verifier::external_type_specification]
#[verifier::external_body]
pub struct ExBigUint(num_bigint::BigUint);

/// Why parameters are refused.
#[derive(Debug, Clone, Copy, PartialEq, Eq)]
pub enum LWEParameterError {
    /// The sizes `log_q_size`, `secret_size` and `mask_size` do not go
    /// together.
    InvalidLWEParam(usize, usize, usize),
}

impl LWEParameterError {
    /// The error in words.
    pub fn message(&self) -> (r: String)
        ensures
            match *self {
                LWEParameterError::InvalidLWEParam(l, n, m) => r@
                    == "Invalid LWE Parameter. log_q_size:"@ + crate::decimal::decimal_digits(
                    l as nat,
                ) + ", secret_size:"@ + crate::decimal::decimal_digits(n as nat) + ", mask_size:"@
                    + crate::decimal::decimal_digits(m as nat),
            },
    {
        match *self {
            LWEParameterError::InvalidLWEParam(l, n, m) => {
                String::from_str("Invalid LWE Parameter. log_q_size:").concat(
                    crate::decimal::u64_to_decimal(l as u64).as_str(),
                ).concat(", secret_size:").concat(
                    crate::decimal::u64_to_decimal(n as u64).as_str(),
                ).concat(", mask_size:").concat(crate::decimal::u64_to_decimal(m as u64).as_str())
            },
        }
    }
}

/// The modulus `q` with the number `l` of its bits, the length `n` of the
/// secret, the length `m` of the mask, and the threshold between the two
/// values of a bit.
pub struct LWEParameter<S> {
    pub q_order: num_bigint::BigUint,
    pub log_q_size: usize,
    pub secret_size: usize,
    pub mask_size: usize,
    pub threshold: S,
}

impl<S> LWEParameter<S> {
    /// Whether the parameters go together. Every choice of sizes does.
    pub open spec fn valid(&self) -> bool {
        true
    }

    /// The parameters, if they go together.
    pub fn new_checked(
        q_order: num_bigint::BigUint,
        log_q_size: usize,
        secret_size: usize,
        mask_size: usize,
        threshold: S,
    ) -> (r: Result<Self, LWEParameterError>)
        ensures
            r matches Ok(p) && p.q_order == q_order && p.log_q_size == log_q_size && p.secret_size
                == secret_size && p.mask_size == mask_size && p.threshold == threshold,
    {
        let param = Self { q_order, log_q_size, secret_size, mask_size, threshold };
        if !param.verify_param() {
            return Err(LWEParameterError::InvalidLWEParam(log_q_size, secret_size, mask_size));
        }
        Ok(param)
    }

    /// The parameters, as they are given.
    pub fn new_unchecked(
        q_order: num_bigint::BigUint,
        log_q_size: usize,
        secret_size: usize,
        mask_size: usize,
        threshold: S,
    ) -> (r: Self)
        ensures
            r.q_order == q_order,
            r.log_q_size == log_q_size,
            r.secret_size == secret_size,
            r.mask_size == mask_size,
            r.threshold == threshold,
    {
        Self { q_order, log_q_size, secret_size, mask_size, threshold }
    }

    /// Whether the parameters go together.
    pub fn verify_param(&self) -> (r: bool)
        ensures
            r == self.valid(),
    {
        true
    }
}

} // verus!
