//! Partially-hiding functional encryption for bilinear functions over the
//! BN254 pairing, with the polynomials that describe the functions, and
//! boolean circuits with a builder and an evaluator.
pub mod circuit;
pub mod decimal;
pub mod error;
pub mod gate;
pub mod group;
pub mod lwe;
pub mod phfe;
pub mod poly;
pub mod scalar;
pub mod text;
