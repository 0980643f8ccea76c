//! Parameters of learning-with-errors samples.
pub mod parameter;
