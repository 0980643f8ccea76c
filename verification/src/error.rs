//! The errors that reading a function description can end in.
use vstd::prelude::*;
use vstd::string::*;

verus! {

/// Why a text was refused. Each variant carries the text as it was given.
#[derive(Debug, Clone, PartialEq, Eq)]
pub enum Error {
    /// The text is not a field element.
    InvalidFieldString(String),
    /// The text is not a monomial; the second field says why.
    InvalidMonomialString(String, String),
    /// The text is not a polynomial; the second field says why.
    InvalidPolynomialString(String, String),
    /// The rows of the named matrix differ in length.
    RaggedMatrix(String),
}

impl Error {
    /// The text that was refused; for a ragged matrix, its name.
    pub open spec fn subject(&self) -> Seq<char> {
        match self {
            Error::InvalidFieldString(s) => s@,
            Error::InvalidMonomialString(s, _) => s@,
            Error::InvalidPolynomialString(s, _) => s@,
            Error::RaggedMatrix(s) => s@,
        }
    }

    /// The text that was refused, as the string that the error holds.
    pub open spec fn subject_string(&self) -> String {
        match self {
            Error::InvalidFieldString(s) => *s,
            Error::InvalidMonomialString(s, _) => *s,
            Error::InvalidPolynomialString(s, _) => *s,
            Error::RaggedMatrix(s) => *s,
        }
    }

    /// The reason given, empty where the variant carries none.
    pub open spec fn reason(&self) -> Seq<char> {
        match self {
            Error::InvalidFieldString(_) => Seq::empty(),
            Error::InvalidMonomialString(_, r) => r@,
            Error::InvalidPolynomialString(_, r) => r@,
            Error::RaggedMatrix(_) => Seq::empty(),
        }
    }

    /// What `message` returns.
    pub open spec fn message_spec(&self) -> Seq<char> {
        match self {
            Error::InvalidFieldString(s) => "The given string "@ + s@
                + " is invalid for field element."@,
            Error::InvalidMonomialString(s, r) => "The given string "@ + s@
                + " is invalid for monomial. Reason: "@ + r@,
            Error::InvalidPolynomialString(s, r) => "The given string "@ + s@
                + " is invalid for polynomial. Reason: "@ + r@,
            Error::RaggedMatrix(s) => "The rows of matrix "@ + s@ + " differ in length."@,
        }
    }

    /// The error in words.
    pub fn message(&self) -> (r: String)
        ensures
            r@ == self.message_spec(),
    {
        match self {
            Error::InvalidFieldString(s) => {
                String::from_str("The given string ").concat(s.as_str()).concat(
                    " is invalid for field element.",
                )
            },
            Error::InvalidMonomialString(s, t) => {
                String::from_str("The given string ").concat(s.as_str()).concat(
                    " is invalid for monomial. Reason: ",
                ).concat(t.as_str())
            },
            Error::InvalidPolynomialString(s, t) => {
                String::from_str("The given string ").concat(s.as_str()).concat(
                    " is invalid for polynomial. Reason: ",
                ).concat(t.as_str())
            },
            Error::RaggedMatrix(s) => {
                String::from_str("The rows of matrix ").concat(s.as_str()).concat(
                    " differ in length.",
                )
            },
        }
    }
}

} // verus!
