//! The text form of monomials and polynomials, and how it is read.
//!
//! A polynomial is a list of terms with `+` between them. A term, with the
//! white space around it set aside, is an optional `-` and then a list of
//! factors with `*` between them. A factor is a number in decimal notation,
//! which is the coefficient of the term and may occur once; or `x` and the
//! index of a public variable; or `z` and the index of a private variable.
use crate::decimal::{
    all_digits, decimal_digits, decimal_value, is_number, parse_u32, str_all_digits,
};
use crate::error::Error;
use crate::poly::{Monomial, MonomialView, Polynomial, PolynomialView, Variable, VariableType};
use crate::scalar::{modulus, neg_mod, Scalar};
use crate::text::{free_of, lemma_split_at, lemma_split_whole, split, trim, trimmed};
use vstd::prelude::*;
use vstd::string::*;

verus! {

/// What a factor is read as.
pub enum Factor {
    /// A coefficient, with its residue.
    Coefficient(int),
    /// A variable.
    Var(Variable),
    /// `x` and digits that do not fit a 32-bit index.
    BadPublicIndex,
    /// `z` and digits that do not fit a 32-bit index.
    BadPrivateIndex,
    /// None of the three forms.
    Unrecognized,
}

/// `f` is `letter` followed by at least one digit and nothing else.
pub open spec fn is_variable_form(f: Seq<char>, letter: char) -> bool {
    f.len() >= 2 && f[0] == letter && all_digits(f.skip(1))
}

/// `f` is at least one digit and nothing else.
pub open spec fn is_number_form(f: Seq<char>) -> bool {
    is_number(f)
}

/// Reads one factor.
pub open spec fn read_factor(f: Seq<char>) -> Factor {
    if is_variable_form(f, 'x') {
        if decimal_value(f.skip(1)) <= u32::MAX {
            Factor::Var(
                Variable {
                    index: decimal_value(f.skip(1)) as u32,
                    variable_type: VariableType::Public,
                },
            )
        } else {
            Factor::BadPublicIndex
        }
    } else if is_variable_form(f, 'z') {
        if decimal_value(f.skip(1)) <= u32::MAX {
            Factor::Var(
                Variable {
                    index: decimal_value(f.skip(1)) as u32,
                    variable_type: VariableType::Private,
                },
            )
        } else {
            Factor::BadPrivateIndex
        }
    } else if is_number_form(f) {
        Factor::Coefficient(decimal_value(f) as int % modulus())
    } else {
        Factor::Unrecognized
    }
}

/// What has been read of a term: its variables so far, and its coefficient
/// if one has occurred.
pub struct TermState {
    pub variables: Seq<Variable>,
    pub coefficient: Option<int>,
}

/// The reason given for a factor of none of the three forms.
pub open spec fn reason_unrecognized(part: Seq<char>) -> Seq<char> {
    "failed to parse "@ + part + " as a constant, public variable, or private variable"@
}

/// The reason given for a public variable whose index does not fit.
pub open spec fn reason_public_index(part: Seq<char>) -> Seq<char> {
    "failed to parse "@ + part + " as a public variable index"@
}

/// The reason given for a private variable whose index does not fit.
pub open spec fn reason_private_index(part: Seq<char>) -> Seq<char> {
    "failed to parse "@ + part + " as a private variable index"@
}

/// The reason given for a second coefficient in one term.
pub open spec fn reason_duplicate(first: int, part: Seq<char>) -> Seq<char> {
    "coefficient "@ + decimal_digits(first as nat) + " already appeared, but "@ + part
        + " appeared again"@
}

/// Takes one factor into what has been read of a term, or says why it
/// cannot be.
pub open spec fn take_factor(f: Seq<char>, st: TermState) -> Result<TermState, Seq<char>> {
    if is_number_form(f) && !is_variable_form(f, 'x') && !is_variable_form(f, 'z')
        && st.coefficient.is_some() {
        Err(reason_duplicate(st.coefficient.unwrap(), f))
    } else {
        match read_factor(f) {
            Factor::Coefficient(c) => Ok(
                TermState { variables: st.variables, coefficient: Some(c) },
            ),
            Factor::Var(v) => Ok(
                TermState { variables: st.variables.push(v), coefficient: st.coefficient },
            ),
            Factor::BadPublicIndex => Err(reason_public_index(f)),
            Factor::BadPrivateIndex => Err(reason_private_index(f)),
            Factor::Unrecognized => Err(reason_unrecognized(f)),
        }
    }
}

/// Takes the factors in turn; the first that cannot be taken ends the
/// reading.
pub open spec fn take_factors(factors: Seq<Seq<char>>, st: TermState) -> Result<
    TermState,
    Seq<char>,
>
    decreases factors.len(),
{
    if factors.len() == 0 {
        Ok(st)
    } else {
        match take_factor(factors[0], st) {
            Ok(next) => take_factors(factors.skip(1), next),
            Err(e) => Err(e),
        }
    }
}

/// The term `s` set apart from the white space around it and from its sign.
pub open spec fn term_body(s: Seq<char>) -> Seq<char> {
    let t = trim(s);
    if t.len() > 0 && t[0] == '-' {
        t.skip(1)
    } else {
        t
    }
}

/// The term `s` has a `-` in front.
pub open spec fn term_negative(s: Seq<char>) -> bool {
    let t = trim(s);
    t.len() > 0 && t[0] == '-'
}

/// The monomial that the term `s` denotes, or the reason why it denotes
/// none. A term without a coefficient has the coefficient one.
pub open spec fn read_monomial(s: Seq<char>) -> Result<MonomialView, Seq<char>> {
    match take_factors(
        split(term_body(s), '*'),
        TermState { variables: Seq::empty(), coefficient: None },
    ) {
        Ok(st) => {
            let c = if st.coefficient.is_some() {
                st.coefficient.unwrap()
            } else {
                1
            };
            Ok(
                MonomialView {
                    variables: st.variables,
                    coefficient: if term_negative(s) {
                        neg_mod(c)
                    } else {
                        c
                    },
                },
            )
        },
        Err(e) => Err(e),
    }
}

/// Why a polynomial text is refused: one of its terms, with the reason, or
/// the lack of any term.
pub enum PolynomialFailure {
    Term(Seq<char>, Seq<char>),
    Empty,
}

/// Reads the terms in turn after the monomials `done`; the first that denotes
/// no monomial ends the reading.
pub open spec fn read_terms(terms: Seq<Seq<char>>, done: Seq<MonomialView>) -> Result<
    Seq<MonomialView>,
    PolynomialFailure,
>
    decreases terms.len(),
{
    if terms.len() == 0 {
        Ok(done)
    } else {
        match read_monomial(terms[0]) {
            Ok(m) => read_terms(terms.skip(1), done.push(m)),
            Err(e) => Err(PolynomialFailure::Term(terms[0], e)),
        }
    }
}

/// The polynomial that the text `s` denotes, or why it denotes none. A text
/// of white space only has no term.
pub open spec fn read_polynomial(s: Seq<char>) -> Result<PolynomialView, PolynomialFailure> {
    if trim(s).len() == 0 {
        Err(PolynomialFailure::Empty)
    } else {
        match read_terms(split(s, '+'), Seq::empty()) {
            Ok(ms) => Ok(PolynomialView { monomials: ms }),
            Err(e) => Err(e),
        }
    }
}

/// The reason given for a text without a term.
pub open spec fn reason_empty() -> Seq<char> {
    "no monomials found"@
}

/// What has been read of a term, in the making.
struct TermProgress {
    variables: Vec<Variable>,
    coefficient: Option<Scalar>,
}

impl TermProgress {
    spec fn view(&self) -> TermState {
        TermState {
            variables: self.variables@,
            coefficient: match self.coefficient {
                Some(c) => Some(c.value()),
                None => None,
            },
        }
    }
}

/// "failed to parse", the part, and what it was to be parsed as.
fn failed_to_parse(part: &str, what: &str) -> (r: String)
    ensures
        r@ == "failed to parse "@ + part@ + what@,
{
    String::from_str("failed to parse ").concat(part).concat(what)
}

/// Takes the factor `part` into `progress`, or gives the reason why it cannot
/// be taken.
fn take_part(part: &str, progress: TermProgress) -> (r: Result<TermProgress, String>)
    ensures
        match r {
            Ok(next) => take_factor(part@, progress@) == Ok::<TermState, Seq<char>>(next@),
            Err(reason) => take_factor(part@, progress@) == Err::<TermState, Seq<char>>(reason@),
        },
{
    let n = part.unicode_len();
    let mut progress = progress;
    let mut variable_form = false;
    let mut public = false;
    if n >= 2 {
        let tail = part.substring_char(1, n);
        proof {
            assert(tail@ =~= part@.skip(1));
        }
        let c = part.get_char(0);
        if (c == 'x' || c == 'z') && str_all_digits(tail) {
            variable_form = true;
            public = c == 'x';
        }
    }
    if variable_form {
        let digits = part.substring_char(1, n);
        proof {
            assert(digits@ =~= part@.skip(1));
        }
        match parse_u32(digits) {
            Some(index) => {
                let variable_type = if public {
                    VariableType::Public
                } else {
                    VariableType::Private
                };
                progress.variables.push(Variable { index, variable_type });
                Ok(progress)
            },
            None => {
                if public {
                    Err(failed_to_parse(part, " as a public variable index"))
                } else {
                    Err(failed_to_parse(part, " as a private variable index"))
                }
            },
        }
    } else if n >= 1 && str_all_digits(part) {
        proof {
            // a text of digits begins with neither letter
            assert(crate::decimal::is_digit(part@[0]));
        }
        match progress.coefficient {
            Some(first) => {
                let r = String::from_str("coefficient ").concat(first.to_decimal().as_str()).concat(
                    " already appeared, but ",
                ).concat(part).concat(" appeared again");
                Err(r)
            },
            None => {
                match Scalar::from_digits(part) {
                    Some(c) => {
                        progress.coefficient = Some(c);
                        Ok(progress)
                    },
                    None => vstd::pervasive::unreached(),
                }
            },
        }
    } else {
        Err(failed_to_parse(part, " as a constant, public variable, or private variable"))
    }
}

impl Monomial {
    /// Reads a monomial from the term `s`. A term that denotes none is
    /// refused with `InvalidMonomialString`, which carries `s` and the
    /// reason.
    pub fn from_str(s: &str) -> (r: Result<Monomial, Error>)
        ensures
            match r {
                Ok(m) => read_monomial(s@) == Ok::<MonomialView, Seq<char>>(m@),
                Err(e) => e matches Error::InvalidMonomialString(text, reason) && text@ == s@
                    && read_monomial(s@) == Err::<MonomialView, Seq<char>>(reason@),
            },
    {
        let t = trimmed(s);
        let tn = t.unicode_len();
        let negative = tn > 0 && t.get_char(0) == '-';
        let body = if negative {
            t.substring_char(1, tn)
        } else {
            t
        };
        proof {
            if negative {
                assert(body@ =~= trim(s@).skip(1));
            }
            assert(body@ == term_body(s@));
        }
        let n = body.unicode_len();
        let mut progress = TermProgress { variables: Vec::new(), coefficient: None };
        let ghost start_state = progress@;
        let mut start: usize = 0;
        let mut i: usize = 0;
        let mut failure: Option<String> = None;
        let mut finished = false;
        proof {
            assert(body@.skip(0) =~= body@);
        }
        while !finished
            invariant
                start <= i <= n,
                n == body@.len(),
                start_state == (TermState { variables: Seq::empty(), coefficient: None }),
                failure.is_some() ==> finished,
                !finished ==> free_of(body@.subrange(start as int, i as int), '*'),
                !finished ==> take_factors(split(body@, '*'), start_state) == take_factors(
                    split(body@.skip(start as int), '*'),
                    progress@,
                ),
                finished && failure.is_none() ==> take_factors(split(body@, '*'), start_state)
                    == Ok::<TermState, Seq<char>>(progress@),
                failure.is_some() ==> take_factors(split(body@, '*'), start_state) == Err::<
                    TermState,
                    Seq<char>,
                >(failure.unwrap()@),
            decreases
                    (if finished {
                        0int
                    } else {
                        1int
                    }),
                    n - i,
        {
            if i == n || body.get_char(i) == '*' {
                let part = body.substring_char(start, i);
                let ghost rest = body@.skip(start as int);
                proof {
                    assert(rest.take(i - start) =~= body@.subrange(start as int, i as int));
                    if i == n {
                        assert(rest =~= body@.subrange(start as int, i as int));
                        lemma_split_whole(rest, '*');
                        assert(split(rest, '*').skip(1) =~= Seq::<Seq<char>>::empty());
                    } else {
                        assert(rest[i - start] == body@[i as int]);
                        lemma_split_at(rest, '*', i - start);
                        assert(rest.skip(i - start + 1) =~= body@.skip(i + 1));
                        assert(split(rest, '*').skip(1) =~= split(body@.skip(i + 1), '*'));
                    }
                    assert(split(rest, '*')[0] == part@);
                }
                match take_part(part, progress) {
                    Ok(next) => {
                        progress = next;
                        if i == n {
                            finished = true;
                            proof {
                                assert(take_factors(Seq::<Seq<char>>::empty(), progress@) == Ok::<
                                    TermState,
                                    Seq<char>,
                                >(progress@));
                            }
                        } else {
                            start = i + 1;
                            i += 1;
                            proof {
                                assert(body@.subrange(start as int, i as int) =~= Seq::<
                                    char,
                                >::empty());
                            }
                        }
                    },
                    Err(reason) => {
                        failure = Some(reason);
                        finished = true;
                        progress = TermProgress { variables: Vec::new(), coefficient: None };
                    },
                }
            } else {
                proof {
                    let a = body@.subrange(start as int, i as int);
                    let b = body@.subrange(start as int, i + 1);
                    assert forall|j: int| 0 <= j < b.len() implies #[trigger] b[j] != '*' by {
                        if j < a.len() {
                            assert(a[j] == b[j]);
                        }
                    }
                }
                i += 1;
            }
        }
        match failure {
            Some(reason) => Err(Error::InvalidMonomialString(String::from_str(s), reason)),
            None => {
                let c = match progress.coefficient {
                    Some(c) => c,
                    None => Scalar::one(),
                };
                let coefficient = if negative {
                    c.neg()
                } else {
                    c
                };
                Ok(Monomial { variables: progress.variables, coefficient })
            },
        }
    }
}

impl Polynomial {
    /// Reads a polynomial from the text `s`. A text without a term is
    /// refused with `InvalidPolynomialString`, which carries `s`; a text
    /// with a term that denotes no monomial, with the
    /// `InvalidMonomialString` of the first such term.
    pub fn from_str(s: &str) -> (r: Result<Polynomial, Error>)
        ensures
            match r {
                Ok(p) => read_polynomial(s@) == Ok::<PolynomialView, PolynomialFailure>(p@),
                Err(e) => match read_polynomial(s@) {
                    Ok(_) => false,
                    Err(PolynomialFailure::Empty) => e matches Error::InvalidPolynomialString(
                        text,
                        reason,
                    ) && text@ == s@ && reason@ == reason_empty(),
                    Err(PolynomialFailure::Term(term, why)) => e matches Error::InvalidMonomialString(
                        text,
                        reason,
                    ) && text@ == term && reason@ == why,
                },
            },
    {
        if trimmed(s).unicode_len() == 0 {
            return Err(
                Error::InvalidPolynomialString(
                    String::from_str(s),
                    String::from_str("no monomials found"),
                ),
            );
        }
        let n = s.unicode_len();
        let mut monomials: Vec<Monomial> = Vec::new();
        let mut start: usize = 0;
        let mut i: usize = 0;
        let mut failure: Option<Error> = None;
        let mut finished = false;
        let ghost whole = read_terms(split(s@, '+'), Seq::empty());
        proof {
            assert(s@.skip(0) =~= s@);
            assert(crate::poly::monomial_views(monomials@) =~= Seq::<MonomialView>::empty());
        }
        while !finished
            invariant
                start <= i <= n,
                n == s@.len(),
                whole == read_terms(split(s@, '+'), Seq::empty()),
                failure.is_some() ==> finished,
                !finished ==> free_of(s@.subrange(start as int, i as int), '+'),
                !finished ==> whole == read_terms(
                    split(s@.skip(start as int), '+'),
                    crate::poly::monomial_views(monomials@),
                ),
                finished && failure.is_none() ==> whole == Ok::<
                    Seq<MonomialView>,
                    PolynomialFailure,
                >(crate::poly::monomial_views(monomials@)),
                failure.is_some() ==> (whole matches Err(PolynomialFailure::Term(term, why))
                    && failure.unwrap() matches Error::InvalidMonomialString(text, reason) && text@
                    == term && reason@ == why),
            decreases
                    (if finished {
                        0int
                    } else {
                        1int
                    }),
                    n - i,
        {
            if i == n || s.get_char(i) == '+' {
                let term = s.substring_char(start, i);
                let ghost rest = s@.skip(start as int);
                let ghost done = crate::poly::monomial_views(monomials@);
                proof {
                    assert(rest.take(i - start) =~= s@.subrange(start as int, i as int));
                    if i == n {
                        assert(rest =~= s@.subrange(start as int, i as int));
                        lemma_split_whole(rest, '+');
                        assert(split(rest, '+').skip(1) =~= Seq::<Seq<char>>::empty());
                    } else {
                        assert(rest[i - start] == s@[i as int]);
                        lemma_split_at(rest, '+', i - start);
                        assert(rest.skip(i - start + 1) =~= s@.skip(i + 1));
                        assert(split(rest, '+').skip(1) =~= split(s@.skip(i + 1), '+'));
                    }
                    assert(split(rest, '+')[0] == term@);
                }
                match Monomial::from_str(term) {
                    Ok(m) => {
                        monomials.push(m);
                        proof {
                            assert(crate::poly::monomial_views(monomials@) =~= done.push(m@));
                        }
                        if i == n {
                            finished = true;
                            proof {
                                assert(read_terms(
                                    Seq::<Seq<char>>::empty(),
                                    crate::poly::monomial_views(monomials@),
                                ) == Ok::<Seq<MonomialView>, PolynomialFailure>(
                                    crate::poly::monomial_views(monomials@),
                                ));
                            }
                        } else {
                            start = i + 1;
                            i += 1;
                            proof {
                                assert(s@.subrange(start as int, i as int) =~= Seq::<char>::empty());
                            }
                        }
                    },
                    Err(e) => {
                        failure = Some(e);
                        finished = true;
                    },
                }
            } else {
                proof {
                    let a = s@.subrange(start as int, i as int);
                    let b = s@.subrange(start as int, i + 1);
                    assert forall|j: int| 0 <= j < b.len() implies #[trigger] b[j] != '+' by {
                        if j < a.len() {
                            assert(a[j] == b[j]);
                        }
                    }
                }
                i += 1;
            }
        }
        match failure {
            Some(e) => Err(e),
            None => Ok(Polynomial { monomials }),
        }
    }
}

} // verus!
