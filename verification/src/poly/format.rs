//! The canonical text of monomials and polynomials: the coefficient in
//! decimal notation, then `*` and a variable for each variable, with `+`
//! between the terms. Reading the canonical text gives the polynomial back.
use crate::decimal::{
    decimal_digits, decimal_value, is_digit, lemma_decimal_digits_value, u32_to_decimal,
};
use crate::poly::parse::{
    is_number_form, is_variable_form, read_factor, read_monomial, read_polynomial, read_terms,
    take_factor, take_factors, term_body, term_negative, Factor, PolynomialFailure, TermState,
};
use crate::poly::{Monomial, MonomialView, Polynomial, PolynomialView, Variable, VariableType};
use crate::scalar::modulus;
use crate::text::{
    free_of, is_space, lemma_split_at, lemma_split_whole, lemma_trim_end_is, lemma_trim_start_is,
    split, trim,
};
use vstd::prelude::*;
use vstd::string::*;

verus! {

/// The text of a variable: `x` or `z`, then its index.
pub open spec fn variable_text(v: Variable) -> Seq<char> {
    (if v.variable_type == VariableType::Public {
        seq!['x']
    } else {
        seq!['z']
    }) + decimal_digits(v.index as nat)
}

/// The text of the variables of a term: `*` and the variable, for each.
pub open spec fn factors_text(vars: Seq<Variable>) -> Seq<char>
    decreases vars.len(),
{
    if vars.len() == 0 {
        Seq::empty()
    } else {
        seq!['*'] + variable_text(vars[0]) + factors_text(vars.skip(1))
    }
}

/// The canonical text of a monomial.
pub open spec fn monomial_text(m: MonomialView) -> Seq<char> {
    decimal_digits(m.coefficient as nat) + factors_text(m.variables)
}

/// The canonical text of a sum of monomials; empty for the empty sum.
pub open spec fn polynomial_text(ms: Seq<MonomialView>) -> Seq<char>
    decreases ms.len(),
{
    if ms.len() == 0 {
        Seq::empty()
    } else if ms.len() == 1 {
        monomial_text(ms[0])
    } else {
        monomial_text(ms[0]) + seq!['+'] + polynomial_text(ms.skip(1))
    }
}

impl Monomial {
    /// The canonical text of this monomial.
    pub fn to_text(&self) -> (r: String)
        ensures
            r@ == monomial_text(self@),
    {
        let mut r = self.coefficient.to_decimal();
        let n = self.variables.len();
        let mut i: usize = 0;
        proof {
            assert(self.variables@.skip(0) =~= self.variables@);
        }
        while i < n
            invariant
                i <= n,
                n == self.variables.len(),
                r@ + factors_text(self.variables@.skip(i as int)) == monomial_text(self@),
            decreases n - i,
        {
            let v = self.variables[i];
            let letter = match v.variable_type {
                VariableType::Public => "x",
                VariableType::Private => "z",
            };
            let digits = u32_to_decimal(v.index);
            let ghost before = r@;
            r = r.concat("*").concat(letter).concat(digits.as_str());
            proof {
                reveal_strlit("*");
                reveal_strlit("x");
                reveal_strlit("z");
                let rest = self.variables@.skip(i as int);
                assert(rest[0] == v);
                assert(rest.skip(1) =~= self.variables@.skip(i + 1));
                assert("*"@ =~= seq!['*']);
                assert(letter@ =~= (if v.variable_type == VariableType::Public {
                    seq!['x']
                } else {
                    seq!['z']
                }));
                assert(r@ + factors_text(self.variables@.skip(i + 1)) =~= before + factors_text(
                    rest,
                ));
            }
            i += 1;
        }
        proof {
            assert(r@ + Seq::<char>::empty() =~= r@);
        }
        r
    }
}

impl Polynomial {
    /// The canonical text of this polynomial.
    pub fn to_text(&self) -> (r: String)
        ensures
            r@ == polynomial_text(self@.monomials),
    {
        let mut r = String::new();
        let n = self.monomials.len();
        let mut i: usize = 0;
        let ghost ms = self@.monomials;
        proof {
            assert(ms.skip(0) =~= ms);
            assert(r@ + polynomial_text(ms) =~= polynomial_text(ms));
        }
        while i < n
            invariant
                i <= n,
                n == self.monomials.len(),
                ms == self@.monomials,
                i < n ==> r@ + polynomial_text(ms.skip(i as int)) == polynomial_text(ms),
                i == n ==> r@ == polynomial_text(ms),
            decreases n - i,
        {
            let t = self.monomials[i].to_text();
            let ghost before = r@;
            let ghost rest = ms.skip(i as int);
            proof {
                assert(rest[0] == self.monomials[i as int]@);
                assert(rest.skip(1) =~= ms.skip(i + 1));
            }
            r = r.concat(t.as_str());
            if i + 1 < n {
                r = r.concat("+");
                proof {
                    reveal_strlit("+");
                    assert("+"@ =~= seq!['+']);
                    assert(r@ + polynomial_text(ms.skip(i + 1)) =~= before + polynomial_text(rest));
                }
            } else {
                proof {
                    assert(rest.len() == 1);
                    assert(r@ =~= before + polynomial_text(rest));
                }
            }
            i += 1;
        }
        r
    }
}

/// The text of each of the variables `vars`.
pub open spec fn variable_texts(vars: Seq<Variable>) -> Seq<Seq<char>> {
    Seq::new(vars.len(), |i: int| variable_text(vars[i]))
}

/// The canonical text of each of the monomials `ms`.
pub open spec fn monomial_texts(ms: Seq<MonomialView>) -> Seq<Seq<char>> {
    Seq::new(ms.len(), |i: int| monomial_text(ms[i]))
}

/// A digit, `*`, `x` or `z`: the characters of canonical terms.
pub open spec fn is_term_char(c: char) -> bool {
    is_digit(c) || c == '*' || c == 'x' || c == 'z'
}

/// `s` consists of the characters of canonical terms.
pub open spec fn term_chars(s: Seq<char>) -> bool {
    forall|i: int| 0 <= i < s.len() ==> is_term_char(#[trigger] s[i])
}

/// The text of a variable is a letter and digits, and is read as that
/// variable.
proof fn lemma_variable_text(v: Variable)
    ensures
        variable_text(v).len() >= 2,
        !is_digit(variable_text(v)[0]),
        is_digit(variable_text(v).last()),
        free_of(variable_text(v), '*'),
        term_chars(variable_text(v)),
        read_factor(variable_text(v)) == Factor::Var(v),
        !is_number_form(variable_text(v)),
{
    let f = variable_text(v);
    let d = decimal_digits(v.index as nat);
    lemma_decimal_digits_value(v.index as nat);
    assert(f.skip(1) =~= d);
    assert(f.last() == d.last());
    assert forall|i: int| 0 <= i < f.len() implies is_term_char(#[trigger] f[i]) && f[i] != '*' by {
        if i > 0 {
            assert(f[i] == d[i - 1]);
        }
    }
    assert(decimal_value(f.skip(1)) as u32 == v.index);
    if v.variable_type == VariableType::Public {
        assert(is_variable_form(f, 'x'));
    } else {
        assert(f[0] == 'z');
        assert(!is_variable_form(f, 'x'));
        assert(is_variable_form(f, 'z'));
        assert(v.variable_type == VariableType::Private);
    }
}

/// The text of the variables of a term consists of term characters, and is
/// empty or ends in a digit.
proof fn lemma_factors_text(vars: Seq<Variable>)
    ensures
        term_chars(factors_text(vars)),
        vars.len() > 0 ==> factors_text(vars).len() > 0 && is_digit(factors_text(vars).last()),
    decreases vars.len(),
{
    if vars.len() > 0 {
        lemma_variable_text(vars[0]);
        lemma_factors_text(vars.skip(1));
        let a = seq!['*'] + variable_text(vars[0]);
        let b = factors_text(vars.skip(1));
        let t = factors_text(vars);
        assert(t == a + b);
        assert forall|i: int| 0 <= i < t.len() implies is_term_char(#[trigger] t[i]) by {
            if i == 0 {
            } else if i < a.len() {
                assert(t[i] == variable_text(vars[0])[i - 1]);
            } else {
                assert(t[i] == b[i - a.len()]);
            }
        }
        if b.len() == 0 {
            assert(t.last() == variable_text(vars[0]).last());
        } else {
            assert(t.last() == b.last());
        }
    }
}

/// The canonical text of a monomial begins and ends with a digit and
/// consists of term characters.
proof fn lemma_monomial_text(m: MonomialView)
    ensures
        monomial_text(m).len() > 0,
        is_digit(monomial_text(m)[0]),
        is_digit(monomial_text(m).last()),
        term_chars(monomial_text(m)),
        free_of(monomial_text(m), '+'),
{
    let c = decimal_digits(m.coefficient as nat);
    let f = factors_text(m.variables);
    let t = monomial_text(m);
    lemma_decimal_digits_value(m.coefficient as nat);
    lemma_factors_text(m.variables);
    assert(t[0] == c[0]);
    if f.len() == 0 {
        assert(t =~= c);
    } else {
        assert(t.last() == f.last());
    }
    assert forall|i: int| 0 <= i < t.len() implies is_term_char(#[trigger] t[i]) && t[i] != '+' by {
        if i < c.len() {
            assert(t[i] == c[i]);
        } else {
            assert(t[i] == f[i - c.len()]);
        }
    }
}

/// A text that neither begins nor ends with white space is its own
/// trimming.
proof fn lemma_trim_nothing(s: Seq<char>)
    requires
        s.len() > 0,
        !is_space(s[0]),
        !is_space(s.last()),
    ensures
        trim(s) == s,
{
    lemma_trim_start_is(s, 0);
    assert(s.skip(0) =~= s);
    lemma_trim_end_is(s, s.len() as int);
    assert(s.take(s.len() as int) =~= s);
}

/// A piece without `*`, followed by the text of variables, splits at `*`
/// into the piece and the texts of the variables.
proof fn lemma_split_factors(head: Seq<char>, vars: Seq<Variable>)
    requires
        free_of(head, '*'),
    ensures
        split(head + factors_text(vars), '*') == seq![head] + variable_texts(vars),
    decreases vars.len(),
{
    let s = head + factors_text(vars);
    if vars.len() == 0 {
        assert(s =~= head);
        lemma_split_whole(head, '*');
        assert(seq![head] + variable_texts(vars) =~= seq![head]);
    } else {
        let v = variable_text(vars[0]);
        let rest = vars.skip(1);
        let i = head.len() as int;
        lemma_variable_text(vars[0]);
        assert(s.take(i) =~= head);
        assert(s[i] == '*');
        assert(s.skip(i + 1) =~= v + factors_text(rest));
        lemma_split_at(s, '*', i);
        lemma_split_factors(v, rest);
        assert(seq![head] + (seq![v] + variable_texts(rest)) =~= seq![head] + variable_texts(vars))
            by {
            let l = seq![head] + (seq![v] + variable_texts(rest));
            let r = seq![head] + variable_texts(vars);
            assert(l.len() == r.len());
            assert forall|j: int| 0 <= j < l.len() implies l[j] == r[j] by {
                if j >= 2 {
                    assert(variable_texts(rest)[j - 2] == variable_text(rest[j - 2]));
                    assert(rest[j - 2] == vars[j - 1]);
                }
            }
        }
    }
}

/// The texts of variables are read as those variables, after what has been
/// read already.
proof fn lemma_take_variables(vars: Seq<Variable>, st: TermState)
    ensures
        take_factors(variable_texts(vars), st) == Ok::<TermState, Seq<char>>(
            TermState { variables: st.variables + vars, coefficient: st.coefficient },
        ),
    decreases vars.len(),
{
    if vars.len() == 0 {
        assert(st.variables + vars =~= st.variables);
    } else {
        let texts = variable_texts(vars);
        lemma_variable_text(vars[0]);
        assert(texts[0] == variable_text(vars[0]));
        let next = TermState { variables: st.variables.push(vars[0]), coefficient: st.coefficient };
        assert(take_factor(texts[0], st) == Ok::<TermState, Seq<char>>(next));
        assert(texts.skip(1) =~= variable_texts(vars.skip(1)));
        lemma_take_variables(vars.skip(1), next);
        assert(next.variables + vars.skip(1) =~= st.variables + vars);
    }
}

/// Reading the canonical text of a monomial gives the monomial back.
pub proof fn lemma_read_monomial_text(m: MonomialView)
    requires
        0 <= m.coefficient < modulus(),
    ensures
        read_monomial(monomial_text(m)) == Ok::<MonomialView, Seq<char>>(m),
{
    let t = monomial_text(m);
    let c = decimal_digits(m.coefficient as nat);
    lemma_monomial_text(m);
    lemma_trim_nothing(t);
    assert(term_body(t) == t);
    assert(!term_negative(t));
    lemma_decimal_digits_value(m.coefficient as nat);
    assert(free_of(c, '*'));
    lemma_split_factors(c, m.variables);
    let factors = seq![c] + variable_texts(m.variables);
    let init = TermState { variables: Seq::empty(), coefficient: None };
    let after = TermState { variables: Seq::empty(), coefficient: Some(m.coefficient) };
    assert(factors[0] == c);
    assert(!is_variable_form(c, 'x') && !is_variable_form(c, 'z'));
    assert(is_number_form(c));
    vstd::arithmetic::div_mod::lemma_small_mod(m.coefficient as nat, modulus() as nat);
    assert(read_factor(c) == Factor::Coefficient(m.coefficient));
    assert(take_factor(c, init) == Ok::<TermState, Seq<char>>(after));
    assert(factors.skip(1) =~= variable_texts(m.variables));
    lemma_take_variables(m.variables, after);
    assert(after.variables + m.variables =~= m.variables);
}

/// The canonical text of a non-empty sum begins and ends with a digit, and
/// splits at `+` into the canonical texts of its monomials.
proof fn lemma_split_polynomial(ms: Seq<MonomialView>)
    requires
        ms.len() > 0,
    ensures
        polynomial_text(ms).len() > 0,
        is_digit(polynomial_text(ms)[0]),
        is_digit(polynomial_text(ms).last()),
        split(polynomial_text(ms), '+') == monomial_texts(ms),
    decreases ms.len(),
{
    let head = monomial_text(ms[0]);
    lemma_monomial_text(ms[0]);
    if ms.len() == 1 {
        lemma_split_whole(head, '+');
        assert(monomial_texts(ms) =~= seq![head]);
    } else {
        let rest = ms.skip(1);
        let s = polynomial_text(ms);
        let tail = polynomial_text(rest);
        let i = head.len() as int;
        lemma_split_polynomial(rest);
        assert(s == head + seq!['+'] + tail);
        assert(s.take(i) =~= head);
        assert(s[i] == '+');
        assert(s.skip(i + 1) =~= tail);
        assert(s[0] == head[0]);
        assert(s.last() == tail.last());
        lemma_split_at(s, '+', i);
        assert(seq![head] + monomial_texts(rest) =~= monomial_texts(ms)) by {
            let l = seq![head] + monomial_texts(rest);
            let r = monomial_texts(ms);
            assert(l.len() == r.len());
            assert forall|j: int| 0 <= j < l.len() implies l[j] == r[j] by {
                if j >= 1 {
                    assert(rest[j - 1] == ms[j]);
                }
            }
        }
    }
}

/// The canonical texts of monomials are read as those monomials, after what
/// has been read already.
proof fn lemma_read_terms(ms: Seq<MonomialView>, done: Seq<MonomialView>)
    requires
        forall|i: int| 0 <= i < ms.len() ==> 0 <= (#[trigger] ms[i]).coefficient < modulus(),
    ensures
        read_terms(monomial_texts(ms), done) == Ok::<Seq<MonomialView>, PolynomialFailure>(
            done + ms,
        ),
    decreases ms.len(),
{
    if ms.len() == 0 {
        assert(done + ms =~= done);
    } else {
        let texts = monomial_texts(ms);
        assert(texts[0] == monomial_text(ms[0]));
        lemma_read_monomial_text(ms[0]);
        assert(texts.skip(1) =~= monomial_texts(ms.skip(1)));
        lemma_read_terms(ms.skip(1), done.push(ms[0]));
        assert(done.push(ms[0]) + ms.skip(1) =~= done + ms);
    }
}

/// Reading the canonical text of a polynomial gives the polynomial back,
/// for every polynomial of at least one monomial whose coefficients are
/// reduced.
pub proof fn lemma_read_polynomial_text(p: PolynomialView)
    requires
        p.monomials.len() > 0,
        forall|i: int|
            0 <= i < p.monomials.len() ==> 0 <= (#[trigger] p.monomials[i]).coefficient < modulus(),
    ensures
        read_polynomial(polynomial_text(p.monomials)) == Ok::<PolynomialView, PolynomialFailure>(p),
{
    let t = polynomial_text(p.monomials);
    lemma_split_polynomial(p.monomials);
    lemma_trim_nothing(t);
    lemma_read_terms(p.monomials, Seq::empty());
    assert(Seq::<MonomialView>::empty() + p.monomials =~= p.monomials);
}

/// Formatting a polynomial of at least one monomial and reading the text
/// gives an equal polynomial.
pub proof fn lemma_format_then_parse(p: Polynomial)
    requires
        p.monomials.len() > 0,
    ensures
        read_polynomial(polynomial_text(p@.monomials)) == Ok::<PolynomialView, PolynomialFailure>(
            p@,
        ),
{
    assert forall|i: int| 0 <= i < p@.monomials.len() implies 0 <= (
    #[trigger] p@.monomials[i]).coefficient < modulus() by {
        crate::scalar::lemma_mod_twice(crate::scalar::scalar_residue(p.monomials[i].coefficient));
    }
    lemma_read_polynomial_text(p@);
}

} // verus!
