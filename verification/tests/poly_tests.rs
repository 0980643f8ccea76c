use phfe::error::Error;
use phfe::poly::{Assignment, Monomial, Polynomial, Variable, VariableType};
use phfe::scalar::Scalar;

fn x(index: u32) -> Variable {
    Variable { index, variable_type: VariableType::Public }
}

fn z(index: u32) -> Variable {
    Variable { index, variable_type: VariableType::Private }
}

fn same_monomial(a: &Monomial, b: &Monomial) -> bool {
    a.variables == b.variables && a.coefficient.equals(&b.coefficient)
}

fn same_polynomial(a: &Polynomial, b: &Polynomial) -> bool {
    a.monomials.len() == b.monomials.len()
        && a.monomials.iter().zip(b.monomials.iter()).all(|(m, n)| same_monomial(m, n))
}

fn monomial_error(text: &str) -> (String, String) {
    match Monomial::from_str(text) {
        Err(Error::InvalidMonomialString(s, reason)) => (s, reason),
        _ => panic!("{} was not refused as a monomial", text),
    }
}

fn assignment(public: &[u64], private: &[u64]) -> Assignment {
    Assignment::new(
        public.iter().map(|v| Scalar::from_u64(*v)).collect(),
        private.iter().map(|v| Scalar::from_u64(*v)).collect(),
    )
}

#[test]
fn monomial_value_is_coefficient_times_variables() {
    let m = Monomial::new(vec![x(0), z(1), x(0)], Scalar::from_u64(3));
    let a = assignment(&[2, 9], &[7, 5]);
    assert!(m.eval(&a).equals(&Scalar::from_u64(3 * 2 * 5 * 2)));
    assert_eq!(m.degree(), 3);
    let constant = Monomial::new(vec![], Scalar::from_u64(4));
    assert!(constant.eval(&a).equals(&Scalar::from_u64(4)));
    assert_eq!(constant.degree(), 0);
    assert!(a.get(&x(1)).unwrap().equals(&Scalar::from_u64(9)));
    assert!(a.get(&z(0)).unwrap().equals(&Scalar::from_u64(7)));
    assert!(a.get(&x(2)).is_none());
    assert!(a.get(&z(2)).is_none());
}

#[test]
fn polynomial_value_is_the_sum() {
    let p = Polynomial::new(vec![
        Monomial::new(vec![x(0), x(1)], Scalar::from_u64(2)),
        Monomial::new(vec![x(1)], Scalar::from_u64(3)),
        Monomial::new(vec![], Scalar::from_u64(1)),
    ]);
    let a = assignment(&[5, 7], &[]);
    assert!(p.eval(&a).equals(&Scalar::from_u64(2 * 5 * 7 + 3 * 7 + 1)));
    assert_eq!(p.degree(), 2);
    let empty = Polynomial::new(vec![]);
    assert!(empty.eval(&a).is_zero());
    assert_eq!(empty.degree(), 0);
}

#[test]
fn terms_are_read() {
    let m = Monomial::from_str("3*x0*z12").unwrap();
    assert!(same_monomial(&m, &Monomial::new(vec![x(0), z(12)], Scalar::from_u64(3))));
    let m = Monomial::from_str("x1*5*x1").unwrap();
    assert!(same_monomial(&m, &Monomial::new(vec![x(1), x(1)], Scalar::from_u64(5))));
    let m = Monomial::from_str("  z3 ").unwrap();
    assert!(same_monomial(&m, &Monomial::new(vec![z(3)], Scalar::one())));
    let m = Monomial::from_str("7").unwrap();
    assert!(same_monomial(&m, &Monomial::new(vec![], Scalar::from_u64(7))));
    let m = Monomial::from_str("x007").unwrap();
    assert!(same_monomial(&m, &Monomial::new(vec![x(7)], Scalar::one())));
    let m = Monomial::from_str("x4294967295").unwrap();
    assert!(same_monomial(&m, &Monomial::new(vec![x(u32::MAX)], Scalar::one())));
}

#[test]
fn white_space_is_what_trimming_removes() {
    for code in 0..=0x10FFFFu32 {
        if let Some(c) = char::from_u32(code) {
            assert_eq!(phfe::text::char_is_space(c), c.is_whitespace(), "U+{:04X}", code);
        }
    }
    let spaces = [
        '\u{0009}', '\u{000A}', '\u{000B}', '\u{000C}', '\u{000D}', '\u{0020}', '\u{0085}',
        '\u{00A0}', '\u{1680}', '\u{2000}', '\u{2005}', '\u{200A}', '\u{2028}', '\u{2029}',
        '\u{202F}', '\u{205F}', '\u{3000}',
    ];
    for c in spaces {
        let text = format!("{}{}-3*x0{}", c, c, c);
        assert_eq!(phfe::text::trimmed(&text), text.trim());
        assert_eq!(phfe::text::trimmed(&text), "-3*x0");
        let m = Monomial::from_str(&text).unwrap();
        assert!(same_monomial(&m, &Monomial::new(vec![x(0)], Scalar::from_u64(3).neg())));
        let p = Polynomial::from_str(&format!("{}x0{}+{}2{}", c, c, c, c)).unwrap();
        assert_eq!(p.to_text(), "1*x0+2");
        match Polynomial::from_str(&format!("{}{}", c, c)) {
            Err(Error::InvalidPolynomialString(_, reason)) => assert_eq!(reason, "no monomials found"),
            _ => panic!("accepted"),
        }
        // white space inside a term is not set aside
        assert!(Monomial::from_str(&format!("3{}*x0", c)).is_err());
    }
    let m = Monomial::from_str("\u{000B}x0").unwrap();
    assert!(same_monomial(&m, &Monomial::new(vec![x(0)], Scalar::one())));
    for c in ['\u{200B}', '\u{180E}', '\u{FEFF}', '\u{0008}', '\u{001F}', '_'] {
        let text = format!("{}x0", c);
        assert_eq!(phfe::text::trimmed(&text), text.as_str());
        assert!(Monomial::from_str(&text).is_err());
    }
    assert_eq!(phfe::text::trimmed(""), "");
    assert_eq!(phfe::text::trimmed(" \u{00A0} "), "");
    assert_eq!(phfe::text::trimmed("a \u{3000} b"), "a \u{3000} b");
}

#[test]
fn a_leading_minus_negates_the_term() {
    let m = Monomial::from_str("-3*x0").unwrap();
    assert!(same_monomial(&m, &Monomial::new(vec![x(0)], Scalar::from_u64(3).neg())));
    let m = Monomial::from_str(" -z1").unwrap();
    assert!(same_monomial(&m, &Monomial::new(vec![z(1)], Scalar::one().neg())));
    let p = Polynomial::from_str("2*x0+-2*x0").unwrap();
    assert!(p.eval(&assignment(&[9], &[])).is_zero());
    assert_eq!(monomial_error("3*-x0").1, "failed to parse -x0 as a constant, public variable, or private variable");
    assert_eq!(monomial_error("3*x0-").1, "failed to parse x0- as a constant, public variable, or private variable");
    assert_eq!(monomial_error("--3").1, "failed to parse -3 as a constant, public variable, or private variable");
}

#[test]
fn unknown_factor_is_named() {
    let (text, reason) = monomial_error("3*y5");
    assert_eq!(text, "3*y5");
    assert_eq!(reason, "failed to parse y5 as a constant, public variable, or private variable");
    assert!(reason.contains("y5"));
    match Polynomial::from_str("1*x0+3*y5") {
        Err(Error::InvalidMonomialString(text, reason)) => {
            assert_eq!(text, "3*y5");
            assert!(reason.contains("y5"));
        },
        _ => panic!("accepted"),
    }
    let e = Monomial::from_str("3*y5").err().unwrap();
    assert_eq!(
        e.message(),
        "The given string 3*y5 is invalid for monomial. Reason: failed to parse y5 as a constant, public variable, or private variable"
    );
}

#[test]
fn second_coefficient_is_named() {
    let (text, reason) = monomial_error("3*3");
    assert_eq!(text, "3*3");
    assert_eq!(reason, "coefficient 3 already appeared, but 3 appeared again");
    let (_, reason) = monomial_error("4*x0*05");
    assert_eq!(reason, "coefficient 4 already appeared, but 05 appeared again");
    let (_, reason) = monomial_error("05*x0*4");
    assert_eq!(reason, "coefficient 5 already appeared, but 4 appeared again");
    let (_, reason) = monomial_error("0*x0*1");
    assert_eq!(reason, "coefficient 0 already appeared, but 1 appeared again");
}

#[test]
fn other_malformed_terms() {
    let m = Monomial::from_str("007*x0").unwrap();
    assert!(same_monomial(&m, &Monomial::new(vec![x(0)], Scalar::from_u64(7))));
    let m = Monomial::from_str("x1*00").unwrap();
    assert!(same_monomial(&m, &Monomial::new(vec![x(1)], Scalar::zero())));
    let m = Monomial::from_str("-010").unwrap();
    assert!(same_monomial(&m, &Monomial::new(vec![], Scalar::from_u64(10).neg())));
    assert_eq!(monomial_error("x99999999999").1, "failed to parse x99999999999 as a public variable index");
    assert_eq!(monomial_error("z4294967296").1, "failed to parse z4294967296 as a private variable index");
    assert_eq!(monomial_error("").1, "failed to parse  as a constant, public variable, or private variable");
    assert_eq!(monomial_error("3**x0").1, "failed to parse  as a constant, public variable, or private variable");
    assert_eq!(monomial_error("3*").1, "failed to parse  as a constant, public variable, or private variable");
    assert_eq!(monomial_error("x").1, "failed to parse x as a constant, public variable, or private variable");
    assert_eq!(monomial_error("3 * x0").1, "failed to parse 3  as a constant, public variable, or private variable");
    assert_eq!(monomial_error("ab12").1, "failed to parse ab12 as a constant, public variable, or private variable");
    assert_eq!(monomial_error("x1y").0, "x1y");
}

#[test]
fn sums_of_terms_are_read() {
    let p = Polynomial::from_str("1*x0 + 2*x1*z0+5").unwrap();
    let expected = Polynomial::new(vec![
        Monomial::new(vec![x(0)], Scalar::one()),
        Monomial::new(vec![x(1), z(0)], Scalar::from_u64(2)),
        Monomial::new(vec![], Scalar::from_u64(5)),
    ]);
    assert!(same_polynomial(&p, &expected));
    assert_eq!(p.degree(), 2);
    let p = Polynomial::from_str("0").unwrap();
    assert!(same_polynomial(&p, &Polynomial::new(vec![Monomial::new(vec![], Scalar::zero())])));
}

#[test]
fn text_without_terms_is_refused() {
    for text in ["", "   ", "\t\n"] {
        match Polynomial::from_str(text) {
            Err(Error::InvalidPolynomialString(s, reason)) => {
                assert_eq!(s, text);
                assert_eq!(reason, "no monomials found");
            },
            _ => panic!("accepted"),
        }
    }
    let e = Polynomial::from_str("").err().unwrap();
    assert_eq!(e.message(), "The given string  is invalid for polynomial. Reason: no monomials found");
    match Polynomial::from_str("1+") {
        Err(Error::InvalidMonomialString(s, _)) => assert_eq!(s, ""),
        _ => panic!("accepted"),
    }
    match Polynomial::from_str("+1") {
        Err(Error::InvalidMonomialString(s, _)) => assert_eq!(s, ""),
        _ => panic!("accepted"),
    }
}

#[test]
fn canonical_text() {
    let m = Monomial::new(vec![x(0), z(12), x(0)], Scalar::from_u64(3));
    assert_eq!(m.to_text(), "3*x0*z12*x0");
    assert_eq!(Monomial::new(vec![], Scalar::zero()).to_text(), "0");
    assert_eq!(Monomial::new(vec![z(4294967295)], Scalar::one()).to_text(), "1*z4294967295");
    let p = Polynomial::new(vec![m, Monomial::new(vec![], Scalar::from_u64(5))]);
    assert_eq!(p.to_text(), "3*x0*z12*x0+5");
    assert_eq!(Polynomial::new(vec![]).to_text(), "");
    assert_eq!(
        Monomial::new(vec![x(1)], Scalar::one().neg()).to_text(),
        "21888242871839275222246405745257275088548364400416034343698204186575808495616*x1"
    );
}

#[test]
fn reading_the_canonical_text_gives_the_polynomial_back() {
    let polynomials = vec![
        Polynomial::new(vec![Monomial::new(vec![], Scalar::zero())]),
        Polynomial::new(vec![Monomial::new(vec![x(3)], Scalar::one())]),
        Polynomial::new(vec![
            Monomial::new(vec![x(0), z(1), x(0)], Scalar::from_u64(3).neg()),
            Monomial::new(vec![], Scalar::from_u64(17)),
            Monomial::new(vec![z(4294967295), x(10)], Scalar::from_u64(u64::MAX)),
        ]),
    ];
    for p in polynomials.iter() {
        let read = Polynomial::from_str(&p.to_text()).unwrap();
        assert!(same_polynomial(&read, p));
        assert_eq!(read.to_text(), p.to_text());
    }
    let text = " -2*x1 + x0*3";
    let p = Polynomial::from_str(text).unwrap();
    let again = Polynomial::from_str(&p.to_text()).unwrap();
    assert!(same_polynomial(&p, &again));
}
