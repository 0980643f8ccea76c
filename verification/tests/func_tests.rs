use phfe::error::Error;
use phfe::gate::{
    AndGate, BooleanGate, ConstGate, Gate, GateId, InputGate, NandGate, NotGate, OrGate, WireId,
    XorGate,
};
use phfe::lwe::parameter::{LWEParameter, LWEParameterError};
use phfe::phfe::func::{PhfeFunc, PhfeFuncJson};
use phfe::phfe::linear_phfe::LinearPhfe;
use phfe::scalar::Scalar;

fn texts(items: &[&str]) -> Vec<String> {
    items.iter().map(|s| s.to_string()).collect()
}

fn rows(items: &[&[&str]]) -> Vec<Vec<String>> {
    items.iter().map(|r| texts(r)).collect()
}

fn description() -> PhfeFuncJson {
    PhfeFuncJson {
        num_public_vars: 1,
        num_private_vars1: 1,
        num_private_vars2: 1,
        polys: texts(&["1*x0"]),
        dfx_coeffs: texts(&["1*x0", "x0", "0"]),
        l0: rows(&[&["1", "-2"]]),
        l1: rows(&[&["0", "3"]]),
    }
}

#[test]
fn a_description_is_loaded() {
    let f = PhfeFunc::from_json(description()).unwrap();
    assert_eq!(f.num_public_vars, 1);
    assert_eq!(f.num_private_vars1, 1);
    assert_eq!(f.num_private_vars2, 1);
    assert_eq!(f.polys.len(), 1);
    assert_eq!(f.dfx_coeffs.len(), 3);
    assert_eq!((f.l0.nrows, f.l0.ncols), (1, 2));
    assert_eq!((f.l1.nrows, f.l1.ncols), (1, 2));
    assert!(f.l0.get(0, 0).equals(&phfe::phfe::utils::PhfeElement::one()));
    assert!(f.l0.get(0, 1).is_zero() == false);
    match f.l0.get(0, 1) {
        phfe::phfe::utils::PhfeElement::Scalar(v) => {
            assert!(v.equals(&Scalar::from_u64(2).neg()))
        },
        _ => panic!("not a field element"),
    }
    assert_eq!(f.polys[0].to_text(), "1*x0");
    assert_eq!(f.dfx_coeffs[2].to_text(), "0");
}

#[test]
fn cells_and_coefficients_may_have_leading_zeros() {
    let mut d = description();
    d.polys = texts(&["001*x0"]);
    d.l0 = rows(&[&["01", "-002"]]);
    d.l1 = rows(&[&["00", "0003"]]);
    let f = PhfeFunc::from_json(d).unwrap();
    let plain = PhfeFunc::from_json(description()).unwrap();
    assert!(f == plain);
    assert_eq!(f.polys[0].to_text(), "1*x0");
}

#[test]
fn ragged_rows_fail_to_load() {
    let mut d = description();
    d.l0 = rows(&[&["1", "2"], &["3"]]);
    match PhfeFunc::from_json(d) {
        Err(Error::RaggedMatrix(name)) => assert_eq!(name, "l0"),
        _ => panic!("accepted"),
    }
    let mut d = description();
    d.l1 = rows(&[&["1"], &["2", "3"]]);
    match PhfeFunc::from_json(d) {
        Err(e) => {
            assert_eq!(e, Error::RaggedMatrix("l1".to_string()));
            assert_eq!(e.message(), "The rows of matrix l1 differ in length.");
        },
        _ => panic!("accepted"),
    }
}

#[test]
fn the_first_failure_is_reported() {
    let mut d = description();
    d.polys = texts(&["1*x0", "3*y5"]);
    d.dfx_coeffs = texts(&["3*3"]);
    d.l0 = rows(&[&["a"]]);
    match PhfeFunc::from_json(d.clone()) {
        Err(Error::InvalidMonomialString(text, reason)) => {
            assert_eq!(text, "3*y5");
            assert!(reason.contains("y5"));
        },
        _ => panic!("accepted"),
    }
    d.polys = texts(&["1*x0"]);
    match PhfeFunc::from_json(d.clone()) {
        Err(Error::InvalidMonomialString(text, _)) => assert_eq!(text, "3*3"),
        _ => panic!("accepted"),
    }
    d.dfx_coeffs = texts(&[""]);
    match PhfeFunc::from_json(d.clone()) {
        Err(Error::InvalidPolynomialString(text, _)) => assert_eq!(text, ""),
        _ => panic!("accepted"),
    }
    d.dfx_coeffs = texts(&[]);
    match PhfeFunc::from_json(d.clone()) {
        Err(Error::InvalidFieldString(text)) => assert_eq!(text, "a"),
        _ => panic!("accepted"),
    }
    d.l0 = rows(&[&["1", "2"], &["3", "4 "]]);
    match PhfeFunc::from_json(d.clone()) {
        Err(Error::InvalidFieldString(text)) => assert_eq!(text, "4 "),
        _ => panic!("accepted"),
    }
    d.l0 = rows(&[]);
    d.l1 = rows(&[&[]]);
    let f = PhfeFunc::from_json(d).unwrap();
    assert_eq!((f.l0.nrows, f.l0.ncols), (0, 0));
    assert_eq!((f.l1.nrows, f.l1.ncols), (1, 0));
}

#[test]
fn linear_scheme_parameters() {
    let p = LinearPhfe::new(3, 7, 2);
    assert_eq!((p.num_public_vars, p.num_private_vars, p.k), (3, 7, 2));
    let q = phfe::phfe::Phfe::new(3, 2, 4, 2);
    assert_eq!((q.k1, q.k2), (3, 5));
    assert_eq!(q.linear_phfe, LinearPhfe::new(3, 5 * 2 + 3 * 4, 2));
}

#[test]
fn gates_tell_of_themselves() {
    let input = InputGate { wire_id: WireId(3), value: Some(true) };
    assert_eq!((input.input_len(), input.output_len(), input.depth()), (0, 1, 0));
    assert!(input.input_gate_ids().is_empty());
    let not = NotGate { id: GateId(4), depth: 2 };
    assert_eq!((not.input_len(), not.output_len(), not.depth()), (1, 1, 2));
    assert_eq!(not.input_gate_ids(), vec![GateId(4)]);
    let or = OrGate { left_id: GateId(1), right_id: GateId(2), depth: 3 };
    let and = AndGate { left_id: GateId(1), right_id: GateId(2), depth: 4 };
    let xor = XorGate { left_id: GateId(1), right_id: GateId(2), depth: 5 };
    let nand = NandGate { left_id: GateId(1), right_id: GateId(2), depth: 6 };
    assert_eq!(or.input_gate_ids(), vec![GateId(1), GateId(2)]);
    assert_eq!((and.input_len(), and.depth()), (2, 4));
    assert_eq!((xor.output_len(), xor.depth()), (1, 5));
    assert_eq!(nand.input_gate_ids(), vec![GateId(1), GateId(2)]);
    let constant = ConstGate { id: GateId(9), value: true, depth: 1 };
    assert_eq!((constant.input_len(), constant.depth()), (1, 1));
    assert!(constant.input_gate_ids().is_empty());
    let any = BooleanGate::Nand(nand);
    assert_eq!((any.input_len(), any.output_len(), any.depth()), (2, 1, 6));
    assert_eq!(any.input_gate_ids(), vec![GateId(1), GateId(2)]);
    assert_eq!(BooleanGate::Input(input).input_len(), 0);
    assert_eq!(BooleanGate::Not(not).input_gate_ids(), vec![GateId(4)]);
    assert_eq!(BooleanGate::Const(constant).input_gate_ids(), vec![]);
    assert_eq!(BooleanGate::Or(or).depth(), 3);
    assert_eq!(BooleanGate::And(and).depth(), 4);
    assert_eq!(BooleanGate::Xor(xor).depth(), 5);
}

#[test]
fn wire_and_gate_numbers() {
    assert!(WireId::zero().is_zero());
    assert_eq!(WireId(3).add(WireId(4)), WireId(7));
    let mut w = WireId(1);
    w.add_assign(WireId(41));
    assert_eq!(w.to_text(), "42");
    assert!(GateId::zero().is_zero());
    assert!(!GateId(1).is_zero());
    assert_eq!(GateId(3).add(GateId(4)), GateId(7));
    let mut g = GateId(10);
    g.add_assign(GateId(5));
    assert_eq!(g, GateId(15));
    assert_eq!(GateId(u64::MAX).to_text(), "18446744073709551615");
    assert_eq!(GateId(0).to_text(), "0");
}

#[test]
fn every_choice_of_sizes_is_valid() {
    let q = num_bigint::BigUint::from(97u32);
    let p = LWEParameter::new_checked(q.clone(), 7, 4, 28, 48i64).unwrap();
    assert_eq!((p.log_q_size, p.secret_size, p.mask_size, p.threshold), (7, 4, 28, 48));
    assert_eq!(p.q_order, q);
    assert!(p.verify_param());
    let u = LWEParameter::new_unchecked(q.clone(), 0, 0, 0, 0i32);
    assert!(u.verify_param());
    assert_eq!(u.q_order, q);
    let e = LWEParameterError::InvalidLWEParam(7, 4, 28);
    assert_eq!(e.message(), "Invalid LWE Parameter. log_q_size:7, secret_size:4, mask_size:28");
}
