use phfe::circuit::bool_gate_type::{
    AndGateType, BoolGateType, BoolGateTypeId, InputGateType, NotGateType, OrGateType,
    OutputGateType, XorGateType,
};
use phfe::circuit::builder::BoolCircuitBuilder;
use phfe::circuit::encode::EncodedBoolGate;
use phfe::circuit::evaluator::PlainBoolCircuitEvaluator;
use phfe::circuit::{BoolCircuit, BoolGate, GateId};
use std::sync::Arc;

#[test]
fn test_not_gate() {
    let mut circuit_builder = BoolCircuitBuilder::new();
    let input = circuit_builder.input(1);
    let not = circuit_builder.not(&input[0]);
    let circuit = Arc::new(circuit_builder.output(vec![not]));

    let mut evaluator = PlainBoolCircuitEvaluator::new(circuit.clone());
    let output = evaluator.eval(&[true]);
    assert_eq!(output[0], false);

    let mut evaluator = PlainBoolCircuitEvaluator::new(circuit.clone());
    let output = evaluator.eval(&[false]);
    assert_eq!(output[0], true);
}

#[test]
fn test_xor_gate() {
    let mut circuit_builder = BoolCircuitBuilder::new();
    let input = circuit_builder.input(2);
    let xor = circuit_builder.xor(&input[0], &input[1]);
    let circuit = Arc::new(circuit_builder.output(vec![xor]));

    let mut evaluator = PlainBoolCircuitEvaluator::new(circuit.clone());
    let output = evaluator.eval(&[false, false]);
    assert_eq!(output[0], false);

    let mut evaluator = PlainBoolCircuitEvaluator::new(circuit.clone());
    let output = evaluator.eval(&[false, true]);
    assert_eq!(output[0], true);

    let mut evaluator = PlainBoolCircuitEvaluator::new(circuit.clone());
    let output = evaluator.eval(&[true, false]);
    assert_eq!(output[0], true);

    let mut evaluator = PlainBoolCircuitEvaluator::new(circuit.clone());
    let output = evaluator.eval(&[true, true]);
    assert_eq!(output[0], false);
}

#[test]
fn test_and_gate() {
    let mut circuit_builder = BoolCircuitBuilder::new();
    let input = circuit_builder.input(2);
    let and = circuit_builder.and(&input[0], &input[1]);
    let circuit = Arc::new(circuit_builder.output(vec![and]));

    let mut evaluator = PlainBoolCircuitEvaluator::new(circuit.clone());
    let output = evaluator.eval(&[false, false]);
    assert_eq!(output[0], false);

    let mut evaluator = PlainBoolCircuitEvaluator::new(circuit.clone());
    let output = evaluator.eval(&[false, true]);
    assert_eq!(output[0], false);

    let mut evaluator = PlainBoolCircuitEvaluator::new(circuit.clone());
    let output = evaluator.eval(&[true, false]);
    assert_eq!(output[0], false);

    let mut evaluator = PlainBoolCircuitEvaluator::new(circuit.clone());
    let output = evaluator.eval(&[true, true]);
    assert_eq!(output[0], true);
}

#[test]
fn test_or_gate() {
    let mut circuit_builder = BoolCircuitBuilder::new();
    let input = circuit_builder.input(2);
    let or = circuit_builder.or(&input[0], &input[1]);
    let circuit = Arc::new(circuit_builder.output(vec![or]));

    let mut evaluator = PlainBoolCircuitEvaluator::new(circuit.clone());
    let output = evaluator.eval(&[false, false]);
    assert_eq!(output[0], false);

    let mut evaluator = PlainBoolCircuitEvaluator::new(circuit.clone());
    let output = evaluator.eval(&[false, true]);
    assert_eq!(output[0], true);

    let mut evaluator = PlainBoolCircuitEvaluator::new(circuit.clone());
    let output = evaluator.eval(&[true, false]);
    assert_eq!(output[0], true);

    let mut evaluator = PlainBoolCircuitEvaluator::new(circuit.clone());
    let output = evaluator.eval(&[true, true]);
    assert_eq!(output[0], true);
}

#[test]
fn test_multi_layer() {
    let mut circuit_builder = BoolCircuitBuilder::new();
    let input = circuit_builder.input(3);
    let or = circuit_builder.or(&input[0], &input[1]);
    let and = circuit_builder.and(&input[1], &input[2]);
    let xor = circuit_builder.xor(&or, &and);
    let not = circuit_builder.not(&xor);
    let circuit = Arc::new(circuit_builder.output(vec![not]));

    let expected_output = |a: bool, b: bool, c: bool| {
        let or = a || b;
        let and = b && c;
        let xor = or ^ and;
        !xor
    };

    let mut evaluator = PlainBoolCircuitEvaluator::new(circuit.clone());
    let input = vec![false, false, false];
    let output = evaluator.eval(&input);
    assert_eq!(output[0], expected_output(input[0], input[1], input[2]));

    let mut evaluator = PlainBoolCircuitEvaluator::new(circuit.clone());
    let input = vec![false, false, true];
    let output = evaluator.eval(&input);
    assert_eq!(output[0], expected_output(input[0], input[1], input[2]));

    let mut evaluator = PlainBoolCircuitEvaluator::new(circuit.clone());
    let input = vec![false, true, false];
    let output = evaluator.eval(&input);
    assert_eq!(output[0], expected_output(input[0], input[1], input[2]));

    let mut evaluator = PlainBoolCircuitEvaluator::new(circuit.clone());
    let input = vec![false, true, true];
    let output = evaluator.eval(&input);
    assert_eq!(output[0], expected_output(input[0], input[1], input[2]));

    let mut evaluator = PlainBoolCircuitEvaluator::new(circuit.clone());
    let input = vec![true, false, false];
    let output = evaluator.eval(&input);
    assert_eq!(output[0], expected_output(input[0], input[1], input[2]));

    let mut evaluator = PlainBoolCircuitEvaluator::new(circuit.clone());
    let input = vec![true, false, true];
    let output = evaluator.eval(&input);
    assert_eq!(output[0], expected_output(input[0], input[1], input[2]));

    let mut evaluator = PlainBoolCircuitEvaluator::new(circuit.clone());
    let input = vec![true, true, false];
    let output = evaluator.eval(&input);
    assert_eq!(output[0], expected_output(input[0], input[1], input[2]));

    let mut evaluator = PlainBoolCircuitEvaluator::new(circuit.clone());
    let input = vec![true, true, true];
    let output = evaluator.eval(&input);
    assert_eq!(output[0], expected_output(input[0], input[1], input[2]));
}

#[test]
fn test_multi_bit_output() {
    let mut circuit_builder = BoolCircuitBuilder::new();
    let input = circuit_builder.input(3);
    let or = circuit_builder.or(&input[0], &input[1]);
    let and = circuit_builder.and(&input[1], &input[2]);
    let xor = circuit_builder.xor(&or, &and);
    let not = circuit_builder.not(&xor);
    let circuit = Arc::new(circuit_builder.output(vec![xor, not]));

    let expected_output = |a: bool, b: bool, c: bool| {
        let or = a || b;
        let and = b && c;
        let xor = or ^ and;
        vec![xor, !xor]
    };

    let mut evaluator = PlainBoolCircuitEvaluator::new(circuit.clone());
    let input = vec![false, false, false];
    let output = evaluator.eval(&input);
    assert_eq!(output, expected_output(input[0], input[1], input[2]));

    let mut evaluator = PlainBoolCircuitEvaluator::new(circuit.clone());
    let input = vec![false, false, true];
    let output = evaluator.eval(&input);
    assert_eq!(output, expected_output(input[0], input[1], input[2]));

    let mut evaluator = PlainBoolCircuitEvaluator::new(circuit.clone());
    let input = vec![false, true, false];
    let output = evaluator.eval(&input);
    assert_eq!(output, expected_output(input[0], input[1], input[2]));

    let mut evaluator = PlainBoolCircuitEvaluator::new(circuit.clone());
    let input = vec![false, true, true];
    let output = evaluator.eval(&input);
    assert_eq!(output, expected_output(input[0], input[1], input[2]));

    let mut evaluator = PlainBoolCircuitEvaluator::new(circuit.clone());
    let input = vec![true, false, false];
    let output = evaluator.eval(&input);
    assert_eq!(output, expected_output(input[0], input[1], input[2]));

    let mut evaluator = PlainBoolCircuitEvaluator::new(circuit.clone());
    let input = vec![true, false, true];
    let output = evaluator.eval(&input);
    assert_eq!(output, expected_output(input[0], input[1], input[2]));

    let mut evaluator = PlainBoolCircuitEvaluator::new(circuit.clone());
    let input = vec![true, true, false];
    let output = evaluator.eval(&input);
    assert_eq!(output, expected_output(input[0], input[1], input[2]));

    let mut evaluator = PlainBoolCircuitEvaluator::new(circuit.clone());
    let input = vec![true, true, true];
    let output = evaluator.eval(&input);
    assert_eq!(output, expected_output(input[0], input[1], input[2]));
}

#[test]
fn shared_gate_is_evaluated_consistently() {
    let mut circuit_builder = BoolCircuitBuilder::new();
    let input = circuit_builder.input(2);
    let xor = circuit_builder.xor(&input[0], &input[1]);
    let both = circuit_builder.and(&xor, &xor);
    let either = circuit_builder.or(&xor, &input[0]);
    let circuit = Arc::new(circuit_builder.output(vec![both, either, xor]));
    assert_eq!(circuit.num_input(), 2);
    assert_eq!(circuit.num_output(), 3);
    assert_eq!(circuit.num_gates(), 8);
    for a in [false, true] {
        for b in [false, true] {
            let mut evaluator = PlainBoolCircuitEvaluator::new(circuit.clone());
            let output = evaluator.eval(&[a, b]);
            assert_eq!(output, vec![a ^ b, (a ^ b) || a, a ^ b]);
            let again = evaluator.eval(&[a, b]);
            assert_eq!(again, output);
        }
    }
}

#[test]
fn circuit_without_outputs_has_one_gate_counted() {
    let mut circuit_builder = BoolCircuitBuilder::new();
    let _ = circuit_builder.input(3);
    let circuit = circuit_builder.output(vec![]);
    assert_eq!(circuit.num_gates(), 1);
    assert_eq!(circuit.num_output(), 0);
    let mut evaluator = PlainBoolCircuitEvaluator::new(Arc::new(circuit));
    assert_eq!(evaluator.eval(&[true, false, true]), Vec::<bool>::new());
}

#[test]
fn builder_numbers_gates_in_order() {
    let mut circuit_builder = BoolCircuitBuilder::new();
    let input = circuit_builder.input(2);
    assert_eq!(input[0].gate_id, GateId::new(0));
    assert_eq!(input[1].gate_id, GateId::new(1));
    let not = circuit_builder.not(&input[1]);
    assert_eq!(not.gate_id.id, 2);
    assert_eq!(not.gate_type, BoolGateTypeId::Not);
    assert_eq!(not.get_input(0).gate_id.id, 1);
    let circuit: BoolCircuit = circuit_builder.output(vec![not]);
    assert_eq!(circuit.output_gates[0].gate_id.id, 3);
    assert_eq!(circuit.output_gates[0].gate_type, BoolGateTypeId::Output);
    assert_eq!(circuit.num_gates, 4);
}

#[test]
fn gate_types_compute_their_tables() {
    assert_eq!(OutputGateType::new().eval(&[true]), vec![true]);
    assert_eq!(NotGateType::new().eval(&[true]), vec![false]);
    assert_eq!(XorGateType::new().eval(&[true, true]), vec![false]);
    assert_eq!(XorGateType::new().eval(&[true, false]), vec![true]);
    assert_eq!(AndGateType::new().eval(&[true, false]), vec![false]);
    assert_eq!(AndGateType::new().eval(&[true, true]), vec![true]);
    assert_eq!(OrGateType::new().eval(&[false, false]), vec![false]);
    assert_eq!(OrGateType::new().eval(&[false, true]), vec![true]);
    assert_eq!(InputGateType::new().num_input(), 0);
    assert_eq!(OutputGateType::new().num_input(), 1);
    assert_eq!(XorGateType::new().num_input(), 2);
    assert_eq!(NotGateType::new().num_output(), 1);
    let ids = [
        InputGateType::new().gate_type_id(),
        OutputGateType::new().gate_type_id(),
        XorGateType::new().gate_type_id(),
        AndGateType::new().gate_type_id(),
        OrGateType::new().gate_type_id(),
        NotGateType::new().gate_type_id(),
    ];
    assert_eq!(ids, [0, 1, 2, 3, 4, 5]);
    for n in 0..6u64 {
        assert_eq!(BoolGateTypeId::from_u64(n).unwrap().to_u64(), n);
    }
    assert!(BoolGateTypeId::from_u64(6).is_none());
}

#[test]
fn gate_id_bytes_and_bits() {
    let id = GateId::new(0x0102_0304);
    assert_eq!(id.to_bytes(), vec![4, 3, 2, 1]);
    assert_eq!(GateId::from_bytes(&[4, 3, 2, 1]), id);
    assert_eq!(GateId::from_bytes(&id.to_bytes()), id);
    let bits = GateId::new(5).to_bits();
    assert_eq!(bits.len(), 32);
    assert_eq!(&bits[..4], &[true, false, true, false]);
    assert!(bits[4..].iter().all(|b| !b));
    assert!(GateId::zero().is_zero());
    assert!(!id.is_zero());
    assert_eq!(GateId::new(3).add(GateId::new(4)), GateId::new(7));
    assert_eq!(GateId::new(7).sub(GateId::new(4)), GateId::new(3));
    let mut g = GateId::new(1);
    g.add_assign(GateId::new(2));
    assert_eq!(g.id, 3);
    g.sub_assign(GateId::new(3));
    assert!(g.is_zero());
}

#[test]
fn encoded_gate_names_its_inputs() {
    let a = Arc::new(BoolGate::new(GateId::new(0), BoolGateTypeId::Input, vec![]));
    let b = Arc::new(BoolGate::new(GateId::new(1), BoolGateTypeId::Input, vec![]));
    let and = BoolGate::new(GateId::new(2), BoolGateTypeId::And, vec![a, b]);
    let encoded = EncodedBoolGate::from_gate(&and);
    assert_eq!(encoded.gate_id, GateId::new(2));
    assert_eq!(encoded.gate_type_id, 3);
    assert_eq!(encoded.inputs, vec![GateId::new(0), GateId::new(1)]);
}

