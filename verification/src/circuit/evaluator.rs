//! Evaluation of a circuit on plain booleans, gate by gate, each gate once.
use crate::circuit::bool_gate_type::{
    AndGateType, BoolGateType, BoolGateTypeId, NotGateType, OrGateType, OutputGateType,
    XorGateType,
};
use crate::circuit::{lemma_reaches_input, BoolCircuit, BoolGate};
use std::collections::HashMap;
use std::sync::Arc;
use vstd::prelude::*;

verus! {

broadcast use vstd::std_specs::hash::group_hash_axioms;

/// An evaluator of one circuit, with the outputs of the gates it has
/// evaluated, each under the number of its gate.
pub struct PlainBoolCircuitEvaluator {
    pub circuit: Arc<BoolCircuit>,
    pub wires: HashMap<usize, bool>,
}

/// The wires hold every circuit input, and hold for no gate of the circuit
/// anything but what that gate puts out.
pub open spec fn wires_sound(circuit: &BoolCircuit, wires: Map<usize, bool>, input: Seq<bool>) -> bool {
    &&& forall|i: usize| i < circuit.num_input ==> #[trigger] wires.contains_key(i)
    &&& forall|g: BoolGate| #[trigger]
        circuit.holds(g) && wires.contains_key(g.gate_id.id) ==> wires[g.gate_id.id] == g.value(
            input,
        )
}

/// What a gate of kind `kind` puts out for the inputs `input`.
fn eval_kind(kind: BoolGateTypeId, input: &Vec<bool>) -> (r: bool)
    requires
        kind != BoolGateTypeId::Input,
        input@.len() == kind.arity(),
    ensures
        r == kind.output(input@),
{
    let out = match kind {
        BoolGateTypeId::Output => OutputGateType::new().eval(input.as_slice()),
        BoolGateTypeId::Xor => XorGateType::new().eval(input.as_slice()),
        BoolGateTypeId::And => AndGateType::new().eval(input.as_slice()),
        BoolGateTypeId::Or => OrGateType::new().eval(input.as_slice()),
        _ => NotGateType::new().eval(input.as_slice()),
    };
    out[0]
}

impl PlainBoolCircuitEvaluator {
    /// An evaluator of `circuit` that has evaluated nothing yet.
    pub fn new(circuit: Arc<BoolCircuit>) -> (r: Self)
        ensures
            r.circuit == circuit,
            r.wires@ == Map::<usize, bool>::empty(),
    {
        Self { circuit, wires: HashMap::new() }
    }

    /// The outputs of the circuit for the inputs `input`.
    pub fn eval(&mut self, input: &[bool]) -> (r: Vec<bool>)
        requires
            old(self).circuit.wf(),
            input@.len() == old(self).circuit.num_input,
        ensures
            final(self).circuit == old(self).circuit,
            r@.len() == old(self).circuit.output_gates@.len(),
            forall|i: int|
                0 <= i < r@.len() ==> r[i] == old(self).circuit.output_gates[i].value(input@),
    {
        self.wires.clear();
        let n = input.len();
        let mut idx: usize = 0;
        while idx < n
            invariant
                idx <= n,
                n == input@.len(),
                n == self.circuit.num_input,
                self.circuit == old(self).circuit,
                self.circuit.wf(),
                forall|i: usize| i < idx ==> #[trigger] self.wires@.contains_key(i),
                forall|k: usize| #[trigger]
                    self.wires@.contains_key(k) ==> k < idx && self.wires@[k] == input@[k as int],
            decreases n - idx,
        {
            self.wires.insert(idx, input[idx]);
            idx += 1;
        }
        proof {
            assert forall|g: BoolGate| #[trigger]
                self.circuit.holds(g) && self.wires@.contains_key(g.gate_id.id) implies self.wires@[g.gate_id.id]
                == g.value(input@) by {
                assert(g.shaped(self.circuit.num_input as nat));
            }
        }
        let count = self.circuit.output_gates.len();
        let mut o: usize = 0;
        while o < count
            invariant
                o <= count,
                count == self.circuit.output_gates@.len(),
                self.circuit == old(self).circuit,
                self.circuit.wf(),
                wires_sound(&self.circuit, self.wires@, input@),
                forall|i: int|
                    0 <= i < o ==> self.wires@.contains_key(
                        (#[trigger] self.circuit.output_gates[i]).gate_id.id,
                    ),
            decreases count - o,
        {
            proof {
                assert(self.circuit.output_gates[o as int].reaches(*self.circuit.output_gates[o as int]));
                assert(self.circuit.holds(*self.circuit.output_gates[o as int]));
            }
            Self::eval_gate(
                &mut self.wires,
                &self.circuit,
                &self.circuit.output_gates[o],
                Ghost(input@),
            );
            o += 1;
        }
        let mut r: Vec<bool> = Vec::new();
        let mut i: usize = 0;
        while i < count
            invariant
                i <= count,
                count == self.circuit.output_gates@.len(),
                self.circuit == old(self).circuit,
                wires_sound(&self.circuit, self.wires@, input@),
                forall|j: int|
                    0 <= j < count ==> self.wires@.contains_key(
                        (#[trigger] self.circuit.output_gates[j]).gate_id.id,
                    ),
                r.len() == i,
                forall|j: int| 0 <= j < i ==> r[j] == self.circuit.output_gates[j].value(input@),
            decreases count - i,
        {
            let id = self.circuit.output_gates[i].gate_id.id;
            proof {
                let g = *self.circuit.output_gates[i as int];
                assert(self.circuit.output_gates[i as int].reaches(g));
                assert(self.circuit.holds(g));
            }
            let w = match self.wires.get(&id) {
                Some(w) => *w,
                None => vstd::pervasive::unreached(),
            };
            r.push(w);
            i += 1;
        }
        r
    }

    /// Evaluates `gate`, and before it every gate that it reads and that
    /// has not been evaluated, and notes what each puts out.
    fn eval_gate(
        wires: &mut HashMap<usize, bool>,
        circuit: &BoolCircuit,
        gate: &BoolGate,
        Ghost(input): Ghost<Seq<bool>>,
    )
        requires
            circuit.wf(),
            circuit.holds(*gate),
            gate.gate_type != BoolGateTypeId::Input,
            wires_sound(circuit, old(wires)@, input),
        ensures
            wires_sound(circuit, final(wires)@, input),
            final(wires)@.contains_key(gate.gate_id.id),
            forall|k: usize| old(wires)@.contains_key(k) ==> #[trigger] final(wires)@.contains_key(k),
        decreases gate,
    {
        let n = gate.inputs.len();
        let mut values: Vec<bool> = Vec::new();
        let mut i: usize = 0;
        let ghost before = wires@;
        while i < n
            invariant
                i <= n,
                n == gate.inputs.len(),
                circuit.wf(),
                circuit.holds(*gate),
                wires_sound(circuit, wires@, input),
                forall|k: usize| before.contains_key(k) ==> #[trigger] wires@.contains_key(k),
                values.len() == i,
                forall|j: int| 0 <= j < i ==> values[j] == gate.inputs[j].value(input),
            decreases n - i,
        {
            let input_gate = &gate.inputs[i];
            let id = input_gate.gate_id.id;
            proof {
                lemma_reaches_input_of_circuit(circuit, *gate, i as int);
                assert(circuit.holds(**input_gate));
            }
            let known = match wires.get(&id) {
                Some(w) => Some(*w),
                None => None,
            };
            let value = match known {
                Some(w) => w,
                None => {
                    proof {
                        assert(input_gate.shaped(circuit.num_input as nat));
                    }
                    Self::eval_gate(wires, circuit, input_gate, Ghost(input));
                    match wires.get(&id) {
                        Some(w) => *w,
                        None => vstd::pervasive::unreached(),
                    }
                },
            };
            values.push(value);
            i += 1;
        }
        proof {
            assert(gate.shaped(circuit.num_input as nat));
            assert(values@ =~= gate.input_values(input));
        }
        let output = eval_kind(gate.gate_type, &values);
        wires.insert(gate.gate_id.id, output);
        proof {
            assert forall|g: BoolGate| #[trigger]
                circuit.holds(g) && wires@.contains_key(g.gate_id.id) implies wires@[g.gate_id.id]
                == g.value(input) by {
                if g.gate_id.id == gate.gate_id.id {
                    assert(g == *gate);
                }
            }
        }
    }
}

/// What a gate of a circuit reads is a gate of the circuit.
pub proof fn lemma_reaches_input_of_circuit(circuit: &BoolCircuit, g: BoolGate, i: int)
    requires
        circuit.holds(g),
        0 <= i < g.inputs.len(),
    ensures
        circuit.holds(*g.inputs[i]),
{
    let o = choose|o: int|
        0 <= o < circuit.output_gates.len() && (#[trigger] circuit.output_gates[o]).reaches(g);
    lemma_reaches_input(&*circuit.output_gates[o], g, i);
}

} // verus!
