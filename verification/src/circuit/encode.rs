//! A gate written down without the gates it reads: their numbers stand for
//! them.
use crate::circuit::{BoolGate, GateId};
use vstd::prelude::*;

verus! {

/// The number of a gate, the number of its kind, and the numbers of the
/// gates it reads.
#[derive(Debug, Clone)]
pub struct EncodedBoolGate {
    pub gate_id: GateId,
    pub gate_type_id: u64,
    pub inputs: Vec<GateId>,
}

impl EncodedBoolGate {
    /// Writes down `gate`.
    pub fn from_gate(gate: &BoolGate) -> (r: Self)
        ensures
            r.gate_id == gate.gate_id,
            r.gate_type_id == gate.gate_type.number(),
            r.inputs@.len() == gate.inputs@.len(),
            forall|i: int| 0 <= i < r.inputs@.len() ==> r.inputs[i] == gate.inputs[i].gate_id,
    {
        let n = gate.inputs.len();
        let mut inputs: Vec<GateId> = Vec::new();
        let mut i: usize = 0;
        while i < n
            invariant
                i <= n,
                n == gate.inputs.len(),
                inputs.len() == i,
                forall|j: int| 0 <= j < i ==> inputs[j] == gate.inputs[j].gate_id,
            decreases n - i,
        {
            inputs.push(gate.inputs[i].gate_id);
            i += 1;
        }
        Self { gate_id: gate.gate_id, gate_type_id: gate.gate_type.to_u64(), inputs }
    }
}

} // verus!
