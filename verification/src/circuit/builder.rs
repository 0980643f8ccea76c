//! A builder that numbers the gates of a circuit as they are made, so that
//! the circuit it hands out is well formed.
use crate::circuit::bool_gate_type::BoolGateTypeId;
use crate::circuit::{max_id, share, BoolCircuit, BoolGate, GateId};
use std::sync::Arc;
use vstd::prelude::*;

verus! {

/// The state of a circuit in the making: how many inputs and how many gates
/// it has so far, and, for the proofs only, the gates themselves by their
/// numbers.
pub struct BoolCircuitBuilder {
    pub num_input: usize,
    pub num_gate: usize,
    pub made: Ghost<Map<usize, BoolGate>>,
}

impl BoolCircuitBuilder {
    /// `g` is a gate that this builder has made.
    pub open spec fn knows(&self, g: BoolGate) -> bool {
        self.made@.contains_key(g.gate_id.id) && self.made@[g.gate_id.id] == g
    }

    /// The gates made so far are numbered below `num_gate`, each under its
    /// own number, each of the shape of its kind and reading gates made
    /// before; and there are inputs if there are gates.
    pub open spec fn wf(&self) -> bool {
        &&& self.num_input <= self.num_gate
        &&& self.num_input == 0 ==> self.num_gate == 0
        &&& forall|id: usize| #[trigger]
            self.made@.contains_key(id) ==> {
                &&& id < self.num_gate
                &&& self.made@[id].gate_id.id == id
                &&& self.made@[id].shaped(self.num_input as nat)
                &&& forall|i: int|
                    0 <= i < self.made@[id].inputs.len() ==> self.knows(
                        *#[trigger] self.made@[id].inputs[i],
                    )
            }
    }

    /// A builder that has made nothing yet.
    pub fn new() -> (r: Self)
        ensures
            r.num_input == 0,
            r.num_gate == 0,
            r.wf(),
    {
        Self { num_input: 0, num_gate: 0, made: Ghost(Map::empty()) }
    }

    /// Makes the input gates of the circuit, numbered from zero. To be
    /// called once, before any other gate is made.
    pub fn input(&mut self, num_input: usize) -> (r: Vec<Arc<BoolGate>>)
        requires
            old(self).wf(),
            old(self).num_input == 0,
        ensures
            final(self).wf(),
            final(self).num_input == num_input,
            final(self).num_gate == num_input,
            r@.len() == num_input,
            forall|i: int|
                0 <= i < num_input ==> {
                    &&& (#[trigger] r[i]).gate_id.id == i
                    &&& r[i].gate_type == BoolGateTypeId::Input
                    &&& final(self).knows(*r[i])
                },
    {
        let mut input_gates: Vec<Arc<BoolGate>> = Vec::new();
        let mut idx: usize = 0;
        let ghost mut made: Map<usize, BoolGate> = Map::empty();
        while idx < num_input
            invariant
                idx <= num_input,
                input_gates.len() == idx,
                forall|id: usize| #[trigger] made.contains_key(id) ==> id < idx,
                forall|i: int|
                    0 <= i < idx ==> {
                        &&& (#[trigger] input_gates[i]).gate_id.id == i
                        &&& input_gates[i].gate_type == BoolGateTypeId::Input
                        &&& input_gates[i].inputs.len() == 0
                        &&& made.contains_key(i as usize)
                        &&& made[i as usize] == *input_gates[i]
                    },
                forall|id: usize| #[trigger]
                    made.contains_key(id) ==> made[id].gate_id.id == id && made[id].gate_type
                        == BoolGateTypeId::Input && made[id].inputs.len() == 0,
            decreases num_input - idx,
        {
            let gate = BoolGate::new(GateId::new(idx), BoolGateTypeId::Input, Vec::new());
            proof {
                made = made.insert(idx, gate);
            }
            input_gates.push(Arc::new(gate));
            idx += 1;
        }
        self.num_input = num_input;
        self.num_gate = num_input;
        self.made = Ghost(made);
        input_gates
    }

    /// Makes a gate of the given kind that reads the given gates, under the
    /// next free number.
    fn make(&mut self, kind: BoolGateTypeId, inputs: Vec<Arc<BoolGate>>) -> (r: Arc<BoolGate>)
        requires
            old(self).wf(),
            kind != BoolGateTypeId::Input,
            inputs@.len() == kind.arity(),
            kind.arity() >= 1,
            forall|i: int| 0 <= i < inputs@.len() ==> old(self).knows(*#[trigger] inputs[i]),
            old(self).num_gate < usize::MAX,
        ensures
            final(self).wf(),
            final(self).num_input == old(self).num_input,
            final(self).num_gate == old(self).num_gate + 1,
            r.gate_id.id == old(self).num_gate,
            r.gate_type == kind,
            r.inputs == inputs,
            final(self).knows(*r),
            forall|g: BoolGate| old(self).knows(g) ==> final(self).knows(g),
    {
        proof {
            assert(old(self).knows(*inputs[0]));
        }
        let id = self.num_gate;
        let gate = BoolGate::new(GateId::new(id), kind, inputs);
        self.made = Ghost(self.made@.insert(id, gate));
        self.num_gate = self.num_gate + 1;
        proof {
            assert forall|k: usize| #[trigger] self.made@.contains_key(k) implies {
                &&& k < self.num_gate
                &&& self.made@[k].gate_id.id == k
                &&& self.made@[k].shaped(self.num_input as nat)
                &&& forall|i: int|
                    0 <= i < self.made@[k].inputs.len() ==> self.knows(
                        *#[trigger] self.made@[k].inputs[i],
                    )
            } by {
                if k == id {
                    assert forall|i: int| 0 <= i < gate.inputs.len() implies self.knows(
                        *#[trigger] gate.inputs[i],
                    ) by {
                        assert(old(self).knows(*inputs[i]));
                    }
                } else {
                    assert(old(self).made@.contains_key(k));
                    assert forall|i: int| 0 <= i < self.made@[k].inputs.len() implies self.knows(
                        *#[trigger] self.made@[k].inputs[i],
                    ) by {
                        assert(old(self).knows(*old(self).made@[k].inputs[i]));
                    }
                }
            }
        }
        Arc::new(gate)
    }

    /// Makes a gate that negates `input`.
    pub fn not(&mut self, input: &Arc<BoolGate>) -> (r: Arc<BoolGate>)
        requires
            old(self).wf(),
            old(self).knows(**input),
            old(self).num_gate < usize::MAX,
        ensures
            final(self).wf(),
            final(self).num_input == old(self).num_input,
            final(self).num_gate == old(self).num_gate + 1,
            r.gate_id.id == old(self).num_gate,
            r.gate_type == BoolGateTypeId::Not,
            r.inputs@ == seq![*input],
            final(self).knows(*r),
            forall|g: BoolGate| old(self).knows(g) ==> final(self).knows(g),
            forall|x: Seq<bool>| #[trigger] r.value(x) == !input.value(x),
    {
        let mut inputs: Vec<Arc<BoolGate>> = Vec::new();
        inputs.push(share(input));
        proof {
            assert(inputs@ =~= seq![*input]);
        }
        let r = self.make(BoolGateTypeId::Not, inputs);
        proof {
            assert forall|x: Seq<bool>| #[trigger] r.value(x) == !input.value(x) by {
                assert(r.input_values(x)[0] == r.inputs[0].value(x));
            }
        }
        r
    }

    /// Makes a gate of the given kind of two inputs.
    fn make_binary(
        &mut self,
        kind: BoolGateTypeId,
        input1: &Arc<BoolGate>,
        input2: &Arc<BoolGate>,
    ) -> (r: Arc<BoolGate>)
        requires
            old(self).wf(),
            kind.arity() == 2,
            old(self).knows(**input1),
            old(self).knows(**input2),
            old(self).num_gate < usize::MAX,
        ensures
            final(self).wf(),
            final(self).num_input == old(self).num_input,
            final(self).num_gate == old(self).num_gate + 1,
            r.gate_id.id == old(self).num_gate,
            r.gate_type == kind,
            r.inputs@ == seq![*input1, *input2],
            final(self).knows(*r),
            forall|g: BoolGate| old(self).knows(g) ==> final(self).knows(g),
            forall|x: Seq<bool>| #[trigger]
                r.value(x) == kind.output(seq![input1.value(x), input2.value(x)]),
    {
        let mut inputs: Vec<Arc<BoolGate>> = Vec::new();
        inputs.push(share(input1));
        inputs.push(share(input2));
        proof {
            assert(inputs@ =~= seq![*input1, *input2]);
        }
        let r = self.make(kind, inputs);
        proof {
            assert forall|x: Seq<bool>| #[trigger]
                r.value(x) == kind.output(seq![input1.value(x), input2.value(x)]) by {
                assert(r.input_values(x) =~= seq![input1.value(x), input2.value(x)]) by {
                    assert(r.input_values(x)[0] == r.inputs[0].value(x));
                    assert(r.input_values(x)[1] == r.inputs[1].value(x));
                }
            }
        }
        r
    }

    /// Makes a gate that computes the exclusive or of its inputs.
    pub fn xor(&mut self, input1: &Arc<BoolGate>, input2: &Arc<BoolGate>) -> (r: Arc<BoolGate>)
        requires
            old(self).wf(),
            old(self).knows(**input1),
            old(self).knows(**input2),
            old(self).num_gate < usize::MAX,
        ensures
            final(self).wf(),
            final(self).num_input == old(self).num_input,
            final(self).num_gate == old(self).num_gate + 1,
            r.gate_id.id == old(self).num_gate,
            r.gate_type == BoolGateTypeId::Xor,
            r.inputs@ == seq![*input1, *input2],
            final(self).knows(*r),
            forall|g: BoolGate| old(self).knows(g) ==> final(self).knows(g),
            forall|x: Seq<bool>| #[trigger] r.value(x) == (input1.value(x) != input2.value(x)),
    {
        self.make_binary(BoolGateTypeId::Xor, input1, input2)
    }

    /// Makes a gate that computes the conjunction of its inputs.
    pub fn and(&mut self, input1: &Arc<BoolGate>, input2: &Arc<BoolGate>) -> (r: Arc<BoolGate>)
        requires
            old(self).wf(),
            old(self).knows(**input1),
            old(self).knows(**input2),
            old(self).num_gate < usize::MAX,
        ensures
            final(self).wf(),
            final(self).num_input == old(self).num_input,
            final(self).num_gate == old(self).num_gate + 1,
            r.gate_id.id == old(self).num_gate,
            r.gate_type == BoolGateTypeId::And,
            r.inputs@ == seq![*input1, *input2],
            final(self).knows(*r),
            forall|g: BoolGate| old(self).knows(g) ==> final(self).knows(g),
            forall|x: Seq<bool>| #[trigger] r.value(x) == (input1.value(x) && input2.value(x)),
    {
        self.make_binary(BoolGateTypeId::And, input1, input2)
    }

    /// Makes a gate that computes the disjunction of its inputs.
    pub fn or(&mut self, input1: &Arc<BoolGate>, input2: &Arc<BoolGate>) -> (r: Arc<BoolGate>)
        requires
            old(self).wf(),
            old(self).knows(**input1),
            old(self).knows(**input2),
            old(self).num_gate < usize::MAX,
        ensures
            final(self).wf(),
            final(self).num_input == old(self).num_input,
            final(self).num_gate == old(self).num_gate + 1,
            r.gate_id.id == old(self).num_gate,
            r.gate_type == BoolGateTypeId::Or,
            r.inputs@ == seq![*input1, *input2],
            final(self).knows(*r),
            forall|g: BoolGate| old(self).knows(g) ==> final(self).knows(g),
            forall|x: Seq<bool>| #[trigger] r.value(x) == (input1.value(x) || input2.value(x)),
    {
        self.make_binary(BoolGateTypeId::Or, input1, input2)
    }

    /// Ends the making: the circuit whose outputs are what the given gates
    /// put out. Each is handed on by an output gate of its own, numbered
    /// after the gates made so far.
    pub fn output(self, output_gates: Vec<Arc<BoolGate>>) -> (r: BoolCircuit)
        requires
            self.wf(),
            forall|i: int| 0 <= i < output_gates@.len() ==> self.knows(*#[trigger] output_gates[i]),
            self.num_gate + output_gates@.len() < usize::MAX,
        ensures
            r.wf(),
            r.num_input == self.num_input,
            r.output_gates@.len() == output_gates@.len(),
            forall|i: int|
                0 <= i < output_gates@.len() ==> {
                    &&& (#[trigger] r.output_gates[i]).gate_id.id == self.num_gate + i
                    &&& r.output_gates[i].gate_type == BoolGateTypeId::Output
                    &&& r.output_gates[i].inputs@ == seq![output_gates[i]]
                },
            forall|i: int, x: Seq<bool>|
                0 <= i < output_gates@.len() ==> (#[trigger] r.output_gates[i]).value(x)
                    == #[trigger] output_gates[i].value(x),
    {
        let n = output_gates.len();
        let mut outs: Vec<Arc<BoolGate>> = Vec::new();
        let mut idx: usize = 0;
        while idx < n
            invariant
                idx <= n,
                n == output_gates@.len(),
                self.num_gate + n < usize::MAX,
                outs.len() == idx,
                max_id(outs@) <= self.num_gate + idx,
                forall|i: int|
                    0 <= i < idx ==> {
                        &&& (#[trigger] outs[i]).gate_id.id == self.num_gate + i
                        &&& outs[i].gate_type == BoolGateTypeId::Output
                        &&& outs[i].inputs@ == seq![output_gates[i]]
                    },
            decreases n - idx,
        {
            let mut inputs: Vec<Arc<BoolGate>> = Vec::new();
            inputs.push(share(&output_gates[idx]));
            proof {
                assert(inputs@ =~= seq![output_gates[idx as int]]);
            }
            let gate = BoolGate::new(
                GateId::new(self.num_gate + idx),
                BoolGateTypeId::Output,
                inputs,
            );
            let ghost before = outs@;
            outs.push(Arc::new(gate));
            proof {
                assert(outs@.drop_last() =~= before);
            }
            idx += 1;
        }
        let r = BoolCircuit::new(outs, self.num_input);
        proof {
            assert forall|g: BoolGate| #[trigger] r.holds(g) implies (g.shaped(
                r.num_input as nat,
            ) && (self.knows(g) || exists|o: int|
                0 <= o < n && *r.output_gates[o] == g)) by {
                let o = choose|o: int|
                    0 <= o < r.output_gates.len() && (#[trigger] r.output_gates[o]).reaches(g);
                let out = *r.output_gates[o];
                if out == g {
                } else {
                    let i = choose|i: int|
                        0 <= i < out.inputs.len() && (#[trigger] out.inputs[i]).reaches(g);
                    assert(out.inputs[i] == output_gates[o]);
                    assert(self.knows(*output_gates[o]));
                    lemma_known_closed(&self, &*output_gates[o], g);
                }
            }
            assert forall|g: BoolGate, h: BoolGate|
                #[trigger] r.holds(g) && #[trigger] r.holds(h) && g.gate_id == h.gate_id implies g
                == h by {
                if self.knows(g) && self.knows(h) {
                } else if self.knows(g) || self.knows(h) {
                    // a gate made by the builder is numbered below its output gates
                } else {
                    let og = choose|o: int| 0 <= o < n && *r.output_gates[o] == g;
                    let oh = choose|o: int| 0 <= o < n && *r.output_gates[o] == h;
                    assert(og == oh);
                }
            }
            assert forall|i: int, x: Seq<bool>| 0 <= i < n implies (#[trigger] r.output_gates[i]).value(
                x,
            ) == #[trigger] output_gates[i].value(x) by {
                let out = r.output_gates[i];
                assert(out.input_values(x)[0] == out.inputs[0].value(x));
            }
        }
        r
    }
}

/// A gate that a gate of the builder reads, directly or through others, is
/// a gate of the builder.
pub proof fn lemma_known_closed(builder: &BoolCircuitBuilder, root: &BoolGate, g: BoolGate)
    requires
        builder.wf(),
        builder.knows(*root),
        root.reaches(g),
    ensures
        builder.knows(g),
    decreases root,
{
    if *root == g {
    } else {
        let i = choose|i: int| 0 <= i < root.inputs.len() && (#[trigger] root.inputs[i]).reaches(g);
        assert(builder.made@.contains_key(root.gate_id.id));
        assert(builder.knows(*builder.made@[root.gate_id.id].inputs[i]));
        lemma_known_closed(builder, &*root.inputs[i], g);
    }
}

} // verus!
