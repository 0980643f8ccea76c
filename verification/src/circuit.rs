//! Boolean circuits: gates, a builder and a plain evaluator.
pub mod bool_gate_type;
pub mod builder;
pub mod encode;
pub mod evaluator;

use crate::circuit::bool_gate_type::BoolGateTypeId;
use std::sync::Arc;
use vstd::prelude::*;

verus! {

/// The number of a gate in its circuit.
#[derive(Debug, Clone, Copy, PartialEq, Eq, Structural, Hash)]
pub struct GateId {
    pub id: usize,
}

/// Bit `i` of `v`, counted from the least significant.
pub open spec fn bit_of(v: nat, i: nat) -> bool
    decreases i,
{
    if i == 0 {
        v % 2 == 1
    } else {
        bit_of(v / 2, (i - 1) as nat)
    }
}

/// The four bytes of the lower 32 bits of `v`, least significant first.
pub open spec fn le_bytes(v: nat) -> Seq<u8> {
    let low = v % 0x1_0000_0000;
    seq![
        (low % 256) as u8,
        (low / 256 % 256) as u8,
        (low / 65536 % 256) as u8,
        (low / 16777216 % 256) as u8,
    ]
}

/// The number that four bytes denote, least significant first.
pub open spec fn le_value(b: Seq<u8>) -> nat
    recommends
        b.len() == 4,
{
    (b[0] + 256 * b[1] + 65536 * b[2] + 16777216 * b[3]) as nat
}

impl GateId {
    /// The number `id`.
    pub fn new(id: usize) -> (r: Self)
        ensures
            r.id == id,
    {
        Self { id }
    }

    /// The number zero.
    pub fn zero() -> (r: Self)
        ensures
            r.id == 0,
    {
        Self { id: 0 }
    }

    /// Whether this is the number zero.
    pub fn is_zero(&self) -> (r: bool)
        ensures
            r == (self.id == 0),
    {
        self.id == 0
    }

    /// The sum of two numbers.
    pub fn add(self, rhs: Self) -> (r: Self)
        requires
            self.id + rhs.id <= usize::MAX,
        ensures
            r.id == self.id + rhs.id,
    {
        Self { id: self.id + rhs.id }
    }

    /// Adds `rhs` to this number.
    pub fn add_assign(&mut self, rhs: Self)
        requires
            old(self).id + rhs.id <= usize::MAX,
        ensures
            final(self).id == old(self).id + rhs.id,
    {
        self.id = self.id + rhs.id;
    }

    /// The difference of two numbers.
    pub fn sub(self, rhs: Self) -> (r: Self)
        requires
            rhs.id <= self.id,
        ensures
            r.id == self.id - rhs.id,
    {
        Self { id: self.id - rhs.id }
    }

    /// Takes `rhs` away from this number.
    pub fn sub_assign(&mut self, rhs: Self)
        requires
            rhs.id <= old(self).id,
        ensures
            final(self).id == old(self).id - rhs.id,
    {
        self.id = self.id - rhs.id;
    }

    /// The lower 32 bits of the number as four bytes, least significant
    /// first.
    pub fn to_bytes(&self) -> (r: Vec<u8>)
        ensures
            r@ == le_bytes(self.id as nat),
    {
        let low: u64 = (self.id as u64) % 0x1_0000_0000;
        let mut r: Vec<u8> = Vec::new();
        r.push((low % 256) as u8);
        r.push((low / 256 % 256) as u8);
        r.push((low / 65536 % 256) as u8);
        r.push((low / 16777216 % 256) as u8);
        proof {
            assert(r@ =~= le_bytes(self.id as nat));
        }
        r
    }

    /// The number that four bytes denote, least significant first.
    pub fn from_bytes(bytes: &[u8]) -> (r: Self)
        requires
            bytes@.len() == 4,
        ensures
            r.id == le_value(bytes@),
    {
        let v: u64 = bytes[0] as u64 + 256 * (bytes[1] as u64) + 65536 * (bytes[2] as u64) + 16777216
            * (bytes[3] as u64);
        Self { id: v as usize }
    }

    /// The lower 32 bits of the number, least significant first.
    pub fn to_bits(&self) -> (r: Vec<bool>)
        ensures
            r@.len() == 32,
            forall|i: int| 0 <= i < 32 ==> r[i] == bit_of(self.id as nat, i as nat),
    {
        let mut v: usize = self.id;
        let mut r: Vec<bool> = Vec::new();
        let mut i: usize = 0;
        while i < 32
            invariant
                i <= 32,
                r.len() == i,
                forall|j: int| 0 <= j < i ==> r[j] == bit_of(self.id as nat, j as nat),
                forall|j: nat| #[trigger] bit_of(v as nat, j) == bit_of(self.id as nat, j + i as nat),
            decreases 32 - i,
        {
            r.push(v % 2 == 1);
            proof {
                assert(bit_of(v as nat, 0) == bit_of(self.id as nat, i as nat));
                assert forall|j: nat| #[trigger] bit_of((v / 2) as nat, j) == bit_of(
                    self.id as nat,
                    j + (i + 1) as nat,
                ) by {
                    assert(bit_of(v as nat, j + 1) == bit_of((v as nat) / 2, j));
                    assert(bit_of(v as nat, j + 1) == bit_of(self.id as nat, j + 1 + i as nat));
                }
            }
            v = v / 2;
            i += 1;
        }
        r
    }
}

/// Four bytes made of a number below `2^32` denote that number.
pub proof fn lemma_bytes_round_trip(v: nat)
    requires
        v < 0x1_0000_0000,
    ensures
        le_value(le_bytes(v)) == v,
{
}

/// A gate: its number, its kind, and the gates whose outputs it reads.
#[derive(Debug, Clone)]
pub struct BoolGate {
    pub gate_id: GateId,
    pub gate_type: BoolGateTypeId,
    pub inputs: Vec<Arc<BoolGate>>,
}

impl BoolGate {
    /// What the gates that this gate reads put out, for the circuit inputs
    /// `input`.
    pub open spec fn input_values(&self, input: Seq<bool>) -> Seq<bool>
        decreases self, 0int,
    {
        Seq::new(
            self.inputs.len() as nat,
            |i: int|
                if 0 <= i < self.inputs.len() {
                    self.inputs[i].value(input)
                } else {
                    false
                },
        )
    }

    /// What this gate puts out, for the circuit inputs `input`: an input
    /// gate the input of its number, any other gate what its kind computes
    /// from the gates it reads.
    pub open spec fn value(&self, input: Seq<bool>) -> bool
        decreases self, 1int,
    {
        if self.gate_type == BoolGateTypeId::Input {
            input[self.gate_id.id as int]
        } else {
            self.gate_type.output(self.input_values(input))
        }
    }

    /// `g` is this gate or one that it reads, directly or through others.
    pub open spec fn reaches(&self, g: BoolGate) -> bool
        decreases self,
    {
        *self == g || exists|i: int| 0 <= i < self.inputs.len() && (#[trigger] self.inputs[i]).reaches(g)
    }

    /// This gate reads as many gates as its kind asks for, and is an input
    /// gate exactly if its number is below `num_input`.
    pub open spec fn shaped(&self, num_input: nat) -> bool {
        &&& self.inputs.len() == self.gate_type.arity()
        &&& self.gate_type == BoolGateTypeId::Input <==> self.gate_id.id < num_input
    }

    /// A gate of the given number and kind that reads the given gates.
    pub fn new(gate_id: GateId, gate_type: BoolGateTypeId, inputs: Vec<Arc<BoolGate>>) -> (r: Self)
        ensures
            r.gate_id == gate_id,
            r.gate_type == gate_type,
            r.inputs == inputs,
    {
        Self { gate_id, gate_type, inputs }
    }

    /// What this gate reads as its input number `idx`.
    pub fn get_input(&self, idx: usize) -> (r: &BoolGate)
        requires
            idx < self.inputs.len(),
        ensures
            *r == *self.inputs[idx as int],
    {
        &self.inputs[idx]
    }
}

/// What a gate reads is reached from wherever that gate is.
pub proof fn lemma_reaches_input(root: &BoolGate, g: BoolGate, i: int)
    requires
        root.reaches(g),
        0 <= i < g.inputs.len(),
    ensures
        root.reaches(*g.inputs[i]),
    decreases root,
{
    if *root == g {
        assert(root.inputs[i].reaches(*g.inputs[i]));
    } else {
        let j = choose|j: int| 0 <= j < root.inputs.len() && (#[trigger] root.inputs[j]).reaches(g);
        lemma_reaches_input(&*root.inputs[j], g, i);
    }
}

/// The largest number among the gates, zero if there are none.
pub open spec fn max_id(gates: Seq<Arc<BoolGate>>) -> nat
    decreases gates.len(),
{
    if gates.len() == 0 {
        0
    } else {
        let rest = max_id(gates.drop_last());
        if gates.last().gate_id.id > rest {
            gates.last().gate_id.id as nat
        } else {
            rest
        }
    }
}

/// A circuit: the gates that put out its outputs, and through them all the
/// gates that these read.
#[derive(Debug, Clone)]
pub struct BoolCircuit {
    pub num_input: usize,
    pub num_gates: usize,
    pub output_gates: Vec<Arc<BoolGate>>,
}

impl BoolCircuit {
    /// `g` is a gate of this circuit: an output gate or one that an output
    /// gate reads, directly or through others.
    pub open spec fn holds(&self, g: BoolGate) -> bool {
        exists|o: int| 0 <= o < self.output_gates.len() && (#[trigger] self.output_gates[o]).reaches(g)
    }

    /// Every gate has the shape of its kind, no output gate is an input
    /// gate, and gates of one number are one gate.
    pub open spec fn wf(&self) -> bool {
        &&& forall|g: BoolGate| #[trigger] self.holds(g) ==> g.shaped(self.num_input as nat)
        &&& forall|o: int|
            0 <= o < self.output_gates.len() ==> (#[trigger] self.output_gates[o]).gate_type
                != BoolGateTypeId::Input
        &&& forall|g: BoolGate, h: BoolGate|
            #[trigger] self.holds(g) && #[trigger] self.holds(h) && g.gate_id == h.gate_id ==> g == h
    }

    /// The circuit with the given output gates and number of inputs. Its
    /// number of gates is one more than the largest number of an output
    /// gate.
    pub fn new(output_gates: Vec<Arc<BoolGate>>, num_input: usize) -> (r: Self)
        requires
            max_id(output_gates@) < usize::MAX,
        ensures
            r.output_gates == output_gates,
            r.num_input == num_input,
            r.num_gates == max_id(output_gates@) + 1,
    {
        let n = output_gates.len();
        let mut best: usize = 0;
        let mut i: usize = 0;
        while i < n
            invariant
                i <= n,
                n == output_gates.len(),
                best == max_id(output_gates@.take(i as int)),
            decreases n - i,
        {
            proof {
                let t = output_gates@.take(i + 1);
                assert(t.drop_last() =~= output_gates@.take(i as int));
                assert(t.last() == output_gates[i as int]);
            }
            if output_gates[i].gate_id.id > best {
                best = output_gates[i].gate_id.id;
            }
            i += 1;
        }
        proof {
            assert(output_gates@.take(n as int) =~= output_gates@);
        }
        Self { output_gates, num_gates: best + 1, num_input }
    }

    /// The number of inputs of the circuit.
    pub fn num_input(&self) -> (r: usize)
        ensures
            r == self.num_input,
    {
        self.num_input
    }

    /// The number of outputs of the circuit.
    pub fn num_output(&self) -> (r: usize)
        ensures
            r == self.output_gates.len(),
    {
        self.output_gates.len()
    }

    /// One more than the largest number of an output gate.
    pub fn num_gates(&self) -> (r: usize)
        ensures
            r == self.num_gates,
    {
        self.num_gates
    }
}

/// `Arc::clone`: a second pointer to the same gate.
#[verifier::external_body]
pub(crate) fn share(g: &Arc<BoolGate>) -> (r: Arc<BoolGate>)
    ensures
        r == *g,
{
    g.clone()
}

} // verus!
