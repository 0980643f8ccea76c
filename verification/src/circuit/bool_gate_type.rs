//! The kinds of gate in a boolean circuit: what each computes on its input
//! wires, and the number that identifies it in an encoded gate.
use vstd::prelude::*;

verus! {

/// The kinds of gate that a circuit can hold.
#[derive(Debug, Clone, Copy, PartialEq, Eq, Structural)]
pub enum BoolGateTypeId {
    Input,
    Output,
    Xor,
    And,
    Or,
    Not,
}

impl BoolGateTypeId {
    /// The number of this kind: 0 for input, then output, xor, and, or, not.
    pub open spec fn number(&self) -> u64 {
        match self {
            BoolGateTypeId::Input => 0,
            BoolGateTypeId::Output => 1,
            BoolGateTypeId::Xor => 2,
            BoolGateTypeId::And => 3,
            BoolGateTypeId::Or => 4,
            BoolGateTypeId::Not => 5,
        }
    }

    /// How many input wires a gate of this kind reads.
    pub open spec fn arity(&self) -> nat {
        match self {
            BoolGateTypeId::Input => 0,
            BoolGateTypeId::Output => 1,
            BoolGateTypeId::Xor => 2,
            BoolGateTypeId::And => 2,
            BoolGateTypeId::Or => 2,
            BoolGateTypeId::Not => 1,
        }
    }

    /// What a gate of this kind puts on its output wire, given its input
    /// wires. An input gate computes nothing: its wire is set from outside.
    pub open spec fn output(&self, input: Seq<bool>) -> bool
        recommends
            *self != BoolGateTypeId::Input,
            input.len() == self.arity(),
    {
        match self {
            BoolGateTypeId::Input => false,
            BoolGateTypeId::Output => input[0],
            BoolGateTypeId::Xor => input[0] != input[1],
            BoolGateTypeId::And => input[0] && input[1],
            BoolGateTypeId::Or => input[0] || input[1],
            BoolGateTypeId::Not => !input[0],
        }
    }

    /// The number of this kind, as stored in an encoded gate.
    pub fn to_u64(&self) -> (r: u64)
        ensures
            r == self.number(),
    {
        match self {
            BoolGateTypeId::Input => 0,
            BoolGateTypeId::Output => 1,
            BoolGateTypeId::Xor => 2,
            BoolGateTypeId::And => 3,
            BoolGateTypeId::Or => 4,
            BoolGateTypeId::Not => 5,
        }
    }

    /// The kind with the given number, if there is one.
    pub fn from_u64(n: u64) -> (r: Option<BoolGateTypeId>)
        ensures
            n <= 5 <==> r.is_some(),
            r.is_some() ==> r.unwrap().number() == n,
    {
        if n == 0 {
            Some(BoolGateTypeId::Input)
        } else if n == 1 {
            Some(BoolGateTypeId::Output)
        } else if n == 2 {
            Some(BoolGateTypeId::Xor)
        } else if n == 3 {
            Some(BoolGateTypeId::And)
        } else if n == 4 {
            Some(BoolGateTypeId::Or)
        } else if n == 5 {
            Some(BoolGateTypeId::Not)
        } else {
            None
        }
    }
}

/// What every gate type offers to an evaluator.
pub trait BoolGateType {
    /// The kind of this gate type.
    spec fn kind(&self) -> BoolGateTypeId;

    /// The output wires for the given input wires. Not to be called on an
    /// input gate.
    fn eval(&self, input: &[bool]) -> (r: Vec<bool>)
        requires
            self.kind() != BoolGateTypeId::Input,
            input@.len() == self.kind().arity(),
        ensures
            r@ == seq![self.kind().output(input@)],
    ;

    /// The number of input wires.
    fn num_input(&self) -> (r: usize)
        ensures
            r == self.kind().arity(),
    ;

    /// The number of output wires, which is one for every kind.
    fn num_output(&self) -> (r: usize)
        ensures
            r == 1,
    ;

    /// The number of the kind.
    fn gate_type_id(&self) -> (r: u64)
        ensures
            r == self.kind().number(),
    ;
}

/// The type of a gate that stands for a circuit input.
#[derive(Debug, Clone, Copy)]
pub struct InputGateType {}

impl BoolGateType for InputGateType {
    open spec fn kind(&self) -> BoolGateTypeId {
        BoolGateTypeId::Input
    }

    /// An input gate computes nothing, and nothing may call this.
    fn eval(&self, input: &[bool]) -> (r: Vec<bool>) {
        let r = vec![false];
        proof {
            assert(r@ =~= seq![self.kind().output(input@)]);
        }
        r
    }

    fn num_input(&self) -> (r: usize) {
        0
    }

    fn num_output(&self) -> (r: usize) {
        1
    }

    fn gate_type_id(&self) -> (r: u64) {
        0
    }
}

impl InputGateType {
    /// The one value of this type.
    pub fn new() -> (r: Self)
        ensures
            r.kind() == BoolGateTypeId::Input,
    {
        Self {  }
    }
}

/// The type of a gate that hands its one input on as a circuit output.
#[derive(Debug, Clone, Copy)]
pub struct OutputGateType {}

impl BoolGateType for OutputGateType {
    open spec fn kind(&self) -> BoolGateTypeId {
        BoolGateTypeId::Output
    }

    fn eval(&self, input: &[bool]) -> (r: Vec<bool>) {
        let r = vec![input[0]];
        proof {
            assert(r@ =~= seq![self.kind().output(input@)]);
        }
        r
    }

    fn num_input(&self) -> (r: usize) {
        1
    }

    fn num_output(&self) -> (r: usize) {
        1
    }

    fn gate_type_id(&self) -> (r: u64) {
        1
    }
}

impl OutputGateType {
    /// The one value of this type.
    pub fn new() -> (r: Self)
        ensures
            r.kind() == BoolGateTypeId::Output,
    {
        Self {  }
    }
}

/// The type of a gate that computes exclusive or.
#[derive(Debug, Clone, Copy)]
pub struct XorGateType {}

impl BoolGateType for XorGateType {
    open spec fn kind(&self) -> BoolGateTypeId {
        BoolGateTypeId::Xor
    }

    fn eval(&self, input: &[bool]) -> (r: Vec<bool>) {
        let r = vec![input[0] ^ input[1]];
        proof {
            assert(r@ =~= seq![self.kind().output(input@)]);
        }
        r
    }

    fn num_input(&self) -> (r: usize) {
        2
    }

    fn num_output(&self) -> (r: usize) {
        1
    }

    fn gate_type_id(&self) -> (r: u64) {
        2
    }
}

impl XorGateType {
    /// The one value of this type.
    pub fn new() -> (r: Self)
        ensures
            r.kind() == BoolGateTypeId::Xor,
    {
        Self {  }
    }
}

/// The type of a gate that computes conjunction.
#[derive(Debug, Clone, Copy)]
pub struct AndGateType {}

impl BoolGateType for AndGateType {
    open spec fn kind(&self) -> BoolGateTypeId {
        BoolGateTypeId::And
    }

    fn eval(&self, input: &[bool]) -> (r: Vec<bool>) {
        let r = vec![input[0] && input[1]];
        proof {
            assert(r@ =~= seq![self.kind().output(input@)]);
        }
        r
    }

    fn num_input(&self) -> (r: usize) {
        2
    }

    fn num_output(&self) -> (r: usize) {
        1
    }

    fn gate_type_id(&self) -> (r: u64) {
        3
    }
}

impl AndGateType {
    /// The one value of this type.
    pub fn new() -> (r: Self)
        ensures
            r.kind() == BoolGateTypeId::And,
    {
        Self {  }
    }
}

/// The type of a gate that computes disjunction.
#[derive(Debug, Clone, Copy)]
pub struct OrGateType {}

impl BoolGateType for OrGateType {
    open spec fn kind(&self) -> BoolGateTypeId {
        BoolGateTypeId::Or
    }

    fn eval(&self, input: &[bool]) -> (r: Vec<bool>) {
        let r = vec![input[0] || input[1]];
        proof {
            assert(r@ =~= seq![self.kind().output(input@)]);
        }
        r
    }

    fn num_input(&self) -> (r: usize) {
        2
    }

    fn num_output(&self) -> (r: usize) {
        1
    }

    fn gate_type_id(&self) -> (r: u64) {
        4
    }
}

impl OrGateType {
    /// The one value of this type.
    pub fn new() -> (r: Self)
        ensures
            r.kind() == BoolGateTypeId::Or,
    {
        Self {  }
    }
}

/// The type of a gate that computes negation.
#[derive(Debug, Clone, Copy)]
pub struct NotGateType {}

impl BoolGateType for NotGateType {
    open spec fn kind(&self) -> BoolGateTypeId {
        BoolGateTypeId::Not
    }

    fn eval(&self, input: &[bool]) -> (r: Vec<bool>) {
        let r = vec![!input[0]];
        proof {
            assert(r@ =~= seq![self.kind().output(input@)]);
        }
        r
    }

    fn num_input(&self) -> (r: usize) {
        1
    }

    fn num_output(&self) -> (r: usize) {
        1
    }

    fn gate_type_id(&self) -> (r: u64) {
        5
    }
}

impl NotGateType {
    /// The one value of this type.
    pub fn new() -> (r: Self)
        ensures
            r.kind() == BoolGateTypeId::Not,
    {
        Self {  }
    }
}

} // verus!
