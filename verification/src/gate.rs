//! Gates of a boolean circuit that refer to the gates they read by number,
//! with the depth at which each stands.
use crate::decimal::{decimal_digits, u64_to_decimal};
use vstd::prelude::*;
use vstd::string::*;

verus! {

/// The number of a wire.
#[derive(Debug, Clone, Copy, PartialEq, Eq, Structural, Hash)]
pub struct WireId(pub u64);

impl WireId {
    /// The number zero.
    pub fn zero() -> (r: Self)
        ensures
            r.0 == 0,
    {
        WireId(0)
    }

    /// Whether this is the number zero.
    pub fn is_zero(&self) -> (r: bool)
        ensures
            r == (self.0 == 0),
    {
        self.0 == 0
    }

    /// The sum of two numbers.
    pub fn add(self, rhs: Self) -> (r: Self)
        requires
            self.0 + rhs.0 <= u64::MAX,
        ensures
            r.0 == self.0 + rhs.0,
    {
        WireId(self.0 + rhs.0)
    }

    /// Adds `rhs` to this number.
    pub fn add_assign(&mut self, rhs: Self)
        requires
            old(self).0 + rhs.0 <= u64::MAX,
        ensures
            final(self).0 == old(self).0 + rhs.0,
    {
        self.0 = self.0 + rhs.0;
    }

    /// The number in decimal notation.
    pub fn to_text(&self) -> (r: String)
        ensures
            r@ == decimal_digits(self.0 as nat),
    {
        u64_to_decimal(self.0)
    }
}

/// The number of a gate.
#[derive(Debug, Clone, Copy, PartialEq, Eq, Structural, Hash)]
pub struct GateId(pub u64);

impl GateId {
    /// The number zero.
    pub fn zero() -> (r: Self)
        ensures
            r.0 == 0,
    {
        GateId(0)
    }

    /// Whether this is the number zero.
    pub fn is_zero(&self) -> (r: bool)
        ensures
            r == (self.0 == 0),
    {
        self.0 == 0
    }

    /// The sum of two numbers.
    pub fn add(self, rhs: Self) -> (r: Self)
        requires
            self.0 + rhs.0 <= u64::MAX,
        ensures
            r.0 == self.0 + rhs.0,
    {
        GateId(self.0 + rhs.0)
    }

    /// Adds `rhs` to this number.
    pub fn add_assign(&mut self, rhs: Self)
        requires
            old(self).0 + rhs.0 <= u64::MAX,
        ensures
            final(self).0 == old(self).0 + rhs.0,
    {
        self.0 = self.0 + rhs.0;
    }

    /// The number in decimal notation.
    pub fn to_text(&self) -> (r: String)
        ensures
            r@ == decimal_digits(self.0 as nat),
    {
        u64_to_decimal(self.0)
    }
}

/// A value that can be laid out as bits.
pub trait BooleanElement: Clone + Eq {
    /// The bits of the value.
    fn to_bits(&self) -> Vec<bool>;

    /// The number of bits of every value.
    fn bit_size() -> usize;
}

/// What every gate tells of itself.
pub trait Gate: Clone + Eq {
    /// The number of gates that this gate reads.
    spec fn arity(&self) -> nat;

    /// The numbers of the gates that this gate names as its inputs.
    spec fn named_inputs(&self) -> Seq<GateId>;

    /// The depth at which this gate stands.
    spec fn level(&self) -> usize;

    /// The number of gates that this gate reads.
    fn input_len(&self) -> (r: usize)
        ensures
            r == self.arity(),
    ;

    /// The number of outputs, which is one for every gate.
    fn output_len(&self) -> (r: usize)
        ensures
            r == 1,
    ;

    /// The numbers of the gates that this gate names as its inputs.
    fn input_gate_ids(&self) -> (r: Vec<GateId>)
        ensures
            r@ == self.named_inputs(),
    ;

    /// The depth at which this gate stands.
    fn depth(&self) -> (r: usize)
        ensures
            r == self.level(),
    ;
}

/// A gate that stands for the input on one wire, with its value if it has
/// one.
#[derive(Debug, Clone, Copy, PartialEq, Eq)]
pub struct InputGate {
    pub wire_id: WireId,
    pub value: Option<bool>,
}

impl Gate for InputGate {
    open spec fn arity(&self) -> nat {
        0
    }

    open spec fn named_inputs(&self) -> Seq<GateId> {
        Seq::empty()
    }

    open spec fn level(&self) -> usize {
        0
    }

    fn input_len(&self) -> (r: usize) {
        0
    }

    fn output_len(&self) -> (r: usize) {
        1
    }

    fn input_gate_ids(&self) -> (r: Vec<GateId>) {
        Vec::new()
    }

    fn depth(&self) -> (r: usize) {
        0
    }
}

/// A gate that negates gate `id`.
#[derive(Debug, Clone, Copy, PartialEq, Eq)]
pub struct NotGate {
    pub id: GateId,
    pub depth: usize,
}

impl Gate for NotGate {
    open spec fn arity(&self) -> nat {
        1
    }

    open spec fn named_inputs(&self) -> Seq<GateId> {
        seq![self.id]
    }

    open spec fn level(&self) -> usize {
        self.depth
    }

    fn input_len(&self) -> (r: usize) {
        1
    }

    fn output_len(&self) -> (r: usize) {
        1
    }

    fn input_gate_ids(&self) -> (r: Vec<GateId>) {
        let mut r: Vec<GateId> = Vec::new();
        r.push(self.id);
        proof {
            assert(r@ =~= seq![self.id]);
        }
        r
    }

    fn depth(&self) -> (r: usize) {
        self.depth
    }
}

/// A gate that puts out the constant `value`. It counts gate `id` as
/// read, but names no input.
#[derive(Debug, Clone, Copy, PartialEq, Eq)]
pub struct ConstGate {
    pub id: GateId,
    pub value: bool,
    pub depth: usize,
}

impl Gate for ConstGate {
    open spec fn arity(&self) -> nat {
        1
    }

    open spec fn named_inputs(&self) -> Seq<GateId> {
        Seq::empty()
    }

    open spec fn level(&self) -> usize {
        self.depth
    }

    fn input_len(&self) -> (r: usize) {
        1
    }

    fn output_len(&self) -> (r: usize) {
        1
    }

    fn input_gate_ids(&self) -> (r: Vec<GateId>) {
        Vec::new()
    }

    fn depth(&self) -> (r: usize) {
        self.depth
    }
}

/// A gate that computes the disjunction of the gates `left_id` and `right_id`.
#[derive(Debug, Clone, Copy, PartialEq, Eq)]
pub struct OrGate {
    pub left_id: GateId,
    pub right_id: GateId,
    pub depth: usize,
}

impl Gate for OrGate {
    open spec fn arity(&self) -> nat {
        2
    }

    open spec fn named_inputs(&self) -> Seq<GateId> {
        seq![self.left_id, self.right_id]
    }

    open spec fn level(&self) -> usize {
        self.depth
    }

    fn input_len(&self) -> (r: usize) {
        2
    }

    fn output_len(&self) -> (r: usize) {
        1
    }

    fn input_gate_ids(&self) -> (r: Vec<GateId>) {
        let mut r: Vec<GateId> = Vec::new();
        r.push(self.left_id);
        r.push(self.right_id);
        proof {
            assert(r@ =~= seq![self.left_id, self.right_id]);
        }
        r
    }

    fn depth(&self) -> (r: usize) {
        self.depth
    }
}

/// A gate that computes the conjunction of the gates `left_id` and `right_id`.
#[derive(Debug, Clone, Copy, PartialEq, Eq)]
pub struct AndGate {
    pub left_id: GateId,
    pub right_id: GateId,
    pub depth: usize,
}

impl Gate for AndGate {
    open spec fn arity(&self) -> nat {
        2
    }

    open spec fn named_inputs(&self) -> Seq<GateId> {
        seq![self.left_id, self.right_id]
    }

    open spec fn level(&self) -> usize {
        self.depth
    }

    fn input_len(&self) -> (r: usize) {
        2
    }

    fn output_len(&self) -> (r: usize) {
        1
    }

    fn input_gate_ids(&self) -> (r: Vec<GateId>) {
        let mut r: Vec<GateId> = Vec::new();
        r.push(self.left_id);
        r.push(self.right_id);
        proof {
            assert(r@ =~= seq![self.left_id, self.right_id]);
        }
        r
    }

    fn depth(&self) -> (r: usize) {
        self.depth
    }
}

/// A gate that computes the exclusive or of the gates `left_id` and `right_id`.
#[derive(Debug, Clone, Copy, PartialEq, Eq)]
pub struct XorGate {
    pub left_id: GateId,
    pub right_id: GateId,
    pub depth: usize,
}

impl Gate for XorGate {
    open spec fn arity(&self) -> nat {
        2
    }

    open spec fn named_inputs(&self) -> Seq<GateId> {
        seq![self.left_id, self.right_id]
    }

    open spec fn level(&self) -> usize {
        self.depth
    }

    fn input_len(&self) -> (r: usize) {
        2
    }

    fn output_len(&self) -> (r: usize) {
        1
    }

    fn input_gate_ids(&self) -> (r: Vec<GateId>) {
        let mut r: Vec<GateId> = Vec::new();
        r.push(self.left_id);
        r.push(self.right_id);
        proof {
            assert(r@ =~= seq![self.left_id, self.right_id]);
        }
        r
    }

    fn depth(&self) -> (r: usize) {
        self.depth
    }
}

/// A gate that computes the negated conjunction of the gates `left_id` and `right_id`.
#[derive(Debug, Clone, Copy, PartialEq, Eq)]
pub struct NandGate {
    pub left_id: GateId,
    pub right_id: GateId,
    pub depth: usize,
}

impl Gate for NandGate {
    open spec fn arity(&self) -> nat {
        2
    }

    open spec fn named_inputs(&self) -> Seq<GateId> {
        seq![self.left_id, self.right_id]
    }

    open spec fn level(&self) -> usize {
        self.depth
    }

    fn input_len(&self) -> (r: usize) {
        2
    }

    fn output_len(&self) -> (r: usize) {
        1
    }

    fn input_gate_ids(&self) -> (r: Vec<GateId>) {
        let mut r: Vec<GateId> = Vec::new();
        r.push(self.left_id);
        r.push(self.right_id);
        proof {
            assert(r@ =~= seq![self.left_id, self.right_id]);
        }
        r
    }

    fn depth(&self) -> (r: usize) {
        self.depth
    }
}

/// Any of the gates.
#[derive(Debug, Clone, PartialEq, Eq)]
pub enum BooleanGate {
    Input(InputGate),
    Not(NotGate),
    Or(OrGate),
    And(AndGate),
    Xor(XorGate),
    Nand(NandGate),
    Const(ConstGate),
}

impl Gate for BooleanGate {
    open spec fn arity(&self) -> nat {
        match self {
            BooleanGate::Input(g) => g.arity(),
            BooleanGate::Not(g) => g.arity(),
            BooleanGate::Or(g) => g.arity(),
            BooleanGate::And(g) => g.arity(),
            BooleanGate::Xor(g) => g.arity(),
            BooleanGate::Nand(g) => g.arity(),
            BooleanGate::Const(g) => g.arity(),
        }
    }

    open spec fn named_inputs(&self) -> Seq<GateId> {
        match self {
            BooleanGate::Input(g) => g.named_inputs(),
            BooleanGate::Not(g) => g.named_inputs(),
            BooleanGate::Or(g) => g.named_inputs(),
            BooleanGate::And(g) => g.named_inputs(),
            BooleanGate::Xor(g) => g.named_inputs(),
            BooleanGate::Nand(g) => g.named_inputs(),
            BooleanGate::Const(g) => g.named_inputs(),
        }
    }

    open spec fn level(&self) -> usize {
        match self {
            BooleanGate::Input(g) => g.level(),
            BooleanGate::Not(g) => g.level(),
            BooleanGate::Or(g) => g.level(),
            BooleanGate::And(g) => g.level(),
            BooleanGate::Xor(g) => g.level(),
            BooleanGate::Nand(g) => g.level(),
            BooleanGate::Const(g) => g.level(),
        }
    }

    fn input_len(&self) -> (r: usize) {
        match self {
            BooleanGate::Input(g) => g.input_len(),
            BooleanGate::Not(g) => g.input_len(),
            BooleanGate::Or(g) => g.input_len(),
            BooleanGate::And(g) => g.input_len(),
            BooleanGate::Xor(g) => g.input_len(),
            BooleanGate::Nand(g) => g.input_len(),
            BooleanGate::Const(g) => g.input_len(),
        }
    }

    fn output_len(&self) -> (r: usize) {
        match self {
            BooleanGate::Input(g) => g.output_len(),
            BooleanGate::Not(g) => g.output_len(),
            BooleanGate::Or(g) => g.output_len(),
            BooleanGate::And(g) => g.output_len(),
            BooleanGate::Xor(g) => g.output_len(),
            BooleanGate::Nand(g) => g.output_len(),
            BooleanGate::Const(g) => g.output_len(),
        }
    }

    fn input_gate_ids(&self) -> (r: Vec<GateId>) {
        match self {
            BooleanGate::Input(g) => g.input_gate_ids(),
            BooleanGate::Not(g) => g.input_gate_ids(),
            BooleanGate::Or(g) => g.input_gate_ids(),
            BooleanGate::And(g) => g.input_gate_ids(),
            BooleanGate::Xor(g) => g.input_gate_ids(),
            BooleanGate::Nand(g) => g.input_gate_ids(),
            BooleanGate::Const(g) => g.input_gate_ids(),
        }
    }

    fn depth(&self) -> (r: usize) {
        match self {
            BooleanGate::Input(g) => g.depth(),
            BooleanGate::Not(g) => g.depth(),
            BooleanGate::Or(g) => g.depth(),
            BooleanGate::And(g) => g.depth(),
            BooleanGate::Xor(g) => g.depth(),
            BooleanGate::Nand(g) => g.depth(),
            BooleanGate::Const(g) => g.depth(),
        }
    }
}

} // verus!
