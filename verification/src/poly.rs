//! Multivariate polynomials over the scalar field, in public and private
//! variables: what they are and how they are evaluated.
pub mod format;
pub mod parse;

use crate::scalar::{add_mod, mul_mod, Scalar};
use vstd::prelude::*;

verus! {

/// The two namespaces of variables.
#[derive(Debug, Clone, Copy, PartialEq, Eq, Hash, Structural)]
pub enum VariableType {
    Private,
    Public,
}

/// A variable: its namespace and its index in it.
#[derive(Debug, Clone, Copy, PartialEq, Eq, Hash, Structural)]
pub struct Variable {
    pub index: u32,
    pub variable_type: VariableType,
}

/// A value for every variable up to some index, in each namespace.
#[derive(Clone, PartialEq, Eq)]
pub struct Assignment {
    pub public: Vec<Scalar>,
    pub private: Vec<Scalar>,
}

/// The values of an assignment, as residues.
pub struct AssignmentView {
    pub public: Seq<int>,
    pub private: Seq<int>,
}

/// The residues of a sequence of field elements.
pub open spec fn scalar_values(s: Seq<Scalar>) -> Seq<int> {
    Seq::new(s.len(), |i: int| s[i].value())
}

impl AssignmentView {
    /// The assignment gives `v` a value.
    pub open spec fn has(self, v: Variable) -> bool {
        match v.variable_type {
            VariableType::Public => v.index < self.public.len(),
            VariableType::Private => v.index < self.private.len(),
        }
    }

    /// The value of `v`.
    pub open spec fn value(self, v: Variable) -> int
        recommends
            self.has(v),
    {
        match v.variable_type {
            VariableType::Public => self.public[v.index as int],
            VariableType::Private => self.private[v.index as int],
        }
    }
}

impl View for Assignment {
    type V = AssignmentView;

    open spec fn view(&self) -> AssignmentView {
        AssignmentView {
            public: scalar_values(self.public@),
            private: scalar_values(self.private@),
        }
    }
}

impl Assignment {
    /// The assignment with the given values.
    pub fn new(public: Vec<Scalar>, private: Vec<Scalar>) -> (r: Assignment)
        ensures
            r.public == public,
            r.private == private,
    {
        Assignment { public, private }
    }

    /// The value of `v`, if the assignment gives it one.
    pub fn get(&self, v: &Variable) -> (r: Option<Scalar>)
        ensures
            r.is_some() == self@.has(*v),
            r.is_some() ==> r.unwrap().value() == self@.value(*v),
    {
        let i = v.index as usize;
        match v.variable_type {
            VariableType::Public => {
                if i < self.public.len() {
                    Some(self.public[i])
                } else {
                    None
                }
            },
            VariableType::Private => {
                if i < self.private.len() {
                    Some(self.private[i])
                } else {
                    None
                }
            },
        }
    }
}

/// A coefficient times a product of variables; a variable that is listed
/// twice is squared.
#[derive(Clone, PartialEq, Eq)]
pub struct Monomial {
    pub variables: Vec<Variable>,
    pub coefficient: Scalar,
}

/// A monomial as a mathematical object.
pub struct MonomialView {
    pub variables: Seq<Variable>,
    pub coefficient: int,
}

/// The product of the values of `vars`, in the field.
pub open spec fn product_of(vars: Seq<Variable>, a: AssignmentView) -> int
    decreases vars.len(),
{
    if vars.len() == 0 {
        1
    } else {
        mul_mod(product_of(vars.drop_last(), a), a.value(vars.last()))
    }
}

impl MonomialView {
    /// The number of variables, with multiplicity.
    pub open spec fn degree(self) -> nat {
        self.variables.len()
    }

    /// The assignment gives every variable a value.
    pub open spec fn covered_by(self, a: AssignmentView) -> bool {
        forall|i: int| 0 <= i < self.variables.len() ==> a.has(#[trigger] self.variables[i])
    }

    /// The value of the monomial under `a`.
    pub open spec fn eval(self, a: AssignmentView) -> int {
        mul_mod(product_of(self.variables, a), self.coefficient)
    }

    /// Every variable is a public one of index below `n`.
    pub open spec fn public_below(self, n: nat) -> bool {
        forall|i: int|
            0 <= i < self.variables.len() ==> (#[trigger] self.variables[i]).variable_type
                == VariableType::Public && self.variables[i].index < n
    }
}

impl View for Monomial {
    type V = MonomialView;

    open spec fn view(&self) -> MonomialView {
        MonomialView { variables: self.variables@, coefficient: self.coefficient.value() }
    }
}

impl Monomial {
    /// The monomial of the given variables and coefficient.
    pub fn new(variables: Vec<Variable>, coefficient: Scalar) -> (r: Self)
        ensures
            r.variables == variables,
            r.coefficient == coefficient,
    {
        Self { variables, coefficient }
    }

    /// The number of variables, with multiplicity.
    pub fn degree(&self) -> (r: usize)
        ensures
            r == self@.degree(),
    {
        self.variables.len()
    }

    /// Whether every variable is a public one of index below `n`.
    pub fn is_public_below(&self, n: usize) -> (r: bool)
        ensures
            r == self@.public_below(n as nat),
    {
        let count = self.variables.len();
        let mut i: usize = 0;
        while i < count
            invariant
                i <= count,
                count == self.variables.len(),
                forall|j: int|
                    0 <= j < i ==> (#[trigger] self.variables[j]).variable_type
                        == VariableType::Public && self.variables[j].index < n,
            decreases count - i,
        {
            let v = self.variables[i];
            let public = match v.variable_type {
                VariableType::Public => true,
                VariableType::Private => false,
            };
            if !public || v.index as usize >= n {
                proof {
                    assert(!(self@.variables[i as int].variable_type == VariableType::Public
                        && self@.variables[i as int].index < n));
                }
                return false;
            }
            i += 1;
        }
        true
    }

    /// The coefficient times the value of every listed variable.
    pub fn eval(&self, assignment: &Assignment) -> (r: Scalar)
        requires
            self@.covered_by(assignment@),
        ensures
            r.value() == self@.eval(assignment@),
    {
        let mut result = Scalar::one();
        let n = self.variables.len();
        let mut i: usize = 0;
        while i < n
            invariant
                i <= n,
                n == self.variables.len(),
                self@.covered_by(assignment@),
                result.value() == product_of(self.variables@.take(i as int), assignment@),
            decreases n - i,
        {
            let v = self.variables[i];
            proof {
                assert(assignment@.has(self@.variables[i as int]));
                let t = self.variables@.take(i + 1);
                assert(t.drop_last() =~= self.variables@.take(i as int));
                assert(t.last() == v);
            }
            let val = match assignment.get(&v) {
                Some(val) => val,
                None => vstd::pervasive::unreached(),
            };
            result = result.mul(&val);
            i += 1;
        }
        proof {
            assert(self.variables@.take(n as int) =~= self.variables@);
        }
        result.mul(&self.coefficient)
    }
}

/// A sum of monomials.
#[derive(Clone, PartialEq, Eq)]
pub struct Polynomial {
    pub monomials: Vec<Monomial>,
}

/// The views of a sequence of monomials.
pub open spec fn monomial_views(s: Seq<Monomial>) -> Seq<MonomialView> {
    Seq::new(s.len(), |i: int| s[i]@)
}

/// The sum of the values of `monomials` under `a`, in the field.
pub open spec fn sum_of(monomials: Seq<MonomialView>, a: AssignmentView) -> int
    decreases monomials.len(),
{
    if monomials.len() == 0 {
        0
    } else {
        add_mod(sum_of(monomials.drop_last(), a), monomials.last().eval(a))
    }
}

/// The largest degree among `monomials`, zero if there are none.
pub open spec fn max_degree(monomials: Seq<MonomialView>) -> nat
    decreases monomials.len(),
{
    if monomials.len() == 0 {
        0
    } else {
        let rest = max_degree(monomials.drop_last());
        if monomials.last().degree() > rest {
            monomials.last().degree()
        } else {
            rest
        }
    }
}

/// A polynomial as a mathematical object.
pub struct PolynomialView {
    pub monomials: Seq<MonomialView>,
}

impl PolynomialView {
    /// The assignment gives every variable of every monomial a value.
    pub open spec fn covered_by(self, a: AssignmentView) -> bool {
        forall|i: int| 0 <= i < self.monomials.len() ==> (#[trigger] self.monomials[i]).covered_by(a)
    }

    /// The value of the polynomial under `a`.
    pub open spec fn eval(self, a: AssignmentView) -> int {
        sum_of(self.monomials, a)
    }

    /// The largest degree of a monomial.
    pub open spec fn degree(self) -> nat {
        max_degree(self.monomials)
    }

    /// Every variable of every monomial is a public one of index below `n`.
    pub open spec fn public_below(self, n: nat) -> bool {
        forall|i: int| 0 <= i < self.monomials.len() ==> (#[trigger] self.monomials[i]).public_below(n)
    }
}

/// A polynomial in public variables of index below `n` has a value under
/// every assignment of `n` public variables.
pub proof fn lemma_public_is_covered(p: PolynomialView, a: AssignmentView)
    requires
        p.public_below(a.public.len()),
    ensures
        p.covered_by(a),
{
    assert forall|i: int| 0 <= i < p.monomials.len() implies (#[trigger] p.monomials[i]).covered_by(
        a,
    ) by {
        let m = p.monomials[i];
        assert(m.public_below(a.public.len()));
        assert forall|j: int| 0 <= j < m.variables.len() implies a.has(#[trigger] m.variables[j]) by {
            assert(m.variables[j].variable_type == VariableType::Public);
        }
    }
}

impl View for Polynomial {
    type V = PolynomialView;

    open spec fn view(&self) -> PolynomialView {
        PolynomialView { monomials: monomial_views(self.monomials@) }
    }
}

impl Polynomial {
    /// The sum of the given monomials.
    pub fn new(monomials: Vec<Monomial>) -> (r: Self)
        ensures
            r.monomials == monomials,
    {
        Self { monomials }
    }

    /// The largest degree of a monomial, zero for the empty sum.
    pub fn degree(&self) -> (r: usize)
        ensures
            r == self@.degree(),
    {
        let n = self.monomials.len();
        let mut best: usize = 0;
        let mut i: usize = 0;
        while i < n
            invariant
                i <= n,
                n == self.monomials.len(),
                best == max_degree(self@.monomials.take(i as int)),
            decreases n - i,
        {
            let d = self.monomials[i].degree();
            proof {
                let t = self@.monomials.take(i + 1);
                assert(t.drop_last() =~= self@.monomials.take(i as int));
                assert(t.last() == self.monomials[i as int]@);
            }
            if d > best {
                best = d;
            }
            i += 1;
        }
        proof {
            assert(self@.monomials.take(n as int) =~= self@.monomials);
        }
        best
    }

    /// Whether every variable of every monomial is a public one of index
    /// below `n`.
    pub fn is_public_below(&self, n: usize) -> (r: bool)
        ensures
            r == self@.public_below(n as nat),
    {
        let count = self.monomials.len();
        let mut i: usize = 0;
        while i < count
            invariant
                i <= count,
                count == self.monomials.len(),
                forall|j: int| 0 <= j < i ==> (#[trigger] self@.monomials[j]).public_below(n as nat),
            decreases count - i,
        {
            if !self.monomials[i].is_public_below(n) {
                proof {
                    assert(self@.monomials[i as int] == self.monomials[i as int]@);
                }
                return false;
            }
            proof {
                assert(self@.monomials[i as int] == self.monomials[i as int]@);
            }
            i += 1;
        }
        true
    }

    /// The sum of the values of the monomials.
    pub fn eval(&self, assignment: &Assignment) -> (r: Scalar)
        requires
            self@.covered_by(assignment@),
        ensures
            r.value() == self@.eval(assignment@),
    {
        let n = self.monomials.len();
        let mut result = Scalar::zero();
        let mut i: usize = 0;
        while i < n
            invariant
                i <= n,
                n == self.monomials.len(),
                self@.covered_by(assignment@),
                result.value() == sum_of(self@.monomials.take(i as int), assignment@),
            decreases n - i,
        {
            proof {
                let t = self@.monomials.take(i + 1);
                assert(t.drop_last() =~= self@.monomials.take(i as int));
                assert(t.last() == self.monomials[i as int]@);
                assert(self@.monomials[i as int].covered_by(assignment@));
            }
            let v = self.monomials[i].eval(assignment);
            result = result.add(&v);
            i += 1;
        }
        proof {
            assert(self@.monomials.take(n as int) =~= self@.monomials);
        }
        result
    }
}

} // verus!
