//! The algebraic element that all of the scheme's linear algebra is written
//! over, and the tensor products that the scheme uses.
use crate::decimal::{decimal_value, is_number};
use crate::error::Error;
use crate::group::{pairing, G1, G2, Gt};
use crate::phfe::algebra::{lemma_block_index, lemma_mat_ext, mat_identity, mat_kron};
use crate::phfe::matrix::Matrix;
use crate::scalar::{add_mod, lemma_mod_twice, modulus, mul_mod, neg_mod, Scalar};
use vstd::arithmetic::div_mod::lemma_small_mod;
use vstd::prelude::*;
use vstd::string::*;

verus! {

/// Which of the four structures an element belongs to.
#[derive(Debug, Clone, Copy, PartialEq, Eq, Structural)]
pub enum ElementKind {
    Scalar,
    G1,
    G2,
    Gt,
}

/// Whether the product of an element of kind `a` with one of kind `b` is
/// defined: a scalar with anything, anything with a scalar, and the pairing
/// of G1 with G2 in either order.
pub open spec fn mul_defined(a: ElementKind, b: ElementKind) -> bool {
    a == ElementKind::Scalar || b == ElementKind::Scalar || (a == ElementKind::G1 && b
        == ElementKind::G2) || (a == ElementKind::G2 && b == ElementKind::G1)
}

/// The kind of a defined product.
pub open spec fn mul_kind(a: ElementKind, b: ElementKind) -> ElementKind {
    if a == ElementKind::Scalar {
        b
    } else if b == ElementKind::Scalar {
        a
    } else {
        ElementKind::Gt
    }
}

/// A field element or an element of one of the three pairing groups.
#[derive(Clone, Copy, PartialEq, Eq)]
pub enum PhfeElement {
    Scalar(Scalar),
    G1(G1),
    G2(G2),
    Gt(Gt),
}

impl PhfeElement {
    /// The structure this element belongs to.
    pub open spec fn kind(&self) -> ElementKind {
        match self {
            PhfeElement::Scalar(_) => ElementKind::Scalar,
            PhfeElement::G1(_) => ElementKind::G1,
            PhfeElement::G2(_) => ElementKind::G2,
            PhfeElement::Gt(_) => ElementKind::Gt,
        }
    }

    /// The residue of a scalar, or the exponent of a group element to the
    /// base of its group's generator; in `[0, r)` either way.
    pub open spec fn exp(&self) -> int {
        match self {
            PhfeElement::Scalar(s) => s.value(),
            PhfeElement::G1(p) => p.exp(),
            PhfeElement::G2(p) => p.exp(),
            PhfeElement::Gt(p) => p.exp(),
        }
    }

    /// The structure this element belongs to.
    pub fn get_kind(&self) -> (r: ElementKind)
        ensures
            r == self.kind(),
    {
        match self {
            PhfeElement::Scalar(_) => ElementKind::Scalar,
            PhfeElement::G1(_) => ElementKind::G1,
            PhfeElement::G2(_) => ElementKind::G2,
            PhfeElement::Gt(_) => ElementKind::Gt,
        }
    }

    /// The sum of two elements of one kind.
    pub fn add(&self, other: &PhfeElement) -> (r: PhfeElement)
        requires
            self.kind() == other.kind(),
        ensures
            r.kind() == self.kind(),
            r.exp() == add_mod(self.exp(), other.exp()),
    {
        match (self, other) {
            (PhfeElement::Scalar(a), PhfeElement::Scalar(b)) => PhfeElement::Scalar(a.add(b)),
            (PhfeElement::G1(a), PhfeElement::G1(b)) => PhfeElement::G1(a.add(b)),
            (PhfeElement::G2(a), PhfeElement::G2(b)) => PhfeElement::G2(a.add(b)),
            (PhfeElement::Gt(a), PhfeElement::Gt(b)) => PhfeElement::Gt(a.add(b)),
            _ => vstd::pervasive::unreached(),
        }
    }

    /// Replaces `self` by its sum with `other`.
    pub fn add_assign(&mut self, other: &PhfeElement)
        requires
            old(self).kind() == other.kind(),
        ensures
            final(self).kind() == old(self).kind(),
            final(self).exp() == add_mod(old(self).exp(), other.exp()),
    {
        let r = self.add(other);
        *self = r;
    }

    /// The product of two elements: of two scalars in the field, of a scalar
    /// and a group element by scalar multiplication, of a G1 and a G2 element
    /// by the pairing.
    pub fn mul(&self, other: &PhfeElement) -> (r: PhfeElement)
        requires
            mul_defined(self.kind(), other.kind()),
        ensures
            r.kind() == mul_kind(self.kind(), other.kind()),
            r.exp() == mul_mod(self.exp(), other.exp()),
    {
        proof {
            assert(self.exp() * other.exp() == other.exp() * self.exp()) by (nonlinear_arith);
        }
        match (self, other) {
            (PhfeElement::Scalar(a), PhfeElement::Scalar(b)) => PhfeElement::Scalar(a.mul(b)),
            (PhfeElement::G1(p), PhfeElement::Scalar(s)) => PhfeElement::G1(p.scale(s)),
            (PhfeElement::Scalar(s), PhfeElement::G1(p)) => PhfeElement::G1(p.scale(s)),
            (PhfeElement::G2(p), PhfeElement::Scalar(s)) => PhfeElement::G2(p.scale(s)),
            (PhfeElement::Scalar(s), PhfeElement::G2(p)) => PhfeElement::G2(p.scale(s)),
            (PhfeElement::Gt(p), PhfeElement::Scalar(s)) => PhfeElement::Gt(p.scale(s)),
            (PhfeElement::Scalar(s), PhfeElement::Gt(p)) => PhfeElement::Gt(p.scale(s)),
            (PhfeElement::G1(p), PhfeElement::G2(q)) => PhfeElement::Gt(pairing(p, q)),
            (PhfeElement::G2(q), PhfeElement::G1(p)) => PhfeElement::Gt(pairing(p, q)),
            _ => vstd::pervasive::unreached(),
        }
    }

    /// Replaces `self` by its product with `other`.
    pub fn mul_assign(&mut self, other: &PhfeElement)
        requires
            mul_defined(old(self).kind(), other.kind()),
        ensures
            final(self).kind() == mul_kind(old(self).kind(), other.kind()),
            final(self).exp() == mul_mod(old(self).exp(), other.exp()),
    {
        let r = self.mul(other);
        *self = r;
    }

    /// The additive inverse, in the same structure.
    pub fn neg(&self) -> (r: PhfeElement)
        ensures
            r.kind() == self.kind(),
            r.exp() == neg_mod(self.exp()),
    {
        match self {
            PhfeElement::Scalar(a) => PhfeElement::Scalar(a.neg()),
            PhfeElement::G1(a) => PhfeElement::G1(a.neg()),
            PhfeElement::G2(a) => PhfeElement::G2(a.neg()),
            PhfeElement::Gt(a) => PhfeElement::Gt(a.neg()),
        }
    }

    /// The zero of the field.
    pub fn zero() -> (r: PhfeElement)
        ensures
            r.kind() == ElementKind::Scalar,
            r.exp() == 0,
    {
        PhfeElement::Scalar(Scalar::zero())
    }

    /// The one of the field.
    pub fn one() -> (r: PhfeElement)
        ensures
            r.kind() == ElementKind::Scalar,
            r.exp() == 1,
    {
        PhfeElement::Scalar(Scalar::one())
    }

    /// Whether this is the zero of the field or the identity of its group.
    pub fn is_zero(&self) -> (r: bool)
        ensures
            r == (self.exp() == 0),
    {
        match self {
            PhfeElement::Scalar(a) => a.is_zero(),
            PhfeElement::G1(a) => a.is_identity(),
            PhfeElement::G2(a) => a.is_identity(),
            PhfeElement::Gt(a) => a.is_identity(),
        }
    }

    /// Whether this is the one of the field or the generator of its group.
    pub fn is_one(&self) -> (r: bool)
        ensures
            r == (self.exp() == 1),
    {
        match self {
            PhfeElement::Scalar(a) => a.is_one(),
            PhfeElement::G1(a) => {
                let g = G1::generator();
                a.equals(&g)
            },
            PhfeElement::G2(a) => {
                let g = G2::generator();
                a.equals(&g)
            },
            PhfeElement::Gt(a) => {
                let g = Gt::generator();
                a.equals(&g)
            },
        }
    }

    /// Whether two elements are of one kind and the same.
    pub fn equals(&self, other: &PhfeElement) -> (r: bool)
        ensures
            r == (self.kind() == other.kind() && self.exp() == other.exp()),
    {
        match (self, other) {
            (PhfeElement::Scalar(a), PhfeElement::Scalar(b)) => a.equals(b),
            (PhfeElement::G1(a), PhfeElement::G1(b)) => a.equals(b),
            (PhfeElement::G2(a), PhfeElement::G2(b)) => a.equals(b),
            (PhfeElement::Gt(a), PhfeElement::Gt(b)) => a.equals(b),
            _ => false,
        }
    }

    /// The generator of G1 taken `s` times, for a scalar `s`.
    pub fn to_g1(&self) -> (r: PhfeElement)
        requires
            self.kind() == ElementKind::Scalar,
        ensures
            r.kind() == ElementKind::G1,
            r.exp() == self.exp(),
    {
        match self {
            PhfeElement::Scalar(s) => {
                let g = G1::generator();
                proof {
                    lemma_one_times(s.value());
                }
                PhfeElement::G1(g.scale(s))
            },
            _ => vstd::pervasive::unreached(),
        }
    }

    /// The generator of G2 taken `s` times, for a scalar `s`.
    pub fn to_g2(&self) -> (r: PhfeElement)
        requires
            self.kind() == ElementKind::Scalar,
        ensures
            r.kind() == ElementKind::G2,
            r.exp() == self.exp(),
    {
        match self {
            PhfeElement::Scalar(s) => {
                let g = G2::generator();
                proof {
                    lemma_one_times(s.value());
                }
                PhfeElement::G2(g.scale(s))
            },
            _ => vstd::pervasive::unreached(),
        }
    }
}

/// One times a residue is that residue.
pub proof fn lemma_one_times(a: int)
    requires
        0 <= a < modulus(),
    ensures
        mul_mod(1, a) == a,
        mul_mod(a, 1) == a,
{
    vstd::arithmetic::div_mod::lemma_small_mod(a as nat, modulus() as nat);
}

/// The residue or exponent of an element is reduced.
pub proof fn lemma_exp_range(e: PhfeElement)
    ensures
        0 <= e.exp() < modulus(),
{
    crate::scalar::lemma_mod_twice(0);
    match e {
        PhfeElement::Scalar(s) => crate::scalar::lemma_mod_twice(crate::scalar::scalar_residue(s)),
        PhfeElement::G1(p) => crate::scalar::lemma_mod_twice(crate::group::g1_exponent(p)),
        PhfeElement::G2(p) => crate::scalar::lemma_mod_twice(crate::group::g2_exponent(p)),
        PhfeElement::Gt(p) => crate::scalar::lemma_mod_twice(crate::group::gt_exponent(p)),
    }
}

/// The matrix of the generator of the source group `group` taken as many
/// times as each scalar of `matrix` says.
fn scalar_matrix_into(matrix: &Matrix, group: ElementKind) -> (r: Matrix)
    requires
        matrix.wf(),
        matrix.all_kind(ElementKind::Scalar),
        group == ElementKind::G1 || group == ElementKind::G2,
    ensures
        r.is(matrix.nrows as nat, matrix.ncols as nat, group),
        r.exps() == matrix.exps(),
{
    let nr = matrix.nrows;
    let nc = matrix.ncols;
    let mut rows: Vec<Vec<PhfeElement>> = Vec::new();
    let mut i: usize = 0;
    while i < nr
        invariant
            i <= nr,
            nr == matrix.nrows,
            nc == matrix.ncols,
            matrix.wf(),
            matrix.all_kind(ElementKind::Scalar),
            group == ElementKind::G1 || group == ElementKind::G2,
            rows.len() == i,
            forall|p: int| 0 <= p < i ==> (#[trigger] rows[p]).len() == nc,
            forall|p: int, q: int|
                0 <= p < i && 0 <= q < nc ==> (#[trigger] rows[p][q]).kind() == group
                    && rows[p][q].exp() == matrix.at(p, q).exp(),
        decreases nr - i,
    {
        let mut row: Vec<PhfeElement> = Vec::new();
        let mut j: usize = 0;
        while j < nc
            invariant
                j <= nc,
                i < nr,
                nr == matrix.nrows,
                nc == matrix.ncols,
                matrix.wf(),
                matrix.all_kind(ElementKind::Scalar),
                group == ElementKind::G1 || group == ElementKind::G2,
                row.len() == j,
                forall|q: int|
                    0 <= q < j ==> (#[trigger] row[q]).kind() == group && row[q].exp()
                        == matrix.at(i as int, q).exp(),
            decreases nc - j,
        {
            proof {
                assert(matrix.at(i as int, j as int).kind() == ElementKind::Scalar);
            }
            let e = if group == ElementKind::G1 {
                matrix.rows[i][j].to_g1()
            } else {
                matrix.rows[i][j].to_g2()
            };
            row.push(e);
            j += 1;
        }
        rows.push(row);
        i += 1;
    }
    let r = Matrix { nrows: nr, ncols: nc, rows };
    proof {
        assert forall|p: int, q: int| 0 <= p < nr && 0 <= q < nc implies (#[trigger] r.at(
            p,
            q,
        )).kind() == group && r.at(p, q).exp() == matrix.at(p, q).exp() by {
            assert(r.rows[p][q].kind() == group);
        }
        lemma_mat_ext(r.exps(), matrix.exps());
    }
    r
}

/// The matrix of the generator of G1 taken as many times as each scalar of
/// `matrix` says.
pub fn scalar_matrix_to_g1(matrix: &Matrix) -> (r: Matrix)
    requires
        matrix.wf(),
        matrix.all_kind(ElementKind::Scalar),
    ensures
        r.is(matrix.nrows as nat, matrix.ncols as nat, ElementKind::G1),
        r.exps() == matrix.exps(),
{
    scalar_matrix_into(matrix, ElementKind::G1)
}

/// The vector of the generator of G1 taken as many times as each scalar of
/// `vec` says.
pub fn scalar_vec_to_g1(vec: &Matrix) -> (r: Matrix)
    requires
        vec.wf(),
        vec.all_kind(ElementKind::Scalar),
    ensures
        r.is(vec.nrows as nat, vec.ncols as nat, ElementKind::G1),
        r.exps() == vec.exps(),
{
    scalar_matrix_to_g1(vec)
}

/// The matrix of the generator of G2 taken as many times as each scalar of
/// `matrix` says.
pub fn scalar_matrix_to_g2(matrix: &Matrix) -> (r: Matrix)
    requires
        matrix.wf(),
        matrix.all_kind(ElementKind::Scalar),
    ensures
        r.is(matrix.nrows as nat, matrix.ncols as nat, ElementKind::G2),
        r.exps() == matrix.exps(),
{
    scalar_matrix_into(matrix, ElementKind::G2)
}

/// The vector of the generator of G2 taken as many times as each scalar of
/// `vec` says.
pub fn scalar_vec_to_g2(vec: &Matrix) -> (r: Matrix)
    requires
        vec.wf(),
        vec.all_kind(ElementKind::Scalar),
    ensures
        r.is(vec.nrows as nat, vec.ncols as nat, ElementKind::G2),
        r.exps() == vec.exps(),
{
    scalar_matrix_to_g2(vec)
}

/// Reads a field element: at least one decimal digit and nothing else, with
/// `-` in front for the additive inverse. The number is reduced into the
/// field.
pub open spec fn field_str_value(s: Seq<char>) -> Option<int> {
    if s.len() > 0 && s[0] == '-' {
        if is_number(s.skip(1)) {
            Some(neg_mod(decimal_value(s.skip(1)) as int % modulus()))
        } else {
            None
        }
    } else {
        if is_number(s) {
            Some(decimal_value(s) as int % modulus())
        } else {
            None
        }
    }
}

/// Reads a field element from `s`. Any text that is not one is refused with
/// `InvalidFieldString`, which carries `s`.
pub fn parse_field_str(s: &str) -> (r: Result<Scalar, Error>)
    ensures
        match r {
            Ok(v) => field_str_value(s@) == Some(v.value()),
            Err(e) => field_str_value(s@).is_none() && e == Error::InvalidFieldString(
                e.subject_string(),
            ) && e.subject() == s@,
        },
{
    let n = s.unicode_len();
    if n > 0 && s.get_char(0) == '-' {
        let rest = s.substring_char(1, n);
        proof {
            assert(rest@ =~= s@.skip(1));
        }
        match Scalar::from_digits(rest) {
            Some(v) => Ok(v.neg()),
            None => Err(Error::InvalidFieldString(String::from_str(s))),
        }
    } else {
        match Scalar::from_digits(s) {
            Some(v) => Ok(v),
            None => Err(Error::InvalidFieldString(String::from_str(s))),
        }
    }
}

/// The Kronecker product of the column vector `x` with the identity matrix
/// of size `k`: row `i * k + j` holds `x[i]` in column `j` and the zero of
/// the field elsewhere.
pub fn vec_tensor_product_with_identity(x: &Matrix, k: usize) -> (r: Matrix)
    requires
        x.wf(),
        x.ncols == 1,
        x.nrows * k <= usize::MAX,
    ensures
        r.wf(),
        r.nrows == x.nrows * k,
        r.ncols == k,
        forall|p: int, q: int|
            0 <= p < r.nrows && 0 <= q < r.ncols ==> (if p % (k as int) == q {
                #[trigger] r.at(p, q) == x.at(p / (k as int), 0)
            } else {
                r.at(p, q).kind() == ElementKind::Scalar && r.at(p, q).exp() == 0
            }),
        r.exps() == mat_kron(x.exps(), mat_identity(k as nat)),
        x.all_kind(ElementKind::Scalar) ==> r.all_kind(ElementKind::Scalar),
{
    let r = matrix_tensor_product_with_identity(x, k);
    proof {
        assert(r.ncols == k) by (nonlinear_arith)
            requires
                r.ncols == 1 * k,
        ;
        assert forall|p: int, q: int| 0 <= p < r.nrows && 0 <= q < r.ncols implies (if p % (
        k as int) == q {
            #[trigger] r.at(p, q) == x.at(p / (k as int), 0)
        } else {
            r.at(p, q).kind() == ElementKind::Scalar && r.at(p, q).exp() == 0
        }) by {
            vstd::arithmetic::div_mod::lemma_small_mod(q as nat, k as nat);
            vstd::arithmetic::div_mod::lemma_basic_div(q, k as int);
        }
    }
    r
}

/// The Kronecker product of the identity matrix of size `k` with `x`: `k`
/// copies of `x` along the diagonal, the zero of the field elsewhere.
pub fn identity_tensor_product_with_matrix(x: &Matrix, k: usize) -> (r: Matrix)
    requires
        x.wf(),
        x.nrows * k <= usize::MAX,
        x.ncols * k <= usize::MAX,
    ensures
        r.wf(),
        r.nrows == x.nrows * k,
        r.ncols == x.ncols * k,
        forall|p: int, q: int|
            0 <= p < r.nrows && 0 <= q < r.ncols ==> (if p / (x.nrows as int) == q / (
            x.ncols as int) {
                #[trigger] r.at(p, q) == x.at(p % (x.nrows as int), q % (x.ncols as int))
            } else {
                r.at(p, q).kind() == ElementKind::Scalar && r.at(p, q).exp() == 0
            }),
        r.exps() == mat_kron(mat_identity(k as nat), x.exps()),
        x.all_kind(ElementKind::Scalar) ==> r.all_kind(ElementKind::Scalar),
{
    let n = x.nrows;
    let m = x.ncols;
    let nr = n * k;
    let nc = m * k;
    let mut rows: Vec<Vec<PhfeElement>> = Vec::new();
    let mut i: usize = 0;
    while i < nr
        invariant
            i <= nr,
            n == x.nrows,
            m == x.ncols,
            nr == n * k,
            nc == m * k,
            x.wf(),
            rows.len() == i,
            forall|p: int| 0 <= p < i ==> (#[trigger] rows[p]).len() == nc,
            forall|p: int, q: int|
                0 <= p < i && 0 <= q < nc ==> (if p / (n as int) == q / (m as int) {
                    #[trigger] rows[p][q] == x.at(p % (n as int), q % (m as int))
                } else {
                    rows[p][q].kind() == ElementKind::Scalar && rows[p][q].exp() == 0
                }),
        decreases nr - i,
    {
        proof {
            assert(k * n == n * k) by (nonlinear_arith);
            lemma_block_index(i as int, k as int, n as int);
        }
        let mut row: Vec<PhfeElement> = Vec::new();
        let mut j: usize = 0;
        while j < nc
            invariant
                j <= nc,
                i < nr,
                n == x.nrows,
                m == x.ncols,
                nr == n * k,
                nc == m * k,
                n > 0,
                0 <= i % n < n,
                x.wf(),
                row.len() == j,
                forall|q: int|
                    0 <= q < j ==> (if i as int / (n as int) == q / (m as int) {
                        #[trigger] row[q] == x.at(i as int % (n as int), q % (m as int))
                    } else {
                        row[q].kind() == ElementKind::Scalar && row[q].exp() == 0
                    }),
            decreases nc - j,
        {
            proof {
                assert(k * m == m * k) by (nonlinear_arith);
                lemma_block_index(j as int, k as int, m as int);
            }
            if i / n == j / m {
                row.push(x.rows[i % n][j % m]);
            } else {
                row.push(PhfeElement::zero());
            }
            j += 1;
        }
        rows.push(row);
        i += 1;
    }
    let r = Matrix { nrows: nr, ncols: nc, rows };
    proof {
        let id = mat_identity(k as nat);
        assert forall|p: int, q: int| 0 <= p < nr && 0 <= q < nc implies (if p / (n as int) == q
            / (m as int) {
            #[trigger] r.at(p, q) == x.at(p % (n as int), q % (m as int))
        } else {
            r.at(p, q).kind() == ElementKind::Scalar && r.at(p, q).exp() == 0
        }) by {
            assert(r.rows[p][q] == r.at(p, q));
        }
        assert forall|p: int, q: int| 0 <= p < nr && 0 <= q < nc implies r.exps().at(p, q)
            == mat_kron(id, x.exps()).at(p, q) by {
            assert(k * n == n * k && k * m == m * k) by (nonlinear_arith);
            lemma_block_index(p, k as int, n as int);
            lemma_block_index(q, k as int, m as int);
            let e = x.at(p % (n as int), q % (m as int));
            lemma_exp_range(e);
            lemma_small_mod(e.exp() as nat, modulus() as nat);
            lemma_small_mod(0, modulus() as nat);
            assert(r.rows[p][q] == r.at(p, q));
            assert(1 * e.exp() == e.exp());
            assert(0 * e.exp() == 0);
        }
        assert(k * n == n * k && k * m == m * k) by (nonlinear_arith);
        lemma_mat_ext(r.exps(), mat_kron(id, x.exps()));
        if x.all_kind(ElementKind::Scalar) {
            assert forall|p: int, q: int| 0 <= p < nr && 0 <= q < nc implies (#[trigger] r.at(
                p,
                q,
            )).kind() == ElementKind::Scalar by {
                assert(k * n == n * k && k * m == m * k) by (nonlinear_arith);
                lemma_block_index(p, k as int, n as int);
                lemma_block_index(q, k as int, m as int);
                assert(x.at(p % (n as int), q % (m as int)).kind() == ElementKind::Scalar);
                assert(r.rows[p][q] == r.at(p, q));
            }
        }
    }
    r
}

/// The Kronecker product of `x` with the identity matrix of size `k`: each
/// element of `x` spread along the diagonal of a block of size `k`, the zero
/// of the field elsewhere.
pub fn matrix_tensor_product_with_identity(x: &Matrix, k: usize) -> (r: Matrix)
    requires
        x.wf(),
        x.nrows * k <= usize::MAX,
        x.ncols * k <= usize::MAX,
    ensures
        r.wf(),
        r.nrows == x.nrows * k,
        r.ncols == x.ncols * k,
        forall|p: int, q: int|
            0 <= p < r.nrows && 0 <= q < r.ncols ==> (if p % (k as int) == q % (k as int) {
                #[trigger] r.at(p, q) == x.at(p / (k as int), q / (k as int))
            } else {
                r.at(p, q).kind() == ElementKind::Scalar && r.at(p, q).exp() == 0
            }),
        r.exps() == mat_kron(x.exps(), mat_identity(k as nat)),
        x.all_kind(ElementKind::Scalar) ==> r.all_kind(ElementKind::Scalar),
{
    let n = x.nrows;
    let m = x.ncols;
    let nr = n * k;
    let nc = m * k;
    let mut rows: Vec<Vec<PhfeElement>> = Vec::new();
    let mut i: usize = 0;
    while i < nr
        invariant
            i <= nr,
            n == x.nrows,
            m == x.ncols,
            nr == n * k,
            nc == m * k,
            x.wf(),
            rows.len() == i,
            forall|p: int| 0 <= p < i ==> (#[trigger] rows[p]).len() == nc,
            forall|p: int, q: int|
                0 <= p < i && 0 <= q < nc ==> (if p % (k as int) == q % (k as int) {
                    #[trigger] rows[p][q] == x.at(p / (k as int), q / (k as int))
                } else {
                    rows[p][q].kind() == ElementKind::Scalar && rows[p][q].exp() == 0
                }),
        decreases nr - i,
    {
        proof {
            lemma_block_index(i as int, n as int, k as int);
        }
        let mut row: Vec<PhfeElement> = Vec::new();
        let mut j: usize = 0;
        while j < nc
            invariant
                j <= nc,
                i < nr,
                n == x.nrows,
                m == x.ncols,
                nr == n * k,
                nc == m * k,
                k > 0,
                0 <= i / k < n,
                x.wf(),
                row.len() == j,
                forall|q: int|
                    0 <= q < j ==> (if i as int % (k as int) == q % (k as int) {
                        #[trigger] row[q] == x.at(i as int / (k as int), q / (k as int))
                    } else {
                        row[q].kind() == ElementKind::Scalar && row[q].exp() == 0
                    }),
            decreases nc - j,
        {
            proof {
                lemma_block_index(j as int, m as int, k as int);
            }
            if i % k == j % k {
                row.push(x.rows[i / k][j / k]);
            } else {
                row.push(PhfeElement::zero());
            }
            j += 1;
        }
        rows.push(row);
        i += 1;
    }
    let r = Matrix { nrows: nr, ncols: nc, rows };
    proof {
        let id = mat_identity(k as nat);
        assert forall|p: int, q: int| 0 <= p < nr && 0 <= q < nc implies (if p % (k as int) == q
            % (k as int) {
            #[trigger] r.at(p, q) == x.at(p / (k as int), q / (k as int))
        } else {
            r.at(p, q).kind() == ElementKind::Scalar && r.at(p, q).exp() == 0
        }) by {
            assert(r.rows[p][q] == r.at(p, q));
        }
        assert forall|p: int, q: int| 0 <= p < nr && 0 <= q < nc implies r.exps().at(p, q)
            == mat_kron(x.exps(), id).at(p, q) by {
            lemma_block_index(p, n as int, k as int);
            lemma_block_index(q, m as int, k as int);
            let e = x.at(p / (k as int), q / (k as int));
            lemma_exp_range(e);
            lemma_small_mod(e.exp() as nat, modulus() as nat);
            lemma_small_mod(0, modulus() as nat);
            assert(r.rows[p][q] == r.at(p, q));
            assert(e.exp() * 1 == e.exp());
            assert(e.exp() * 0 == 0);
        }
        lemma_mat_ext(r.exps(), mat_kron(x.exps(), id));
        if x.all_kind(ElementKind::Scalar) {
            assert forall|p: int, q: int| 0 <= p < nr && 0 <= q < nc implies (#[trigger] r.at(
                p,
                q,
            )).kind() == ElementKind::Scalar by {
                lemma_block_index(p, n as int, k as int);
                lemma_block_index(q, m as int, k as int);
                assert(x.at(p / (k as int), q / (k as int)).kind() == ElementKind::Scalar);
                assert(r.rows[p][q] == r.at(p, q));
            }
        }
    }
    r
}

} // verus!
