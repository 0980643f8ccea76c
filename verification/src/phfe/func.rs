//! The description of a bilinear function that a key is made for.
use crate::error::Error;
use crate::phfe::algebra::{
    col_vec, lemma_mat_ext, mat_add, mat_identity, mat_kron, mat_mul, mat_vstack, mat_zeros,
    row_vec, SMat,
};
use crate::phfe::matrix::Matrix;
use crate::phfe::utils::{field_str_value, parse_field_str, ElementKind, PhfeElement};
use crate::poly::parse::{read_polynomial, PolynomialFailure};
use crate::poly::{AssignmentView, Polynomial, PolynomialView};
use vstd::prelude::*;
use vstd::string::*;

verus! {

/// A bilinear function of two private vectors whose coefficients are
/// polynomials in the public vector, together with its encoding for the
/// linear scheme.
#[derive(Clone, PartialEq, Eq)]
pub struct PhfeFunc {
    pub num_public_vars: usize,
    pub num_private_vars1: usize,
    pub num_private_vars2: usize,
    pub polys: Vec<Polynomial>,
    pub dfx_coeffs: Vec<Polynomial>,
    pub l0: Matrix,
    pub l1: Matrix,
}

/// A function description as text, as it is read from a structured document.
#[derive(Debug, Clone, PartialEq, Eq, Hash)]
pub struct PhfeFuncJson {
    pub num_public_vars: usize,
    pub num_private_vars1: usize,
    pub num_private_vars2: usize,
    pub polys: Vec<String>,
    pub dfx_coeffs: Vec<String>,
    pub l0: Vec<Vec<String>>,
    pub l1: Vec<Vec<String>>,
}

/// The views of a sequence of polynomials.
pub open spec fn polynomial_views(s: Seq<Polynomial>) -> Seq<PolynomialView> {
    Seq::new(s.len(), |i: int| s[i]@)
}

/// The values of the polynomials `ps` under `a`.
pub open spec fn values_at(ps: Seq<PolynomialView>, a: AssignmentView) -> Seq<int> {
    Seq::new(ps.len(), |i: int| ps[i].eval(a))
}

/// The assignment gives every variable of every polynomial in `ps` a value.
pub open spec fn all_covered(ps: Seq<PolynomialView>, a: AssignmentView) -> bool {
    forall|i: int| 0 <= i < ps.len() ==> (#[trigger] ps[i]).covered_by(a)
}

/// Every polynomial in `ps` is one in public variables of index below `n`.
pub open spec fn all_public_below(ps: Seq<PolynomialView>, n: nat) -> bool {
    forall|i: int| 0 <= i < ps.len() ==> (#[trigger] ps[i]).public_below(n)
}

/// Polynomials in public variables of index below the length of `x` have
/// values at `x`.
pub proof fn lemma_all_public_are_covered(ps: Seq<PolynomialView>, x: Seq<int>)
    requires
        all_public_below(ps, x.len()),
    ensures
        all_covered(ps, public_assignment(x)),
{
    assert forall|i: int| 0 <= i < ps.len() implies (#[trigger] ps[i]).covered_by(
        public_assignment(x),
    ) by {
        crate::poly::lemma_public_is_covered(ps[i], public_assignment(x));
    }
}

/// Whether the first `count` of the polynomials `ps` are in public variables
/// of index below `n`.
pub fn first_are_public(ps: &Vec<Polynomial>, count: usize, n: usize) -> (r: bool)
    requires
        count <= ps.len(),
    ensures
        r == all_public_below(polynomial_views(ps@).take(count as int), n as nat),
{
    let ghost views = polynomial_views(ps@).take(count as int);
    let mut i: usize = 0;
    while i < count
        invariant
            i <= count,
            count <= ps.len(),
            views == polynomial_views(ps@).take(count as int),
            forall|j: int| 0 <= j < i ==> (#[trigger] views[j]).public_below(n as nat),
        decreases count - i,
    {
        proof {
            assert(views[i as int] == ps[i as int]@);
        }
        if !ps[i].is_public_below(n) {
            return false;
        }
        i += 1;
    }
    true
}

/// The assignment of the public vector `x`, with no private variable.
pub open spec fn public_assignment(x: Seq<int>) -> AssignmentView {
    AssignmentView { public: x, private: Seq::empty() }
}


/// Why a function description is refused.
pub enum LoadFailure {
    /// A polynomial text denotes no polynomial.
    Polynomial(PolynomialFailure),
    /// A matrix cell, carried here, denotes no field element.
    Field(Seq<char>),
    /// The rows of the named matrix differ in length.
    Ragged(Seq<char>),
}

/// The error says what the failure is.
pub open spec fn error_tells(e: Error, f: LoadFailure) -> bool {
    match f {
        LoadFailure::Polynomial(PolynomialFailure::Empty) => e matches Error::InvalidPolynomialString(
            _,
            reason,
        ) && reason@ == crate::poly::parse::reason_empty(),
        LoadFailure::Polynomial(PolynomialFailure::Term(term, why)) => e
            matches Error::InvalidMonomialString(text, reason) && text@ == term && reason@ == why,
        LoadFailure::Field(cell) => e matches Error::InvalidFieldString(text) && text@ == cell,
        LoadFailure::Ragged(name) => e matches Error::RaggedMatrix(text) && text@ == name,
    }
}

/// The texts of a sequence of strings.
pub open spec fn texts_of(s: Seq<String>) -> Seq<Seq<char>> {
    Seq::new(s.len(), |i: int| s[i]@)
}

/// The texts of the rows of a matrix of strings.
pub open spec fn cell_texts(rows: Seq<Vec<String>>) -> Seq<Seq<Seq<char>>> {
    Seq::new(rows.len(), |i: int| texts_of(rows[i]@))
}

/// Reads the polynomial texts in turn after the polynomials `done`; the
/// first that denotes no polynomial ends the reading.
pub open spec fn read_polynomials(texts: Seq<Seq<char>>, done: Seq<PolynomialView>) -> Result<
    Seq<PolynomialView>,
    LoadFailure,
>
    decreases texts.len(),
{
    if texts.len() == 0 {
        Ok(done)
    } else {
        match read_polynomial(texts[0]) {
            Ok(p) => read_polynomials(texts.skip(1), done.push(p)),
            Err(e) => Err(LoadFailure::Polynomial(e)),
        }
    }
}

/// Reads the cells of a row in turn after the residues `done`; the first
/// that denotes no field element ends the reading.
pub open spec fn read_row(cells: Seq<Seq<char>>, done: Seq<int>) -> Result<Seq<int>, LoadFailure>
    decreases cells.len(),
{
    if cells.len() == 0 {
        Ok(done)
    } else {
        match field_str_value(cells[0]) {
            Some(v) => read_row(cells.skip(1), done.push(v)),
            None => Err(LoadFailure::Field(cells[0])),
        }
    }
}

/// Reads the rows in turn after the rows `done`.
pub open spec fn read_rows(rows: Seq<Seq<Seq<char>>>, done: Seq<Seq<int>>) -> Result<
    Seq<Seq<int>>,
    LoadFailure,
>
    decreases rows.len(),
{
    if rows.len() == 0 {
        Ok(done)
    } else {
        match read_row(rows[0], Seq::empty()) {
            Ok(r) => read_rows(rows.skip(1), done.push(r)),
            Err(e) => Err(e),
        }
    }
}

/// All rows have the length of the first.
pub open spec fn rectangular(rows: Seq<Seq<Seq<char>>>) -> bool {
    forall|i: int| 0 <= i < rows.len() ==> (#[trigger] rows[i]).len() == rows[0].len()
}

/// The number of columns of the rows: the length of the first, zero if there
/// is none.
pub open spec fn width(rows: Seq<Seq<Seq<char>>>) -> nat {
    if rows.len() > 0 {
        rows[0].len()
    } else {
        0
    }
}

/// The matrix that the rows denote. Rows that differ in length denote none,
/// whatever their cells hold.
pub open spec fn read_matrix(rows: Seq<Seq<Seq<char>>>, name: Seq<char>) -> Result<
    SMat,
    LoadFailure,
> {
    if !rectangular(rows) {
        Err(LoadFailure::Ragged(name))
    } else {
        match read_rows(rows, Seq::empty()) {
            Ok(cells) => Ok(SMat { rows: rows.len(), cols: width(rows), cells }),
            Err(e) => Err(e),
        }
    }
}

/// A function description as a mathematical object.
pub struct FuncView {
    pub num_public_vars: nat,
    pub num_private_vars1: nat,
    pub num_private_vars2: nat,
    pub polys: Seq<PolynomialView>,
    pub dfx_coeffs: Seq<PolynomialView>,
    pub l0: SMat,
    pub l1: SMat,
}

/// The function that a description denotes: first the output polynomials
/// are read, then the coefficient polynomials, then `l0`, then `l1`; the
/// first failure ends the reading.
pub open spec fn read_function(j: &PhfeFuncJson) -> Result<FuncView, LoadFailure> {
    match read_polynomials(texts_of(j.polys@), Seq::empty()) {
        Err(e) => Err(e),
        Ok(polys) => match read_polynomials(texts_of(j.dfx_coeffs@), Seq::empty()) {
            Err(e) => Err(e),
            Ok(dfx_coeffs) => match read_matrix(cell_texts(j.l0@), "l0"@) {
                Err(e) => Err(e),
                Ok(l0) => match read_matrix(cell_texts(j.l1@), "l1"@) {
                    Err(e) => Err(e),
                    Ok(l1) => Ok(
                        FuncView {
                            num_public_vars: j.num_public_vars as nat,
                            num_private_vars1: j.num_private_vars1 as nat,
                            num_private_vars2: j.num_private_vars2 as nat,
                            polys,
                            dfx_coeffs,
                            l0,
                            l1,
                        },
                    ),
                },
            },
        }
    }
}

/// Reads a list of polynomial texts.
fn load_polynomials(texts: &Vec<String>) -> (r: Result<Vec<Polynomial>, Error>)
    ensures
        match r {
            Ok(ps) => read_polynomials(texts_of(texts@), Seq::empty()) == Ok::<
                Seq<PolynomialView>,
                LoadFailure,
            >(polynomial_views(ps@)),
            Err(e) => read_polynomials(texts_of(texts@), Seq::empty()) matches Err(f)
                && error_tells(e, f),
        },
{
    let n = texts.len();
    let mut ps: Vec<Polynomial> = Vec::new();
    let mut i: usize = 0;
    let ghost all = texts_of(texts@);
    proof {
        assert(all.skip(0) =~= all);
        assert(polynomial_views(ps@) =~= Seq::<PolynomialView>::empty());
    }
    while i < n
        invariant
            i <= n,
            n == texts.len(),
            all == texts_of(texts@),
            read_polynomials(all, Seq::empty()) == read_polynomials(
                all.skip(i as int),
                polynomial_views(ps@),
            ),
        decreases n - i,
    {
        let ghost done = polynomial_views(ps@);
        let ghost rest = all.skip(i as int);
        proof {
            assert(rest[0] == texts[i as int]@);
            assert(rest.skip(1) =~= all.skip(i + 1));
        }
        match Polynomial::from_str(texts[i].as_str()) {
            Ok(p) => {
                ps.push(p);
                proof {
                    assert(polynomial_views(ps@) =~= done.push(p@));
                }
            },
            Err(e) => {
                return Err(e);
            },
        }
        i += 1;
    }
    Ok(ps)
}

/// Reads one row of a matrix.
fn load_row(cells: &Vec<String>) -> (r: Result<Vec<PhfeElement>, Error>)
    ensures
        match r {
            Ok(row) => row.len() == cells.len() && read_row(texts_of(cells@), Seq::empty()) == Ok::<
                Seq<int>,
                LoadFailure,
            >(Seq::new(row.len() as nat, |j: int| row[j].exp())) && forall|j: int|
                0 <= j < row.len() ==> (#[trigger] row[j]).kind() == ElementKind::Scalar,
            Err(e) => read_row(texts_of(cells@), Seq::empty()) matches Err(f) && error_tells(e, f),
        },
{
    let n = cells.len();
    let mut row: Vec<PhfeElement> = Vec::new();
    let mut i: usize = 0;
    let ghost all = texts_of(cells@);
    proof {
        assert(all.skip(0) =~= all);
        assert(Seq::new(row.len() as nat, |j: int| row[j].exp()) =~= Seq::<int>::empty());
    }
    while i < n
        invariant
            i <= n,
            n == cells.len(),
            all == texts_of(cells@),
            row.len() == i,
            forall|j: int| 0 <= j < i ==> (#[trigger] row[j]).kind() == ElementKind::Scalar,
            read_row(all, Seq::empty()) == read_row(
                all.skip(i as int),
                Seq::new(row.len() as nat, |j: int| row[j].exp()),
            ),
        decreases n - i,
    {
        let ghost done = Seq::new(row.len() as nat, |j: int| row[j].exp());
        let ghost rest = all.skip(i as int);
        proof {
            assert(rest[0] == cells[i as int]@);
            assert(rest.skip(1) =~= all.skip(i + 1));
        }
        match parse_field_str(cells[i].as_str()) {
            Ok(v) => {
                row.push(PhfeElement::Scalar(v));
                proof {
                    assert(Seq::new(row.len() as nat, |j: int| row[j].exp()) =~= done.push(
                        v.value(),
                    ));
                }
            },
            Err(e) => {
                return Err(e);
            },
        }
        i += 1;
    }
    Ok(row)
}

/// Reads a matrix of field elements from its rows of texts; `name` is what
/// the matrix is called in the error for rows that differ in length.
fn load_matrix(rows: &Vec<Vec<String>>, name: &str) -> (r: Result<Matrix, Error>)
    ensures
        match r {
            Ok(m) => m.wf() && m.all_kind(ElementKind::Scalar) && read_matrix(
                cell_texts(rows@),
                name@,
            ) == Ok::<SMat, LoadFailure>(m.exps()),
            Err(e) => read_matrix(cell_texts(rows@), name@) matches Err(f) && error_tells(e, f),
        },
{
    let n = rows.len();
    let ncols = if n > 0 {
        rows[0].len()
    } else {
        0
    };
    let ghost all = cell_texts(rows@);
    let mut i: usize = 0;
    while i < n
        invariant
            i <= n,
            n == rows.len(),
            n > 0 ==> ncols == rows[0].len(),
            all == cell_texts(rows@),
            forall|p: int| 0 <= p < i ==> (#[trigger] all[p]).len() == ncols,
        decreases n - i,
    {
        if rows[i].len() != ncols {
            proof {
                assert(all[i as int].len() != all[0].len());
            }
            return Err(Error::RaggedMatrix(String::from_str(name)));
        }
        i += 1;
    }
    proof {
        assert(rectangular(all)) by {
            assert forall|p: int| 0 <= p < all.len() implies (#[trigger] all[p]).len()
                == all[0].len() by {}
        }
        assert(all.skip(0) =~= all);
    }
    let mut out: Vec<Vec<PhfeElement>> = Vec::new();
    let ghost mut done: Seq<Seq<int>> = Seq::empty();
    let mut k: usize = 0;
    while k < n
        invariant
            k <= n,
            n == rows.len(),
            all == cell_texts(rows@),
            rectangular(all),
            n > 0 ==> ncols == rows[0].len(),
            out.len() == k,
            done.len() == k,
            forall|p: int| 0 <= p < k ==> (#[trigger] out[p]).len() == ncols,
            forall|p: int| 0 <= p < k ==> (#[trigger] done[p]).len() == ncols,
            forall|p: int, q: int|
                0 <= p < k && 0 <= q < ncols ==> (#[trigger] out[p][q]).kind()
                    == ElementKind::Scalar && out[p][q].exp() == done[p][q],
            read_rows(all, Seq::empty()) == read_rows(all.skip(k as int), done),
        decreases n - k,
    {
        let ghost rest = all.skip(k as int);
        proof {
            assert(rest[0] == texts_of(rows[k as int]@));
            assert(rest.skip(1) =~= all.skip(k + 1));
            assert(all[k as int].len() == all[0].len());
        }
        match load_row(&rows[k]) {
            Ok(row) => {
                proof {
                    done = done.push(Seq::new(row.len() as nat, |j: int| row[j].exp()));
                }
                out.push(row);
            },
            Err(e) => {
                return Err(e);
            },
        }
        k += 1;
    }
    let m = Matrix { nrows: n, ncols, rows: out };
    proof {
        let target = SMat { rows: all.len(), cols: width(all), cells: done };
        assert(width(all) == ncols);
        assert(target.wf());
        assert forall|p: int, q: int| 0 <= p < n && 0 <= q < ncols implies (#[trigger] m.at(
            p,
            q,
        )).kind() == ElementKind::Scalar && m.exps().at(p, q) == target.at(p, q) by {
            assert(m.rows[p][q].exp() == done[p][q]);
        }
        lemma_mat_ext(m.exps(), target);
    }
    Ok(m)
}

impl PhfeFunc {
    /// The two matrices are well formed and hold field elements.
    pub open spec fn wf(&self) -> bool {
        &&& self.l0.wf()
        &&& self.l1.wf()
        &&& self.l0.all_kind(ElementKind::Scalar)
        &&& self.l1.all_kind(ElementKind::Scalar)
    }

    /// Whether the two matrices are well formed and hold field elements.
    pub fn is_well_formed(&self) -> (r: bool)
        ensures
            r == self.wf(),
    {
        self.l0.is_shaped(self.l0.nrows, self.l0.ncols, ElementKind::Scalar) && self.l1.is_shaped(
            self.l1.nrows,
            self.l1.ncols,
            ElementKind::Scalar,
        )
    }

    /// The output polynomials.
    pub open spec fn polys_view(&self) -> Seq<PolynomialView> {
        polynomial_views(self.polys@)
    }

    /// The coefficient polynomials that decryption weighs with.
    pub open spec fn dfx_view(&self) -> Seq<PolynomialView> {
        polynomial_views(self.dfx_coeffs@)
    }

    /// The values of the output polynomials at the public vector `x`, one
    /// for each entry of the tensor product of the private vectors.
    pub open spec fn output_values(&self, x: Seq<int>) -> Seq<int> {
        values_at(
            self.polys_view().take(self.num_private_vars1 * self.num_private_vars2),
            public_assignment(x),
        )
    }

    /// The values of the coefficient polynomials at the public vector `x`.
    pub open spec fn coefficient_values(&self, x: Seq<int>) -> Seq<int> {
        values_at(self.dfx_view(), public_assignment(x))
    }

    /// The value of the function: the sum of the entries of the tensor
    /// product of `z1` and `z2`, each weighed with the value of its output
    /// polynomial at `x`.
    pub open spec fn value_at(&self, x: Seq<int>, z1: Seq<int>, z2: Seq<int>) -> int {
        mat_mul(mat_kron(row_vec(z1), row_vec(z2)), col_vec(self.output_values(x))).at(0, 0)
    }

    /// The description is consistent at the public vector `x`: the
    /// coefficient polynomials begin with the output polynomials, as far as
    /// their values at `x` go, and the matrix `l1 (x (x) I) + l0` sends the
    /// values of the remaining ones to those of the output polynomials, put
    /// below zeros.
    pub open spec fn consistent_at(&self, x: Seq<int>) -> bool {
        let fx = self.output_values(x);
        let d = self.coefficient_values(x);
        &&& fx.len() <= d.len()
        &&& d.take(fx.len() as int) == fx
        &&& mat_mul(
            mat_add(
                mat_mul(self.l1.exps(), mat_kron(col_vec(x), mat_identity(self.l0.ncols as nat))),
                self.l0.exps(),
            ),
            col_vec(d.skip(fx.len() as int)),
        ) == mat_vstack(mat_zeros((self.l0.nrows - fx.len()) as nat, 1), col_vec(fx))
    }

    /// The function as a mathematical object.
    pub open spec fn view(&self) -> FuncView {
        FuncView {
            num_public_vars: self.num_public_vars as nat,
            num_private_vars1: self.num_private_vars1 as nat,
            num_private_vars2: self.num_private_vars2 as nat,
            polys: self.polys_view(),
            dfx_coeffs: self.dfx_view(),
            l0: self.l0.exps(),
            l1: self.l1.exps(),
        }
    }

    /// Reads a function from its description: every polynomial text and
    /// every matrix cell is read, and the first that cannot be ends the
    /// reading with its error. A matrix whose rows differ in length is
    /// refused with `RaggedMatrix`.
    pub fn from_json(json: PhfeFuncJson) -> (r: Result<Self, Error>)
        ensures
            match r {
                Ok(f) => f.wf() && read_function(&json) == Ok::<FuncView, LoadFailure>(f@),
                Err(e) => read_function(&json) matches Err(f) && error_tells(e, f),
            },
    {
        let polys = match load_polynomials(&json.polys) {
            Ok(p) => p,
            Err(e) => {
                return Err(e);
            },
        };
        let dfx_coeffs = match load_polynomials(&json.dfx_coeffs) {
            Ok(p) => p,
            Err(e) => {
                return Err(e);
            },
        };
        let l0 = match load_matrix(&json.l0, "l0") {
            Ok(m) => m,
            Err(e) => {
                return Err(e);
            },
        };
        let l1 = match load_matrix(&json.l1, "l1") {
            Ok(m) => m,
            Err(e) => {
                return Err(e);
            },
        };
        Ok(
            Self {
                num_public_vars: json.num_public_vars,
                num_private_vars1: json.num_private_vars1,
                num_private_vars2: json.num_private_vars2,
                polys,
                dfx_coeffs,
                l0,
                l1,
            },
        )
    }

    /// The function with the given parts.
    pub fn new(
        num_public_vars: usize,
        num_private_vars1: usize,
        num_private_vars2: usize,
        polys: Vec<Polynomial>,
        dfx_coeffs: Vec<Polynomial>,
        l0: Matrix,
        l1: Matrix,
    ) -> (r: Self)
        ensures
            r.num_public_vars == num_public_vars,
            r.num_private_vars1 == num_private_vars1,
            r.num_private_vars2 == num_private_vars2,
            r.polys == polys,
            r.dfx_coeffs == dfx_coeffs,
            r.l0 == l0,
            r.l1 == l1,
    {
        Self { num_public_vars, num_private_vars1, num_private_vars2, polys, dfx_coeffs, l0, l1 }
    }
}

} // verus!
