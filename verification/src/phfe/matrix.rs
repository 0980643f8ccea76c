//! Matrices of algebraic elements, stored row by row, with the linear algebra
//! that the scheme needs.
use crate::phfe::algebra::{col_vec, lemma_mat_ext, row_vec, SMat};
use crate::phfe::utils::{lemma_exp_range, ElementKind, PhfeElement};
use crate::poly::scalar_values;
use crate::scalar::{modulus, Scalar};
use vstd::prelude::*;

verus! {

/// A matrix of algebraic elements. A vector is a matrix of one row or of one
/// column.
#[derive(Clone, PartialEq, Eq)]
pub struct Matrix {
    pub nrows: usize,
    pub ncols: usize,
    pub rows: Vec<Vec<PhfeElement>>,
}

impl Matrix {
    /// There are `nrows` rows of `ncols` elements each.
    pub open spec fn wf(&self) -> bool {
        &&& self.rows.len() == self.nrows
        &&& forall|i: int| 0 <= i < self.nrows ==> (#[trigger] self.rows[i]).len() == self.ncols
    }

    /// The element in row `i` and column `j`.
    pub open spec fn at(&self, i: int, j: int) -> PhfeElement {
        self.rows[i][j]
    }

    /// The residues and exponents of the elements.
    pub open spec fn exps(&self) -> SMat {
        SMat::build(self.nrows as nat, self.ncols as nat, |i: int, j: int| self.at(i, j).exp())
    }

    /// Every element is of kind `k`.
    pub open spec fn all_kind(&self, k: ElementKind) -> bool {
        forall|i: int, j: int|
            0 <= i < self.nrows && 0 <= j < self.ncols ==> (#[trigger] self.at(i, j)).kind() == k
    }

    /// The kind of the first element; `Scalar` for a matrix without elements.
    pub open spec fn kind(&self) -> ElementKind {
        if self.nrows > 0 && self.ncols > 0 {
            self.at(0, 0).kind()
        } else {
            ElementKind::Scalar
        }
    }

    /// All elements are of one kind.
    pub open spec fn uniform(&self) -> bool {
        self.all_kind(self.kind())
    }

    /// Well formed, of the given shape, and of the given kind throughout.
    pub open spec fn is(&self, nrows: nat, ncols: nat, k: ElementKind) -> bool {
        self.wf() && self.nrows == nrows && self.ncols == ncols && self.all_kind(k)
    }

    /// Two matrices hold the same elements in the same shape.
    pub open spec fn same(&self, other: &Matrix) -> bool {
        &&& self.nrows == other.nrows
        &&& self.ncols == other.ncols
        &&& forall|i: int, j: int|
            0 <= i < self.nrows && 0 <= j < self.ncols ==> #[trigger] self.at(i, j) == other.at(i, j)
    }

    /// The matrix of the given rows, if they all have `ncols` elements.
    pub fn from_rows(rows: Vec<Vec<PhfeElement>>, ncols: usize) -> (r: Option<Matrix>)
        ensures
            r.is_some() <==> (forall|i: int| 0 <= i < rows.len() ==> (#[trigger] rows[i]).len() == ncols),
            r.is_some() ==> r.unwrap().wf() && r.unwrap().rows == rows && r.unwrap().ncols == ncols,
    {
        let n = rows.len();
        let mut i: usize = 0;
        while i < n
            invariant
                i <= n,
                n == rows.len(),
                forall|p: int| 0 <= p < i ==> (#[trigger] rows[p]).len() == ncols,
            decreases n - i,
        {
            if rows[i].len() != ncols {
                return None;
            }
            i += 1;
        }
        Some(Matrix { nrows: n, ncols, rows })
    }

    /// The matrix of the given field elements, if the rows all have `ncols`
    /// elements.
    pub fn from_scalars(cells: &Vec<Vec<Scalar>>, ncols: usize) -> (r: Option<Matrix>)
        ensures
            r.is_some() <==> (forall|i: int| 0 <= i < cells.len() ==> (#[trigger] cells[i]).len() == ncols),
            r.is_some() ==> {
                let m = r.unwrap();
                &&& m.is(cells.len() as nat, ncols as nat, ElementKind::Scalar)
                &&& forall|i: int, j: int|
                    0 <= i < cells.len() && 0 <= j < ncols ==> #[trigger] m.at(i, j)
                        == PhfeElement::Scalar(cells[i][j])
            },
    {
        let n = cells.len();
        let mut rows: Vec<Vec<PhfeElement>> = Vec::new();
        let mut i: usize = 0;
        while i < n
            invariant
                i <= n,
                n == cells.len(),
                rows.len() == i,
                forall|p: int| 0 <= p < i ==> (#[trigger] cells[p]).len() == ncols,
                forall|p: int| 0 <= p < i ==> (#[trigger] rows[p]).len() == ncols,
                forall|p: int, q: int|
                    0 <= p < i && 0 <= q < ncols ==> #[trigger] rows[p][q] == PhfeElement::Scalar(
                        cells[p][q],
                    ),
            decreases n - i,
        {
            if cells[i].len() != ncols {
                return None;
            }
            let mut row: Vec<PhfeElement> = Vec::new();
            let mut j: usize = 0;
            while j < ncols
                invariant
                    j <= ncols,
                    i < n,
                    n == cells.len(),
                    cells[i as int].len() == ncols,
                    row.len() == j,
                    forall|q: int|
                        0 <= q < j ==> #[trigger] row[q] == PhfeElement::Scalar(cells[i as int][q]),
                decreases ncols - j,
            {
                row.push(PhfeElement::Scalar(cells[i][j]));
                j += 1;
            }
            rows.push(row);
            i += 1;
        }
        let m = Matrix { nrows: n, ncols, rows };
        proof {
            assert forall|p: int, q: int| 0 <= p < n && 0 <= q < ncols implies (#[trigger] m.at(
                p,
                q,
            )).kind() == ElementKind::Scalar by {
                assert(m.rows[p][q] == PhfeElement::Scalar(cells[p][q]));
            }
        }
        Some(m)
    }

    /// The column vector of the given field elements.
    pub fn column_from_scalars(cells: &Vec<Scalar>) -> (r: Matrix)
        ensures
            r.is(cells.len() as nat, 1, ElementKind::Scalar),
            forall|i: int| 0 <= i < cells.len() ==> #[trigger] r.at(i, 0) == PhfeElement::Scalar(cells[i]),
            r.exps() == col_vec(scalar_values(cells@)),
    {
        let n = cells.len();
        let mut rows: Vec<Vec<PhfeElement>> = Vec::new();
        let mut i: usize = 0;
        while i < n
            invariant
                i <= n,
                n == cells.len(),
                rows.len() == i,
                forall|p: int| 0 <= p < i ==> (#[trigger] rows[p]).len() == 1,
                forall|p: int| 0 <= p < i ==> (#[trigger] rows[p])[0] == PhfeElement::Scalar(cells[p]),
            decreases n - i,
        {
            let mut row: Vec<PhfeElement> = Vec::new();
            row.push(PhfeElement::Scalar(cells[i]));
            rows.push(row);
            i += 1;
        }
        let m = Matrix { nrows: n, ncols: 1, rows };
        proof {
            assert forall|p: int, q: int| 0 <= p < n && 0 <= q < 1 implies (#[trigger] m.at(
                p,
                q,
            )).kind() == ElementKind::Scalar by {
                assert(m.rows[p][0] == PhfeElement::Scalar(cells[p]));
            }
            assert forall|p: int, q: int| 0 <= p < n && 0 <= q < 1 implies m.exps().at(p, q)
                == col_vec(scalar_values(cells@)).at(p, q) by {
                assert(m.at(p, 0) == PhfeElement::Scalar(cells[p]));
            }
            lemma_mat_ext(m.exps(), col_vec(scalar_values(cells@)));
        }
        m
    }

    /// The row vector of the given field elements.
    pub fn row_from_scalars(cells: &Vec<Scalar>) -> (r: Matrix)
        ensures
            r.is(1, cells.len() as nat, ElementKind::Scalar),
            forall|j: int| 0 <= j < cells.len() ==> #[trigger] r.at(0, j) == PhfeElement::Scalar(cells[j]),
            r.exps() == row_vec(scalar_values(cells@)),
    {
        let n = cells.len();
        let mut row: Vec<PhfeElement> = Vec::new();
        let mut j: usize = 0;
        while j < n
            invariant
                j <= n,
                n == cells.len(),
                row.len() == j,
                forall|q: int| 0 <= q < j ==> #[trigger] row[q] == PhfeElement::Scalar(cells[q]),
            decreases n - j,
        {
            row.push(PhfeElement::Scalar(cells[j]));
            j += 1;
        }
        let mut rows: Vec<Vec<PhfeElement>> = Vec::new();
        rows.push(row);
        let m = Matrix { nrows: 1, ncols: n, rows };
        proof {
            assert forall|p: int, q: int| 0 <= p < 1 && 0 <= q < n implies (#[trigger] m.at(
                p,
                q,
            )).kind() == ElementKind::Scalar by {
                assert(m.rows[0][q] == PhfeElement::Scalar(cells[q]));
            }
            assert forall|p: int, q: int| 0 <= p < 1 && 0 <= q < n implies m.exps().at(p, q)
                == row_vec(scalar_values(cells@)).at(p, q) by {
                assert(m.at(0, q) == PhfeElement::Scalar(cells[q]));
            }
            lemma_mat_ext(m.exps(), row_vec(scalar_values(cells@)));
        }
        m
    }

    /// Whether the matrix is well formed, of the given shape, and of the
    /// given kind throughout.
    pub fn is_shaped(&self, nrows: usize, ncols: usize, kind: ElementKind) -> (r: bool)
        ensures
            r == self.is(nrows as nat, ncols as nat, kind),
    {
        if self.nrows != nrows || self.ncols != ncols || self.rows.len() != nrows {
            return false;
        }
        let mut i: usize = 0;
        while i < nrows
            invariant
                i <= nrows,
                self.nrows == nrows,
                self.ncols == ncols,
                self.rows.len() == nrows,
                forall|p: int| 0 <= p < i ==> (#[trigger] self.rows[p]).len() == ncols,
                forall|p: int, q: int|
                    0 <= p < i && 0 <= q < ncols ==> (#[trigger] self.at(p, q)).kind() == kind,
            decreases nrows - i,
        {
            if self.rows[i].len() != ncols {
                return false;
            }
            let mut j: usize = 0;
            while j < ncols
                invariant
                    j <= ncols,
                    i < nrows,
                    self.nrows == nrows,
                    self.ncols == ncols,
                    self.rows.len() == nrows,
                    self.rows[i as int].len() == ncols,
                    forall|q: int| 0 <= q < j ==> (#[trigger] self.at(i as int, q)).kind() == kind,
                decreases ncols - j,
            {
                if self.rows[i][j].get_kind() != kind {
                    proof {
                        assert(self.at(i as int, j as int).kind() != kind);
                    }
                    return false;
                }
                j += 1;
            }
            i += 1;
        }
        true
    }

    /// The element in row `i` and column `j`.
    pub fn get(&self, i: usize, j: usize) -> (r: PhfeElement)
        requires
            self.wf(),
            i < self.nrows,
            j < self.ncols,
        ensures
            r == self.at(i as int, j as int),
    {
        self.rows[i][j]
    }

    /// A copy of this matrix.
    pub fn copy(&self) -> (r: Matrix)
        requires
            self.wf(),
        ensures
            r.wf(),
            r.same(self),
            r.exps() == self.exps(),
            forall|k: ElementKind| self.all_kind(k) ==> r.all_kind(k),
    {
        let nr = self.nrows;
        let nc = self.ncols;
        let mut rows: Vec<Vec<PhfeElement>> = Vec::new();
        let mut i: usize = 0;
        while i < nr
            invariant
                i <= nr,
                nr == self.nrows,
                nc == self.ncols,
                self.wf(),
                rows.len() == i,
                forall|p: int| 0 <= p < i ==> (#[trigger] rows[p]).len() == nc,
                forall|p: int, q: int|
                    0 <= p < i && 0 <= q < nc ==> #[trigger] rows[p][q] == self.at(p, q),
            decreases nr - i,
        {
            let mut row: Vec<PhfeElement> = Vec::new();
            let mut j: usize = 0;
            while j < nc
                invariant
                    j <= nc,
                    i < nr,
                    nr == self.nrows,
                    nc == self.ncols,
                    self.wf(),
                    row.len() == j,
                    forall|q: int| 0 <= q < j ==> #[trigger] row[q] == self.at(i as int, q),
                decreases nc - j,
            {
                row.push(self.rows[i][j]);
                j += 1;
            }
            rows.push(row);
            i += 1;
        }
        let r = Matrix { nrows: nr, ncols: nc, rows };
        proof {
            assert forall|p: int, q: int| 0 <= p < nr && 0 <= q < nc implies #[trigger] r.at(p, q)
                == self.at(p, q) by {
                assert(r.rows[p][q] == self.at(p, q));
            }
            lemma_same_exps(&r, self);
        }
        r
    }

    /// Whether two matrices have one shape and equal elements throughout.
    pub fn equals(&self, other: &Matrix) -> (r: bool)
        requires
            self.wf(),
            other.wf(),
        ensures
            r == (self.nrows == other.nrows && self.ncols == other.ncols && forall|i: int, j: int|
                0 <= i < self.nrows && 0 <= j < self.ncols ==> (#[trigger] self.at(i, j)).kind()
                    == other.at(i, j).kind() && self.at(i, j).exp() == other.at(i, j).exp()),
    {
        if self.nrows != other.nrows || self.ncols != other.ncols {
            return false;
        }
        let nr = self.nrows;
        let nc = self.ncols;
        let mut i: usize = 0;
        while i < nr
            invariant
                i <= nr,
                nr == self.nrows,
                nc == self.ncols,
                nr == other.nrows,
                nc == other.ncols,
                self.wf(),
                other.wf(),
                forall|p: int, q: int|
                    0 <= p < i && 0 <= q < nc ==> (#[trigger] self.at(p, q)).kind() == other.at(
                        p,
                        q,
                    ).kind() && self.at(p, q).exp() == other.at(p, q).exp(),
            decreases nr - i,
        {
            let mut j: usize = 0;
            while j < nc
                invariant
                    j <= nc,
                    i < nr,
                    nr == self.nrows,
                    nc == self.ncols,
                    nr == other.nrows,
                    nc == other.ncols,
                    self.wf(),
                    other.wf(),
                    forall|q: int|
                        0 <= q < j ==> (#[trigger] self.at(i as int, q)).kind() == other.at(
                            i as int,
                            q,
                        ).kind() && self.at(i as int, q).exp() == other.at(i as int, q).exp(),
                decreases nc - j,
            {
                if !self.rows[i][j].equals(&other.rows[i][j]) {
                    proof {
                        assert(!(self.at(i as int, j as int).kind() == other.at(
                            i as int,
                            j as int,
                        ).kind() && self.at(i as int, j as int).exp() == other.at(
                            i as int,
                            j as int,
                        ).exp()));
                    }
                    return false;
                }
                j += 1;
            }
            i += 1;
        }
        true
    }
}

/// Matrices that hold the same elements have the same residues and exponents.
pub proof fn lemma_same_exps(a: &Matrix, b: &Matrix)
    requires
        a.same(b),
    ensures
        a.exps() == b.exps(),
        forall|k: ElementKind| b.all_kind(k) ==> a.all_kind(k),
{
    lemma_mat_ext(a.exps(), b.exps());
    assert forall|k: ElementKind| b.all_kind(k) implies a.all_kind(k) by {
        assert forall|i: int, j: int| 0 <= i < a.nrows && 0 <= j < a.ncols implies (#[trigger] a.at(
            i,
            j,
        )).kind() == k by {
            assert(a.at(i, j) == b.at(i, j));
            assert(b.at(i, j).kind() == k);
        }
    }
}

/// A matrix of one kind throughout is uniform, and of that kind if it has an
/// element.
pub proof fn lemma_uniform(a: &Matrix, k: ElementKind)
    requires
        a.all_kind(k),
    ensures
        a.uniform(),
        a.nrows > 0 && a.ncols > 0 ==> a.kind() == k,
{
    if a.nrows > 0 && a.ncols > 0 {
        assert(a.at(0, 0).kind() == k);
    }
}

/// The residues and exponents of a matrix are reduced.
pub proof fn lemma_exps_reduced(a: &Matrix)
    ensures
        a.exps().wf(),
        a.exps().reduced(),
        a.exps().rows == a.nrows,
        a.exps().cols == a.ncols,
{
    assert forall|i: int, j: int| 0 <= i < a.nrows && 0 <= j < a.ncols implies 0
        <= #[trigger] a.exps().at(i, j) < modulus() by {
        lemma_exp_range(a.at(i, j));
    }
}

} // verus!
