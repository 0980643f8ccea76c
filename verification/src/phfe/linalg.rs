//! Sums, products and rearrangements of matrices of algebraic elements.
use crate::phfe::algebra::{
    dot_sum, lemma_block_index, lemma_mat_ext, mat_add, mat_columns, mat_hstack, mat_kron, mat_mul, mat_neg,
    mat_transpose, mat_vstack, mat_zeros,
};
use crate::phfe::matrix::Matrix;
use crate::phfe::utils::{mul_defined, mul_kind, ElementKind, PhfeElement};
use crate::scalar::{modulus, Scalar};
use vstd::arithmetic::div_mod::{lemma_add_mod_noop, lemma_small_mod};
use vstd::prelude::*;

verus! {

/// Row `i` of `a` times column `j` of `b`: the sum of the products of their
/// elements, or the zero of the field where there are none.
fn dot(a: &Matrix, b: &Matrix, i: usize, j: usize) -> (r: PhfeElement)
    requires
        a.wf(),
        b.wf(),
        a.ncols == b.nrows,
        i < a.nrows,
        j < b.ncols,
        a.uniform(),
        b.uniform(),
        mul_defined(a.kind(), b.kind()),
    ensures
        r.exp() == dot_sum(a.exps(), b.exps(), i as int, j as int, a.ncols as int) % modulus(),
        a.ncols > 0 ==> r.kind() == mul_kind(a.kind(), b.kind()),
        a.ncols == 0 ==> r.kind() == ElementKind::Scalar,
{
    let n = a.ncols;
    proof {
        crate::scalar::lemma_modulus_large();
        lemma_small_mod(0, modulus() as nat);
    }
    if n == 0 {
        return PhfeElement::zero();
    }
    let mut acc = a.rows[i][0].mul(&b.rows[0][j]);
    proof {
        assert(a.at(i as int, 0).kind() == a.kind());
        assert(b.at(0, j as int).kind() == b.kind());
        assert(dot_sum(a.exps(), b.exps(), i as int, j as int, 0) == 0);
        assert(dot_sum(a.exps(), b.exps(), i as int, j as int, 1) == 0 + a.exps().at(i as int, 0)
            * b.exps().at(0, j as int));
    }
    let mut l: usize = 1;
    while l < n
        invariant
            1 <= l <= n,
            n == a.ncols,
            a.wf(),
            b.wf(),
            a.ncols == b.nrows,
            i < a.nrows,
            j < b.ncols,
            a.uniform(),
            b.uniform(),
            mul_defined(a.kind(), b.kind()),
            acc.kind() == mul_kind(a.kind(), b.kind()),
            acc.exp() == dot_sum(a.exps(), b.exps(), i as int, j as int, l as int) % modulus(),
        decreases n - l,
    {
        proof {
            assert(a.at(i as int, l as int).kind() == a.kind());
            assert(b.at(l as int, j as int).kind() == b.kind());
        }
        let p = a.rows[i][l].mul(&b.rows[l][j]);
        let next = acc.add(&p);
        proof {
            let s = dot_sum(a.exps(), b.exps(), i as int, j as int, l as int);
            let t = a.exps().at(i as int, l as int) * b.exps().at(l as int, j as int);
            assert(dot_sum(a.exps(), b.exps(), i as int, j as int, l + 1) == s + t);
            lemma_add_mod_noop(s, t, modulus());
        }
        acc = next;
        l += 1;
    }
    acc
}

impl Matrix {
    /// The matrix of the given shape whose elements are all the zero of the
    /// field.
    pub fn zeros(nrows: usize, ncols: usize) -> (r: Matrix)
        ensures
            r.is(nrows as nat, ncols as nat, ElementKind::Scalar),
            r.exps() == mat_zeros(nrows as nat, ncols as nat),
    {
        let mut rows: Vec<Vec<PhfeElement>> = Vec::new();
        let mut i: usize = 0;
        while i < nrows
            invariant
                i <= nrows,
                rows.len() == i,
                forall|p: int| 0 <= p < i ==> (#[trigger] rows[p]).len() == ncols,
                forall|p: int, q: int|
                    0 <= p < i && 0 <= q < ncols ==> (#[trigger] rows[p][q]).kind()
                        == ElementKind::Scalar && rows[p][q].exp() == 0,
            decreases nrows - i,
        {
            let mut row: Vec<PhfeElement> = Vec::new();
            let mut j: usize = 0;
            while j < ncols
                invariant
                    j <= ncols,
                    row.len() == j,
                    forall|q: int|
                        0 <= q < j ==> (#[trigger] row[q]).kind() == ElementKind::Scalar
                            && row[q].exp() == 0,
                decreases ncols - j,
            {
                row.push(PhfeElement::zero());
                j += 1;
            }
            rows.push(row);
            i += 1;
        }
        let r = Matrix { nrows, ncols, rows };
        proof {
            assert forall|p: int, q: int| 0 <= p < nrows && 0 <= q < ncols implies (#[trigger] r.at(
                p,
                q,
            )).kind() == ElementKind::Scalar && r.at(p, q).exp() == 0 by {
                assert(r.rows[p][q].exp() == 0);
            }
            lemma_mat_ext(r.exps(), mat_zeros(nrows as nat, ncols as nat));
        }
        r
    }

    /// A matrix of the given shape of field elements drawn from `rng`.
    pub fn random_scalars(nrows: usize, ncols: usize, rng: &mut rand::rngs::StdRng) -> (r: Matrix)
        ensures
            r.is(nrows as nat, ncols as nat, ElementKind::Scalar),
    {
        let mut rows: Vec<Vec<PhfeElement>> = Vec::new();
        let mut i: usize = 0;
        while i < nrows
            invariant
                i <= nrows,
                rows.len() == i,
                forall|p: int| 0 <= p < i ==> (#[trigger] rows[p]).len() == ncols,
                forall|p: int, q: int|
                    0 <= p < i && 0 <= q < ncols ==> (#[trigger] rows[p][q]).kind()
                        == ElementKind::Scalar,
            decreases nrows - i,
        {
            let mut row: Vec<PhfeElement> = Vec::new();
            let mut j: usize = 0;
            while j < ncols
                invariant
                    j <= ncols,
                    row.len() == j,
                    forall|q: int| 0 <= q < j ==> (#[trigger] row[q]).kind() == ElementKind::Scalar,
                decreases ncols - j,
            {
                row.push(PhfeElement::Scalar(Scalar::random(rng)));
                j += 1;
            }
            rows.push(row);
            i += 1;
        }
        let r = Matrix { nrows, ncols, rows };
        proof {
            assert forall|p: int, q: int| 0 <= p < nrows && 0 <= q < ncols implies (#[trigger] r.at(
                p,
                q,
            )).kind() == ElementKind::Scalar by {
                assert(r.rows[p][q].kind() == ElementKind::Scalar);
            }
        }
        r
    }

    /// The matrix product `self * b`. Where the factors have no column and
    /// row to multiply, the product holds the zero of the field.
    pub fn mul(&self, b: &Matrix) -> (r: Matrix)
        requires
            self.wf(),
            b.wf(),
            self.ncols == b.nrows,
            self.uniform(),
            b.uniform(),
            mul_defined(self.kind(), b.kind()),
        ensures
            r.wf(),
            r.nrows == self.nrows,
            r.ncols == b.ncols,
            r.exps() == mat_mul(self.exps(), b.exps()),
            self.ncols > 0 ==> r.all_kind(mul_kind(self.kind(), b.kind())),
            self.ncols == 0 ==> r.all_kind(ElementKind::Scalar),
    {
        let nr = self.nrows;
        let nc = b.ncols;
        let ghost k = if self.ncols > 0 {
            mul_kind(self.kind(), b.kind())
        } else {
            ElementKind::Scalar
        };
        let mut rows: Vec<Vec<PhfeElement>> = Vec::new();
        let mut i: usize = 0;
        while i < nr
            invariant
                i <= nr,
                nr == self.nrows,
                nc == b.ncols,
                self.wf(),
                b.wf(),
                self.ncols == b.nrows,
                self.uniform(),
                b.uniform(),
                mul_defined(self.kind(), b.kind()),
                k == if self.ncols > 0 {
                    mul_kind(self.kind(), b.kind())
                } else {
                    ElementKind::Scalar
                },
                rows.len() == i,
                forall|p: int| 0 <= p < i ==> (#[trigger] rows[p]).len() == nc,
                forall|p: int, q: int|
                    0 <= p < i && 0 <= q < nc ==> (#[trigger] rows[p][q]).kind() == k
                        && rows[p][q].exp() == dot_sum(self.exps(), b.exps(), p, q, self.ncols as int)
                        % modulus(),
            decreases nr - i,
        {
            let mut row: Vec<PhfeElement> = Vec::new();
            let mut j: usize = 0;
            while j < nc
                invariant
                    j <= nc,
                    i < nr,
                    nr == self.nrows,
                    nc == b.ncols,
                    self.wf(),
                    b.wf(),
                    self.ncols == b.nrows,
                    self.uniform(),
                    b.uniform(),
                    mul_defined(self.kind(), b.kind()),
                    k == if self.ncols > 0 {
                        mul_kind(self.kind(), b.kind())
                    } else {
                        ElementKind::Scalar
                    },
                    row.len() == j,
                    forall|q: int|
                        0 <= q < j ==> (#[trigger] row[q]).kind() == k && row[q].exp() == dot_sum(
                            self.exps(),
                            b.exps(),
                            i as int,
                            q,
                            self.ncols as int,
                        ) % modulus(),
                decreases nc - j,
            {
                let e = dot(self, b, i, j);
                row.push(e);
                j += 1;
            }
            rows.push(row);
            i += 1;
        }
        let r = Matrix { nrows: nr, ncols: nc, rows };
        proof {
            assert forall|p: int, q: int| 0 <= p < nr && 0 <= q < nc implies (#[trigger] r.at(
                p,
                q,
            )).kind() == k && r.at(p, q).exp() == dot_sum(
                self.exps(),
                b.exps(),
                p,
                q,
                self.ncols as int,
            ) % modulus() by {
                assert(r.rows[p][q].kind() == k);
            }
            lemma_mat_ext(r.exps(), mat_mul(self.exps(), b.exps()));
        }
        r
    }

    /// The sum of two matrices of one shape and kind.
    pub fn add(&self, b: &Matrix) -> (r: Matrix)
        requires
            self.wf(),
            b.wf(),
            self.nrows == b.nrows,
            self.ncols == b.ncols,
            self.uniform(),
            b.all_kind(self.kind()),
        ensures
            r.wf(),
            r.nrows == self.nrows,
            r.ncols == self.ncols,
            r.exps() == mat_add(self.exps(), b.exps()),
            r.all_kind(self.kind()),
    {
        let nr = self.nrows;
        let nc = self.ncols;
        let mut rows: Vec<Vec<PhfeElement>> = Vec::new();
        let mut i: usize = 0;
        while i < nr
            invariant
                i <= nr,
                nr == self.nrows,
                nc == self.ncols,
                self.wf(),
                b.wf(),
                self.nrows == b.nrows,
                self.ncols == b.ncols,
                self.uniform(),
                b.all_kind(self.kind()),
                rows.len() == i,
                forall|p: int| 0 <= p < i ==> (#[trigger] rows[p]).len() == nc,
                forall|p: int, q: int|
                    0 <= p < i && 0 <= q < nc ==> (#[trigger] rows[p][q]).kind() == self.kind()
                        && rows[p][q].exp() == (self.at(p, q).exp() + b.at(p, q).exp()) % modulus(),
            decreases nr - i,
        {
            let mut row: Vec<PhfeElement> = Vec::new();
            let mut j: usize = 0;
            while j < nc
                invariant
                    j <= nc,
                    i < nr,
                    nr == self.nrows,
                    nc == self.ncols,
                    self.wf(),
                    b.wf(),
                    self.nrows == b.nrows,
                    self.ncols == b.ncols,
                    self.uniform(),
                    b.all_kind(self.kind()),
                    row.len() == j,
                    forall|q: int|
                        0 <= q < j ==> (#[trigger] row[q]).kind() == self.kind() && row[q].exp() == (
                        self.at(i as int, q).exp() + b.at(i as int, q).exp()) % modulus(),
                decreases nc - j,
            {
                proof {
                    assert(self.at(i as int, j as int).kind() == self.kind());
                    assert(b.at(i as int, j as int).kind() == self.kind());
                }
                let e = self.rows[i][j].add(&b.rows[i][j]);
                row.push(e);
                j += 1;
            }
            rows.push(row);
            i += 1;
        }
        let r = Matrix { nrows: nr, ncols: nc, rows };
        proof {
            assert forall|p: int, q: int| 0 <= p < nr && 0 <= q < nc implies (#[trigger] r.at(
                p,
                q,
            )).kind() == self.kind() && r.at(p, q).exp() == (self.at(p, q).exp() + b.at(
                p,
                q,
            ).exp()) % modulus() by {
                assert(r.rows[p][q].kind() == self.kind());
            }
            lemma_mat_ext(r.exps(), mat_add(self.exps(), b.exps()));
        }
        r
    }

    /// The additive inverse, element by element.
    pub fn neg(&self) -> (r: Matrix)
        requires
            self.wf(),
        ensures
            r.wf(),
            r.nrows == self.nrows,
            r.ncols == self.ncols,
            r.exps() == mat_neg(self.exps()),
            forall|k: ElementKind| self.all_kind(k) ==> r.all_kind(k),
    {
        let nr = self.nrows;
        let nc = self.ncols;
        let mut rows: Vec<Vec<PhfeElement>> = Vec::new();
        let mut i: usize = 0;
        while i < nr
            invariant
                i <= nr,
                nr == self.nrows,
                nc == self.ncols,
                self.wf(),
                rows.len() == i,
                forall|p: int| 0 <= p < i ==> (#[trigger] rows[p]).len() == nc,
                forall|p: int, q: int|
                    0 <= p < i && 0 <= q < nc ==> (#[trigger] rows[p][q]).kind() == self.at(
                        p,
                        q,
                    ).kind() && rows[p][q].exp() == (-self.at(p, q).exp()) % modulus(),
            decreases nr - i,
        {
            let mut row: Vec<PhfeElement> = Vec::new();
            let mut j: usize = 0;
            while j < nc
                invariant
                    j <= nc,
                    i < nr,
                    nr == self.nrows,
                    nc == self.ncols,
                    self.wf(),
                    row.len() == j,
                    forall|q: int|
                        0 <= q < j ==> (#[trigger] row[q]).kind() == self.at(i as int, q).kind()
                            && row[q].exp() == (-self.at(i as int, q).exp()) % modulus(),
                decreases nc - j,
            {
                let e = self.rows[i][j].neg();
                row.push(e);
                j += 1;
            }
            rows.push(row);
            i += 1;
        }
        let r = Matrix { nrows: nr, ncols: nc, rows };
        proof {
            assert forall|p: int, q: int| 0 <= p < nr && 0 <= q < nc implies (#[trigger] r.at(
                p,
                q,
            )).kind() == self.at(p, q).kind() && r.at(p, q).exp() == (-self.at(p, q).exp())
                % modulus() by {
                assert(r.rows[p][q].kind() == self.at(p, q).kind());
            }
            lemma_mat_ext(r.exps(), mat_neg(self.exps()));
            assert forall|k: ElementKind| self.all_kind(k) implies r.all_kind(k) by {
                assert forall|p: int, q: int| 0 <= p < nr && 0 <= q < nc implies (#[trigger] r.at(
                    p,
                    q,
                )).kind() == k by {
                    assert(self.at(p, q).kind() == k);
                }
            }
        }
        r
    }

    /// The transposed matrix.
    pub fn transpose(&self) -> (r: Matrix)
        requires
            self.wf(),
        ensures
            r.wf(),
            r.nrows == self.ncols,
            r.ncols == self.nrows,
            forall|p: int, q: int|
                0 <= p < r.nrows && 0 <= q < r.ncols ==> #[trigger] r.at(p, q) == self.at(q, p),
            r.exps() == mat_transpose(self.exps()),
            forall|k: ElementKind| self.all_kind(k) ==> r.all_kind(k),
    {
        let nr = self.ncols;
        let nc = self.nrows;
        let mut rows: Vec<Vec<PhfeElement>> = Vec::new();
        let mut i: usize = 0;
        while i < nr
            invariant
                i <= nr,
                nr == self.ncols,
                nc == self.nrows,
                self.wf(),
                rows.len() == i,
                forall|p: int| 0 <= p < i ==> (#[trigger] rows[p]).len() == nc,
                forall|p: int, q: int|
                    0 <= p < i && 0 <= q < nc ==> #[trigger] rows[p][q] == self.at(q, p),
            decreases nr - i,
        {
            let mut row: Vec<PhfeElement> = Vec::new();
            let mut j: usize = 0;
            while j < nc
                invariant
                    j <= nc,
                    i < nr,
                    nr == self.ncols,
                    nc == self.nrows,
                    self.wf(),
                    row.len() == j,
                    forall|q: int| 0 <= q < j ==> #[trigger] row[q] == self.at(q, i as int),
                decreases nc - j,
            {
                row.push(self.rows[j][i]);
                j += 1;
            }
            rows.push(row);
            i += 1;
        }
        let r = Matrix { nrows: nr, ncols: nc, rows };
        proof {
            assert forall|p: int, q: int| 0 <= p < nr && 0 <= q < nc implies #[trigger] r.at(p, q)
                == self.at(q, p) by {
                assert(r.rows[p][q] == self.at(q, p));
            }
            lemma_mat_ext(r.exps(), mat_transpose(self.exps()));
            assert forall|k: ElementKind| self.all_kind(k) implies r.all_kind(k) by {
                assert forall|p: int, q: int| 0 <= p < nr && 0 <= q < nc implies (#[trigger] r.at(
                    p,
                    q,
                )).kind() == k by {
                    assert(self.at(q, p).kind() == k);
                }
            }
        }
        r
    }

    /// `self` with `b` to its right.
    pub fn hstack(&self, b: &Matrix) -> (r: Matrix)
        requires
            self.wf(),
            b.wf(),
            self.nrows == b.nrows,
            self.ncols + b.ncols <= usize::MAX,
        ensures
            r.wf(),
            r.nrows == self.nrows,
            r.ncols == self.ncols + b.ncols,
            forall|p: int, q: int|
                0 <= p < r.nrows && 0 <= q < r.ncols ==> #[trigger] r.at(p, q) == (if q
                    < self.ncols {
                    self.at(p, q)
                } else {
                    b.at(p, q - self.ncols)
                }),
            r.exps() == mat_hstack(self.exps(), b.exps()),
            forall|k: ElementKind| self.all_kind(k) && b.all_kind(k) ==> r.all_kind(k),
    {
        let nr = self.nrows;
        let nc = self.ncols + b.ncols;
        let mut rows: Vec<Vec<PhfeElement>> = Vec::new();
        let mut i: usize = 0;
        while i < nr
            invariant
                i <= nr,
                nr == self.nrows,
                nc == self.ncols + b.ncols,
                self.wf(),
                b.wf(),
                self.nrows == b.nrows,
                rows.len() == i,
                forall|p: int| 0 <= p < i ==> (#[trigger] rows[p]).len() == nc,
                forall|p: int, q: int|
                    0 <= p < i && 0 <= q < nc ==> #[trigger] rows[p][q] == (if q < self.ncols {
                        self.at(p, q)
                    } else {
                        b.at(p, q - self.ncols)
                    }),
            decreases nr - i,
        {
            let mut row: Vec<PhfeElement> = Vec::new();
            let mut j: usize = 0;
            while j < nc
                invariant
                    j <= nc,
                    i < nr,
                    nr == self.nrows,
                    nc == self.ncols + b.ncols,
                    self.wf(),
                    b.wf(),
                    self.nrows == b.nrows,
                    row.len() == j,
                    forall|q: int|
                        0 <= q < j ==> #[trigger] row[q] == (if q < self.ncols {
                            self.at(i as int, q)
                        } else {
                            b.at(i as int, q - self.ncols)
                        }),
                decreases nc - j,
            {
                if j < self.ncols {
                    row.push(self.rows[i][j]);
                } else {
                    row.push(b.rows[i][j - self.ncols]);
                }
                j += 1;
            }
            rows.push(row);
            i += 1;
        }
        let r = Matrix { nrows: nr, ncols: nc, rows };
        proof {
            assert forall|p: int, q: int| 0 <= p < nr && 0 <= q < nc implies #[trigger] r.at(p, q)
                == (if q < self.ncols {
                self.at(p, q)
            } else {
                b.at(p, q - self.ncols)
            }) by {
                assert(r.rows[p][q] == r.at(p, q));
            }
            lemma_mat_ext(r.exps(), mat_hstack(self.exps(), b.exps()));
            assert forall|k: ElementKind| self.all_kind(k) && b.all_kind(k) implies r.all_kind(
                k,
            ) by {
                assert forall|p: int, q: int| 0 <= p < nr && 0 <= q < nc implies (#[trigger] r.at(
                    p,
                    q,
                )).kind() == k by {
                    if q < self.ncols {
                        assert(self.at(p, q).kind() == k);
                    } else {
                        assert(b.at(p, q - self.ncols).kind() == k);
                    }
                }
            }
        }
        r
    }

    /// `self` with `b` below it.
    pub fn vstack(&self, b: &Matrix) -> (r: Matrix)
        requires
            self.wf(),
            b.wf(),
            self.ncols == b.ncols,
            self.nrows + b.nrows <= usize::MAX,
        ensures
            r.wf(),
            r.nrows == self.nrows + b.nrows,
            r.ncols == self.ncols,
            forall|p: int, q: int|
                0 <= p < r.nrows && 0 <= q < r.ncols ==> #[trigger] r.at(p, q) == (if p
                    < self.nrows {
                    self.at(p, q)
                } else {
                    b.at(p - self.nrows, q)
                }),
            r.exps() == mat_vstack(self.exps(), b.exps()),
            forall|k: ElementKind| self.all_kind(k) && b.all_kind(k) ==> r.all_kind(k),
    {
        let nr = self.nrows + b.nrows;
        let nc = self.ncols;
        let mut rows: Vec<Vec<PhfeElement>> = Vec::new();
        let mut i: usize = 0;
        while i < nr
            invariant
                i <= nr,
                nr == self.nrows + b.nrows,
                nc == self.ncols,
                self.wf(),
                b.wf(),
                self.ncols == b.ncols,
                rows.len() == i,
                forall|p: int| 0 <= p < i ==> (#[trigger] rows[p]).len() == nc,
                forall|p: int, q: int|
                    0 <= p < i && 0 <= q < nc ==> #[trigger] rows[p][q] == (if p < self.nrows {
                        self.at(p, q)
                    } else {
                        b.at(p - self.nrows, q)
                    }),
            decreases nr - i,
        {
            let mut row: Vec<PhfeElement> = Vec::new();
            let mut j: usize = 0;
            while j < nc
                invariant
                    j <= nc,
                    i < nr,
                    nr == self.nrows + b.nrows,
                    nc == self.ncols,
                    self.wf(),
                    b.wf(),
                    self.ncols == b.ncols,
                    row.len() == j,
                    forall|q: int|
                        0 <= q < j ==> #[trigger] row[q] == (if i < self.nrows {
                            self.at(i as int, q)
                        } else {
                            b.at(i - self.nrows, q)
                        }),
                decreases nc - j,
            {
                if i < self.nrows {
                    row.push(self.rows[i][j]);
                } else {
                    row.push(b.rows[i - self.nrows][j]);
                }
                j += 1;
            }
            rows.push(row);
            i += 1;
        }
        let r = Matrix { nrows: nr, ncols: nc, rows };
        proof {
            assert forall|p: int, q: int| 0 <= p < nr && 0 <= q < nc implies #[trigger] r.at(p, q)
                == (if p < self.nrows {
                self.at(p, q)
            } else {
                b.at(p - self.nrows, q)
            }) by {
                assert(r.rows[p][q] == r.at(p, q));
            }
            lemma_mat_ext(r.exps(), mat_vstack(self.exps(), b.exps()));
            assert forall|k: ElementKind| self.all_kind(k) && b.all_kind(k) implies r.all_kind(
                k,
            ) by {
                assert forall|p: int, q: int| 0 <= p < nr && 0 <= q < nc implies (#[trigger] r.at(
                    p,
                    q,
                )).kind() == k by {
                    if p < self.nrows {
                        assert(self.at(p, q).kind() == k);
                    } else {
                        assert(b.at(p - self.nrows, q).kind() == k);
                    }
                }
            }
        }
        r
    }

    /// The `count` columns that start at column `start`.
    pub fn columns(&self, start: usize, count: usize) -> (r: Matrix)
        requires
            self.wf(),
            start + count <= self.ncols,
        ensures
            r.wf(),
            r.nrows == self.nrows,
            r.ncols == count,
            forall|p: int, q: int|
                0 <= p < r.nrows && 0 <= q < r.ncols ==> #[trigger] r.at(p, q) == self.at(
                    p,
                    start + q,
                ),
            r.exps() == mat_columns(self.exps(), start as nat, count as nat),
            forall|k: ElementKind| self.all_kind(k) ==> r.all_kind(k),
    {
        let nr = self.nrows;
        let nc = count;
        let mut rows: Vec<Vec<PhfeElement>> = Vec::new();
        let mut i: usize = 0;
        while i < nr
            invariant
                i <= nr,
                nr == self.nrows,
                nc == count,
                start + count <= self.ncols,
                self.wf(),
                rows.len() == i,
                forall|p: int| 0 <= p < i ==> (#[trigger] rows[p]).len() == nc,
                forall|p: int, q: int|
                    0 <= p < i && 0 <= q < nc ==> #[trigger] rows[p][q] == self.at(p, start + q),
            decreases nr - i,
        {
            let mut row: Vec<PhfeElement> = Vec::new();
            let mut j: usize = 0;
            while j < nc
                invariant
                    j <= nc,
                    i < nr,
                    nr == self.nrows,
                    nc == count,
                    start + count <= self.ncols,
                    self.wf(),
                    row.len() == j,
                    forall|q: int| 0 <= q < j ==> #[trigger] row[q] == self.at(i as int, start + q),
                decreases nc - j,
            {
                row.push(self.rows[i][start + j]);
                j += 1;
            }
            rows.push(row);
            i += 1;
        }
        let r = Matrix { nrows: nr, ncols: nc, rows };
        proof {
            assert forall|p: int, q: int| 0 <= p < nr && 0 <= q < nc implies #[trigger] r.at(p, q)
                == self.at(p, start + q) by {
                assert(r.rows[p][q] == self.at(p, start + q));
            }
            lemma_mat_ext(r.exps(), mat_columns(self.exps(), start as nat, count as nat));
            assert forall|k: ElementKind| self.all_kind(k) implies r.all_kind(k) by {
                assert forall|p: int, q: int| 0 <= p < nr && 0 <= q < nc implies (#[trigger] r.at(
                    p,
                    q,
                )).kind() == k by {
                    assert(self.at(p, start + q).kind() == k);
                }
            }
        }
        r
    }

    /// The Kronecker product: block `(p, q)` of the result is element
    /// `(p, q)` of `self` times `b`.
    pub fn kronecker(&self, b: &Matrix) -> (r: Matrix)
        requires
            self.wf(),
            b.wf(),
            self.nrows * b.nrows <= usize::MAX,
            self.ncols * b.ncols <= usize::MAX,
            self.uniform(),
            b.uniform(),
            mul_defined(self.kind(), b.kind()),
        ensures
            r.wf(),
            r.nrows == self.nrows * b.nrows,
            r.ncols == self.ncols * b.ncols,
            r.exps() == mat_kron(self.exps(), b.exps()),
            r.all_kind(mul_kind(self.kind(), b.kind())),
    {
        let nr = self.nrows * b.nrows;
        let nc = self.ncols * b.ncols;
        let br = b.nrows;
        let bc = b.ncols;
        let ghost k = mul_kind(self.kind(), b.kind());
        let mut rows: Vec<Vec<PhfeElement>> = Vec::new();
        let mut i: usize = 0;
        while i < nr
            invariant
                i <= nr,
                nr == self.nrows * b.nrows,
                nc == self.ncols * b.ncols,
                br == b.nrows,
                bc == b.ncols,
                self.wf(),
                b.wf(),
                self.uniform(),
                b.uniform(),
                mul_defined(self.kind(), b.kind()),
                k == mul_kind(self.kind(), b.kind()),
                rows.len() == i,
                forall|p: int| 0 <= p < i ==> (#[trigger] rows[p]).len() == nc,
                forall|p: int, q: int|
                    0 <= p < i && 0 <= q < nc ==> (#[trigger] rows[p][q]).kind() == k
                        && rows[p][q].exp() == (self.at(p / br as int, q / bc as int).exp() * b.at(
                        p % br as int,
                        q % bc as int,
                    ).exp()) % modulus(),
            decreases nr - i,
        {
            let mut row: Vec<PhfeElement> = Vec::new();
            let mut j: usize = 0;
            proof {
                lemma_block_index(i as int, self.nrows as int, br as int);
            }
            while j < nc
                invariant
                    j <= nc,
                    i < nr,
                    nr == self.nrows * b.nrows,
                    nc == self.ncols * b.ncols,
                    br == b.nrows,
                    bc == b.ncols,
                    br > 0,
                    0 <= i / br < self.nrows,
                    0 <= i % br < br,
                    self.wf(),
                    b.wf(),
                    self.uniform(),
                    b.uniform(),
                    mul_defined(self.kind(), b.kind()),
                    k == mul_kind(self.kind(), b.kind()),
                    row.len() == j,
                    forall|q: int|
                        0 <= q < j ==> (#[trigger] row[q]).kind() == k && row[q].exp() == (self.at(
                            i as int / br as int,
                            q / bc as int,
                        ).exp() * b.at(i as int % br as int, q % bc as int).exp()) % modulus(),
                decreases nc - j,
            {
                proof {
                    lemma_block_index(j as int, self.ncols as int, bc as int);
                    assert(self.at(i as int / br as int, j as int / bc as int).kind()
                        == self.kind());
                    assert(b.at(i as int % br as int, j as int % bc as int).kind() == b.kind());
                }
                let e = self.rows[i / br][j / bc].mul(&b.rows[i % br][j % bc]);
                row.push(e);
                j += 1;
            }
            rows.push(row);
            i += 1;
        }
        let r = Matrix { nrows: nr, ncols: nc, rows };
        proof {
            assert forall|p: int, q: int| 0 <= p < nr && 0 <= q < nc implies (#[trigger] r.at(
                p,
                q,
            )).kind() == k && r.at(p, q).exp() == (self.at(p / br as int, q / bc as int).exp()
                * b.at(p % br as int, q % bc as int).exp()) % modulus() by {
                assert(r.rows[p][q].kind() == k);
            }
            assert forall|p: int, q: int| 0 <= p < nr && 0 <= q < nc implies r.exps().at(p, q)
                == mat_kron(self.exps(), b.exps()).at(p, q) by {
                lemma_block_index(p, self.nrows as int, br as int);
                lemma_block_index(q, self.ncols as int, bc as int);
                assert(r.at(p, q).exp() == (self.at(p / br as int, q / bc as int).exp() * b.at(
                    p % br as int,
                    q % bc as int,
                ).exp()) % modulus());
            }
            lemma_mat_ext(r.exps(), mat_kron(self.exps(), b.exps()));
        }
        r
    }
}

} // verus!
