//! Matrices over the scalar field as mathematical objects: the model in which
//! the scheme's contracts are stated.
use crate::scalar::modulus;
use vstd::prelude::*;

verus! {

/// A matrix of residues: `rows` by `cols` integers, row by row.
pub struct SMat {
    pub rows: nat,
    pub cols: nat,
    pub cells: Seq<Seq<int>>,
}

impl SMat {
    /// The cells have the shape that `rows` and `cols` announce.
    pub open spec fn wf(self) -> bool {
        &&& self.cells.len() == self.rows
        &&& forall|i: int| 0 <= i < self.rows ==> (#[trigger] self.cells[i]).len() == self.cols
    }

    /// The cell in row `i` and column `j`.
    pub open spec fn at(self, i: int, j: int) -> int {
        self.cells[i][j]
    }

    /// The matrix whose cell `(i, j)` is `f(i, j)`.
    pub open spec fn build(rows: nat, cols: nat, f: spec_fn(int, int) -> int) -> SMat {
        SMat {
            rows,
            cols,
            cells: Seq::new(rows, |i: int| Seq::new(cols, |j: int| f(i, j))),
        }
    }

    /// Every cell lies in `[0, r)`.
    pub open spec fn reduced(self) -> bool {
        forall|i: int, j: int|
            0 <= i < self.rows && 0 <= j < self.cols ==> 0 <= #[trigger] self.at(i, j) < modulus()
    }

    /// `rows` by `cols`, well formed, every cell reduced.
    pub open spec fn is(self, rows: nat, cols: nat) -> bool {
        self.wf() && self.reduced() && self.rows == rows && self.cols == cols
    }
}

/// The sum of `a[i][l] * b[l][j]` over `l < n`, in the integers.
pub open spec fn dot_sum(a: SMat, b: SMat, i: int, j: int, n: int) -> int
    decreases n,
{
    if n <= 0 {
        0
    } else {
        dot_sum(a, b, i, j, n - 1) + a.at(i, n - 1) * b.at(n - 1, j)
    }
}

/// The matrix product.
pub open spec fn mat_mul(a: SMat, b: SMat) -> SMat {
    SMat::build(a.rows, b.cols, |i: int, j: int| dot_sum(a, b, i, j, a.cols as int) % modulus())
}

/// The sum of two matrices of one shape.
pub open spec fn mat_add(a: SMat, b: SMat) -> SMat {
    SMat::build(a.rows, a.cols, |i: int, j: int| (a.at(i, j) + b.at(i, j)) % modulus())
}

/// The additive inverse of a matrix.
pub open spec fn mat_neg(a: SMat) -> SMat {
    SMat::build(a.rows, a.cols, |i: int, j: int| (-a.at(i, j)) % modulus())
}

/// The transposed matrix.
pub open spec fn mat_transpose(a: SMat) -> SMat {
    SMat::build(a.cols, a.rows, |i: int, j: int| a.at(j, i))
}

/// The Kronecker product: block `(p, q)` of the result is `a[p][q]` times `b`.
pub open spec fn mat_kron(a: SMat, b: SMat) -> SMat {
    SMat::build(
        a.rows * b.rows,
        a.cols * b.cols,
        |i: int, j: int|
            (a.at(i / b.rows as int, j / b.cols as int) * b.at(i % b.rows as int, j % b.cols as int))
                % modulus(),
    )
}

/// The identity matrix of size `n`.
pub open spec fn mat_identity(n: nat) -> SMat {
    SMat::build(
        n,
        n,
        |i: int, j: int|
            if i == j {
                1int
            } else {
                0int
            },
    )
}

/// The zero matrix.
pub open spec fn mat_zeros(rows: nat, cols: nat) -> SMat {
    SMat::build(rows, cols, |i: int, j: int| 0int)
}

/// `a` with `b` to its right.
pub open spec fn mat_hstack(a: SMat, b: SMat) -> SMat {
    SMat::build(
        a.rows,
        a.cols + b.cols,
        |i: int, j: int|
            if j < a.cols {
                a.at(i, j)
            } else {
                b.at(i, j - a.cols)
            },
    )
}

/// `a` with `b` below it.
pub open spec fn mat_vstack(a: SMat, b: SMat) -> SMat {
    SMat::build(
        a.rows + b.rows,
        a.cols,
        |i: int, j: int|
            if i < a.rows {
                a.at(i, j)
            } else {
                b.at(i - a.rows, j)
            },
    )
}

/// The `count` columns of `a` that start at column `start`.
pub open spec fn mat_columns(a: SMat, start: nat, count: nat) -> SMat {
    SMat::build(a.rows, count, |i: int, j: int| a.at(i, start + j))
}

/// The column vector of the given residues.
pub open spec fn col_vec(x: Seq<int>) -> SMat {
    SMat::build(x.len(), 1, |i: int, j: int| x[i])
}

/// The row vector of the given residues.
pub open spec fn row_vec(x: Seq<int>) -> SMat {
    SMat::build(1, x.len(), |i: int, j: int| x[j])
}

/// Two well-formed matrices of one shape with equal cells are equal.
pub proof fn lemma_mat_ext(a: SMat, b: SMat)
    requires
        a.wf(),
        b.wf(),
        a.rows == b.rows,
        a.cols == b.cols,
        forall|i: int, j: int| 0 <= i < a.rows && 0 <= j < a.cols ==> a.at(i, j) == b.at(i, j),
    ensures
        a == b,
{
    assert forall|i: int| 0 <= i < a.rows implies #[trigger] a.cells[i] =~= b.cells[i] by {
        assert(a.cells[i].len() == a.cols);
        assert(b.cells[i].len() == a.cols);
        assert forall|j: int| 0 <= j < a.cols implies a.cells[i][j] == b.cells[i][j] by {
            assert(a.at(i, j) == b.at(i, j));
        }
    }
    assert(a.cells =~= b.cells);
}

/// An index into `n` blocks of `k` splits into the block and the place in it.
pub proof fn lemma_block_index(i: int, n: int, k: int)
    requires
        0 <= i < n * k,
        0 <= n,
        0 <= k,
    ensures
        k > 0,
        0 <= i / k < n,
        0 <= i % k < k,
        i == (i / k) * k + i % k,
{
    assert(k > 0) by (nonlinear_arith)
        requires
            0 <= i < n * k,
            0 <= k,
    ;
    assert(n * k == k * n) by (nonlinear_arith);
    vstd::arithmetic::div_mod::lemma_multiply_divide_lt(i, k, n);
    vstd::arithmetic::div_mod::lemma_mod_bound(i, k);
    vstd::arithmetic::div_mod::lemma_div_pos_is_pos(i, k);
    vstd::arithmetic::div_mod::lemma_fundamental_div_mod(i, k);
    assert(k * (i / k) == (i / k) * k) by (nonlinear_arith);
}

/// The index of place `j` in block `p` splits back into `p` and `j`.
pub proof fn lemma_block_compose(p: int, j: int, n: int, k: int)
    requires
        0 <= p < n,
        0 <= j < k,
    ensures
        0 <= p * k + j < n * k,
        (p * k + j) / k == p,
        (p * k + j) % k == j,
{
    assert(0 <= p * k + j < n * k) by (nonlinear_arith)
        requires
            0 <= p < n,
            0 <= j < k,
    ;
    vstd::arithmetic::div_mod::lemma_fundamental_div_mod_converse(p * k + j, k, p, j);
}

} // verus!
