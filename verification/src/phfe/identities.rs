//! The identities of matrix algebra over the scalar field that the
//! correctness of the scheme rests on.
use crate::phfe::algebra::{
    dot_sum, lemma_block_index, lemma_mat_ext, mat_add, mat_columns, mat_hstack, mat_identity,
    mat_kron, mat_mul, mat_neg, mat_vstack, mat_zeros, SMat,
};
use crate::phfe::sums::{
    lemma_sum_add, lemma_sum_blocks, lemma_sum_congruent, lemma_sum_exchange, lemma_sum_ext,
    lemma_sum_scale, lemma_sum_single, lemma_sum_split, lemma_sum_zero, sum_to,
};
use crate::scalar::{lemma_modulus_large, modulus};
use vstd::arithmetic::div_mod::{
    lemma_add_mod_noop, lemma_mod_bound, lemma_mul_mod_noop_general, lemma_small_mod,
    lemma_sub_mod_noop,
};
use vstd::prelude::*;

verus! {

/// The sum that defines a cell of a product, as a sum of a function.
pub proof fn lemma_dot_is_sum(a: SMat, b: SMat, i: int, j: int, n: int)
    ensures
        dot_sum(a, b, i, j, n) == sum_to(|l: int| a.at(i, l) * b.at(l, j), n),
    decreases n,
{
    if n > 0 {
        lemma_dot_is_sum(a, b, i, j, n - 1);
    }
}

/// The shape and the cells of a product.
pub proof fn lemma_mul_cells(a: SMat, b: SMat)
    ensures
        mat_mul(a, b).is(a.rows, b.cols),
        forall|i: int, j: int|
            0 <= i < a.rows && 0 <= j < b.cols ==> #[trigger] mat_mul(a, b).at(i, j) == sum_to(
                |l: int| a.at(i, l) * b.at(l, j),
                a.cols as int,
            ) % modulus(),
{
    lemma_modulus_large();
    assert forall|i: int, j: int| 0 <= i < a.rows && 0 <= j < b.cols implies #[trigger] mat_mul(
        a,
        b,
    ).at(i, j) == sum_to(|l: int| a.at(i, l) * b.at(l, j), a.cols as int) % modulus() && 0
        <= mat_mul(a, b).at(i, j) < modulus() by {
        lemma_dot_is_sum(a, b, i, j, a.cols as int);
        lemma_mod_bound(dot_sum(a, b, i, j, a.cols as int), modulus());
    }
}

/// The shape and the cells of a sum.
pub proof fn lemma_add_cells(a: SMat, b: SMat)
    ensures
        mat_add(a, b).is(a.rows, a.cols),
        forall|i: int, j: int|
            0 <= i < a.rows && 0 <= j < a.cols ==> #[trigger] mat_add(a, b).at(i, j) == (a.at(i, j)
                + b.at(i, j)) % modulus(),
{
    lemma_modulus_large();
    assert forall|i: int, j: int| 0 <= i < a.rows && 0 <= j < a.cols implies 0 <= #[trigger] mat_add(
        a,
        b,
    ).at(i, j) < modulus() by {
        lemma_mod_bound(a.at(i, j) + b.at(i, j), modulus());
    }
}

/// The shape and the cells of an additive inverse.
pub proof fn lemma_neg_cells(a: SMat)
    ensures
        mat_neg(a).is(a.rows, a.cols),
        forall|i: int, j: int|
            0 <= i < a.rows && 0 <= j < a.cols ==> #[trigger] mat_neg(a).at(i, j) == (-a.at(i, j))
                % modulus(),
{
    lemma_modulus_large();
    assert forall|i: int, j: int| 0 <= i < a.rows && 0 <= j < a.cols implies 0 <= #[trigger] mat_neg(
        a,
    ).at(i, j) < modulus() by {
        lemma_mod_bound(-a.at(i, j), modulus());
    }
}

/// The shape and the cells of a Kronecker product.
pub proof fn lemma_kron_cells(a: SMat, b: SMat)
    ensures
        mat_kron(a, b).is(a.rows * b.rows, a.cols * b.cols),
        forall|i: int, j: int|
            0 <= i < a.rows * b.rows && 0 <= j < a.cols * b.cols ==> #[trigger] mat_kron(a, b).at(
                i,
                j,
            ) == (a.at(i / b.rows as int, j / b.cols as int) * b.at(
                i % b.rows as int,
                j % b.cols as int,
            )) % modulus(),
{
    lemma_modulus_large();
    assert forall|i: int, j: int|
        0 <= i < a.rows * b.rows && 0 <= j < a.cols * b.cols implies 0 <= #[trigger] mat_kron(
        a,
        b,
    ).at(i, j) < modulus() by {
        lemma_mod_bound(
            a.at(i / b.rows as int, j / b.cols as int) * b.at(
                i % b.rows as int,
                j % b.cols as int,
            ),
            modulus(),
        );
    }
}

/// The matrix product is associative.
pub proof fn lemma_mul_assoc(a: SMat, b: SMat, c: SMat)
    requires
        a.cols == b.rows,
    ensures
        mat_mul(mat_mul(a, b), c) == mat_mul(a, mat_mul(b, c)),
{
    let m = modulus();
    lemma_modulus_large();
    let ab = mat_mul(a, b);
    let bc = mat_mul(b, c);
    let p = a.cols as int;
    let q = b.cols as int;
    lemma_mul_cells(a, b);
    lemma_mul_cells(b, c);
    lemma_mul_cells(ab, c);
    lemma_mul_cells(a, bc);
    assert forall|i: int, j: int| 0 <= i < a.rows && 0 <= j < c.cols implies mat_mul(ab, c).at(i, j)
        == mat_mul(a, bc).at(i, j) by {
        let h = |l: int, k: int| (a.at(i, l) * b.at(l, k)) * c.at(k, j);
        let f1 = |k: int| ab.at(i, k) * c.at(k, j);
        let g1 = |k: int| sum_to(|l: int| h(l, k), p);
        let f2 = |l: int| a.at(i, l) * bc.at(l, j);
        let g2 = |l: int| sum_to(|k: int| h(l, k), q);
        assert forall|k: int| 0 <= k < q implies #[trigger] f1(k) % m == g1(k) % m by {
            let inner = |l: int| a.at(i, l) * b.at(l, k);
            let scaled = |l: int| h(l, k);
            assert forall|l: int| 0 <= l < p implies #[trigger] scaled(l) == c.at(k, j) * inner(
                l,
            ) by {
                assert((a.at(i, l) * b.at(l, k)) * c.at(k, j) == c.at(k, j) * (a.at(i, l) * b.at(
                    l,
                    k,
                ))) by (nonlinear_arith);
            }
            lemma_sum_scale(inner, scaled, c.at(k, j), p);
            assert(ab.at(i, k) == sum_to(inner, p) % m);
            lemma_mul_mod_noop_general(sum_to(inner, p), c.at(k, j), m);
            assert(c.at(k, j) * sum_to(inner, p) == sum_to(inner, p) * c.at(k, j))
                by (nonlinear_arith);
        }
        lemma_sum_congruent(f1, g1, q, m);
        assert forall|l: int| 0 <= l < p implies #[trigger] f2(l) % m == g2(l) % m by {
            let inner = |k: int| b.at(l, k) * c.at(k, j);
            let scaled = |k: int| h(l, k);
            assert forall|k: int| 0 <= k < q implies #[trigger] scaled(k) == a.at(i, l) * inner(
                k,
            ) by {
                assert((a.at(i, l) * b.at(l, k)) * c.at(k, j) == a.at(i, l) * (b.at(l, k) * c.at(
                    k,
                    j,
                ))) by (nonlinear_arith);
            }
            lemma_sum_scale(inner, scaled, a.at(i, l), q);
            assert(bc.at(l, j) == sum_to(inner, q) % m);
            lemma_mul_mod_noop_general(a.at(i, l), sum_to(inner, q), m);
        }
        lemma_sum_congruent(f2, g2, p, m);
        lemma_sum_exchange(h, g2, g1, p, q);
        assert(mat_mul(ab, c).at(i, j) == sum_to(f1, q) % m);
        assert(mat_mul(a, bc).at(i, j) == sum_to(f2, p) % m);
    }
    lemma_mat_ext(mat_mul(ab, c), mat_mul(a, bc));
}

/// The product distributes over a sum on the right.
pub proof fn lemma_mul_add_right(a: SMat, b: SMat, c: SMat)
    requires
        a.cols == b.rows,
        b.rows == c.rows,
        b.cols == c.cols,
    ensures
        mat_mul(a, mat_add(b, c)) == mat_add(mat_mul(a, b), mat_mul(a, c)),
{
    let m = modulus();
    lemma_modulus_large();
    let bc = mat_add(b, c);
    let p = a.cols as int;
    lemma_add_cells(b, c);
    lemma_mul_cells(a, b);
    lemma_mul_cells(a, c);
    lemma_mul_cells(a, bc);
    lemma_add_cells(mat_mul(a, b), mat_mul(a, c));
    assert forall|i: int, j: int| 0 <= i < a.rows && 0 <= j < b.cols implies mat_mul(a, bc).at(i, j)
        == mat_add(mat_mul(a, b), mat_mul(a, c)).at(i, j) by {
        let f = |l: int| a.at(i, l) * bc.at(l, j);
        let fb = |l: int| a.at(i, l) * b.at(l, j);
        let fc = |l: int| a.at(i, l) * c.at(l, j);
        let g = |l: int| fb(l) + fc(l);
        assert forall|l: int| 0 <= l < p implies #[trigger] f(l) % m == g(l) % m by {
            lemma_mul_mod_noop_general(a.at(i, l), b.at(l, j) + c.at(l, j), m);
            assert(a.at(i, l) * (b.at(l, j) + c.at(l, j)) == a.at(i, l) * b.at(l, j) + a.at(i, l)
                * c.at(l, j)) by (nonlinear_arith);
        }
        lemma_sum_congruent(f, g, p, m);
        lemma_sum_add(fb, fc, g, p);
        lemma_add_mod_noop(sum_to(fb, p), sum_to(fc, p), m);
        assert(mat_mul(a, bc).at(i, j) == sum_to(f, p) % m);
    }
    lemma_mat_ext(mat_mul(a, bc), mat_add(mat_mul(a, b), mat_mul(a, c)));
}

/// The product distributes over a sum on the left.
pub proof fn lemma_mul_add_left(a: SMat, b: SMat, c: SMat)
    requires
        a.rows == b.rows,
        a.cols == b.cols,
    ensures
        mat_mul(mat_add(a, b), c) == mat_add(mat_mul(a, c), mat_mul(b, c)),
{
    let m = modulus();
    lemma_modulus_large();
    let ab = mat_add(a, b);
    let p = a.cols as int;
    lemma_add_cells(a, b);
    lemma_mul_cells(a, c);
    lemma_mul_cells(b, c);
    lemma_mul_cells(ab, c);
    lemma_add_cells(mat_mul(a, c), mat_mul(b, c));
    assert forall|i: int, j: int| 0 <= i < a.rows && 0 <= j < c.cols implies mat_mul(ab, c).at(i, j)
        == mat_add(mat_mul(a, c), mat_mul(b, c)).at(i, j) by {
        let f = |l: int| ab.at(i, l) * c.at(l, j);
        let fa = |l: int| a.at(i, l) * c.at(l, j);
        let fb = |l: int| b.at(i, l) * c.at(l, j);
        let g = |l: int| fa(l) + fb(l);
        assert forall|l: int| 0 <= l < p implies #[trigger] f(l) % m == g(l) % m by {
            lemma_mul_mod_noop_general(a.at(i, l) + b.at(i, l), c.at(l, j), m);
            assert((a.at(i, l) + b.at(i, l)) * c.at(l, j) == a.at(i, l) * c.at(l, j) + b.at(i, l)
                * c.at(l, j)) by (nonlinear_arith);
        }
        lemma_sum_congruent(f, g, p, m);
        lemma_sum_add(fa, fb, g, p);
        lemma_add_mod_noop(sum_to(fa, p), sum_to(fb, p), m);
        assert(mat_mul(ab, c).at(i, j) == sum_to(f, p) % m);
    }
    lemma_mat_ext(mat_mul(ab, c), mat_add(mat_mul(a, c), mat_mul(b, c)));
}

/// Negating reduced values: `-(x mod m)` and `-x` are congruent.
pub proof fn lemma_neg_mod(x: int, m: int)
    requires
        m > 0,
    ensures
        (-(x % m)) % m == (-x) % m,
{
    lemma_sub_mod_noop(0, x, m);
    lemma_small_mod(0, m as nat);
}

/// The product with an additive inverse on the right is the additive inverse
/// of the product.
pub proof fn lemma_mul_neg_right(a: SMat, b: SMat)
    requires
        a.cols == b.rows,
    ensures
        mat_mul(a, mat_neg(b)) == mat_neg(mat_mul(a, b)),
{
    let m = modulus();
    lemma_modulus_large();
    let nb = mat_neg(b);
    let p = a.cols as int;
    lemma_neg_cells(b);
    lemma_mul_cells(a, b);
    lemma_mul_cells(a, nb);
    lemma_neg_cells(mat_mul(a, b));
    assert forall|i: int, j: int| 0 <= i < a.rows && 0 <= j < b.cols implies mat_mul(a, nb).at(i, j)
        == mat_neg(mat_mul(a, b)).at(i, j) by {
        let f = |l: int| a.at(i, l) * nb.at(l, j);
        let fb = |l: int| a.at(i, l) * b.at(l, j);
        let g = |l: int| (-1) * fb(l);
        assert forall|l: int| 0 <= l < p implies #[trigger] f(l) % m == g(l) % m by {
            lemma_mul_mod_noop_general(a.at(i, l), -b.at(l, j), m);
            assert(a.at(i, l) * (-b.at(l, j)) == (-1) * (a.at(i, l) * b.at(l, j)))
                by (nonlinear_arith);
        }
        lemma_sum_congruent(f, g, p, m);
        lemma_sum_scale(fb, g, -1, p);
        lemma_neg_mod(sum_to(fb, p), m);
        assert(mat_mul(a, nb).at(i, j) == sum_to(f, p) % m);
    }
    lemma_mat_ext(mat_mul(a, nb), mat_neg(mat_mul(a, b)));
}

/// The product with an additive inverse on the left is the additive inverse
/// of the product.
pub proof fn lemma_mul_neg_left(a: SMat, b: SMat)
    ensures
        mat_mul(mat_neg(a), b) == mat_neg(mat_mul(a, b)),
{
    let m = modulus();
    lemma_modulus_large();
    let na = mat_neg(a);
    let p = a.cols as int;
    lemma_neg_cells(a);
    lemma_mul_cells(a, b);
    lemma_mul_cells(na, b);
    lemma_neg_cells(mat_mul(a, b));
    assert forall|i: int, j: int| 0 <= i < a.rows && 0 <= j < b.cols implies mat_mul(na, b).at(i, j)
        == mat_neg(mat_mul(a, b)).at(i, j) by {
        let f = |l: int| na.at(i, l) * b.at(l, j);
        let fb = |l: int| a.at(i, l) * b.at(l, j);
        let g = |l: int| (-1) * fb(l);
        assert forall|l: int| 0 <= l < p implies #[trigger] f(l) % m == g(l) % m by {
            lemma_mul_mod_noop_general(-a.at(i, l), b.at(l, j), m);
            assert((-a.at(i, l)) * b.at(l, j) == (-1) * (a.at(i, l) * b.at(l, j)))
                by (nonlinear_arith);
        }
        lemma_sum_congruent(f, g, p, m);
        lemma_sum_scale(fb, g, -1, p);
        lemma_neg_mod(sum_to(fb, p), m);
        assert(mat_mul(na, b).at(i, j) == sum_to(f, p) % m);
    }
    lemma_mat_ext(mat_mul(na, b), mat_neg(mat_mul(a, b)));
}

/// A product of two matrices that are put together from blocks, side by side
/// on the left and one above the other on the right, is the sum of the
/// products of the blocks.
pub proof fn lemma_mul_blocks(p1: SMat, p2: SMat, d1: SMat, d2: SMat)
    requires
        p1.rows == p2.rows,
        p1.cols == d1.rows,
        p2.cols == d2.rows,
        d1.cols == d2.cols,
    ensures
        mat_mul(mat_hstack(p1, p2), mat_vstack(d1, d2)) == mat_add(
            mat_mul(p1, d1),
            mat_mul(p2, d2),
        ),
{
    let m = modulus();
    lemma_modulus_large();
    let hs = mat_hstack(p1, p2);
    let vs = mat_vstack(d1, d2);
    let n1 = p1.cols as int;
    let n2 = p2.cols as int;
    lemma_mul_cells(hs, vs);
    lemma_mul_cells(p1, d1);
    lemma_mul_cells(p2, d2);
    lemma_add_cells(mat_mul(p1, d1), mat_mul(p2, d2));
    assert forall|i: int, j: int| 0 <= i < p1.rows && 0 <= j < d1.cols implies mat_mul(hs, vs).at(
        i,
        j,
    ) == mat_add(mat_mul(p1, d1), mat_mul(p2, d2)).at(i, j) by {
        let f = |l: int| hs.at(i, l) * vs.at(l, j);
        let f1 = |l: int| p1.at(i, l) * d1.at(l, j);
        let f2 = |l: int| p2.at(i, l) * d2.at(l, j);
        assert forall|l: int| 0 <= l < n1 implies #[trigger] f(l) == f1(l) by {
            assert(hs.at(i, l) == p1.at(i, l));
            assert(vs.at(l, j) == d1.at(l, j));
        }
        lemma_sum_ext(f, f1, n1);
        assert forall|l: int| 0 <= l < n2 implies #[trigger] f2(l) == f(n1 + l) by {
            assert(hs.at(i, n1 + l) == p2.at(i, l));
            assert(vs.at(n1 + l, j) == d2.at(l, j));
        }
        lemma_sum_split(f, f2, n1, n2);
        lemma_add_mod_noop(sum_to(f1, n1), sum_to(f2, n2), m);
        assert(mat_mul(hs, vs).at(i, j) == sum_to(f, n1 + n2) % m);
    }
    lemma_mat_ext(mat_mul(hs, vs), mat_add(mat_mul(p1, d1), mat_mul(p2, d2)));
}

/// The product of the last columns of `t` with `d` is the product of `t`
/// with `d` below as many rows of zeros as `t` has columns before them.
pub proof fn lemma_mul_columns(t: SMat, start: nat, d: SMat)
    requires
        t.cols == start + d.rows,
    ensures
        mat_mul(mat_columns(t, start, d.rows), d) == mat_mul(
            t,
            mat_vstack(mat_zeros(start, d.cols), d),
        ),
{
    let m = modulus();
    lemma_modulus_large();
    let tc = mat_columns(t, start, d.rows);
    let pad = mat_vstack(mat_zeros(start, d.cols), d);
    let n = d.rows as int;
    lemma_mul_cells(tc, d);
    lemma_mul_cells(t, pad);
    assert forall|i: int, j: int| 0 <= i < t.rows && 0 <= j < d.cols implies mat_mul(tc, d).at(i, j)
        == mat_mul(t, pad).at(i, j) by {
        let f = |l: int| t.at(i, l) * pad.at(l, j);
        let g = |l: int| tc.at(i, l) * d.at(l, j);
        assert forall|l: int| 0 <= l < start implies #[trigger] f(l) == 0 by {
            assert(pad.at(l, j) == 0);
            assert(t.at(i, l) * 0 == 0);
        }
        lemma_sum_zero(f, start as int);
        assert forall|l: int| 0 <= l < n implies #[trigger] g(l) == f(start + l) by {
            assert(tc.at(i, l) == t.at(i, start + l));
            assert(pad.at(start + l, j) == d.at(l, j));
        }
        lemma_sum_split(f, g, start as int, n);
        assert(mat_mul(tc, d).at(i, j) == sum_to(g, n) % m);
        assert(mat_mul(t, pad).at(i, j) == sum_to(f, start + n) % m);
    }
    lemma_mat_ext(mat_mul(tc, d), mat_mul(t, pad));
}

/// The product with the identity matrix, on either side, is the matrix
/// itself.
pub proof fn lemma_mul_identity(a: SMat)
    requires
        a.wf(),
        a.reduced(),
    ensures
        mat_mul(mat_identity(a.rows), a) == a,
        mat_mul(a, mat_identity(a.cols)) == a,
{
    let m = modulus();
    lemma_modulus_large();
    let il = mat_identity(a.rows);
    let ir = mat_identity(a.cols);
    lemma_mul_cells(il, a);
    lemma_mul_cells(a, ir);
    assert forall|i: int, j: int| 0 <= i < a.rows && 0 <= j < a.cols implies mat_mul(il, a).at(i, j)
        == a.at(i, j) && mat_mul(a, ir).at(i, j) == a.at(i, j) by {
        assert(0 <= a.at(i, j) < m);
        lemma_small_mod(a.at(i, j) as nat, m as nat);
        let f = |l: int| il.at(i, l) * a.at(l, j);
        assert forall|l: int| 0 <= l < a.rows && l != i implies #[trigger] f(l) == 0 by {
            assert(il.at(i, l) == 0);
            assert(0 * a.at(l, j) == 0);
        }
        lemma_sum_single(f, a.rows as int, i);
        assert(il.at(i, i) == 1);
        assert(1 * a.at(i, j) == a.at(i, j));
        assert(mat_mul(il, a).at(i, j) == sum_to(f, a.rows as int) % m);
        let g = |l: int| a.at(i, l) * ir.at(l, j);
        assert forall|l: int| 0 <= l < a.cols && l != j implies #[trigger] g(l) == 0 by {
            assert(ir.at(l, j) == 0);
            assert(a.at(i, l) * 0 == 0);
        }
        lemma_sum_single(g, a.cols as int, j);
        assert(ir.at(j, j) == 1);
        assert(a.at(i, j) * 1 == a.at(i, j));
        assert(mat_mul(a, ir).at(i, j) == sum_to(g, a.cols as int) % m);
    }
    lemma_mat_ext(mat_mul(il, a), a);
    lemma_mat_ext(mat_mul(a, ir), a);
}

/// The Kronecker product with the identity matrix of size one, on either
/// side, is the matrix itself.
pub proof fn lemma_kron_one(a: SMat)
    requires
        a.wf(),
        a.reduced(),
    ensures
        mat_kron(mat_identity(1), a) == a,
        mat_kron(a, mat_identity(1)) == a,
{
    let m = modulus();
    lemma_modulus_large();
    let one = mat_identity(1);
    lemma_kron_cells(one, a);
    lemma_kron_cells(a, one);
    assert(1 * a.rows == a.rows && 1 * a.cols == a.cols && a.rows * 1 == a.rows && a.cols * 1
        == a.cols) by (nonlinear_arith);
    assert forall|i: int, j: int| 0 <= i < a.rows && 0 <= j < a.cols implies mat_kron(one, a).at(
        i,
        j,
    ) == a.at(i, j) && mat_kron(a, one).at(i, j) == a.at(i, j) by {
        assert(0 <= a.at(i, j) < m);
        lemma_small_mod(a.at(i, j) as nat, m as nat);
        lemma_small_mod(i as nat, a.rows as nat);
        lemma_small_mod(j as nat, a.cols as nat);
        vstd::arithmetic::div_mod::lemma_basic_div(i, a.rows as int);
        vstd::arithmetic::div_mod::lemma_basic_div(j, a.cols as int);
        assert(one.at(0, 0) == 1);
        assert(1 * a.at(i, j) == a.at(i, j));
        assert(a.at(i, j) * 1 == a.at(i, j));
        assert(i / 1 == i && j / 1 == j && i % 1 == 0 && j % 1 == 0);
    }
    lemma_mat_ext(mat_kron(one, a), a);
    lemma_mat_ext(mat_kron(a, one), a);
}

/// The Kronecker product distributes over a sum on the left.
pub proof fn lemma_kron_add_left(a: SMat, b: SMat, c: SMat)
    requires
        a.rows == b.rows,
        a.cols == b.cols,
    ensures
        mat_kron(mat_add(a, b), c) == mat_add(mat_kron(a, c), mat_kron(b, c)),
{
    let m = modulus();
    lemma_modulus_large();
    let ab = mat_add(a, b);
    lemma_add_cells(a, b);
    lemma_kron_cells(a, c);
    lemma_kron_cells(b, c);
    lemma_kron_cells(ab, c);
    lemma_add_cells(mat_kron(a, c), mat_kron(b, c));
    assert forall|i: int, j: int|
        0 <= i < a.rows * c.rows && 0 <= j < a.cols * c.cols implies mat_kron(ab, c).at(i, j)
        == mat_add(mat_kron(a, c), mat_kron(b, c)).at(i, j) by {
        lemma_block_index(i, a.rows as int, c.rows as int);
        lemma_block_index(j, a.cols as int, c.cols as int);
        let i1 = i / c.rows as int;
        let j1 = j / c.cols as int;
        let cv = c.at(i % c.rows as int, j % c.cols as int);
        assert(ab.at(i1, j1) == (a.at(i1, j1) + b.at(i1, j1)) % m);
        lemma_mul_mod_noop_general(a.at(i1, j1) + b.at(i1, j1), cv, m);
        assert((a.at(i1, j1) + b.at(i1, j1)) * cv == a.at(i1, j1) * cv + b.at(i1, j1) * cv)
            by (nonlinear_arith);
        lemma_add_mod_noop(a.at(i1, j1) * cv, b.at(i1, j1) * cv, m);
    }
    lemma_mat_ext(mat_kron(ab, c), mat_add(mat_kron(a, c), mat_kron(b, c)));
}

/// The Kronecker product distributes over a sum on the right.
pub proof fn lemma_kron_add_right(a: SMat, b: SMat, c: SMat)
    requires
        b.rows == c.rows,
        b.cols == c.cols,
    ensures
        mat_kron(a, mat_add(b, c)) == mat_add(mat_kron(a, b), mat_kron(a, c)),
{
    let m = modulus();
    lemma_modulus_large();
    let bc = mat_add(b, c);
    lemma_add_cells(b, c);
    lemma_kron_cells(a, b);
    lemma_kron_cells(a, c);
    lemma_kron_cells(a, bc);
    lemma_add_cells(mat_kron(a, b), mat_kron(a, c));
    assert forall|i: int, j: int|
        0 <= i < a.rows * b.rows && 0 <= j < a.cols * b.cols implies mat_kron(a, bc).at(i, j)
        == mat_add(mat_kron(a, b), mat_kron(a, c)).at(i, j) by {
        lemma_block_index(i, a.rows as int, b.rows as int);
        lemma_block_index(j, a.cols as int, b.cols as int);
        let i2 = i % b.rows as int;
        let j2 = j % b.cols as int;
        let av = a.at(i / b.rows as int, j / b.cols as int);
        assert(bc.at(i2, j2) == (b.at(i2, j2) + c.at(i2, j2)) % m);
        lemma_mul_mod_noop_general(av, b.at(i2, j2) + c.at(i2, j2), m);
        assert(av * (b.at(i2, j2) + c.at(i2, j2)) == av * b.at(i2, j2) + av * c.at(i2, j2))
            by (nonlinear_arith);
        lemma_add_mod_noop(av * b.at(i2, j2), av * c.at(i2, j2), m);
    }
    lemma_mat_ext(mat_kron(a, bc), mat_add(mat_kron(a, b), mat_kron(a, c)));
}

/// The mixed-product property: the product of two Kronecker products is the
/// Kronecker product of the two products.
pub proof fn lemma_kron_mixed_product(a: SMat, b: SMat, c: SMat, d: SMat)
    requires
        a.cols == c.rows,
        b.cols == d.rows,
    ensures
        mat_mul(mat_kron(a, b), mat_kron(c, d)) == mat_kron(mat_mul(a, c), mat_mul(b, d)),
{
    let m = modulus();
    lemma_modulus_large();
    let ab = mat_kron(a, b);
    let cd = mat_kron(c, d);
    let ac = mat_mul(a, c);
    let bd = mat_mul(b, d);
    let p = a.cols as int;
    let q = b.cols as int;
    lemma_kron_cells(a, b);
    lemma_kron_cells(c, d);
    lemma_mul_cells(a, c);
    lemma_mul_cells(b, d);
    lemma_mul_cells(ab, cd);
    lemma_kron_cells(ac, bd);
    assert forall|i: int, j: int|
        0 <= i < a.rows * b.rows && 0 <= j < c.cols * d.cols implies mat_mul(ab, cd).at(i, j)
        == mat_kron(ac, bd).at(i, j) by {
        lemma_block_index(i, a.rows as int, b.rows as int);
        lemma_block_index(j, c.cols as int, d.cols as int);
        let i1 = i / b.rows as int;
        let i2 = i % b.rows as int;
        let j1 = j / d.cols as int;
        let j2 = j % d.cols as int;
        let f = |l: int| ab.at(i, l) * cd.at(l, j);
        let inner_a = |l1: int| a.at(i1, l1) * c.at(l1, j1);
        let inner_b = |l2: int| b.at(i2, l2) * d.at(l2, j2);
        let sa = sum_to(inner_a, p);
        let sb = sum_to(inner_b, q);
        assert(ac.at(i1, j1) == sa % m);
        assert(bd.at(i2, j2) == sb % m);
        assert(mat_kron(ac, bd).at(i, j) == (ac.at(i1, j1) * bd.at(i2, j2)) % m);
        lemma_mul_mod_noop_general(sa, sb, m);
        assert(mat_mul(ab, cd).at(i, j) == sum_to(f, p * q) % m);
        if q == 0 {
            assert(p * q == 0) by (nonlinear_arith)
                requires
                    q == 0,
            ;
            assert(sa * 0 == 0);
        } else {
            let h = |l1: int, l2: int| (a.at(i1, l1) * c.at(l1, j1)) * (b.at(i2, l2) * d.at(l2, j2));
            let flat = |l: int| h(l / q, l % q);
            let blocks = |l1: int| sum_to(|l2: int| h(l1, l2), q);
            assert forall|l: int| 0 <= l < p * q implies #[trigger] f(l) % m == flat(l) % m by {
                lemma_block_index(l, p, q);
                let l1 = l / q;
                let l2 = l % q;
                let x = a.at(i1, l1) * b.at(i2, l2);
                let y = c.at(l1, j1) * d.at(l2, j2);
                assert(ab.at(i, l) == x % m);
                assert(cd.at(l, j) == y % m);
                lemma_mul_mod_noop_general(x, y, m);
                assert(x * y == (a.at(i1, l1) * c.at(l1, j1)) * (b.at(i2, l2) * d.at(l2, j2)))
                    by (nonlinear_arith)
                    requires
                        x == a.at(i1, l1) * b.at(i2, l2),
                        y == c.at(l1, j1) * d.at(l2, j2),
                ;
            }
            lemma_sum_congruent(f, flat, p * q, m);
            lemma_sum_blocks(h, flat, blocks, p, q);
            assert forall|l1: int| 0 <= l1 < p implies #[trigger] blocks(l1) == sb * inner_a(l1) by {
                let row = |l2: int| h(l1, l2);
                assert forall|l2: int| 0 <= l2 < q implies #[trigger] row(l2) == inner_a(l1)
                    * inner_b(l2) by {}
                lemma_sum_scale(inner_b, row, inner_a(l1), q);
                assert(inner_a(l1) * sb == sb * inner_a(l1)) by (nonlinear_arith);
            }
            lemma_sum_scale(inner_a, blocks, sb, p);
            assert(sb * sa == sa * sb) by (nonlinear_arith);
        }
    }
    assert((a.rows * b.rows) as nat == ac.rows * bd.rows);
    assert((c.cols * d.cols) as nat == ac.cols * bd.cols);
    lemma_mat_ext(mat_mul(ab, cd), mat_kron(ac, bd));
}

} // verus!
