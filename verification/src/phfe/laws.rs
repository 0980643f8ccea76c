//! What the scheme promises: decryption of a ciphertext with a key of a
//! function returns the value of that function, in the exponent of the
//! generator of the target group.
use crate::phfe::algebra::{
    col_vec, lemma_mat_ext, mat_add, mat_columns, mat_hstack, mat_identity, mat_kron, mat_mul,
    mat_neg, mat_vstack, mat_zeros, row_vec, SMat,
};
use crate::phfe::identities::{
    lemma_add_cells, lemma_kron_add_left, lemma_kron_add_right, lemma_kron_cells,
    lemma_kron_mixed_product, lemma_kron_one, lemma_mul_add_left, lemma_mul_add_right,
    lemma_mul_assoc, lemma_mul_blocks, lemma_mul_cells, lemma_mul_columns, lemma_mul_identity,
    lemma_mul_neg_left, lemma_mul_neg_right, lemma_neg_cells, lemma_neg_mod,
};
use crate::phfe::linear_phfe::{
    linear_dec_p1, linear_dec_p2, linear_dec_spec, linear_enc_spec, linear_gen_fsk_spec,
    linear_setup_spec,
};
use crate::phfe::func::{public_assignment, PhfeFunc};
use crate::phfe::matrix::{lemma_exps_reduced, Matrix};
use crate::phfe::utils::ElementKind;
use crate::phfe::{
    lemma_products_fit, lifted_payload, mask_matrix, phfe_dec_spec, phfe_enc_spec,
    phfe_gen_fsk_spec, phfe_setup_spec, Phfe, PhfeCt, PhfeFsk, PhfeMpk, PhfeMsk,
};
use crate::poly::{scalar_values, AssignmentView, PolynomialView};
use crate::scalar::Scalar;
use crate::scalar::{lemma_modulus_large, modulus};
use vstd::arithmetic::div_mod::{
    lemma_add_mod_noop, lemma_add_mod_noop_right, lemma_mod_twice, lemma_small_mod,
};
use vstd::prelude::*;

verus! {

/// Every entry of `x` lies in `[0, r)`.
pub open spec fn reduced_seq(x: Seq<int>) -> bool {
    forall|i: int| 0 <= i < x.len() ==> 0 <= #[trigger] x[i] < modulus()
}

/// The encoding `l0`, `l1` of a function is sound at the public vector `x`
/// for the weights `d1` and `d2`: the matrix `l1 (x (x) I) + l0` sends `d2` to
/// `d1`, put below zeros.
pub open spec fn encoding_sound(l0: SMat, l1: SMat, x: Seq<int>, d1: Seq<int>, d2: Seq<int>) -> bool {
    mat_mul(mat_add(mat_mul(l1, mat_kron(col_vec(x), mat_identity(l0.cols))), l0), col_vec(d2))
        == mat_vstack(mat_zeros((l0.rows - d1.len()) as nat, 1), col_vec(d1))
}

/// In a sum of three matrices, one that is added and taken away again
/// leaves the other.
proof fn lemma_cancel_one(x: SMat, y: SMat, z: SMat)
    requires
        x.rows == y.rows,
        x.cols == y.cols,
        x.rows == z.rows,
        x.cols == z.cols,
    ensures
        mat_add(mat_add(x, y), mat_neg(mat_add(z, y))) == mat_add(x, mat_neg(z)),
{
    let m = modulus();
    lemma_modulus_large();
    lemma_add_cells(x, y);
    lemma_add_cells(z, y);
    lemma_neg_cells(mat_add(z, y));
    lemma_neg_cells(z);
    lemma_add_cells(mat_add(x, y), mat_neg(mat_add(z, y)));
    lemma_add_cells(x, mat_neg(z));
    assert forall|i: int, j: int| 0 <= i < x.rows && 0 <= j < x.cols implies mat_add(
        mat_add(x, y),
        mat_neg(mat_add(z, y)),
    ).at(i, j) == mat_add(x, mat_neg(z)).at(i, j) by {
        let xv = x.at(i, j);
        let yv = y.at(i, j);
        let zv = z.at(i, j);
        lemma_neg_mod(zv + yv, m);
        lemma_add_mod_noop((xv + yv) % m, (-((zv + yv) % m)) % m, m);
        lemma_mod_twice(xv + yv, m);
        lemma_mod_twice(-(zv + yv), m);
        lemma_add_mod_noop(xv + yv, -(zv + yv), m);
        lemma_add_mod_noop_right(xv, -zv, m);
    }
    lemma_mat_ext(mat_add(mat_add(x, y), mat_neg(mat_add(z, y))), mat_add(x, mat_neg(z)));
}

/// In a sum of four matrices, two that are added and taken away again leave
/// the other two.
proof fn lemma_cancel_two(e1: SMat, p: SMat, e0: SMat, q: SMat)
    requires
        e1.rows == p.rows,
        e1.cols == p.cols,
        e1.rows == e0.rows,
        e1.cols == e0.cols,
        e1.rows == q.rows,
        e1.cols == q.cols,
    ensures
        mat_add(mat_add(mat_add(e1, p), mat_add(e0, q)), mat_neg(mat_add(p, q))) == mat_add(e1, e0),
{
    let m = modulus();
    lemma_modulus_large();
    lemma_add_cells(e1, p);
    lemma_add_cells(e0, q);
    lemma_add_cells(p, q);
    lemma_add_cells(e1, e0);
    lemma_add_cells(mat_add(e1, p), mat_add(e0, q));
    lemma_neg_cells(mat_add(p, q));
    let lhs = mat_add(mat_add(mat_add(e1, p), mat_add(e0, q)), mat_neg(mat_add(p, q)));
    lemma_add_cells(mat_add(mat_add(e1, p), mat_add(e0, q)), mat_neg(mat_add(p, q)));
    assert forall|i: int, j: int| 0 <= i < e1.rows && 0 <= j < e1.cols implies lhs.at(i, j)
        == mat_add(e1, e0).at(i, j) by {
        let a = e1.at(i, j);
        let b = p.at(i, j);
        let c = e0.at(i, j);
        let d = q.at(i, j);
        lemma_add_mod_noop(a + b, c + d, m);
        lemma_neg_mod(b + d, m);
        lemma_add_mod_noop(((a + b) % m + (c + d) % m) % m, (-((b + d) % m)) % m, m);
        lemma_mod_twice((a + b) % m + (c + d) % m, m);
        lemma_mod_twice(-(b + d), m);
        lemma_add_mod_noop((a + b) + (c + d), -(b + d), m);
    }
    lemma_mat_ext(lhs, mat_add(e1, e0));
}

/// A reduced matrix to which another is added after its additive inverse is
/// unchanged.
proof fn lemma_cancel_back(x: SMat, w: SMat)
    requires
        x.wf(),
        x.reduced(),
        x.rows == w.rows,
        x.cols == w.cols,
    ensures
        mat_add(mat_add(x, mat_neg(w)), w) == x,
{
    let m = modulus();
    lemma_modulus_large();
    lemma_neg_cells(w);
    lemma_add_cells(x, mat_neg(w));
    lemma_add_cells(mat_add(x, mat_neg(w)), w);
    assert forall|i: int, j: int| 0 <= i < x.rows && 0 <= j < x.cols implies mat_add(
        mat_add(x, mat_neg(w)),
        w,
    ).at(i, j) == x.at(i, j) by {
        let a = x.at(i, j);
        let b = w.at(i, j);
        assert(0 <= a < m);
        lemma_add_mod_noop_right(a, -b, m);
        lemma_add_mod_noop((a + (-b)) % m, b, m);
        lemma_mod_twice(a + (-b), m);
        lemma_add_mod_noop(a + (-b), b, m);
        lemma_small_mod(a as nat, m as nat);
    }
    lemma_mat_ext(mat_add(mat_add(x, mat_neg(w)), w), x);
}

/// The column vector of two sequences, one after the other, is the column
/// vector of the first above that of the second.
proof fn lemma_col_vec_concat(d1: Seq<int>, d2: Seq<int>)
    ensures
        col_vec(d1 + d2) == mat_vstack(col_vec(d1), col_vec(d2)),
{
    let a = col_vec(d1 + d2);
    let b = mat_vstack(col_vec(d1), col_vec(d2));
    assert forall|i: int, j: int| 0 <= i < a.rows && 0 <= j < a.cols implies a.at(i, j) == b.at(
        i,
        j,
    ) by {
        if i < d1.len() {
            assert(col_vec(d1).at(i, j) == d1[i]);
        } else {
            assert(col_vec(d2).at(i - d1.len(), j) == d2[i - d1.len()]);
        }
    }
    lemma_mat_ext(a, b);
}

/// A column or row vector of reduced numbers is a reduced matrix.
proof fn lemma_vec_is(x: Seq<int>)
    requires
        reduced_seq(x),
    ensures
        col_vec(x).is(x.len(), 1),
        row_vec(x).is(1, x.len()),
{
    assert forall|i: int, j: int| 0 <= i < x.len() && 0 <= j < 1 implies 0 <= #[trigger] col_vec(
        x,
    ).at(i, j) < modulus() by {
        assert(col_vec(x).at(i, j) == x[i]);
    }
    assert forall|i: int, j: int| 0 <= i < 1 && 0 <= j < x.len() implies 0 <= #[trigger] row_vec(
        x,
    ).at(i, j) < modulus() by {
        assert(row_vec(x).at(i, j) == x[j]);
    }
}

/// Tensoring with the identity before or after multiplying by `r` gives the
/// Kronecker product of the column vector `x` with `r` either way.
proof fn lemma_tensor_swap(x: Seq<int>, r: SMat)
    requires
        reduced_seq(x),
        r.wf(),
        r.reduced(),
    ensures
        mat_mul(mat_kron(mat_identity(x.len()), r), mat_kron(col_vec(x), mat_identity(r.cols)))
            == mat_kron(col_vec(x), r),
        mat_mul(mat_kron(col_vec(x), mat_identity(r.rows)), r) == mat_kron(col_vec(x), r),
{
    let xc = col_vec(x);
    lemma_vec_is(x);
    lemma_kron_mixed_product(mat_identity(x.len()), r, xc, mat_identity(r.cols));
    lemma_mul_identity(xc);
    lemma_mul_identity(r);
    lemma_kron_one(r);
    lemma_kron_mixed_product(xc, mat_identity(r.rows), mat_identity(1), r);
}

/// Correctness of the linear scheme. For keys made from the field matrices
/// `a`, `w`, `u`, `v`, a ciphertext of the public vector `x` and the private
/// row vector `z` under the randomness `s`, and a key for the encoding `l0`,
/// `l1` and the mask `m` under the randomness `t`, `r`: where the encoding is
/// sound at `x` for the weights `d1`, `d2`, decryption with the weights `d1`
/// followed by `d2` returns `z m d1`.
pub proof fn lemma_linear_round_trip(
    a: SMat,
    w: SMat,
    u: SMat,
    v: SMat,
    x: Seq<int>,
    z: SMat,
    s: SMat,
    l0: SMat,
    l1: SMat,
    m: SMat,
    t: SMat,
    r: SMat,
    d1: Seq<int>,
    d2: Seq<int>,
)
    requires
        a.is(s.cols, s.cols + 1),
        w.is(s.cols + 1, z.cols),
        u.is(s.cols + 1, s.cols * x.len()),
        v.is(s.cols + 1, s.cols),
        s.is(1, s.cols),
        z.is(1, z.cols),
        reduced_seq(x),
        m.is(z.cols, d1.len()),
        l0.is(l0.rows, d2.len()),
        l1.is(l0.rows, d2.len() * x.len()),
        t.is(s.cols + 1, l0.rows),
        r.is(s.cols, d2.len()),
        d1.len() <= l0.rows,
        reduced_seq(d1),
        reduced_seq(d2),
        encoding_sound(l0, l1, x, d1, d2),
    ensures
        linear_dec_spec(
            linear_enc_spec(linear_setup_spec(a, w, u, v).0, x, z, s),
            linear_gen_fsk_spec(linear_setup_spec(a, w, u, v).1, l0, l1, m, t, r, x.len()),
            d1 + d2,
        ) == mat_mul(mat_mul(z, m), col_vec(d1)).at(0, 0),
{
    let keys = linear_setup_spec(a, w, u, v);
    let ct = linear_enc_spec(keys.0, x, z, s);
    let fsk = linear_gen_fsk_spec(keys.1, l0, l1, m, t, r, x.len());
    let k = s.cols;
    let nx = x.len();
    let c0 = d2.len();
    let mc = d1.len();
    let r1 = l0.rows;
    let xk = mat_kron(col_vec(x), mat_identity(k));
    let xc = mat_kron(col_vec(x), mat_identity(c0));
    let xr = mat_kron(col_vec(x), r);
    let kr = mat_kron(mat_identity(nx), r);
    let sa = mat_mul(s, a);
    let wm = mat_mul(w, m);
    let tbar = mat_columns(t, (r1 - mc) as nat, mc);
    let zm = mat_mul(z, m);
    let cd1 = col_vec(d1);
    let cd2 = col_vec(d2);
    let pad = mat_vstack(mat_zeros((r1 - mc) as nat, 1), cd1);
    lemma_vec_is(x);
    lemma_vec_is(d1);
    lemma_vec_is(d2);
    lemma_kron_cells(col_vec(x), mat_identity(k));
    lemma_kron_cells(col_vec(x), mat_identity(c0));
    lemma_kron_cells(col_vec(x), r);
    lemma_kron_cells(mat_identity(nx), r);
    assert(nx * k == k * nx && nx * c0 == c0 * nx && 1 * k == k && 1 * c0 == c0) by (nonlinear_arith);
    assert(ct.sa == sa);
    assert(fsk.tm == mat_add(tbar, wm));
    assert(fsk.l0.cols == c0);
    assert(t.cols - m.cols == r1 - mc);

    // first part: (z + s(aw)) m - (sa)(tbar + wm) = z m - (sa) tbar
    let y = mat_mul(sa, wm);
    let q = mat_mul(sa, tbar);
    let p1 = linear_dec_p1(ct, fsk);
    assert(p1 == mat_add(zm, mat_neg(q))) by {
        let saw = mat_mul(s, mat_mul(a, w));
        lemma_mul_assoc(s, a, w);
        lemma_mul_assoc(sa, w, m);
        assert(mat_mul(saw, m) == y);
        lemma_mul_add_left(z, saw, m);
        lemma_mul_neg_right(sa, mat_add(tbar, wm));
        lemma_mul_add_right(sa, tbar, wm);
        lemma_cancel_one(zm, y, q);
    }

    // second part: (sa)(L1 (x (x) I) + L0) - xv r = (sa) t (l1 (x (x) I) + l0)
    let g = mat_add(mat_mul(l1, xc), l0);
    let st = mat_mul(sa, t);
    let p2 = linear_dec_p2(ct, fsk);
    assert(p2 == mat_mul(st, g)) by {
        let tl1 = mat_mul(t, l1);
        let tl0 = mat_mul(t, l0);
        let ukr = mat_mul(u, kr);
        let vr = mat_mul(v, r);
        let uxr = mat_mul(u, xr);
        let e1 = mat_mul(sa, mat_mul(tl1, xc));
        let e0 = mat_mul(sa, tl0);
        let pp = mat_mul(sa, uxr);
        let qq = mat_mul(sa, vr);
        assert(fsk.l1 == mat_add(tl1, ukr));
        assert(fsk.l0 == mat_add(tl0, vr));
        lemma_tensor_swap(x, r);
        // L1 (x (x) I) = t l1 (x (x) I) + u (x (x) r)
        lemma_mul_add_left(tl1, ukr, xc);
        lemma_mul_assoc(u, kr, xc);
        assert(mat_mul(fsk.l1, xc) == mat_add(mat_mul(tl1, xc), uxr));
        // (sa)(...) = e1 + pp + e0 + qq
        lemma_mul_add_right(sa, mat_add(mat_mul(tl1, xc), uxr), mat_add(tl0, vr));
        lemma_mul_add_right(sa, mat_mul(tl1, xc), uxr);
        lemma_mul_add_right(sa, tl0, vr);
        assert(mat_mul(sa, mat_add(mat_mul(fsk.l1, xc), fsk.l0)) == mat_add(
            mat_add(e1, pp),
            mat_add(e0, qq),
        ));
        // xv r = pp + qq
        let sau = mat_mul(s, mat_mul(a, u));
        let sav = mat_mul(s, mat_mul(a, v));
        assert(ct.xv == mat_add(mat_mul(sau, xk), sav));
        lemma_mul_neg_left(ct.xv, r);
        lemma_mul_add_left(mat_mul(sau, xk), sav, r);
        lemma_mul_assoc(sau, xk, r);
        lemma_mul_assoc(s, a, u);
        lemma_mul_assoc(sa, u, xr);
        lemma_mul_assoc(s, a, v);
        lemma_mul_assoc(sa, v, r);
        assert(mat_mul(ct.xv, r) == mat_add(pp, qq));
        lemma_cancel_two(e1, pp, e0, qq);
        assert(p2 == mat_add(e1, e0));
        // e1 + e0 = (sa t)(l1 (x (x) I) + l0)
        lemma_mul_assoc(t, l1, xc);
        lemma_mul_add_right(t, mat_mul(l1, xc), l0);
        lemma_mul_add_right(sa, mat_mul(t, mat_mul(l1, xc)), tl0);
        lemma_mul_assoc(sa, t, g);
    }

    // together, weighed with d1 and d2
    let wpad = mat_mul(st, pad);
    let zmd = mat_mul(zm, cd1);
    lemma_col_vec_concat(d1, d2);
    lemma_mul_blocks(p1, p2, cd1, cd2);
    assert(mat_mul(p1, cd1) == mat_add(zmd, mat_neg(wpad))) by {
        lemma_mul_add_left(zm, mat_neg(q), cd1);
        lemma_mul_neg_left(q, cd1);
        lemma_mul_assoc(sa, tbar, cd1);
        lemma_mul_columns(t, (r1 - mc) as nat, cd1);
        lemma_mul_assoc(sa, t, pad);
    }
    assert(mat_mul(p2, cd2) == wpad) by {
        lemma_mul_assoc(st, g, cd2);
    }
    lemma_mul_cells(zm, cd1);
    lemma_cancel_back(zmd, wpad);
}

/// Matrices put side by side, or one above the other, are reduced where
/// both are.
proof fn lemma_stack_is(a: SMat, b: SMat)
    requires
        a.wf(),
        a.reduced(),
        b.wf(),
        b.reduced(),
    ensures
        a.rows == b.rows ==> mat_hstack(a, b).is(a.rows, a.cols + b.cols),
        a.cols == b.cols ==> mat_vstack(a, b).is(a.rows + b.rows, a.cols),
{
    if a.rows == b.rows {
        let h = mat_hstack(a, b);
        assert forall|i: int, j: int| 0 <= i < h.rows && 0 <= j < h.cols implies 0 <= #[trigger] h.at(
            i,
            j,
        ) < modulus() by {
            if j < a.cols {
                assert(h.at(i, j) == a.at(i, j));
            } else {
                assert(h.at(i, j) == b.at(i, j - a.cols));
            }
        }
    }
    if a.cols == b.cols {
        let v = mat_vstack(a, b);
        assert forall|i: int, j: int| 0 <= i < v.rows && 0 <= j < v.cols implies 0 <= #[trigger] v.at(
            i,
            j,
        ) < modulus() by {
            if i < a.rows {
                assert(v.at(i, j) == a.at(i, j));
            } else {
                assert(v.at(i, j) == b.at(i - a.rows, j));
            }
        }
    }
}

/// The tensor product of the two masked vectors is that of the private
/// vectors plus the lifted payload times the mask.
proof fn lemma_mask_unfolds(a1: SMat, a2: SMat, z1: Seq<int>, z2: Seq<int>, s1: SMat, s2: SMat)
    requires
        a1.is(s1.cols, z1.len()),
        a2.is(s2.cols, z2.len()),
        s1.is(1, s1.cols),
        s2.is(1, s2.cols),
        reduced_seq(z1),
        reduced_seq(z2),
    ensures
        ({
            let y1 = mat_add(mat_mul(s1, a1), row_vec(z1));
            let y2 = mat_add(mat_mul(s2, a2), row_vec(z2));
            let lz = lifted_payload(s1, z2, y1, s2);
            let mask = mask_matrix(a1, a2, z1.len(), z2.len());
            &&& mat_kron(y1, y2) == mat_add(
                mat_kron(row_vec(z1), row_vec(z2)),
                mat_mul(lz, mask),
            )
            &&& lz.is(1, s1.cols * z2.len() + z1.len() * s2.cols)
            &&& mask.is(s1.cols * z2.len() + z1.len() * s2.cols, z1.len() * z2.len())
        }),
{
    let n1 = z1.len();
    let n2 = z2.len();
    let rz1 = row_vec(z1);
    let rz2 = row_vec(z2);
    let s1a = mat_mul(s1, a1);
    let s2a = mat_mul(s2, a2);
    let y1 = mat_add(s1a, rz1);
    let y2 = mat_add(s2a, rz2);
    let lz = lifted_payload(s1, z2, y1, s2);
    let mask = mask_matrix(a1, a2, n1, n2);
    let ka = mat_kron(s1a, rz2);
    let kb = mat_kron(y1, s2a);
    let kz = mat_kron(rz1, rz2);
    lemma_vec_is(z1);
    lemma_vec_is(z2);
    lemma_mul_cells(s1, a1);
    lemma_mul_cells(s2, a2);
    lemma_add_cells(s1a, rz1);
    lemma_add_cells(s2a, rz2);
    lemma_kron_cells(s1, rz2);
    lemma_kron_cells(y1, s2);
    lemma_kron_cells(a1, mat_identity(n2));
    lemma_kron_cells(mat_identity(n1), a2);
    lemma_kron_cells(s1a, rz2);
    lemma_kron_cells(y1, s2a);
    lemma_kron_cells(rz1, rz2);
    assert(1 * 1 == 1 && n1 * n2 == n2 * n1);
    lemma_stack_is(mat_kron(s1, rz2), mat_kron(y1, s2));
    lemma_stack_is(mat_kron(a1, mat_identity(n2)), mat_kron(mat_identity(n1), a2));
    // the payload times the mask
    lemma_mul_blocks(
        mat_kron(s1, rz2),
        mat_kron(y1, s2),
        mat_kron(a1, mat_identity(n2)),
        mat_kron(mat_identity(n1), a2),
    );
    lemma_kron_mixed_product(s1, rz2, a1, mat_identity(n2));
    lemma_kron_mixed_product(y1, s2, mat_identity(n1), a2);
    lemma_mul_identity(rz2);
    lemma_mul_identity(y1);
    assert(mat_mul(lz, mask) == mat_add(ka, kb));
    // the tensor product of the masked vectors
    lemma_kron_add_right(y1, s2a, rz2);
    lemma_kron_add_left(s1a, rz1, rz2);
    assert(mat_kron(y1, y2) == mat_add(kb, mat_add(ka, kz)));
    lemma_add_cells(ka, kb);
    lemma_add_cells(ka, kz);
    lemma_add_cells(kb, mat_add(ka, kz));
    lemma_add_cells(kz, mat_add(ka, kb));
    let m = modulus();
    lemma_modulus_large();
    assert forall|i: int, j: int| 0 <= i < 1 && 0 <= j < n1 * n2 implies mat_add(
        kb,
        mat_add(ka, kz),
    ).at(i, j) == mat_add(kz, mat_add(ka, kb)).at(i, j) by {
        let av = ka.at(i, j);
        let bv = kb.at(i, j);
        let zv = kz.at(i, j);
        lemma_add_mod_noop_right(bv, av + zv, m);
        lemma_add_mod_noop_right(zv, av + bv, m);
    }
    lemma_mat_ext(mat_add(kb, mat_add(ka, kz)), mat_add(kz, mat_add(ka, kb)));
}

/// Round-trip correctness. For keys made from the field matrices `a`, `w`,
/// `u`, `v`, `a1`, `a2`, a ciphertext of the public vector `x` and the
/// private vectors `z1`, `z2` under the randomness `s1`, `s2`, `s`, and a key
/// under the randomness `t`, `r` for a function whose output polynomials have
/// the values `fx` at `x`, and whose encoding `l0`, `l1` is sound at `x` for
/// the weights `fx` and `d2`: decryption returns the sum of the entries of
/// the tensor product of `z1` and `z2`, each weighed with its entry of `fx`.
/// This holds whatever the randomness, and for private vectors of any
/// lengths, one included.
pub proof fn lemma_round_trip(
    a: SMat,
    w: SMat,
    u: SMat,
    v: SMat,
    a1: SMat,
    a2: SMat,
    x: Seq<int>,
    z1: Seq<int>,
    z2: Seq<int>,
    s1: SMat,
    s2: SMat,
    s: SMat,
    l0: SMat,
    l1: SMat,
    t: SMat,
    r: SMat,
    fx: Seq<int>,
    d2: Seq<int>,
)
    requires
        a.is(s.cols, s.cols + 1),
        w.is(s.cols + 1, s1.cols * z2.len() + z1.len() * s2.cols),
        u.is(s.cols + 1, s.cols * x.len()),
        v.is(s.cols + 1, s.cols),
        a1.is(s1.cols, z1.len()),
        a2.is(s2.cols, z2.len()),
        s1.is(1, s1.cols),
        s2.is(1, s2.cols),
        s.is(1, s.cols),
        reduced_seq(x),
        reduced_seq(z1),
        reduced_seq(z2),
        l0.is(l0.rows, d2.len()),
        l1.is(l0.rows, d2.len() * x.len()),
        t.is(s.cols + 1, l0.rows),
        r.is(s.cols, d2.len()),
        fx.len() == z1.len() * z2.len(),
        fx.len() <= l0.rows,
        reduced_seq(fx),
        reduced_seq(d2),
        encoding_sound(l0, l1, x, fx, d2),
    ensures
        phfe_dec_spec(
            phfe_enc_spec(
                phfe_setup_spec(a, w, u, v, a1, a2, z1.len(), z2.len()).0,
                x,
                z1,
                z2,
                s1,
                s2,
                s,
            ),
            phfe_gen_fsk_spec(
                phfe_setup_spec(a, w, u, v, a1, a2, z1.len(), z2.len()).1,
                l0,
                l1,
                t,
                r,
                x.len(),
            ),
            fx,
            fx + d2,
        ) == mat_mul(mat_kron(row_vec(z1), row_vec(z2)), col_vec(fx)).at(0, 0),
{
    let m = modulus();
    lemma_modulus_large();
    let keys = phfe_setup_spec(a, w, u, v, a1, a2, z1.len(), z2.len());
    let ct = phfe_enc_spec(keys.0, x, z1, z2, s1, s2, s);
    let fsk = phfe_gen_fsk_spec(keys.1, l0, l1, t, r, x.len());
    let mask = mask_matrix(a1, a2, z1.len(), z2.len());
    let lz = lifted_payload(s1, z2, ct.y1, s2);
    let kz = mat_kron(row_vec(z1), row_vec(z2));
    let f = col_vec(fx);
    lemma_mask_unfolds(a1, a2, z1, z2, s1, s2);
    lemma_linear_round_trip(a, w, u, v, x, lz, s, l0, l1, mask, t, r, fx, d2);
    let lin = linear_dec_spec(ct.linear, fsk, fx + d2);
    let lm = mat_mul(lz, mask);
    assert(lin == mat_mul(lm, f).at(0, 0));
    lemma_vec_is(z1);
    lemma_vec_is(z2);
    lemma_kron_cells(row_vec(z1), row_vec(z2));
    lemma_mul_cells(lz, mask);
    lemma_mul_add_left(kz, lm, f);
    lemma_mul_cells(kz, f);
    lemma_mul_cells(lm, f);
    lemma_add_cells(mat_mul(kz, f), mat_mul(lm, f));
    let kf = mat_mul(kz, f).at(0, 0);
    let lf = mat_mul(lm, f).at(0, 0);
    assert(mat_mul(mat_kron(ct.y1, ct.y2), f).at(0, 0) == (kf + lf) % m);
    assert(0 <= kf < m);
    lemma_add_mod_noop((kf + lf) % m, (-lf) % m, m);
    lemma_mod_twice(kf + lf, m);
    lemma_mod_twice(-lf, m);
    lemma_add_mod_noop(kf + lf, -lf, m);
    lemma_small_mod(kf as nat, m as nat);
}

/// Fresh randomness does not change what is decrypted. Two ciphertexts of
/// the same vectors, each under randomness of its own, decrypted with two
/// keys of the same function, each under randomness of its own, give the
/// same value.
pub proof fn lemma_fresh_randomness_same_value(
    a: SMat,
    w: SMat,
    u: SMat,
    v: SMat,
    a1: SMat,
    a2: SMat,
    x: Seq<int>,
    z1: Seq<int>,
    z2: Seq<int>,
    first: (SMat, SMat, SMat, SMat, SMat),
    second: (SMat, SMat, SMat, SMat, SMat),
    l0: SMat,
    l1: SMat,
    fx: Seq<int>,
    d2: Seq<int>,
)
    requires
        a.is(first.2.cols, first.2.cols + 1),
        w.is(first.2.cols + 1, first.0.cols * z2.len() + z1.len() * first.1.cols),
        u.is(first.2.cols + 1, first.2.cols * x.len()),
        v.is(first.2.cols + 1, first.2.cols),
        a1.is(first.0.cols, z1.len()),
        a2.is(first.1.cols, z2.len()),
        first.0.is(1, first.0.cols),
        first.1.is(1, first.1.cols),
        first.2.is(1, first.2.cols),
        first.3.is(first.2.cols + 1, l0.rows),
        first.4.is(first.2.cols, d2.len()),
        second.0.is(1, first.0.cols),
        second.1.is(1, first.1.cols),
        second.2.is(1, first.2.cols),
        second.3.is(first.2.cols + 1, l0.rows),
        second.4.is(first.2.cols, d2.len()),
        reduced_seq(x),
        reduced_seq(z1),
        reduced_seq(z2),
        l0.is(l0.rows, d2.len()),
        l1.is(l0.rows, d2.len() * x.len()),
        fx.len() == z1.len() * z2.len(),
        fx.len() <= l0.rows,
        reduced_seq(fx),
        reduced_seq(d2),
        encoding_sound(l0, l1, x, fx, d2),
    ensures
        ({
            let keys = phfe_setup_spec(a, w, u, v, a1, a2, z1.len(), z2.len());
            phfe_dec_spec(
                phfe_enc_spec(keys.0, x, z1, z2, first.0, first.1, first.2),
                phfe_gen_fsk_spec(keys.1, l0, l1, first.3, first.4, x.len()),
                fx,
                fx + d2,
            ) == phfe_dec_spec(
                phfe_enc_spec(keys.0, x, z1, z2, second.0, second.1, second.2),
                phfe_gen_fsk_spec(keys.1, l0, l1, second.3, second.4, x.len()),
                fx,
                fx + d2,
            )
        }),
{
    lemma_round_trip(
        a,
        w,
        u,
        v,
        a1,
        a2,
        x,
        z1,
        z2,
        first.0,
        first.1,
        first.2,
        l0,
        l1,
        first.3,
        first.4,
        fx,
        d2,
    );
    lemma_round_trip(
        a,
        w,
        u,
        v,
        a1,
        a2,
        x,
        z1,
        z2,
        second.0,
        second.1,
        second.2,
        l0,
        l1,
        second.3,
        second.4,
        fx,
        d2,
    );
}

/// Round-trip correctness for the residues of the randomness. For
/// parameters `scheme` and a function `f` that fits them and is consistent
/// at `x`: whatever the field matrices that the keys, the ciphertext and the
/// function key are made of, decryption gives the value of `f`.
pub proof fn lemma_function_value_in_model(
    scheme: Phfe,
    f: PhfeFunc,
    x: Seq<Scalar>,
    z1: Seq<Scalar>,
    z2: Seq<Scalar>,
    setup: (SMat, SMat, SMat, SMat, SMat, SMat),
    enc: (SMat, SMat, SMat),
    gen_fsk: (SMat, SMat),
)
    requires
        scheme.wf(),
        scheme.fits(&f),
        f.num_private_vars1 == scheme.num_private_vars1,
        f.num_private_vars2 == scheme.num_private_vars2,
        x.len() == scheme.num_public_vars,
        z1.len() == scheme.num_private_vars1,
        z2.len() == scheme.num_private_vars2,
        f.dfx_coeffs.len() == scheme.num_private_vars1 * scheme.num_private_vars2 + f.l0.ncols,
        f.polys.len() >= scheme.num_private_vars1 * scheme.num_private_vars2,
        f.consistent_at(scalar_values(x)),
        setup.0.is(scheme.linear_phfe.k as nat, (scheme.linear_phfe.k + 1) as nat),
        setup.1.is((scheme.linear_phfe.k + 1) as nat, scheme.linear_phfe.num_private_vars as nat),
        setup.2.is(
            (scheme.linear_phfe.k + 1) as nat,
            (scheme.linear_phfe.k * scheme.num_public_vars) as nat,
        ),
        setup.3.is((scheme.linear_phfe.k + 1) as nat, scheme.linear_phfe.k as nat),
        setup.4.is(scheme.k1 as nat, scheme.num_private_vars1 as nat),
        setup.5.is(scheme.k2 as nat, scheme.num_private_vars2 as nat),
        enc.0.is(1, scheme.k1 as nat),
        enc.1.is(1, scheme.k2 as nat),
        enc.2.is(1, scheme.linear_phfe.k as nat),
        gen_fsk.0.is((scheme.linear_phfe.k + 1) as nat, f.l1.nrows as nat),
        gen_fsk.1.is(scheme.linear_phfe.k as nat, f.l0.ncols as nat),
    ensures
        ({
            let keys = phfe_setup_spec(
                setup.0,
                setup.1,
                setup.2,
                setup.3,
                setup.4,
                setup.5,
                scheme.num_private_vars1 as nat,
                scheme.num_private_vars2 as nat,
            );
            let ct = phfe_enc_spec(
                keys.0,
                scalar_values(x),
                scalar_values(z1),
                scalar_values(z2),
                enc.0,
                enc.1,
                enc.2,
            );
            let fsk = phfe_gen_fsk_spec(
                keys.1,
                f.l0.exps(),
                f.l1.exps(),
                gen_fsk.0,
                gen_fsk.1,
                scheme.num_public_vars as nat,
            );
            phfe_dec_spec(
                ct,
                fsk,
                f.output_values(scalar_values(x)),
                f.coefficient_values(scalar_values(x)),
            ) == f.value_at(scalar_values(x), scalar_values(z1), scalar_values(z2))
        }),
{
    let xs = scalar_values(x);
    let fx = f.output_values(xs);
    let d = f.coefficient_values(xs);
    let d2 = d.skip(fx.len() as int);
    lemma_products_fit(scheme.num_private_vars1 as int, scheme.num_private_vars2 as int);
    assert(fx.len() == scheme.num_private_vars1 * scheme.num_private_vars2);
    assert(d.len() == f.dfx_coeffs.len());
    assert(d2.len() == f.l0.ncols);
    lemma_exps_reduced(&f.l0);
    lemma_exps_reduced(&f.l1);
    lemma_values_reduced(x);
    lemma_values_reduced(z1);
    lemma_values_reduced(z2);
    assert(reduced_seq(d)) by {
        assert forall|i: int| 0 <= i < d.len() implies 0 <= #[trigger] d[i] < modulus() by {
            lemma_polynomial_value_reduced(f.dfx_view()[i], public_assignment(xs));
        }
    }
    assert(d =~= fx + d2);
    assert(reduced_seq(fx)) by {
        assert forall|i: int| 0 <= i < fx.len() implies 0 <= #[trigger] fx[i] < modulus() by {
            assert(fx[i] == d[i]);
        }
    }
    assert(reduced_seq(d2)) by {
        assert forall|i: int| 0 <= i < d2.len() implies 0 <= #[trigger] d2[i] < modulus() by {
            assert(d2[i] == d[i + fx.len()]);
        }
    }
    lemma_round_trip(
        setup.0,
        setup.1,
        setup.2,
        setup.3,
        setup.4,
        setup.5,
        xs,
        scalar_values(z1),
        scalar_values(z2),
        enc.0,
        enc.1,
        enc.2,
        f.l0.exps(),
        f.l1.exps(),
        gen_fsk.0,
        gen_fsk.1,
        fx,
        d2,
    );
}

/// Round-trip correctness, in terms of the scheme. For parameters `scheme`
/// and a function `f` that fits them and is consistent at `x`: keys made by
/// `setup_with`, a ciphertext of `x`, `z1`, `z2` made by `enc_with` and a
/// key of `f` made by `gen_fsk_with`, whatever the randomness of each, are
/// decrypted by `dec` to the value of `f` at `x`, `z1`, `z2`, in the
/// exponent of the generator of the target group.
pub proof fn lemma_decryption_is_function_value(
    scheme: Phfe,
    f: PhfeFunc,
    x: Seq<Scalar>,
    z1: Seq<Scalar>,
    z2: Seq<Scalar>,
    setup: (Matrix, Matrix, Matrix, Matrix, Matrix, Matrix),
    enc: (Matrix, Matrix, Matrix),
    gen_fsk: (Matrix, Matrix),
)
    requires
        scheme.wf(),
        scheme.fits(&f),
        f.num_private_vars1 == scheme.num_private_vars1,
        f.num_private_vars2 == scheme.num_private_vars2,
        x.len() == scheme.num_public_vars,
        z1.len() == scheme.num_private_vars1,
        z2.len() == scheme.num_private_vars2,
        f.dfx_coeffs.len() == scheme.num_private_vars1 * scheme.num_private_vars2 + f.l0.ncols,
        f.polys.len() >= scheme.num_private_vars1 * scheme.num_private_vars2,
        f.consistent_at(scalar_values(x)),
        setup.0.is(
            scheme.linear_phfe.k as nat,
            (scheme.linear_phfe.k + 1) as nat,
            ElementKind::Scalar,
        ),
        setup.1.is(
            (scheme.linear_phfe.k + 1) as nat,
            scheme.linear_phfe.num_private_vars as nat,
            ElementKind::Scalar,
        ),
        setup.2.is(
            (scheme.linear_phfe.k + 1) as nat,
            (scheme.linear_phfe.k * scheme.num_public_vars) as nat,
            ElementKind::Scalar,
        ),
        setup.3.is(
            (scheme.linear_phfe.k + 1) as nat,
            scheme.linear_phfe.k as nat,
            ElementKind::Scalar,
        ),
        setup.4.is(scheme.k1 as nat, scheme.num_private_vars1 as nat, ElementKind::Scalar),
        setup.5.is(scheme.k2 as nat, scheme.num_private_vars2 as nat, ElementKind::Scalar),
        enc.0.is(1, scheme.k1 as nat, ElementKind::Scalar),
        enc.1.is(1, scheme.k2 as nat, ElementKind::Scalar),
        enc.2.is(1, scheme.linear_phfe.k as nat, ElementKind::Scalar),
        gen_fsk.0.is((scheme.linear_phfe.k + 1) as nat, f.l1.nrows as nat, ElementKind::Scalar),
        gen_fsk.1.is(scheme.linear_phfe.k as nat, f.l0.ncols as nat, ElementKind::Scalar),
    ensures
        ({
            let keys = phfe_setup_spec(
                setup.0.exps(),
                setup.1.exps(),
                setup.2.exps(),
                setup.3.exps(),
                setup.4.exps(),
                setup.5.exps(),
                scheme.num_private_vars1 as nat,
                scheme.num_private_vars2 as nat,
            );
            let ct = phfe_enc_spec(
                keys.0,
                scalar_values(x),
                scalar_values(z1),
                scalar_values(z2),
                enc.0.exps(),
                enc.1.exps(),
                enc.2.exps(),
            );
            let fsk = phfe_gen_fsk_spec(
                keys.1,
                f.l0.exps(),
                f.l1.exps(),
                gen_fsk.0.exps(),
                gen_fsk.1.exps(),
                scheme.num_public_vars as nat,
            );
            phfe_dec_spec(
                ct,
                fsk,
                f.output_values(scalar_values(x)),
                f.coefficient_values(scalar_values(x)),
            ) == f.value_at(scalar_values(x), scalar_values(z1), scalar_values(z2))
        }),
{
    lemma_exps_reduced(&setup.0);
    lemma_exps_reduced(&setup.1);
    lemma_exps_reduced(&setup.2);
    lemma_exps_reduced(&setup.3);
    lemma_exps_reduced(&setup.4);
    lemma_exps_reduced(&setup.5);
    lemma_exps_reduced(&enc.0);
    lemma_exps_reduced(&enc.1);
    lemma_exps_reduced(&enc.2);
    lemma_exps_reduced(&gen_fsk.0);
    lemma_exps_reduced(&gen_fsk.1);
    lemma_function_value_in_model(
        scheme,
        f,
        x,
        z1,
        z2,
        (
            setup.0.exps(),
            setup.1.exps(),
            setup.2.exps(),
            setup.3.exps(),
            setup.4.exps(),
            setup.5.exps(),
        ),
        (enc.0.exps(), enc.1.exps(), enc.2.exps()),
        (gen_fsk.0.exps(), gen_fsk.1.exps()),
    );
}

/// Round-trip correctness for what the scheme hands out. Keys that `setup`
/// returned, a ciphertext of `x`, `z1`, `z2` that `enc` returned for them,
/// and a key of `f` that `gen_fsk` returned for them are decrypted by `dec`
/// to the value of `f` at `x`, `z1`, `z2`, in the exponent of the generator
/// of the target group, where `f` fits the parameters and is consistent at
/// `x`.
pub proof fn lemma_fresh_decryption_is_function_value(
    scheme: Phfe,
    f: PhfeFunc,
    x: Seq<Scalar>,
    z1: Seq<Scalar>,
    z2: Seq<Scalar>,
    mpk: PhfeMpk,
    msk: PhfeMsk,
    ct: PhfeCt,
    fsk: PhfeFsk,
)
    requires
        scheme.wf(),
        scheme.fits(&f),
        f.num_private_vars1 == scheme.num_private_vars1,
        f.num_private_vars2 == scheme.num_private_vars2,
        x.len() == scheme.num_public_vars,
        z1.len() == scheme.num_private_vars1,
        z2.len() == scheme.num_private_vars2,
        f.dfx_coeffs.len() == scheme.num_private_vars1 * scheme.num_private_vars2 + f.l0.ncols,
        f.polys.len() >= scheme.num_private_vars1 * scheme.num_private_vars2,
        f.consistent_at(scalar_values(x)),
        mpk.wf(&scheme),
        msk.wf(&scheme),
        scheme.keys_made(mpk@, msk@),
        scheme.ciphertext_made(
            mpk@,
            scalar_values(x),
            scalar_values(z1),
            scalar_values(z2),
            ct@,
        ),
        scheme.key_made(msk@, &f, fsk@),
    ensures
        phfe_dec_spec(
            ct@,
            fsk@,
            f.output_values(scalar_values(x)),
            f.coefficient_values(scalar_values(x)),
        ) == f.value_at(scalar_values(x), scalar_values(z1), scalar_values(z2)),
{
    let a1 = choose|a1: SMat|
        a1.is(scheme.k1 as nat, scheme.num_private_vars1 as nat) && (mpk@, msk@)
            == #[trigger] phfe_setup_spec(
            mpk@.linear.a,
            msk@.linear.w,
            msk@.linear.u,
            msk@.linear.v,
            a1,
            mpk@.a2_g2,
            scheme.num_private_vars1 as nat,
            scheme.num_private_vars2 as nat,
        );
    let (s1, s2, s) = choose|s1: SMat, s2: SMat, s: SMat|
        s1.is(1, scheme.k1 as nat) && s2.is(1, scheme.k2 as nat) && s.is(
            1,
            scheme.linear_phfe.k as nat,
        ) && ct@ == #[trigger] phfe_enc_spec(
            mpk@,
            scalar_values(x),
            scalar_values(z1),
            scalar_values(z2),
            s1,
            s2,
            s,
        );
    let (t, r) = choose|t: SMat, r: SMat|
        t.is((scheme.linear_phfe.k + 1) as nat, f.l1.nrows as nat) && r.is(
            scheme.linear_phfe.k as nat,
            f.l0.ncols as nat,
        ) && fsk@ == #[trigger] phfe_gen_fsk_spec(
            msk@,
            f.l0.exps(),
            f.l1.exps(),
            t,
            r,
            scheme.num_public_vars as nat,
        );
    lemma_exps_reduced(&mpk.linear_mpk.a_matrix);
    lemma_exps_reduced(&msk.linear_msk.w_matrix);
    lemma_exps_reduced(&msk.linear_msk.u_matrix);
    lemma_exps_reduced(&msk.linear_msk.v_matrix);
    lemma_exps_reduced(&mpk.a2_g2_matrix);
    lemma_function_value_in_model(
        scheme,
        f,
        x,
        z1,
        z2,
        (mpk@.linear.a, msk@.linear.w, msk@.linear.u, msk@.linear.v, a1, mpk@.a2_g2),
        (s1, s2, s),
        (t, r),
    );
}

/// Round-trip correctness at the boundary. Where one of the private vectors
/// has a single entry, so that the tensor product is the other vector
/// scaled, what the scheme hands out is still decrypted to the value of the
/// function.
pub proof fn lemma_decryption_with_single_private_variable(
    scheme: Phfe,
    f: PhfeFunc,
    x: Seq<Scalar>,
    z1: Seq<Scalar>,
    z2: Seq<Scalar>,
    mpk: PhfeMpk,
    msk: PhfeMsk,
    ct: PhfeCt,
    fsk: PhfeFsk,
)
    requires
        scheme.wf(),
        scheme.fits(&f),
        scheme.num_private_vars1 == 1 || scheme.num_private_vars2 == 1,
        f.num_private_vars1 == scheme.num_private_vars1,
        f.num_private_vars2 == scheme.num_private_vars2,
        x.len() == scheme.num_public_vars,
        z1.len() == scheme.num_private_vars1,
        z2.len() == scheme.num_private_vars2,
        f.dfx_coeffs.len() == scheme.num_private_vars1 * scheme.num_private_vars2 + f.l0.ncols,
        f.polys.len() >= scheme.num_private_vars1 * scheme.num_private_vars2,
        f.consistent_at(scalar_values(x)),
        mpk.wf(&scheme),
        msk.wf(&scheme),
        scheme.keys_made(mpk@, msk@),
        scheme.ciphertext_made(
            mpk@,
            scalar_values(x),
            scalar_values(z1),
            scalar_values(z2),
            ct@,
        ),
        scheme.key_made(msk@, &f, fsk@),
    ensures
        phfe_dec_spec(
            ct@,
            fsk@,
            f.output_values(scalar_values(x)),
            f.coefficient_values(scalar_values(x)),
        ) == f.value_at(scalar_values(x), scalar_values(z1), scalar_values(z2)),
{
    lemma_fresh_decryption_is_function_value(scheme, f, x, z1, z2, mpk, msk, ct, fsk);
}

/// The residues of field elements are reduced.
proof fn lemma_values_reduced(x: Seq<Scalar>)
    ensures
        reduced_seq(scalar_values(x)),
{
    assert forall|i: int| 0 <= i < x.len() implies 0 <= #[trigger] scalar_values(x)[i]
        < modulus() by {
        crate::scalar::lemma_mod_twice(crate::scalar::scalar_residue(x[i]));
    }
}

/// The value of a polynomial is reduced.
proof fn lemma_polynomial_value_reduced(p: PolynomialView, a: AssignmentView)
    ensures
        0 <= p.eval(a) < modulus(),
{
    lemma_modulus_large();
    lemma_small_mod(0, modulus() as nat);
    if p.monomials.len() > 0 {
        vstd::arithmetic::div_mod::lemma_mod_bound(
            crate::poly::sum_of(p.monomials.drop_last(), a) + p.monomials.last().eval(a),
            modulus(),
        );
    }
}

} // verus!
