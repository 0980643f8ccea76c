//! Partially-hiding functional encryption for bilinear functions of two
//! private vectors: the linear scheme, lifted by a tensor product and a mask.
pub mod algebra;
pub mod func;
pub mod identities;
pub mod laws;
pub mod linalg;
pub mod linear_phfe;
pub mod matrix;
pub mod sums;
pub mod utils;

use crate::group::Gt;
use crate::phfe::algebra::{
    col_vec, mat_add, mat_hstack, mat_identity, mat_kron, mat_mul, mat_vstack, row_vec, SMat,
};
use crate::phfe::func::{
    all_covered, all_public_below, first_are_public, lemma_all_public_are_covered,
    public_assignment, values_at, PhfeFunc,
};
use crate::phfe::linear_phfe::{
    copy_scalars, eval_first, linear_dec_spec, linear_enc_spec, linear_gen_fsk_spec,
    linear_setup_spec, LinearCtView, LinearFskView, LinearMpkView, LinearMskView, LinearPhfe,
    LinearPhfeCt, LinearPhfeFsk, LinearPhfeMpk, LinearPhfeMsk,
};
use crate::phfe::matrix::{lemma_exps_reduced, lemma_uniform, Matrix};
use crate::phfe::utils::{
    identity_tensor_product_with_matrix, matrix_tensor_product_with_identity, scalar_matrix_to_g1,
    scalar_matrix_to_g2, scalar_vec_to_g1, scalar_vec_to_g2, ElementKind, PhfeElement,
};
use crate::poly::{scalar_values, Assignment};
use crate::scalar::{add_mod, neg_mod, Scalar};
use vstd::prelude::*;

verus! {

/// The master public key: the two mask matrices in the exponent of G1, the
/// second also in that of G2, the combined mask in that of G2, and the public
/// key of the linear scheme.
#[derive(Clone, PartialEq, Eq)]
pub struct PhfeMpk {
    pub a1_g1_matrix: Matrix,
    pub a2_g1_matrix: Matrix,
    pub a2_g2_matrix: Matrix,
    pub m_matrix: Matrix,
    pub linear_mpk: LinearPhfeMpk,
}

/// The master secret key: that of the linear scheme, and the combined mask in
/// the exponent of G2.
#[derive(Clone, PartialEq, Eq)]
pub struct PhfeMsk {
    pub linear_msk: LinearPhfeMsk,
    pub m_matrix: Matrix,
}

/// A ciphertext: the masked private vectors, the first in G1 and the second
/// in G2, and a ciphertext of the linear scheme.
#[derive(Clone, PartialEq, Eq)]
pub struct PhfeCt {
    pub y1_vec: Matrix,
    pub y2_vec: Matrix,
    pub linear_ct: LinearPhfeCt,
}

/// A function key: one of the linear scheme.
#[derive(Clone, PartialEq, Eq)]
pub struct PhfeFsk {
    pub linear_fsk: LinearPhfeFsk,
}

/// The parameters of the scheme.
#[derive(Debug, Clone, Copy, PartialEq, Eq, Hash)]
pub struct Phfe {
    pub num_public_vars: usize,
    pub num_private_vars1: usize,
    pub num_private_vars2: usize,
    pub k1: usize,
    pub k2: usize,
    pub linear_phfe: LinearPhfe,
}

/// The exponents of a master public key.
pub struct PhfeMpkView {
    pub a1_g1: SMat,
    pub a2_g1: SMat,
    pub a2_g2: SMat,
    pub m: SMat,
    pub linear: LinearMpkView,
}

/// The residues and exponents of a master secret key.
pub struct PhfeMskView {
    pub linear: LinearMskView,
    pub m: SMat,
}

/// The exponents of a ciphertext.
pub struct PhfeCtView {
    pub y1: SMat,
    pub y2: SMat,
    pub linear: LinearCtView,
}

/// The combined mask: `a1` tensored with the identity of size `n2`, above
/// the identity of size `n1` tensored with `a2`.
pub open spec fn mask_matrix(a1: SMat, a2: SMat, n1: nat, n2: nat) -> SMat {
    mat_vstack(mat_kron(a1, mat_identity(n2)), mat_kron(mat_identity(n1), a2))
}

/// The keys that the field matrices `a`, `w`, `u`, `v`, `a1` and `a2` give,
/// for private vectors of lengths `n1` and `n2`.
pub open spec fn phfe_setup_spec(
    a: SMat,
    w: SMat,
    u: SMat,
    v: SMat,
    a1: SMat,
    a2: SMat,
    n1: nat,
    n2: nat,
) -> (PhfeMpkView, PhfeMskView) {
    let linear = linear_setup_spec(a, w, u, v);
    let m = mask_matrix(a1, a2, n1, n2);
    (
        PhfeMpkView { a1_g1: a1, a2_g1: a2, a2_g2: a2, m, linear: linear.0 },
        PhfeMskView { linear: linear.1, m },
    )
}

/// The private row vector that the linear scheme encrypts: `s1` tensored
/// with `z2`, followed by `y1` tensored with `s2`.
pub open spec fn lifted_payload(s1: SMat, z2: Seq<int>, y1: SMat, s2: SMat) -> SMat {
    mat_hstack(mat_kron(s1, row_vec(z2)), mat_kron(y1, s2))
}

/// The ciphertext of the public vector `x` and the private vectors `z1` and
/// `z2` under the randomness `s1`, `s2` and `s`, all row vectors.
pub open spec fn phfe_enc_spec(
    mpk: PhfeMpkView,
    x: Seq<int>,
    z1: Seq<int>,
    z2: Seq<int>,
    s1: SMat,
    s2: SMat,
    s: SMat,
) -> PhfeCtView {
    let y1 = mat_add(mat_mul(s1, mpk.a1_g1), row_vec(z1));
    let y2 = mat_add(mat_mul(s2, mpk.a2_g2), row_vec(z2));
    PhfeCtView {
        y1,
        y2,
        linear: linear_enc_spec(mpk.linear, x, lifted_payload(s1, z2, y1, s2), s),
    }
}

/// The key for the encoding `l0`, `l1` under the randomness `t` and `r`, for
/// `nx` public variables.
pub open spec fn phfe_gen_fsk_spec(
    msk: PhfeMskView,
    l0: SMat,
    l1: SMat,
    t: SMat,
    r: SMat,
    nx: nat,
) -> LinearFskView {
    linear_gen_fsk_spec(msk.linear, l0, l1, msk.m, t, r, nx)
}

/// The exponent of what decryption returns, where `fx` holds the values of
/// the function's output polynomials at the public vector, one for each
/// entry of the tensor product of the private vectors, and `d` those of its
/// coefficient polynomials.
pub open spec fn phfe_dec_spec(ct: PhfeCtView, fsk: LinearFskView, fx: Seq<int>, d: Seq<int>) -> int {
    add_mod(
        mat_mul(mat_kron(ct.y1, ct.y2), col_vec(fx)).at(0, 0),
        neg_mod(linear_dec_spec(ct.linear, fsk, d)),
    )
}

impl PhfeMpk {
    /// The exponents and residues of the matrices.
    pub open spec fn view(&self) -> PhfeMpkView {
        PhfeMpkView {
            a1_g1: self.a1_g1_matrix.exps(),
            a2_g1: self.a2_g1_matrix.exps(),
            a2_g2: self.a2_g2_matrix.exps(),
            m: self.m_matrix.exps(),
            linear: self.linear_mpk@,
        }
    }

    /// The matrices hold elements of their groups and have the shapes that
    /// the parameters `p` ask for.
    pub open spec fn wf(&self, p: &Phfe) -> bool {
        &&& self.a1_g1_matrix.is(p.k1 as nat, p.num_private_vars1 as nat, ElementKind::G1)
        &&& self.a2_g1_matrix.is(p.k2 as nat, p.num_private_vars2 as nat, ElementKind::G1)
        &&& self.a2_g2_matrix.is(p.k2 as nat, p.num_private_vars2 as nat, ElementKind::G2)
        &&& self.m_matrix.is(
            p.linear_phfe.num_private_vars as nat,
            (p.num_private_vars1 * p.num_private_vars2) as nat,
            ElementKind::G2,
        )
        &&& self.linear_mpk.wf(&p.linear_phfe)
    }

    /// Whether the key is well formed for the parameters `p`.
    pub fn check(&self, p: &Phfe) -> (r: bool)
        requires
            p.consistent(),
        ensures
            r == self.wf(p),
    {
        proof {
            lemma_products_fit(p.num_private_vars1 as int, p.num_private_vars2 as int);
        }
        self.a1_g1_matrix.is_shaped(p.k1, p.num_private_vars1, ElementKind::G1)
            && self.a2_g1_matrix.is_shaped(p.k2, p.num_private_vars2, ElementKind::G1)
            && self.a2_g2_matrix.is_shaped(p.k2, p.num_private_vars2, ElementKind::G2)
            && self.m_matrix.is_shaped(
            p.linear_phfe.num_private_vars,
            p.num_private_vars1 * p.num_private_vars2,
            ElementKind::G2,
        ) && self.linear_mpk.check(&p.linear_phfe)
    }
}

impl PhfeMsk {
    /// The exponents and residues of the matrices.
    pub open spec fn view(&self) -> PhfeMskView {
        PhfeMskView { linear: self.linear_msk@, m: self.m_matrix.exps() }
    }

    /// The mask holds G2 elements, and it and the linear key have the shapes
    /// that the parameters `p` ask for.
    pub open spec fn wf(&self, p: &Phfe) -> bool {
        &&& self.m_matrix.is(
            p.linear_phfe.num_private_vars as nat,
            (p.num_private_vars1 * p.num_private_vars2) as nat,
            ElementKind::G2,
        )
        &&& self.linear_msk.wf(&p.linear_phfe)
    }

    /// Whether the key is well formed for the parameters `p`.
    pub fn check(&self, p: &Phfe) -> (r: bool)
        requires
            p.consistent(),
        ensures
            r == self.wf(p),
    {
        proof {
            lemma_products_fit(p.num_private_vars1 as int, p.num_private_vars2 as int);
        }
        self.m_matrix.is_shaped(
            p.linear_phfe.num_private_vars,
            p.num_private_vars1 * p.num_private_vars2,
            ElementKind::G2,
        ) && self.linear_msk.check(&p.linear_phfe)
    }
}

impl PhfeCt {
    /// The exponents and residues of the matrices.
    pub open spec fn view(&self) -> PhfeCtView {
        PhfeCtView { y1: self.y1_vec.exps(), y2: self.y2_vec.exps(), linear: self.linear_ct@ }
    }

    /// The masked vectors are rows of the lengths of the private vectors,
    /// the first in G1 and the second in G2, and the linear ciphertext is
    /// well formed.
    pub open spec fn wf(&self, p: &Phfe) -> bool {
        &&& self.y1_vec.is(1, p.num_private_vars1 as nat, ElementKind::G1)
        &&& self.y2_vec.is(1, p.num_private_vars2 as nat, ElementKind::G2)
        &&& self.linear_ct.wf(&p.linear_phfe)
    }

    /// Whether the ciphertext is well formed for the parameters `p`.
    pub fn check(&self, p: &Phfe) -> (r: bool)
        requires
            p.consistent(),
        ensures
            r == self.wf(p),
    {
        proof {
            lemma_products_fit(p.num_private_vars1 as int, p.num_private_vars2 as int);
        }
        self.y1_vec.is_shaped(1, p.num_private_vars1, ElementKind::G1) && self.y2_vec.is_shaped(
            1,
            p.num_private_vars2,
            ElementKind::G2,
        ) && self.linear_ct.check(&p.linear_phfe)
    }
}

impl PhfeFsk {
    /// The exponents and residues of the matrices.
    pub open spec fn view(&self) -> LinearFskView {
        self.linear_fsk@
    }

    /// Whether the key is well formed for the parameters `p` and an encoding
    /// of `c0` columns.
    pub fn check(&self, p: &Phfe, c0: usize) -> (r: bool)
        requires
            p.consistent(),
        ensures
            r == self.linear_fsk.wf(
                &p.linear_phfe,
                (p.num_private_vars1 * p.num_private_vars2) as nat,
                c0 as nat,
            ),
    {
        proof {
            lemma_products_fit(p.num_private_vars1 as int, p.num_private_vars2 as int);
        }
        self.linear_fsk.check(&p.linear_phfe, p.num_private_vars1 * p.num_private_vars2, c0)
    }
}

impl Phfe {
    /// Whether parameters for encryption can be made of these numbers: the
    /// number of public variables and the security parameter are at least
    /// one, and the shapes that the scheme builds fit the machine.
    pub open spec fn admissible(
        num_public_vars: usize,
        num_private_vars1: usize,
        num_private_vars2: usize,
        k: usize,
    ) -> bool {
        &&& num_public_vars >= 1
        &&& k >= 1
        &&& k + 1 <= usize::MAX
        &&& k * num_public_vars <= usize::MAX
        &&& Self::representable(num_private_vars1, num_private_vars2)
    }

    /// The parameters are as `new` makes them, and the shapes that the
    /// scheme builds fit the machine. Keys can be made for such parameters.
    pub open spec fn consistent(&self) -> bool {
        &&& Self::representable(self.num_private_vars1, self.num_private_vars2)
        &&& self.linear_phfe.representable()
        &&& self.k1 == self.num_private_vars1 + 1
        &&& self.k2 == self.num_private_vars2 + 1
        &&& self.linear_phfe.num_public_vars == self.num_public_vars
        &&& self.linear_phfe.num_private_vars == self.k2 * self.num_private_vars1 + self.k1
            * self.num_private_vars2
    }

    /// The parameters are as `new` makes them from admissible numbers: they
    /// are consistent, and the number of public variables and the security
    /// parameter are at least one. With one of them zero there is no
    /// encryption.
    pub open spec fn wf(&self) -> bool {
        &&& self.consistent()
        &&& self.num_public_vars >= 1
        &&& self.linear_phfe.k >= 1
    }

    /// The function `f` fits these parameters: its encoding fits the linear
    /// scheme with a mask of one column for each entry of the tensor product
    /// of the private vectors.
    pub open spec fn fits(&self, f: &PhfeFunc) -> bool {
        self.linear_phfe.fits(f, (self.num_private_vars1 * self.num_private_vars2) as nat)
    }

    /// The function `f` can be decrypted under these parameters: the private
    /// vectors are not empty, `f` fits, it has an output polynomial for each entry of the tensor product of
    /// the private vectors and a coefficient polynomial for each of these
    /// and each column of `l0`, and all these are polynomials in the public
    /// variables.
    pub open spec fn decryptable(&self, f: &PhfeFunc) -> bool {
        &&& self.num_private_vars1 >= 1
        &&& self.num_private_vars2 >= 1
        &&& self.linear_phfe.decryptable(
            f,
            (self.num_private_vars1 * self.num_private_vars2) as nat,
        )
        &&& f.polys.len() >= self.num_private_vars1 * self.num_private_vars2
        &&& all_public_below(
            f.polys_view().take(self.num_private_vars1 * self.num_private_vars2),
            self.num_public_vars as nat,
        )
    }

    /// Whether the parameters are consistent.
    pub fn is_consistent(&self) -> (r: bool)
        ensures
            r == self.consistent(),
    {
        if !(self.linear_phfe.is_representable() && self.num_private_vars1 < usize::MAX
            && self.num_private_vars2 < usize::MAX) {
            return false;
        }
        let k1 = self.num_private_vars1 + 1;
        let k2 = self.num_private_vars2 + 1;
        proof {
            assert(k2 * self.num_private_vars1 >= 0 && k1 * self.num_private_vars2 >= 0)
                by (nonlinear_arith)
                requires
                    k1 >= 0,
                    k2 >= 0,
                    self.num_private_vars1 >= 0,
                    self.num_private_vars2 >= 0,
            ;
        }
        let length = match k2.checked_mul(self.num_private_vars1) {
            None => {
                return false;
            },
            Some(first) => match k1.checked_mul(self.num_private_vars2) {
                None => {
                    return false;
                },
                Some(second) => match first.checked_add(second) {
                    None => {
                        return false;
                    },
                    Some(length) => length,
                },
            },
        };
        self.k1 == k1 && self.k2 == k2 && self.linear_phfe.num_public_vars == self.num_public_vars
            && self.linear_phfe.num_private_vars == length
    }

    /// Whether the parameters are well formed.
    pub fn is_valid(&self) -> (r: bool)
        ensures
            r == self.wf(),
    {
        self.is_consistent() && self.num_public_vars >= 1 && self.linear_phfe.k >= 1
    }

    /// Whether `f` can be decrypted under these parameters.
    pub fn accepts(&self, f: &PhfeFunc) -> (r: bool)
        requires
            self.wf(),
        ensures
            r == self.decryptable(f),
    {
        proof {
            lemma_products_fit(self.num_private_vars1 as int, self.num_private_vars2 as int);
        }
        let entries = self.num_private_vars1 * self.num_private_vars2;
        self.num_private_vars1 >= 1 && self.num_private_vars2 >= 1
            && self.linear_phfe.can_decrypt(f, entries) && f.polys.len() >= entries
            && first_are_public(
            &f.polys,
            entries,
            self.num_public_vars,
        )
    }

    /// The parameters of `new`, where the numbers are admissible.
    pub fn checked_new(
        num_public_vars: usize,
        num_private_vars1: usize,
        num_private_vars2: usize,
        k: usize,
    ) -> (r: Option<Self>)
        ensures
            r.is_some() == Self::admissible(num_public_vars, num_private_vars1, num_private_vars2, k),
            r.is_some() ==> {
                let p = r.unwrap();
                &&& p.wf()
                &&& p.num_public_vars == num_public_vars
                &&& p.num_private_vars1 == num_private_vars1
                &&& p.num_private_vars2 == num_private_vars2
                &&& p.linear_phfe.k == k
            },
    {
        if num_private_vars1 == usize::MAX || num_private_vars2 == usize::MAX {
            return None;
        }
        let fits = match (num_private_vars2 + 1).checked_mul(num_private_vars1) {
            None => false,
            Some(first) => match (num_private_vars1 + 1).checked_mul(num_private_vars2) {
                None => false,
                Some(second) => first.checked_add(second).is_some(),
            },
        };
        proof {
            assert((num_private_vars2 + 1) * num_private_vars1 >= 0 && (num_private_vars1 + 1)
                * num_private_vars2 >= 0) by (nonlinear_arith);
        }
        if !fits {
            return None;
        }
        let p = Self::new(num_public_vars, num_private_vars1, num_private_vars2, k);
        if num_public_vars >= 1 && k >= 1 && k < usize::MAX && k.checked_mul(
            num_public_vars,
        ).is_some() {
            Some(p)
        } else {
            None
        }
    }

    /// The keys belong together: they are what `phfe_setup_spec` gives for
    /// the field matrices that the secret key holds, the matrix `a` of the
    /// public key, its second mask matrix, and some first mask matrix.
    pub open spec fn keys_made(&self, mpk: PhfeMpkView, msk: PhfeMskView) -> bool {
        exists|a1: SMat|
            a1.is(self.k1 as nat, self.num_private_vars1 as nat) && (mpk, msk)
                == #[trigger] phfe_setup_spec(
                mpk.linear.a,
                msk.linear.w,
                msk.linear.u,
                msk.linear.v,
                a1,
                mpk.a2_g2,
                self.num_private_vars1 as nat,
                self.num_private_vars2 as nat,
            )
    }

    /// `ct` is a ciphertext of `x`, `z1` and `z2` under the key `mpk`: what
    /// `phfe_enc_spec` gives for some randomness of the right shapes.
    pub open spec fn ciphertext_made(
        &self,
        mpk: PhfeMpkView,
        x: Seq<int>,
        z1: Seq<int>,
        z2: Seq<int>,
        ct: PhfeCtView,
    ) -> bool {
        exists|s1: SMat, s2: SMat, s: SMat|
            s1.is(1, self.k1 as nat) && s2.is(1, self.k2 as nat) && s.is(
                1,
                self.linear_phfe.k as nat,
            ) && ct == #[trigger] phfe_enc_spec(mpk, x, z1, z2, s1, s2, s)
    }

    /// `fsk` is a key of the function `f` under the secret key `msk`: what
    /// `phfe_gen_fsk_spec` gives for some randomness of the right shapes.
    pub open spec fn key_made(&self, msk: PhfeMskView, f: &PhfeFunc, fsk: LinearFskView) -> bool {
        exists|t: SMat, r: SMat|
            t.is((self.linear_phfe.k + 1) as nat, f.l1.nrows as nat) && r.is(
                self.linear_phfe.k as nat,
                f.l0.ncols as nat,
            ) && fsk == #[trigger] phfe_gen_fsk_spec(
                msk,
                f.l0.exps(),
                f.l1.exps(),
                t,
                r,
                self.num_public_vars as nat,
            )
    }

    /// The lengths of the randomness and of the private vector of the linear
    /// scheme fit the machine.
    pub open spec fn representable(num_private_vars1: usize, num_private_vars2: usize) -> bool {
        &&& num_private_vars1 + 1 <= usize::MAX
        &&& num_private_vars2 + 1 <= usize::MAX
        &&& (num_private_vars2 + 1) * num_private_vars1 + (num_private_vars1 + 1)
            * num_private_vars2 <= usize::MAX
    }

    /// The parameters for a public vector of length `num_public_vars`,
    /// private vectors of lengths `num_private_vars1` and
    /// `num_private_vars2`, and the security parameter `k`. They are well
    /// formed where the numbers are admissible.
    pub fn new(
        num_public_vars: usize,
        num_private_vars1: usize,
        num_private_vars2: usize,
        k: usize,
    ) -> (r: Self)
        requires
            Self::representable(num_private_vars1, num_private_vars2),
        ensures
            r.num_public_vars == num_public_vars,
            r.num_private_vars1 == num_private_vars1,
            r.num_private_vars2 == num_private_vars2,
            r.k1 == num_private_vars1 + 1,
            r.k2 == num_private_vars2 + 1,
            r.linear_phfe.num_public_vars == num_public_vars,
            r.linear_phfe.num_private_vars == (num_private_vars2 + 1) * num_private_vars1 + (
            num_private_vars1 + 1) * num_private_vars2,
            r.linear_phfe.k == k,
            k + 1 <= usize::MAX && k * num_public_vars <= usize::MAX ==> r.consistent(),
            Self::admissible(num_public_vars, num_private_vars1, num_private_vars2, k) ==> r.wf(),
    {
        proof {
            assert((num_private_vars2 + 1) * num_private_vars1 >= num_private_vars1 && (
            num_private_vars1 + 1) * num_private_vars2 >= num_private_vars2) by (nonlinear_arith);
            assert((num_private_vars2 + 1) * num_private_vars1 >= 0 && (num_private_vars1 + 1)
                * num_private_vars2 >= 0) by (nonlinear_arith);
        }
        let k1 = num_private_vars1 + 1;
        let k2 = num_private_vars2 + 1;
        Self {
            num_public_vars,
            num_private_vars1,
            num_private_vars2,
            k1,
            k2,
            linear_phfe: LinearPhfe::new(
                num_public_vars,
                k2 * num_private_vars1 + k1 * num_private_vars2,
                k,
            ),
        }
    }

    /// The keys that the field matrices `a`, `w`, `u`, `v` of the linear
    /// scheme and the mask matrices `a1` and `a2` give.
    pub fn setup_with(
        &self,
        a: Matrix,
        w: Matrix,
        u: Matrix,
        v: Matrix,
        a1: &Matrix,
        a2: &Matrix,
    ) -> (r: (PhfeMpk, PhfeMsk))
        requires
            self.consistent(),
            a.is(self.linear_phfe.k as nat, (self.linear_phfe.k + 1) as nat, ElementKind::Scalar),
            w.is(
                (self.linear_phfe.k + 1) as nat,
                self.linear_phfe.num_private_vars as nat,
                ElementKind::Scalar,
            ),
            u.is(
                (self.linear_phfe.k + 1) as nat,
                (self.linear_phfe.k * self.num_public_vars) as nat,
                ElementKind::Scalar,
            ),
            v.is((self.linear_phfe.k + 1) as nat, self.linear_phfe.k as nat, ElementKind::Scalar),
            a1.is(self.k1 as nat, self.num_private_vars1 as nat, ElementKind::Scalar),
            a2.is(self.k2 as nat, self.num_private_vars2 as nat, ElementKind::Scalar),
        ensures
            r.0.wf(self),
            r.1.wf(self),
            (r.0@, r.1@) == phfe_setup_spec(
                a.exps(),
                w.exps(),
                u.exps(),
                v.exps(),
                a1.exps(),
                a2.exps(),
                self.num_private_vars1 as nat,
                self.num_private_vars2 as nat,
            ),
    {
        proof {
            lemma_products_fit(self.num_private_vars1 as int, self.num_private_vars2 as int);
        }
        let (linear_mpk, linear_msk) = self.linear_phfe.setup_with(a, w, u, v);
        let a1_rows = matrix_tensor_product_with_identity(a1, self.num_private_vars2);
        let a2_rows = identity_tensor_product_with_matrix(a2, self.num_private_vars1);
        let m_scalar = a1_rows.vstack(&a2_rows);
        let m_matrix = scalar_matrix_to_g2(&m_scalar);
        let a1_g1_matrix = scalar_matrix_to_g1(a1);
        let a2_g1_matrix = scalar_matrix_to_g1(a2);
        let a2_g2_matrix = scalar_matrix_to_g2(a2);
        let mpk = PhfeMpk {
            a1_g1_matrix,
            a2_g1_matrix,
            a2_g2_matrix,
            m_matrix: m_matrix.copy(),
            linear_mpk,
        };
        let msk = PhfeMsk { linear_msk, m_matrix };
        (mpk, msk)
    }

    /// Fresh keys: the six field matrices are drawn from `rng` and handed to
    /// `setup_with`. Keys are made for parameters of zero too; they are
    /// without elements where a shape has a side of zero.
    pub fn setup(&self, rng: &mut rand::rngs::StdRng) -> (r: (PhfeMpk, PhfeMsk))
        requires
            self.consistent(),
        ensures
            r.0.wf(self),
            r.1.wf(self),
            self.keys_made(r.0@, r.1@),
    {
        let k = self.linear_phfe.k;
        let a = Matrix::random_scalars(k, k + 1, rng);
        let w = Matrix::random_scalars(k + 1, self.linear_phfe.num_private_vars, rng);
        let u = Matrix::random_scalars(k + 1, k * self.num_public_vars, rng);
        let v = Matrix::random_scalars(k + 1, k, rng);
        let a1 = Matrix::random_scalars(self.k1, self.num_private_vars1, rng);
        let a2 = Matrix::random_scalars(self.k2, self.num_private_vars2, rng);
        let r = self.setup_with(a, w, u, v, &a1, &a2);
        proof {
            lemma_exps_reduced(&a1);
            assert(a1.exps().is(self.k1 as nat, self.num_private_vars1 as nat) && (r.0@, r.1@)
                == phfe_setup_spec(
                r.0@.linear.a,
                r.1@.linear.w,
                r.1@.linear.u,
                r.1@.linear.v,
                a1.exps(),
                r.0@.a2_g2,
                self.num_private_vars1 as nat,
                self.num_private_vars2 as nat,
            ));
        }
        r
    }

    /// Fresh keys as `setup` makes them, where the parameters are
    /// consistent; nothing otherwise.
    pub fn checked_setup(&self, rng: &mut rand::rngs::StdRng) -> (r: Option<(PhfeMpk, PhfeMsk)>)
        ensures
            r.is_some() == self.consistent(),
            r.is_some() ==> r.unwrap().0.wf(self) && r.unwrap().1.wf(self) && self.keys_made(
                r.unwrap().0@,
                r.unwrap().1@,
            ),
    {
        if self.is_consistent() {
            Some(self.setup(rng))
        } else {
            None
        }
    }

    /// The ciphertext of the public vector `x` and the private vectors `z1`
    /// and `z2` under the randomness `s1`, `s2` and `s`.
    pub fn enc_with(
        &self,
        mpk: &PhfeMpk,
        x: &Vec<Scalar>,
        z1: &Vec<Scalar>,
        z2: &Vec<Scalar>,
        s1: &Matrix,
        s2: &Matrix,
        s: &Matrix,
    ) -> (r: PhfeCt)
        requires
            self.wf(),
            mpk.wf(self),
            x.len() == self.num_public_vars,
            z1.len() == self.num_private_vars1,
            z2.len() == self.num_private_vars2,
            s1.is(1, self.k1 as nat, ElementKind::Scalar),
            s2.is(1, self.k2 as nat, ElementKind::Scalar),
            s.is(1, self.linear_phfe.k as nat, ElementKind::Scalar),
        ensures
            r.wf(self),
            r@ == phfe_enc_spec(
                mpk@,
                scalar_values(x@),
                scalar_values(z1@),
                scalar_values(z2@),
                s1.exps(),
                s2.exps(),
                s.exps(),
            ),
    {
        proof {
            lemma_products_fit(self.num_private_vars1 as int, self.num_private_vars2 as int);
        }
        let z1_row = Matrix::row_from_scalars(z1);
        let z2_row = Matrix::row_from_scalars(z2);
        proof {
            lemma_uniform(s1, ElementKind::Scalar);
            lemma_uniform(s2, ElementKind::Scalar);
            lemma_uniform(&z2_row, ElementKind::Scalar);
            lemma_uniform(&mpk.a1_g1_matrix, ElementKind::G1);
            lemma_uniform(&mpk.a2_g2_matrix, ElementKind::G2);
        }
        let s1a1 = s1.mul(&mpk.a1_g1_matrix);
        let z1_g1 = scalar_vec_to_g1(&z1_row);
        proof {
            lemma_uniform(&s1a1, ElementKind::G1);
        }
        let y1 = s1a1.add(&z1_g1);
        let s2a2 = s2.mul(&mpk.a2_g2_matrix);
        let z2_g2 = scalar_vec_to_g2(&z2_row);
        proof {
            lemma_uniform(&s2a2, ElementKind::G2);
            lemma_uniform(&y1, ElementKind::G1);
        }
        let y2 = s2a2.add(&z2_g2);
        let s1z2_scalar = s1.kronecker(&z2_row);
        let s1z2 = scalar_vec_to_g1(&s1z2_scalar);
        let y1s2 = y1.kronecker(s2);
        let linear_z = s1z2.hstack(&y1s2);
        let linear_ct = self.linear_phfe.enc_with(&mpk.linear_mpk, x, &linear_z, s);
        PhfeCt { y1_vec: y1, y2_vec: y2, linear_ct }
    }

    /// A fresh ciphertext: the randomness is drawn from `rng` and handed to
    /// `enc_with`.
    pub fn enc(
        &self,
        mpk: &PhfeMpk,
        x: &Vec<Scalar>,
        z1: &Vec<Scalar>,
        z2: &Vec<Scalar>,
        rng: &mut rand::rngs::StdRng,
    ) -> (r: PhfeCt)
        requires
            self.wf(),
            mpk.wf(self),
            x.len() == self.num_public_vars,
            z1.len() == self.num_private_vars1,
            z2.len() == self.num_private_vars2,
        ensures
            r.wf(self),
            self.ciphertext_made(
                mpk@,
                scalar_values(x@),
                scalar_values(z1@),
                scalar_values(z2@),
                r@,
            ),
    {
        let s1 = Matrix::random_scalars(1, self.k1, rng);
        let s2 = Matrix::random_scalars(1, self.k2, rng);
        let s = Matrix::random_scalars(1, self.linear_phfe.k, rng);
        let r = self.enc_with(mpk, x, z1, z2, &s1, &s2, &s);
        proof {
            lemma_exps_reduced(&s1);
            lemma_exps_reduced(&s2);
            lemma_exps_reduced(&s);
            assert(s1.exps().is(1, self.k1 as nat) && s2.exps().is(1, self.k2 as nat)
                && s.exps().is(1, self.linear_phfe.k as nat) && r@ == phfe_enc_spec(
                mpk@,
                scalar_values(x@),
                scalar_values(z1@),
                scalar_values(z2@),
                s1.exps(),
                s2.exps(),
                s.exps(),
            ));
        }
        r
    }

    /// A fresh ciphertext as `enc` makes it, where the parameters and the
    /// key are well formed and the vectors have the lengths that the
    /// parameters ask for; nothing otherwise.
    pub fn checked_enc(
        &self,
        mpk: &PhfeMpk,
        x: &Vec<Scalar>,
        z1: &Vec<Scalar>,
        z2: &Vec<Scalar>,
        rng: &mut rand::rngs::StdRng,
    ) -> (r: Option<PhfeCt>)
        ensures
            r.is_some() == (self.wf() && mpk.wf(self) && x.len() == self.num_public_vars && z1.len()
                == self.num_private_vars1 && z2.len() == self.num_private_vars2),
            r.is_some() ==> r.unwrap().wf(self) && self.ciphertext_made(
                mpk@,
                scalar_values(x@),
                scalar_values(z1@),
                scalar_values(z2@),
                r.unwrap()@,
            ),
    {
        if self.is_valid() && mpk.check(self) && x.len() == self.num_public_vars && z1.len()
            == self.num_private_vars1 && z2.len() == self.num_private_vars2 {
            Some(self.enc(mpk, x, z1, z2, rng))
        } else {
            None
        }
    }

    /// A fresh key as `gen_fsk` makes it, where the parameters are
    /// consistent, the secret key is well formed and `f` fits the
    /// parameters; nothing otherwise.
    pub fn checked_gen_fsk(
        &self,
        msk: &PhfeMsk,
        f: &PhfeFunc,
        rng: &mut rand::rngs::StdRng,
    ) -> (r: Option<PhfeFsk>)
        ensures
            r.is_some() == (self.consistent() && msk.wf(self) && self.fits(f)),
            r.is_some() ==> r.unwrap().linear_fsk.wf(
                &self.linear_phfe,
                (self.num_private_vars1 * self.num_private_vars2) as nat,
                f.l0.ncols as nat,
            ) && self.key_made(msk@, f, r.unwrap()@),
    {
        if !self.is_consistent() {
            return None;
        }
        proof {
            lemma_products_fit(self.num_private_vars1 as int, self.num_private_vars2 as int);
        }
        if msk.check(self) && self.linear_phfe.accepts(
            f,
            self.num_private_vars1 * self.num_private_vars2,
        ) {
            Some(self.gen_fsk(msk, f, rng))
        } else {
            None
        }
    }

    /// What `dec` returns, where the parameters, the ciphertext and the key
    /// are well formed and `f` can be decrypted; nothing otherwise.
    pub fn checked_dec(&self, ct: &PhfeCt, f: &PhfeFunc, fsk: &PhfeFsk) -> (r: Option<Gt>)
        ensures
            r.is_some() == (self.wf() && ct.wf(self) && self.decryptable(f) && fsk.linear_fsk.wf(
                &self.linear_phfe,
                (self.num_private_vars1 * self.num_private_vars2) as nat,
                f.l0.ncols as nat,
            )),
            r.is_some() ==> r.unwrap().exp() == phfe_dec_spec(
                ct@,
                fsk@,
                values_at(
                    f.polys_view().take(self.num_private_vars1 * self.num_private_vars2),
                    public_assignment(scalar_values(ct.linear_ct.x@)),
                ),
                values_at(f.dfx_view(), public_assignment(scalar_values(ct.linear_ct.x@))),
            ),
    {
        if self.is_valid() && ct.check(self) && self.accepts(f) && fsk.check(self, f.l0.ncols) {
            proof {
                lemma_decryptable_is_covered(self, f, scalar_values(ct.linear_ct.x@));
            }
            Some(self.dec(ct, f, fsk))
        } else {
            None
        }
    }

    /// The key for the function `f` under the randomness `t` and `r`.
    pub fn gen_fsk_with(&self, msk: &PhfeMsk, f: &PhfeFunc, t: &Matrix, r: &Matrix) -> (fsk: PhfeFsk)
        requires
            self.consistent(),
            msk.wf(self),
            self.fits(f),
            t.is((self.linear_phfe.k + 1) as nat, f.l1.nrows as nat, ElementKind::Scalar),
            r.is(self.linear_phfe.k as nat, f.l0.ncols as nat, ElementKind::Scalar),
        ensures
            fsk.linear_fsk.wf(
                &self.linear_phfe,
                (self.num_private_vars1 * self.num_private_vars2) as nat,
                f.l0.ncols as nat,
            ),
            fsk@ == phfe_gen_fsk_spec(
                msk@,
                f.l0.exps(),
                f.l1.exps(),
                t.exps(),
                r.exps(),
                self.num_public_vars as nat,
            ),
    {
        proof {
            lemma_products_fit(self.num_private_vars1 as int, self.num_private_vars2 as int);
        }
        let linear_fsk = self.linear_phfe.gen_fsk_with(&msk.linear_msk, f, &msk.m_matrix, t, r);
        PhfeFsk { linear_fsk }
    }

    /// A fresh key for the function `f`: made by the linear scheme for `f`
    /// and the mask of the secret key.
    pub fn gen_fsk(&self, msk: &PhfeMsk, f: &PhfeFunc, rng: &mut rand::rngs::StdRng) -> (fsk:
        PhfeFsk)
        requires
            self.consistent(),
            msk.wf(self),
            self.fits(f),
        ensures
            fsk.linear_fsk.wf(
                &self.linear_phfe,
                (self.num_private_vars1 * self.num_private_vars2) as nat,
                f.l0.ncols as nat,
            ),
            self.key_made(msk@, f, fsk@),
    {
        proof {
            lemma_products_fit(self.num_private_vars1 as int, self.num_private_vars2 as int);
        }
        let linear_fsk = self.linear_phfe.gen_fsk(&msk.linear_msk, f, &msk.m_matrix, rng);
        let fsk = PhfeFsk { linear_fsk };
        proof {
            let (t, r) = choose|t: SMat, r: SMat|
                t.is((self.linear_phfe.k + 1) as nat, f.l1.nrows as nat) && r.is(
                    self.linear_phfe.k as nat,
                    f.l0.ncols as nat,
                ) && linear_fsk@ == linear_gen_fsk_spec(
                    msk.linear_msk@,
                    f.l0.exps(),
                    f.l1.exps(),
                    msk.m_matrix.exps(),
                    t,
                    r,
                    self.num_public_vars as nat,
                );
            assert(fsk@ == phfe_gen_fsk_spec(
                msk@,
                f.l0.exps(),
                f.l1.exps(),
                t,
                r,
                self.num_public_vars as nat,
            ));
        }
        fsk
    }

    /// Decrypts `ct` with the key `fsk` of the function `f`: the pairing of
    /// the tensor product of the two masked vectors, weighed with the values
    /// of the output polynomials at the public vector, less what the linear
    /// scheme decrypts.
    pub fn dec(&self, ct: &PhfeCt, f: &PhfeFunc, fsk: &PhfeFsk) -> (r: Gt)
        requires
            self.wf(),
            self.num_private_vars1 >= 1,
            self.num_private_vars2 >= 1,
            ct.wf(self),
            self.fits(f),
            fsk.linear_fsk.wf(
                &self.linear_phfe,
                (self.num_private_vars1 * self.num_private_vars2) as nat,
                f.l0.ncols as nat,
            ),
            f.dfx_coeffs.len() == self.num_private_vars1 * self.num_private_vars2 + f.l0.ncols,
            f.polys.len() >= self.num_private_vars1 * self.num_private_vars2,
            all_covered(f.dfx_view(), public_assignment(scalar_values(ct.linear_ct.x@))),
            all_covered(
                f.polys_view().take(self.num_private_vars1 * self.num_private_vars2),
                public_assignment(scalar_values(ct.linear_ct.x@)),
            ),
        ensures
            r.exp() == phfe_dec_spec(
                ct@,
                fsk@,
                values_at(
                    f.polys_view().take(self.num_private_vars1 * self.num_private_vars2),
                    public_assignment(scalar_values(ct.linear_ct.x@)),
                ),
                values_at(f.dfx_view(), public_assignment(scalar_values(ct.linear_ct.x@))),
            ),
    {
        proof {
            lemma_products_fit(self.num_private_vars1 as int, self.num_private_vars2 as int);
        }
        let linear_dec = self.linear_phfe.dec(&ct.linear_ct, f, &fsk.linear_fsk);
        proof {
            lemma_uniform(&ct.y1_vec, ElementKind::G1);
            lemma_uniform(&ct.y2_vec, ElementKind::G2);
        }
        let y1y2 = ct.y1_vec.kronecker(&ct.y2_vec);
        let assignment = Assignment::new(copy_scalars(&ct.linear_ct.x), Vec::new());
        proof {
            assert(assignment@.public == scalar_values(ct.linear_ct.x@));
            assert(assignment@.private =~= Seq::<int>::empty());
            assert(assignment@ == public_assignment(scalar_values(ct.linear_ct.x@)));
        }
        let fx = eval_first(&f.polys, y1y2.ncols, &assignment);
        let fx_vec = Matrix::column_from_scalars(&fx);
        proof {
            lemma_uniform(&y1y2, ElementKind::Gt);
            lemma_uniform(&fx_vec, ElementKind::Scalar);
        }
        let y1y2f = y1y2.mul(&fx_vec);
        let e = y1y2f.get(0, 0);
        proof {
            assert(y1y2f.at(0, 0).kind() == ElementKind::Gt);
            assert(y1y2f.exps().at(0, 0) == y1y2f.at(0, 0).exp());
        }
        match e {
            PhfeElement::Gt(g) => g.add(&linear_dec.neg()),
            _ => vstd::pervasive::unreached(),
        }
    }
}

/// A function that can be decrypted has values at every public vector of
/// the length that the parameters ask for, which is what `dec` asks of it.
pub proof fn lemma_decryptable_is_covered(scheme: &Phfe, f: &PhfeFunc, x: Seq<int>)
    requires
        scheme.wf(),
        scheme.decryptable(f),
        x.len() == scheme.num_public_vars,
    ensures
        scheme.num_private_vars1 >= 1,
        scheme.num_private_vars2 >= 1,
        scheme.fits(f),
        f.dfx_coeffs.len() == scheme.num_private_vars1 * scheme.num_private_vars2 + f.l0.ncols,
        f.polys.len() >= scheme.num_private_vars1 * scheme.num_private_vars2,
        all_covered(f.dfx_view(), public_assignment(x)),
        all_covered(
            f.polys_view().take(scheme.num_private_vars1 * scheme.num_private_vars2),
            public_assignment(x),
        ),
{
    lemma_all_public_are_covered(f.dfx_view(), x);
    lemma_all_public_are_covered(
        f.polys_view().take(scheme.num_private_vars1 * scheme.num_private_vars2),
        x,
    );
}

/// Where the shapes of the lifted scheme fit the machine, so do the products
/// of the lengths of the private vectors that it builds on the way.
pub proof fn lemma_products_fit(n1: int, n2: int)
    requires
        n1 >= 0,
        n2 >= 0,
    ensures
        n1 * n2 >= 0,
        n1 >= 1 && n2 >= 1 ==> n1 * n2 >= 1,
        n1 * n2 == n2 * n1,
        (n1 + 1) * n2 == n1 * n2 + n2,
        (n2 + 1) * n1 == n1 * n2 + n1,
        n2 * (n1 + 1) == n1 * n2 + n2,
        n1 * (n2 + 1) == n1 * n2 + n1,
        1 * n1 == n1,
        1 * n2 == n2,
        1 * (n1 + 1) == n1 + 1,
        1 * (n2 + 1) == n2 + 1,
        1 * 1 == 1,
{
    assert(n1 * n2 >= 0) by (nonlinear_arith)
        requires
            n1 >= 0,
            n2 >= 0,
    ;
    if n1 >= 1 && n2 >= 1 {
        assert(n1 * n2 >= 1) by (nonlinear_arith)
            requires
                n1 >= 1,
                n2 >= 1,
        ;
    }
    assert(n1 * n2 == n2 * n1) by (nonlinear_arith);
    assert((n1 + 1) * n2 == n1 * n2 + n2) by (nonlinear_arith);
    assert((n2 + 1) * n1 == n1 * n2 + n1) by (nonlinear_arith);
    assert(n2 * (n1 + 1) == n1 * n2 + n2) by (nonlinear_arith);
    assert(n1 * (n2 + 1) == n1 * n2 + n1) by (nonlinear_arith);
}

} // verus!
