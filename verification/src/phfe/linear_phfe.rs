//! The base scheme: functional encryption for linear functions of one private
//! vector, with a public vector beside it.
use crate::group::Gt;
use crate::phfe::algebra::{
    col_vec, mat_add, mat_columns, mat_hstack, mat_identity, mat_kron, mat_mul, mat_neg, SMat,
};
use crate::phfe::func::{
    all_covered, all_public_below, first_are_public, public_assignment, values_at, PhfeFunc,
};
use crate::phfe::matrix::{lemma_uniform, Matrix};
use crate::phfe::utils::{
    identity_tensor_product_with_matrix, mul_defined, mul_kind, scalar_matrix_to_g1,
    scalar_matrix_to_g2, vec_tensor_product_with_identity, ElementKind, PhfeElement,
};
use crate::poly::{scalar_values, Assignment};
use crate::scalar::Scalar;
use vstd::prelude::*;

verus! {

/// The master public key: `A`, `A W`, `A U` and `A V` in the exponent of G1.
#[derive(Clone, PartialEq, Eq)]
pub struct LinearPhfeMpk {
    pub a_matrix: Matrix,
    pub aw_matrix: Matrix,
    pub au_matrix: Matrix,
    pub av_matrix: Matrix,
}

/// The master secret key: the field matrices `W`, `U` and `V`.
#[derive(Clone, PartialEq, Eq)]
pub struct LinearPhfeMsk {
    pub w_matrix: Matrix,
    pub u_matrix: Matrix,
    pub v_matrix: Matrix,
}

/// A ciphertext: three row vectors in G1 and the public vector in the clear.
#[derive(Clone, PartialEq, Eq)]
pub struct LinearPhfeCt {
    pub sa_vec: Matrix,
    pub z_vec: Matrix,
    pub x_vec: Matrix,
    pub x: Vec<Scalar>,
}

/// A function key: five matrices in G2.
#[derive(Clone, PartialEq, Eq)]
pub struct LinearPhfeFsk {
    pub tm_matrix: Matrix,
    pub l1_matrix: Matrix,
    pub l0_matrix: Matrix,
    pub r_matrix: Matrix,
    pub m_matrix: Matrix,
}

/// The parameters of the scheme: the lengths of the public and of the private
/// vector, and the security parameter `k`.
#[derive(Debug, Clone, Copy, PartialEq, Eq, Hash)]
pub struct LinearPhfe {
    pub num_public_vars: usize,
    pub num_private_vars: usize,
    pub k: usize,
}

/// The exponents of a master public key.
pub struct LinearMpkView {
    pub a: SMat,
    pub aw: SMat,
    pub au: SMat,
    pub av: SMat,
}

/// The residues of a master secret key.
pub struct LinearMskView {
    pub w: SMat,
    pub u: SMat,
    pub v: SMat,
}

/// The exponents of a ciphertext, and the residues of its public vector.
pub struct LinearCtView {
    pub sa: SMat,
    pub z: SMat,
    pub xv: SMat,
    pub x: Seq<int>,
}

/// The exponents of a function key.
pub struct LinearFskView {
    pub tm: SMat,
    pub l1: SMat,
    pub l0: SMat,
    pub r: SMat,
    pub m: SMat,
}

/// The keys that the field matrices `a`, `w`, `u` and `v` give.
pub open spec fn linear_setup_spec(a: SMat, w: SMat, u: SMat, v: SMat) -> (
    LinearMpkView,
    LinearMskView,
) {
    (
        LinearMpkView { a, aw: mat_mul(a, w), au: mat_mul(a, u), av: mat_mul(a, v) },
        LinearMskView { w, u, v },
    )
}

/// The ciphertext of the public vector `x` and the private row vector `z`
/// under the randomness `s`, a row vector of length `k`.
pub open spec fn linear_enc_spec(mpk: LinearMpkView, x: Seq<int>, z: SMat, s: SMat) -> LinearCtView {
    LinearCtView {
        sa: mat_mul(s, mpk.a),
        z: mat_add(z, mat_mul(s, mpk.aw)),
        xv: mat_add(
            mat_mul(mat_mul(s, mpk.au), mat_kron(col_vec(x), mat_identity(s.cols))),
            mat_mul(s, mpk.av),
        ),
        x,
    }
}

/// The key for the encoding `l0`, `l1` and the mask `m` under the randomness
/// `t` and `r`, for `nx` public variables.
pub open spec fn linear_gen_fsk_spec(
    msk: LinearMskView,
    l0: SMat,
    l1: SMat,
    m: SMat,
    t: SMat,
    r: SMat,
    nx: nat,
) -> LinearFskView {
    LinearFskView {
        tm: mat_add(mat_columns(t, (t.cols - m.cols) as nat, m.cols), mat_mul(msk.w, m)),
        l1: mat_add(mat_mul(t, l1), mat_mul(msk.u, mat_kron(mat_identity(nx), r))),
        l0: mat_add(mat_mul(t, l0), mat_mul(msk.v, r)),
        r,
        m,
    }
}

/// The first part of what decryption weighs: one entry for each column of
/// the mask.
pub open spec fn linear_dec_p1(ct: LinearCtView, fsk: LinearFskView) -> SMat {
    mat_add(mat_mul(ct.z, fsk.m), mat_mul(ct.sa, mat_neg(fsk.tm)))
}

/// The second part of what decryption weighs: one entry for each column of
/// `l0`.
pub open spec fn linear_dec_p2(ct: LinearCtView, fsk: LinearFskView) -> SMat {
    mat_add(
        mat_mul(
            ct.sa,
            mat_add(mat_mul(fsk.l1, mat_kron(col_vec(ct.x), mat_identity(fsk.l0.cols))), fsk.l0),
        ),
        mat_mul(mat_neg(ct.xv), fsk.r),
    )
}

/// The exponent of what decryption returns, where `d` holds the values of
/// the function's coefficient polynomials at the public vector.
pub open spec fn linear_dec_spec(ct: LinearCtView, fsk: LinearFskView, d: Seq<int>) -> int {
    mat_mul(mat_hstack(linear_dec_p1(ct, fsk), linear_dec_p2(ct, fsk)), col_vec(d)).at(0, 0)
}

impl LinearPhfeMpk {
    /// The exponents and residues of the matrices.
    pub open spec fn view(&self) -> LinearMpkView {
        LinearMpkView {
            a: self.a_matrix.exps(),
            aw: self.aw_matrix.exps(),
            au: self.au_matrix.exps(),
            av: self.av_matrix.exps(),
        }
    }

    /// The four matrices hold G1 elements and have the shapes that the
    /// parameters `p` ask for.
    pub open spec fn wf(&self, p: &LinearPhfe) -> bool {
        &&& self.a_matrix.is(p.k as nat, (p.k + 1) as nat, ElementKind::G1)
        &&& self.aw_matrix.is(p.k as nat, p.num_private_vars as nat, ElementKind::G1)
        &&& self.au_matrix.is(p.k as nat, (p.k * p.num_public_vars) as nat, ElementKind::G1)
        &&& self.av_matrix.is(p.k as nat, p.k as nat, ElementKind::G1)
    }

    /// Whether the key is well formed for the parameters `p`.
    pub fn check(&self, p: &LinearPhfe) -> (r: bool)
        requires
            p.representable(),
        ensures
            r == self.wf(p),
    {
        self.a_matrix.is_shaped(p.k, p.k + 1, ElementKind::G1) && self.aw_matrix.is_shaped(
            p.k,
            p.num_private_vars,
            ElementKind::G1,
        ) && self.au_matrix.is_shaped(p.k, p.k * p.num_public_vars, ElementKind::G1)
            && self.av_matrix.is_shaped(p.k, p.k, ElementKind::G1)
    }
}

impl LinearPhfeMsk {
    /// The exponents and residues of the matrices.
    pub open spec fn view(&self) -> LinearMskView {
        LinearMskView {
            w: self.w_matrix.exps(),
            u: self.u_matrix.exps(),
            v: self.v_matrix.exps(),
        }
    }

    /// The three matrices hold field elements and have the shapes that the
    /// parameters `p` ask for.
    pub open spec fn wf(&self, p: &LinearPhfe) -> bool {
        &&& self.w_matrix.is((p.k + 1) as nat, p.num_private_vars as nat, ElementKind::Scalar)
        &&& self.u_matrix.is((p.k + 1) as nat, (p.k * p.num_public_vars) as nat, ElementKind::Scalar)
        &&& self.v_matrix.is((p.k + 1) as nat, p.k as nat, ElementKind::Scalar)
    }

    /// Whether the key is well formed for the parameters `p`.
    pub fn check(&self, p: &LinearPhfe) -> (r: bool)
        requires
            p.representable(),
        ensures
            r == self.wf(p),
    {
        self.w_matrix.is_shaped(p.k + 1, p.num_private_vars, ElementKind::Scalar)
            && self.u_matrix.is_shaped(p.k + 1, p.k * p.num_public_vars, ElementKind::Scalar)
            && self.v_matrix.is_shaped(p.k + 1, p.k, ElementKind::Scalar)
    }
}

impl LinearPhfeCt {
    /// The exponents and residues of the matrices.
    pub open spec fn view(&self) -> LinearCtView {
        LinearCtView {
            sa: self.sa_vec.exps(),
            z: self.z_vec.exps(),
            xv: self.x_vec.exps(),
            x: scalar_values(self.x@),
        }
    }

    /// The three vectors are rows of G1 elements of the lengths that the
    /// parameters `p` ask for, and so is the public vector.
    pub open spec fn wf(&self, p: &LinearPhfe) -> bool {
        &&& self.sa_vec.is(1, (p.k + 1) as nat, ElementKind::G1)
        &&& self.z_vec.is(1, p.num_private_vars as nat, ElementKind::G1)
        &&& self.x_vec.is(1, p.k as nat, ElementKind::G1)
        &&& self.x.len() == p.num_public_vars
    }

    /// Whether the ciphertext is well formed for the parameters `p`.
    pub fn check(&self, p: &LinearPhfe) -> (r: bool)
        requires
            p.representable(),
        ensures
            r == self.wf(p),
    {
        self.sa_vec.is_shaped(1, p.k + 1, ElementKind::G1) && self.z_vec.is_shaped(
            1,
            p.num_private_vars,
            ElementKind::G1,
        ) && self.x_vec.is_shaped(1, p.k, ElementKind::G1) && self.x.len() == p.num_public_vars
    }
}

impl LinearPhfeFsk {
    /// The exponents and residues of the matrices.
    pub open spec fn view(&self) -> LinearFskView {
        LinearFskView {
            tm: self.tm_matrix.exps(),
            l1: self.l1_matrix.exps(),
            l0: self.l0_matrix.exps(),
            r: self.r_matrix.exps(),
            m: self.m_matrix.exps(),
        }
    }

    /// The five matrices hold G2 elements and have the shapes that the
    /// parameters `p` ask for, for a mask of `mc` columns and an encoding of
    /// `c0` columns.
    pub open spec fn wf(&self, p: &LinearPhfe, mc: nat, c0: nat) -> bool {
        &&& self.tm_matrix.is((p.k + 1) as nat, mc, ElementKind::G2)
        &&& self.l1_matrix.is((p.k + 1) as nat, c0 * (p.num_public_vars as nat), ElementKind::G2)
        &&& self.l0_matrix.is((p.k + 1) as nat, c0, ElementKind::G2)
        &&& self.r_matrix.is(p.k as nat, c0, ElementKind::G2)
        &&& self.m_matrix.is(p.num_private_vars as nat, mc, ElementKind::G2)
    }

    /// Whether the key is well formed for the parameters `p`, a mask of `mc`
    /// columns and an encoding of `c0` columns.
    pub fn check(&self, p: &LinearPhfe, mc: usize, c0: usize) -> (r: bool)
        requires
            p.representable(),
        ensures
            r == self.wf(p, mc as nat, c0 as nat),
    {
        match c0.checked_mul(p.num_public_vars) {
            None => false,
            Some(width) => {
                self.tm_matrix.is_shaped(p.k + 1, mc, ElementKind::G2) && self.l1_matrix.is_shaped(
                    p.k + 1,
                    width,
                    ElementKind::G2,
                ) && self.l0_matrix.is_shaped(p.k + 1, c0, ElementKind::G2)
                    && self.r_matrix.is_shaped(p.k, c0, ElementKind::G2)
                    && self.m_matrix.is_shaped(p.num_private_vars, mc, ElementKind::G2)
            },
        }
    }
}

/// The product of two matrices of known kinds. The first may be without
/// rows or the second without columns, and the product is without elements
/// then. Where the two have no column and row to multiply, a product with
/// elements holds the zero of the field, so its kind must be that of the
/// field.
fn product(a: &Matrix, b: &Matrix, Ghost(ka): Ghost<ElementKind>, Ghost(kb): Ghost<ElementKind>) -> (r:
    Matrix)
    requires
        a.wf(),
        b.wf(),
        a.ncols == b.nrows,
        a.ncols > 0 || a.nrows == 0 || b.ncols == 0 || mul_kind(ka, kb) == ElementKind::Scalar,
        a.all_kind(ka),
        b.all_kind(kb),
        mul_defined(ka, kb),
    ensures
        r.is(a.nrows as nat, b.ncols as nat, mul_kind(ka, kb)),
        r.exps() == mat_mul(a.exps(), b.exps()),
{
    proof {
        lemma_uniform(a, ka);
        lemma_uniform(b, kb);
    }
    a.mul(b)
}

/// The sum of two matrices of one shape and one known kind, which may be
/// without columns.
fn sum(a: &Matrix, b: &Matrix, Ghost(k): Ghost<ElementKind>) -> (r: Matrix)
    requires
        a.wf(),
        b.wf(),
        a.nrows == b.nrows,
        a.ncols == b.ncols,
        a.all_kind(k),
        b.all_kind(k),
    ensures
        r.is(a.nrows as nat, a.ncols as nat, k),
        r.exps() == mat_add(a.exps(), b.exps()),
{
    proof {
        lemma_uniform(a, k);
    }
    a.add(b)
}

/// A copy of a vector of field elements.
pub fn copy_scalars(v: &Vec<Scalar>) -> (r: Vec<Scalar>)
    ensures
        r@ == v@,
{
    let n = v.len();
    let mut r: Vec<Scalar> = Vec::new();
    let mut i: usize = 0;
    while i < n
        invariant
            i <= n,
            n == v.len(),
            r.len() == i,
            forall|j: int| 0 <= j < i ==> r[j] == v[j],
        decreases n - i,
    {
        r.push(v[i]);
        i += 1;
    }
    proof {
        assert(r@ =~= v@);
    }
    r
}

impl LinearPhfe {
    /// The shapes that the parameters ask for fit the machine. Keys can be
    /// made for such parameters.
    pub open spec fn representable(&self) -> bool {
        &&& self.k + 1 <= usize::MAX
        &&& self.k * self.num_public_vars <= usize::MAX
    }

    /// The parameters are representable, and the security parameter and the
    /// number of public variables are at least one. With one of them zero, a
    /// product in encryption would have no term and be the zero of the
    /// field, which cannot be added to a group element.
    pub open spec fn wf(&self) -> bool {
        &&& self.k >= 1
        &&& self.num_public_vars >= 1
        &&& self.representable()
    }

    /// A mask of `mc` columns goes with the private vector: where the
    /// private vector is empty, so is the mask. The product of an empty
    /// vector with a mask that has columns would hold zeros of the field,
    /// which cannot be added to group elements.
    pub open spec fn masks(&self, mc: nat) -> bool {
        self.num_private_vars >= 1 || mc == 0
    }

    /// The encoding of `f` and a mask of `mc` columns fit these parameters:
    /// `k` is below the number of columns of `l0`, the mask has no more
    /// columns than `l1` has rows, and the shapes of `l0` and `l1` agree with
    /// each other and with the number of public variables.
    pub open spec fn fits(&self, f: &PhfeFunc, mc: nat) -> bool {
        &&& f.wf()
        &&& self.k < f.l0.ncols
        &&& mc <= f.l1.nrows
        &&& f.l0.nrows == f.l1.nrows
        &&& f.l1.ncols == f.l0.ncols * self.num_public_vars
        &&& f.l0.ncols * self.num_public_vars <= usize::MAX
    }

    /// The function `f` can be decrypted with a key for a mask of `mc`
    /// columns: the mask goes with the private vector, `f` fits, it has one
    /// coefficient polynomial for each column of the mask and of `l0`, and
    /// these are polynomials in the public variables.
    pub open spec fn decryptable(&self, f: &PhfeFunc, mc: nat) -> bool {
        &&& self.masks(mc)
        &&& self.fits(f, mc)
        &&& f.dfx_coeffs.len() == mc + f.l0.ncols
        &&& all_public_below(f.dfx_view(), self.num_public_vars as nat)
    }

    /// Whether the shapes that the parameters ask for fit the machine.
    pub fn is_representable(&self) -> (r: bool)
        ensures
            r == self.representable(),
    {
        self.k < usize::MAX && self.k.checked_mul(self.num_public_vars).is_some()
    }

    /// Whether the parameters are well formed.
    pub fn is_valid(&self) -> (r: bool)
        ensures
            r == self.wf(),
    {
        self.k >= 1 && self.num_public_vars >= 1 && self.is_representable()
    }

    /// Whether the encoding of `f` and a mask of `mc` columns fit these
    /// parameters.
    pub fn accepts(&self, f: &PhfeFunc, mc: usize) -> (r: bool)
        ensures
            r == self.fits(f, mc as nat),
    {
        f.is_well_formed() && self.k < f.l0.ncols && mc <= f.l1.nrows && f.l0.nrows
            == f.l1.nrows && f.l0.ncols.checked_mul(self.num_public_vars) == Some(f.l1.ncols)
    }

    /// Whether `f` can be decrypted with a key for a mask of `mc` columns.
    pub fn can_decrypt(&self, f: &PhfeFunc, mc: usize) -> (r: bool)
        ensures
            r == self.decryptable(f, mc as nat),
    {
        if !(self.num_private_vars >= 1 || mc == 0) || !self.accepts(f, mc) {
            return false;
        }
        if mc.checked_add(f.l0.ncols) != Some(f.dfx_coeffs.len()) {
            return false;
        }
        proof {
            assert(f.dfx_view().take(f.dfx_coeffs.len() as int) =~= f.dfx_view());
        }
        first_are_public(&f.dfx_coeffs, f.dfx_coeffs.len(), self.num_public_vars)
    }

    /// The parameters with the given lengths and security parameter.
    pub fn new(num_public_vars: usize, num_private_vars: usize, k: usize) -> (r: Self)
        ensures
            r.num_public_vars == num_public_vars,
            r.num_private_vars == num_private_vars,
            r.k == k,
    {
        Self { num_public_vars, num_private_vars, k }
    }

    /// The keys that the field matrices `a`, `w`, `u` and `v` give: the
    /// public key holds `a` and its products with the other three in the
    /// exponent of G1, the secret key the other three themselves.
    pub fn setup_with(&self, a: Matrix, w: Matrix, u: Matrix, v: Matrix) -> (r: (
        LinearPhfeMpk,
        LinearPhfeMsk,
    ))
        requires
            self.representable(),
            a.is(self.k as nat, (self.k + 1) as nat, ElementKind::Scalar),
            w.is((self.k + 1) as nat, self.num_private_vars as nat, ElementKind::Scalar),
            u.is((self.k + 1) as nat, (self.k * self.num_public_vars) as nat, ElementKind::Scalar),
            v.is((self.k + 1) as nat, self.k as nat, ElementKind::Scalar),
        ensures
            r.0.wf(self),
            r.1.wf(self),
            (r.0@, r.1@) == linear_setup_spec(a.exps(), w.exps(), u.exps(), v.exps()),
    {
        let ghost s = ElementKind::Scalar;
        let aw = product(&a, &w, Ghost(s), Ghost(s));
        let au = product(&a, &u, Ghost(s), Ghost(s));
        let av = product(&a, &v, Ghost(s), Ghost(s));
        let mpk = LinearPhfeMpk {
            a_matrix: scalar_matrix_to_g1(&a),
            aw_matrix: scalar_matrix_to_g1(&aw),
            au_matrix: scalar_matrix_to_g1(&au),
            av_matrix: scalar_matrix_to_g1(&av),
        };
        let msk = LinearPhfeMsk { w_matrix: w, u_matrix: u, v_matrix: v };
        (mpk, msk)
    }

    /// Fresh keys: four field matrices are drawn from `rng` and handed to
    /// `setup_with`. Keys are made for parameters of zero too; they are
    /// without elements where a shape has a side of zero.
    pub fn setup(&self, rng: &mut rand::rngs::StdRng) -> (r: (LinearPhfeMpk, LinearPhfeMsk))
        requires
            self.representable(),
        ensures
            r.0.wf(self),
            r.1.wf(self),
            r.0@ == linear_setup_spec(r.0@.a, r.1@.w, r.1@.u, r.1@.v).0,
    {
        let a = Matrix::random_scalars(self.k, self.k + 1, rng);
        let w = Matrix::random_scalars(self.k + 1, self.num_private_vars, rng);
        let u = Matrix::random_scalars(self.k + 1, self.k * self.num_public_vars, rng);
        let v = Matrix::random_scalars(self.k + 1, self.k, rng);
        self.setup_with(a, w, u, v)
    }

    /// The ciphertext of the public vector `x` and the private row vector
    /// `z_g1`, given in G1, under the randomness `s`.
    pub fn enc_with(&self, mpk: &LinearPhfeMpk, x: &Vec<Scalar>, z_g1: &Matrix, s: &Matrix) -> (r:
        LinearPhfeCt)
        requires
            self.wf(),
            mpk.wf(self),
            x.len() == self.num_public_vars,
            z_g1.is(1, self.num_private_vars as nat, ElementKind::G1),
            s.is(1, self.k as nat, ElementKind::Scalar),
        ensures
            r.wf(self),
            r@ == linear_enc_spec(mpk@, scalar_values(x@), z_g1.exps(), s.exps()),
    {
        proof {
            assert(self.k * self.num_public_vars >= 1) by (nonlinear_arith)
                requires
                    self.k >= 1,
                    self.num_public_vars >= 1,
            ;
            assert(self.k * self.num_public_vars == self.num_public_vars * self.k)
                by (nonlinear_arith);
        }
        let ghost sc = ElementKind::Scalar;
        let ghost g1 = ElementKind::G1;
        let sa_vec = product(s, &mpk.a_matrix, Ghost(sc), Ghost(g1));
        let saw_vec = product(s, &mpk.aw_matrix, Ghost(sc), Ghost(g1));
        let z_vec = sum(z_g1, &saw_vec, Ghost(g1));
        let sau_vec = product(s, &mpk.au_matrix, Ghost(sc), Ghost(g1));
        let sav_vec = product(s, &mpk.av_matrix, Ghost(sc), Ghost(g1));
        let x_col = Matrix::column_from_scalars(x);
        let x_tensored = vec_tensor_product_with_identity(&x_col, self.k);
        let sau_x = product(&sau_vec, &x_tensored, Ghost(g1), Ghost(sc));
        let x_vec = sum(&sau_x, &sav_vec, Ghost(g1));
        LinearPhfeCt { sa_vec, z_vec, x_vec, x: copy_scalars(x) }
    }

    /// A fresh ciphertext: the randomness is drawn from `rng` and handed to
    /// `enc_with`.
    pub fn enc(
        &self,
        mpk: &LinearPhfeMpk,
        x: &Vec<Scalar>,
        z_g1: &Matrix,
        rng: &mut rand::rngs::StdRng,
    ) -> (r: LinearPhfeCt)
        requires
            self.wf(),
            mpk.wf(self),
            x.len() == self.num_public_vars,
            z_g1.is(1, self.num_private_vars as nat, ElementKind::G1),
        ensures
            r.wf(self),
            exists|s: SMat|
                s.is(1, self.k as nat) && r@ == linear_enc_spec(
                    mpk@,
                    scalar_values(x@),
                    z_g1.exps(),
                    s,
                ),
    {
        let s = Matrix::random_scalars(1, self.k, rng);
        let r = self.enc_with(mpk, x, z_g1, &s);
        proof {
            crate::phfe::matrix::lemma_exps_reduced(&s);
            assert(s.exps().is(1, self.k as nat) && r@ == linear_enc_spec(
                mpk@,
                scalar_values(x@),
                z_g1.exps(),
                s.exps(),
            ));
        }
        r
    }

    /// The key for the function `f` and the mask `m`, given in G2, under the
    /// randomness `t` and `r`.
    pub fn gen_fsk_with(
        &self,
        msk: &LinearPhfeMsk,
        f: &PhfeFunc,
        m: &Matrix,
        t: &Matrix,
        r: &Matrix,
    ) -> (fsk: LinearPhfeFsk)
        requires
            self.representable(),
            self.masks(m.ncols as nat),
            msk.wf(self),
            self.fits(f, m.ncols as nat),
            m.is(self.num_private_vars as nat, m.ncols as nat, ElementKind::G2),
            t.is((self.k + 1) as nat, f.l1.nrows as nat, ElementKind::Scalar),
            r.is(self.k as nat, f.l0.ncols as nat, ElementKind::Scalar),
        ensures
            fsk.wf(self, m.ncols as nat, f.l0.ncols as nat),
            fsk@ == linear_gen_fsk_spec(
                msk@,
                f.l0.exps(),
                f.l1.exps(),
                m.exps(),
                t.exps(),
                r.exps(),
                self.num_public_vars as nat,
            ),
    {
        let ghost sc = ElementKind::Scalar;
        let ghost g2 = ElementKind::G2;
        let t_cols = t.columns(t.ncols - m.ncols, m.ncols);
        let t_bar = scalar_matrix_to_g2(&t_cols);
        let wm = product(&msk.w_matrix, m, Ghost(sc), Ghost(g2));
        let tm_matrix = sum(&t_bar, &wm, Ghost(g2));
        let r_tensored = identity_tensor_product_with_matrix(r, self.num_public_vars);
        let tl1 = product(t, &f.l1, Ghost(sc), Ghost(sc));
        let ur = product(&msk.u_matrix, &r_tensored, Ghost(sc), Ghost(sc));
        let l1_matrix = sum(&tl1, &ur, Ghost(sc));
        let tl0 = product(t, &f.l0, Ghost(sc), Ghost(sc));
        let vr = product(&msk.v_matrix, r, Ghost(sc), Ghost(sc));
        let l0_matrix = sum(&tl0, &vr, Ghost(sc));
        LinearPhfeFsk {
            tm_matrix,
            l1_matrix: scalar_matrix_to_g2(&l1_matrix),
            l0_matrix: scalar_matrix_to_g2(&l0_matrix),
            r_matrix: scalar_matrix_to_g2(r),
            m_matrix: m.copy(),
        }
    }

    /// A fresh key for the function `f` and the mask `m`: the randomness is
    /// drawn from `rng` and handed to `gen_fsk_with`.
    pub fn gen_fsk(
        &self,
        msk: &LinearPhfeMsk,
        f: &PhfeFunc,
        m: &Matrix,
        rng: &mut rand::rngs::StdRng,
    ) -> (fsk: LinearPhfeFsk)
        requires
            self.representable(),
            self.masks(m.ncols as nat),
            msk.wf(self),
            self.fits(f, m.ncols as nat),
            m.is(self.num_private_vars as nat, m.ncols as nat, ElementKind::G2),
        ensures
            fsk.wf(self, m.ncols as nat, f.l0.ncols as nat),
            exists|t: SMat, r: SMat|
                t.is((self.k + 1) as nat, f.l1.nrows as nat) && r.is(
                    self.k as nat,
                    f.l0.ncols as nat,
                ) && fsk@ == linear_gen_fsk_spec(
                    msk@,
                    f.l0.exps(),
                    f.l1.exps(),
                    m.exps(),
                    t,
                    r,
                    self.num_public_vars as nat,
                ),
    {
        let t = Matrix::random_scalars(self.k + 1, f.l1.nrows, rng);
        let r = Matrix::random_scalars(self.k, f.l0.ncols, rng);
        let fsk = self.gen_fsk_with(msk, f, m, &t, &r);
        proof {
            crate::phfe::matrix::lemma_exps_reduced(&t);
            crate::phfe::matrix::lemma_exps_reduced(&r);
            assert(t.exps().is((self.k + 1) as nat, f.l1.nrows as nat) && r.exps().is(
                self.k as nat,
                f.l0.ncols as nat,
            ) && fsk@ == linear_gen_fsk_spec(
                msk@,
                f.l0.exps(),
                f.l1.exps(),
                m.exps(),
                t.exps(),
                r.exps(),
                self.num_public_vars as nat,
            ));
        }
        fsk
    }

    /// Decrypts `ct` with the key `fsk` of the function `f`: the pairing
    /// products of the ciphertext with the key, weighed with the values of
    /// the function's coefficient polynomials at the public vector.
    pub fn dec(&self, ct: &LinearPhfeCt, f: &PhfeFunc, fsk: &LinearPhfeFsk) -> (r: Gt)
        requires
            self.wf(),
            self.masks(fsk.m_matrix.ncols as nat),
            ct.wf(self),
            self.fits(f, fsk.m_matrix.ncols as nat),
            fsk.wf(self, fsk.m_matrix.ncols as nat, f.l0.ncols as nat),
            f.dfx_coeffs.len() == fsk.m_matrix.ncols + f.l0.ncols,
            all_covered(f.dfx_view(), public_assignment(scalar_values(ct.x@))),
        ensures
            r.exp() == linear_dec_spec(
                ct@,
                fsk@,
                values_at(f.dfx_view(), public_assignment(scalar_values(ct.x@))),
            ),
    {
        proof {
            assert(f.l0.ncols * self.num_public_vars >= 1) by (nonlinear_arith)
                requires
                    f.l0.ncols >= 1,
                    self.num_public_vars >= 1,
            ;
            assert(f.l0.ncols * self.num_public_vars == self.num_public_vars * f.l0.ncols)
                by (nonlinear_arith);
        }
        let ghost sc = ElementKind::Scalar;
        let ghost g1 = ElementKind::G1;
        let ghost g2 = ElementKind::G2;
        let ghost gt = ElementKind::Gt;
        let zm = product(&ct.z_vec, &fsk.m_matrix, Ghost(g1), Ghost(g2));
        let neg_tm = fsk.tm_matrix.neg();
        let sa_tm = product(&ct.sa_vec, &neg_tm, Ghost(g1), Ghost(g2));
        let p1 = sum(&zm, &sa_tm, Ghost(gt));
        let x_col = Matrix::column_from_scalars(&ct.x);
        let x_tensored = vec_tensor_product_with_identity(&x_col, f.l0.ncols);
        let l1x = product(&fsk.l1_matrix, &x_tensored, Ghost(g2), Ghost(sc));
        let l1x_l0 = sum(&l1x, &fsk.l0_matrix, Ghost(g2));
        let sa_l = product(&ct.sa_vec, &l1x_l0, Ghost(g1), Ghost(g2));
        let neg_xv = ct.x_vec.neg();
        let xv_r = product(&neg_xv, &fsk.r_matrix, Ghost(g1), Ghost(g2));
        let p2 = sum(&sa_l, &xv_r, Ghost(gt));
        let assignment = Assignment::new(copy_scalars(&ct.x), Vec::new());
        proof {
            assert(assignment@.public == scalar_values(ct.x@));
            assert(assignment@.private =~= Seq::<int>::empty());
            assert(assignment@ == public_assignment(scalar_values(ct.x@)));
        }
        proof {
            assert(f.dfx_view().take(f.dfx_coeffs.len() as int) =~= f.dfx_view());
        }
        let dfx = eval_first(&f.dfx_coeffs, f.dfx_coeffs.len(), &assignment);
        let dfx_vec = Matrix::column_from_scalars(&dfx);
        let p12 = p1.hstack(&p2);
        let result = product(&p12, &dfx_vec, Ghost(gt), Ghost(sc));
        let e = result.get(0, 0);
        proof {
            assert(scalar_values(dfx@) =~= values_at(
                f.dfx_view(),
                public_assignment(scalar_values(ct.x@)),
            ));
            assert(result.at(0, 0).kind() == ElementKind::Gt);
            assert(result.exps().at(0, 0) == result.at(0, 0).exp());
        }
        match e {
            PhfeElement::Gt(g) => g,
            _ => vstd::pervasive::unreached(),
        }
    }
}

/// The values of the first `count` of the polynomials `ps` under `a`.
pub fn eval_first(ps: &Vec<crate::poly::Polynomial>, count: usize, a: &Assignment) -> (r: Vec<Scalar>)
    requires
        count <= ps.len(),
        all_covered(crate::phfe::func::polynomial_views(ps@).take(count as int), a@),
    ensures
        r.len() == count,
        scalar_values(r@) == values_at(
            crate::phfe::func::polynomial_views(ps@).take(count as int),
            a@,
        ),
{
    let mut r: Vec<Scalar> = Vec::new();
    let mut i: usize = 0;
    let ghost views = crate::phfe::func::polynomial_views(ps@).take(count as int);
    while i < count
        invariant
            i <= count,
            count <= ps.len(),
            views == crate::phfe::func::polynomial_views(ps@).take(count as int),
            all_covered(views, a@),
            r.len() == i,
            forall|j: int| 0 <= j < i ==> (#[trigger] r[j]).value() == views[j].eval(a@),
        decreases count - i,
    {
        proof {
            assert(views[i as int].covered_by(a@));
            assert(views[i as int] == ps[i as int]@);
        }
        let v = ps[i].eval(a);
        r.push(v);
        i += 1;
    }
    proof {
        assert(scalar_values(r@) =~= values_at(views, a@));
    }
    r
}

} // verus!
