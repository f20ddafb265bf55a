//! The same constraint set over the quadratic extension of the Goldilocks
//! field, `F[X] / (X^2 - 7)`, for use inside an outer algebraic proof.
//!
//! The evaluator mirrors the base-field one operation for operation; every
//! base-field constant enters through the embedding `a -> (a, 0)`.
//! `lemma_constraints_embed` proves the two evaluators agree on embedded
//! assignments — the extension evaluation of an embedded witness is exactly
//! the embedding of the base evaluation, so their zero patterns coincide.

use vstd::prelude::*;
use vstd::arithmetic::div_mod::lemma_mod_twice;
use crate::field::{is_elem, fadd, fsub, fmul, sbx};
use crate::permutation::{rc_ext_at, rc_int_at, diag_at, add_rc, sbox_all, ext_dot,
    external_layer, state_sum, internal_layer};
use crate::constraints::{r_pre, r_a0, wrow0, wrow1, sbin0, r_fb, r_ps, r_sb, constraint_at,
    constraints_spec};
use crate::params::{external_mat, rc_external_vec, rc_internal_vec, internal_diag_m1_vec,
    external_mat_at, GOLDILOCKS_W};

verus! {

/// Sum in the extension field, componentwise.
pub open spec fn eadd(x: (int, int), y: (int, int)) -> (int, int) {
    (fadd(x.0, y.0), fadd(x.1, y.1))
}

/// Difference in the extension field, componentwise.
pub open spec fn esub(x: (int, int), y: (int, int)) -> (int, int) {
    (fsub(x.0, y.0), fsub(x.1, y.1))
}

/// Product in the extension field: `(a0 + a1 X)(b0 + b1 X)` with `X^2 = 7`.
pub open spec fn emul(x: (int, int), y: (int, int)) -> (int, int) {
    (fadd(fmul(x.0, y.0), fmul(7, fmul(x.1, y.1))), fadd(fmul(x.0, y.1), fmul(x.1, y.0)))
}

/// Seventh power in the extension field, the lifted S-box.
pub open spec fn esbx(x: (int, int)) -> (int, int) {
    emul(emul(emul(emul(x, x), emul(x, x)), emul(x, x)), x)
}

/// The embedding of a base-field value.
pub open spec fn embed(a: int) -> (int, int) {
    (a, 0)
}

/// The pointwise embedding of a base-field sequence.
pub open spec fn embeds(s: Seq<int>) -> Seq<(int, int)> {
    Seq::new(s.len(), |i: int| embed(s[i]))
}

/// An extension-field element: two canonical base-field coefficients.
#[derive(Clone, Copy, PartialEq, Eq, Structural, Debug)]
pub struct ExtElem {
    /// Constant coefficient.
    pub c0: u64,
    /// Coefficient of `X`.
    pub c1: u64,
}

/// The pair of integer values of an extension element.
pub open spec fn em(e: ExtElem) -> (int, int) {
    (e.c0 as int, e.c1 as int)
}

/// The integer pairs of a sequence of extension elements.
pub open spec fn ems(s: Seq<ExtElem>) -> Seq<(int, int)> {
    Seq::new(s.len(), |i: int| em(s[i]))
}

/// Both coefficients of every entry are canonical.
pub open spec fn elems_e(s: Seq<ExtElem>) -> bool {
    forall|k: int| #![trigger s[k]] 0 <= k < s.len() ==> is_elem(s[k].c0 as int) && is_elem(
        s[k].c1 as int)
}

/// Embedding a base element into the extension.
pub fn ext_embed(a: u64) -> (r: ExtElem)
    ensures
        em(r) == embed(a as int),
{
    ExtElem { c0: a, c1: 0 }
}

/// Extension-field addition.
pub fn ext_add(x: ExtElem, y: ExtElem) -> (r: ExtElem)
    ensures
        em(r) == eadd(em(x), em(y)),
        is_elem(r.c0 as int) && is_elem(r.c1 as int),
{
    ExtElem { c0: crate::field::add_mod(x.c0, y.c0), c1: crate::field::add_mod(x.c1, y.c1) }
}

/// Extension-field subtraction.
pub fn ext_sub(x: ExtElem, y: ExtElem) -> (r: ExtElem)
    requires
        is_elem(y.c0 as int),
        is_elem(y.c1 as int),
    ensures
        em(r) == esub(em(x), em(y)),
        is_elem(r.c0 as int) && is_elem(r.c1 as int),
{
    ExtElem { c0: crate::field::sub_mod(x.c0, y.c0), c1: crate::field::sub_mod(x.c1, y.c1) }
}

/// Extension-field multiplication.
pub fn ext_mul(x: ExtElem, y: ExtElem) -> (r: ExtElem)
    ensures
        em(r) == emul(em(x), em(y)),
        is_elem(r.c0 as int) && is_elem(r.c1 as int),
{
    let a = crate::field::mul_mod(x.c0, y.c0);
    let b = crate::field::mul_mod(GOLDILOCKS_W, crate::field::mul_mod(x.c1, y.c1));
    let c = crate::field::mul_mod(x.c0, y.c1);
    let d = crate::field::mul_mod(x.c1, y.c0);
    ExtElem { c0: crate::field::add_mod(a, b), c1: crate::field::add_mod(c, d) }
}

/// The lifted S-box `x^7`.
pub fn ext_sbox(x: ExtElem) -> (r: ExtElem)
    ensures
        em(r) == esbx(em(x)),
        is_elem(r.c0 as int) && is_elem(r.c1 as int),
{
    let x2 = ext_mul(x, x);
    let x4 = ext_mul(x2, x2);
    let x6 = ext_mul(x4, x2);
    ext_mul(x6, x)
}

/// Operating on embedded values stays inside the embedding, operation for
/// operation, with the base-field result in the first coefficient.
pub proof fn lemma_embed_ops(a: int, b: int)
    ensures
        eadd(embed(a), embed(b)) == embed(fadd(a, b)),
        esub(embed(a), embed(b)) == embed(fsub(a, b)),
        emul(embed(a), embed(b)) == embed(fmul(a, b)),
{
    let p = crate::field::p();
    assert(a * 0 == 0) by (nonlinear_arith);
    assert(0 * b == 0) by (nonlinear_arith);
    assert((0int * 0int) == 0int) by (nonlinear_arith);
    assert(7int * ((0int * 0int) % p) == 0) by (nonlinear_arith)
        requires p == crate::field::p();
    lemma_mod_twice(a * b, p);
    assert(fadd(fmul(a, b), fmul(7, fmul(0, 0))) == fmul(a, b));
    assert(fadd(fmul(a, 0), fmul(0, b)) == 0);
}

/// The lifted S-box agrees with the base S-box on embedded values.
pub proof fn lemma_embed_sbox(a: int)
    ensures
        esbx(embed(a)) == embed(sbx(a)),
{
    lemma_embed_ops(a, a);
    lemma_embed_ops(fmul(a, a), fmul(a, a));
    lemma_embed_ops(fmul(fmul(a, a), fmul(a, a)), fmul(a, a));
    lemma_embed_ops(fmul(fmul(fmul(a, a), fmul(a, a)), fmul(a, a)), a);
}

/// The extension state with the constants of external round `r` added.
pub open spec fn add_rc_e(s: Seq<(int, int)>, r: int) -> Seq<(int, int)> {
    Seq::new(12, |i: int| eadd(s[i], embed(rc_ext_at(r, i))))
}

/// The lifted S-box on every element.
pub open spec fn sbox_all_e(s: Seq<(int, int)>) -> Seq<(int, int)> {
    Seq::new(12, |i: int| esbx(s[i]))
}

/// Partial dot product of an external-matrix row, in the extension.
pub open spec fn ext_dot_e(s: Seq<(int, int)>, i: int, n: int) -> (int, int)
    decreases n,
{
    if n <= 0 {
        embed(0)
    } else {
        eadd(ext_dot_e(s, i, n - 1), emul(embed(external_mat(i, n - 1)), s[n - 1]))
    }
}

/// The external linear layer in the extension.
pub open spec fn external_layer_e(s: Seq<(int, int)>) -> Seq<(int, int)> {
    Seq::new(12, |i: int| ext_dot_e(s, i, 12))
}

/// Sum of the first `n` elements, in the extension.
pub open spec fn state_sum_e(s: Seq<(int, int)>, n: int) -> (int, int)
    decreases n,
{
    if n <= 0 {
        embed(0)
    } else {
        eadd(state_sum_e(s, n - 1), s[n - 1])
    }
}

/// The internal linear layer in the extension.
pub open spec fn internal_layer_e(s: Seq<(int, int)>) -> Seq<(int, int)> {
    Seq::new(12, |i: int| eadd(emul(s[i], embed(diag_at(i))), state_sum_e(s, 12)))
}

/// The pre-permutation state rebuilt from extension wires.
pub open spec fn r_pre_e(w: Seq<(int, int)>) -> Seq<(int, int)> {
    Seq::new(
        12,
        |i: int|
            if i < 4 {
                eadd(w[i], w[25 + i])
            } else if i < 8 {
                esub(w[i], w[25 + (i - 4)])
            } else {
                w[i]
            },
    )
}

/// Reconstructed state entering the first external round, in the extension.
pub open spec fn r_a0_e(w: Seq<(int, int)>) -> Seq<(int, int)> {
    external_layer_e(r_pre_e(w))
}

/// Stored S-box inputs of first-block round `r`, in the extension.
pub open spec fn wrow0_e(w: Seq<(int, int)>, r: int) -> Seq<(int, int)> {
    Seq::new(12, |i: int| w[29 + (r - 1) * 12 + i])
}

/// Stored S-box inputs of second-block round `r`, in the extension.
pub open spec fn wrow1_e(w: Seq<(int, int)>, r: int) -> Seq<(int, int)> {
    Seq::new(12, |i: int| w[87 + r * 12 + i])
}

/// S-box inputs of first-block round `r` as evaluated, in the extension.
pub open spec fn sbin0_e(w: Seq<(int, int)>, r: int) -> Seq<(int, int)> {
    if r == 0 {
        add_rc_e(r_a0_e(w), 0)
    } else {
        wrow0_e(w, r)
    }
}

/// Reconstructed state entering first-block round `r`, in the extension.
pub open spec fn r_fb_e(w: Seq<(int, int)>, r: int) -> Seq<(int, int)> {
    if r <= 0 {
        r_a0_e(w)
    } else {
        external_layer_e(sbox_all_e(sbin0_e(w, r - 1)))
    }
}

/// Reconstructed state entering partial round `r`, in the extension.
pub open spec fn r_ps_e(w: Seq<(int, int)>, r: int) -> Seq<(int, int)>
    decreases r,
{
    if r <= 0 {
        r_fb_e(w, 4)
    } else {
        internal_layer_e(r_ps_e(w, r - 1).update(0, esbx(w[65 + (r - 1)])))
    }
}

/// Reconstructed state entering second-block round `r`, in the extension.
pub open spec fn r_sb_e(w: Seq<(int, int)>, r: int) -> Seq<(int, int)> {
    if r <= 0 {
        r_ps_e(w, 22)
    } else {
        external_layer_e(sbox_all_e(wrow1_e(w, r - 1)))
    }
}

/// The exact value of constraint `c` over extension wires, in the same
/// order as the base evaluator.
pub open spec fn constraint_at_e(w: Seq<(int, int)>, c: int) -> (int, int) {
    if c == 0 {
        esub(emul(w[24], w[24]), w[24])
    } else if c < 5 {
        let j = c - 1;
        esub(w[25 + j], emul(w[24], esub(w[j + 4], w[j])))
    } else if c < 41 {
        let r = 1 + (c - 5) / 12;
        let i = (c - 5) % 12;
        esub(add_rc_e(r_fb_e(w, r), r)[i], w[29 + (r - 1) * 12 + i])
    } else if c < 63 {
        let r = c - 41;
        esub(eadd(r_ps_e(w, r)[0], embed(rc_int_at(r))), w[65 + r])
    } else if c < 111 {
        let r = (c - 63) / 12;
        let i = (c - 63) % 12;
        esub(add_rc_e(r_sb_e(w, r), 4 + r)[i], w[87 + r * 12 + i])
    } else {
        let i = c - 111;
        esub(r_sb_e(w, 4)[i], w[12 + i])
    }
}

/// The full ordered constraint vector over the extension.
pub open spec fn constraints_spec_e(w: Seq<(int, int)>) -> Seq<(int, int)> {
    Seq::new(123, |c: int| constraint_at_e(w, c))
}

/// Embedding commutes with every layer of the reconstruction.
proof fn lemma_embed_layers(s: Seq<int>)
    requires
        s.len() == 12,
    ensures
        sbox_all_e(embeds(s)) == embeds(sbox_all(s)),
        external_layer_e(embeds(s)) == embeds(external_layer(s)),
        internal_layer_e(embeds(s)) == embeds(internal_layer(s)),
        forall|r: int| #[trigger] add_rc_e(embeds(s), r) == embeds(add_rc(s, r)),
{
    assert forall|i: int| 0 <= i < 12 implies esbx(embeds(s)[i]) == embed(sbx(s[i])) by {
        lemma_embed_sbox(s[i]);
    }
    assert(sbox_all_e(embeds(s)) =~= embeds(sbox_all(s)));
    assert forall|i: int, n: int| 0 <= i < 12 && 0 <= n <= 12 implies #[trigger] ext_dot_e(
        embeds(s), i, n) == embed(ext_dot(s, i, n)) by {
        lemma_embed_dot(s, i, n);
    }
    assert(external_layer_e(embeds(s)) =~= embeds(external_layer(s)));
    lemma_embed_sum(s, 12);
    assert forall|i: int| 0 <= i < 12 implies eadd(emul(embeds(s)[i], embed(diag_at(i))),
        state_sum_e(embeds(s), 12)) == embed(fadd(fmul(s[i], diag_at(i)), state_sum(s, 12))) by {
        lemma_embed_ops(s[i], diag_at(i));
        lemma_embed_ops(fmul(s[i], diag_at(i)), state_sum(s, 12));
    }
    assert(internal_layer_e(embeds(s)) =~= embeds(internal_layer(s)));
    assert forall|r: int| #[trigger] add_rc_e(embeds(s), r) == embeds(add_rc(s, r)) by {
        assert forall|i: int| 0 <= i < 12 implies eadd(embeds(s)[i], embed(rc_ext_at(r, i)))
            == embed(fadd(s[i], rc_ext_at(r, i))) by {
            lemma_embed_ops(s[i], rc_ext_at(r, i));
        }
        assert(add_rc_e(embeds(s), r) =~= embeds(add_rc(s, r)));
    }
}

/// Embedding commutes with the external-matrix dot product.
proof fn lemma_embed_dot(s: Seq<int>, i: int, n: int)
    requires
        s.len() == 12,
        0 <= n <= 12,
    ensures
        ext_dot_e(embeds(s), i, n) == embed(ext_dot(s, i, n)),
    decreases n,
{
    if n > 0 {
        lemma_embed_dot(s, i, n - 1);
        lemma_embed_ops(external_mat(i, n - 1), s[n - 1]);
        lemma_embed_ops(ext_dot(s, i, n - 1), fmul(external_mat(i, n - 1), s[n - 1]));
    }
}

/// Embedding commutes with the state sum.
proof fn lemma_embed_sum(s: Seq<int>, n: int)
    requires
        s.len() == 12,
        0 <= n <= 12,
    ensures
        state_sum_e(embeds(s), n) == embed(state_sum(s, n)),
    decreases n,
{
    if n > 0 {
        lemma_embed_sum(s, n - 1);
        lemma_embed_ops(state_sum(s, n - 1), s[n - 1]);
    }
}

/// Embedding commutes with the partial-round reconstruction.
proof fn lemma_embed_ps(w: Seq<int>, r: int)
    requires
        w.len() == 135,
        0 <= r <= 22,
        r_fb_e(embeds(w), 4) == embeds(r_fb(w, 4)),
    ensures
        r_ps_e(embeds(w), r) == embeds(r_ps(w, r)),
    decreases r,
{
    if r > 0 {
        lemma_embed_ps(w, r - 1);
        lemma_embed_sbox(w[65 + (r - 1)]);
        assert(embeds(w)[65 + (r - 1)] == embed(w[65 + (r - 1)]));
        assert(embeds(r_ps(w, r - 1)).update(0, esbx(embed(w[65 + (r - 1)]))) =~= embeds(
            r_ps(w, r - 1).update(0, sbx(w[65 + (r - 1)]))));
        lemma_embed_layers(r_ps(w, r - 1).update(0, sbx(w[65 + (r - 1)])));
    }
}

/// The extension evaluator agrees with the base evaluator on every embedded
/// assignment: the extension constraint vector is the embedding of the base
/// one, so the zero/non-zero pattern is identical.
pub proof fn lemma_constraints_embed(w: Seq<int>)
    requires
        w.len() == 135,
    ensures
        constraints_spec_e(embeds(w)) == embeds(constraints_spec(w)),
{
    let we = embeds(w);
    assert(r_pre_e(we) =~= embeds(r_pre(w))) by {
        assert forall|i: int| 0 <= i < 12 implies r_pre_e(we)[i] == embed(r_pre(w)[i]) by {
            if i < 4 {
                lemma_embed_ops(w[i], w[25 + i]);
            } else if i < 8 {
                lemma_embed_ops(w[i], w[25 + (i - 4)]);
            }
        }
    }
    lemma_embed_layers(r_pre(w));
    assert(r_a0_e(we) == embeds(r_a0(w)));
    assert forall|r: int| 0 <= r < 4 implies #[trigger] sbin0_e(we, r) == embeds(sbin0(w, r)) by {
        if r == 0 {
            lemma_embed_layers(r_a0(w));
        } else {
            assert(wrow0_e(we, r) =~= embeds(wrow0(w, r)));
        }
    }
    assert forall|r: int| 0 <= r <= 4 implies #[trigger] r_fb_e(we, r) == embeds(r_fb(w, r)) by {
        if r > 0 {
            lemma_embed_layers(sbin0(w, r - 1));
            lemma_embed_layers(sbox_all(sbin0(w, r - 1)));
        }
    }
    assert forall|r: int| 0 <= r <= 22 implies #[trigger] r_ps_e(we, r) == embeds(r_ps(w, r)) by {
        lemma_embed_ps(w, r);
    }
    assert forall|r: int| 0 <= r <= 4 implies #[trigger] r_sb_e(we, r) == embeds(r_sb(w, r)) by {
        if r > 0 {
            assert(wrow1_e(we, r - 1) =~= embeds(wrow1(w, r - 1)));
            lemma_embed_layers(wrow1(w, r - 1));
            lemma_embed_layers(sbox_all(wrow1(w, r - 1)));
        }
    }
    assert forall|c: int| 0 <= c < 123 implies constraint_at_e(we, c) == embed(
        constraint_at(w, c)) by {
        if c == 0 {
            lemma_embed_ops(w[24], w[24]);
            lemma_embed_ops(fmul(w[24], w[24]), w[24]);
        } else if c < 5 {
            let j = c - 1;
            lemma_embed_ops(w[j + 4], w[j]);
            lemma_embed_ops(w[24], fsub(w[j + 4], w[j]));
            lemma_embed_ops(w[25 + j], fmul(w[24], fsub(w[j + 4], w[j])));
        } else if c < 41 {
            let r = 1 + (c - 5) / 12;
            let i = (c - 5) % 12;
            vstd::arithmetic::div_mod::lemma_fundamental_div_mod(c - 5, 12);
            vstd::arithmetic::div_mod::lemma_mod_bound(c - 5, 12);
            lemma_embed_layers(r_fb(w, r));
            assert(add_rc_e(r_fb_e(we, r), r)[i] == embed(add_rc(r_fb(w, r), r)[i]));
            lemma_embed_ops(add_rc(r_fb(w, r), r)[i], w[29 + (r - 1) * 12 + i]);
        } else if c < 63 {
            let r = c - 41;
            lemma_embed_ops(r_ps(w, r)[0], rc_int_at(r));
            assert(r_ps_e(we, r)[0] == embed(r_ps(w, r)[0]));
            lemma_embed_ops(fadd(r_ps(w, r)[0], rc_int_at(r)), w[65 + r]);
        } else if c < 111 {
            let r = (c - 63) / 12;
            let i = (c - 63) % 12;
            vstd::arithmetic::div_mod::lemma_fundamental_div_mod(c - 63, 12);
            vstd::arithmetic::div_mod::lemma_mod_bound(c - 63, 12);
            lemma_embed_layers(r_sb(w, r));
            assert(add_rc_e(r_sb_e(we, r), 4 + r)[i] == embed(add_rc(r_sb(w, r), 4 + r)[i]));
            lemma_embed_ops(add_rc(r_sb(w, r), 4 + r)[i], w[87 + r * 12 + i]);
        } else {
            let i = c - 111;
            assert(r_sb_e(we, 4)[i] == embed(r_sb(w, 4)[i]));
            lemma_embed_ops(r_sb(w, 4)[i], w[12 + i]);
        }
    }
    assert(constraints_spec_e(embeds(w)) =~= embeds(constraints_spec(w)));
}

/// Embeds a base-field wire assignment into the extension.
pub fn embed_wires(w: &Vec<u64>) -> (out: Vec<ExtElem>)
    ensures
        out@.len() == w@.len(),
        crate::field::elems_u(w@) ==> elems_e(out@),
        ems(out@) == embeds(crate::field::ints(w@)),
{
    let mut out: Vec<ExtElem> = Vec::new();
    let n = w.len();
    for i in 0..n
        invariant
            n == w@.len(),
            out@.len() == i,
            forall|k: int| 0 <= k < i ==> #[trigger] out@[k] == (ExtElem { c0: w@[k], c1: 0u64 }),
    {
        out.push(ExtElem { c0: w[i], c1: 0 });
    }
    proof {
        assert(ems(out@) =~= embeds(crate::field::ints(w@)));
        assert(crate::field::is_elem(0int));
    }
    out
}

/// Adds the embedded constants of external round `r` to an extension state.
fn add_rc_e_exec(s: &Vec<ExtElem>, rc: &Vec<u64>, r: usize) -> (t: Vec<ExtElem>)
    requires
        s@.len() == 12,
        rc@ == crate::params::rc_external(),
        r < 8,
    ensures
        t@.len() == 12,
        elems_e(t@),
        ems(t@) == add_rc_e(ems(s@), r as int),
{
    let mut t: Vec<ExtElem> = Vec::new();
    for i in 0..12usize
        invariant
            s@.len() == 12,
            rc@ == crate::params::rc_external(),
            r < 8,
            t@.len() == i,
            elems_e(t@),
            forall|k: int| 0 <= k < i ==> #[trigger] em(t@[k]) == eadd(em(s@[k]), embed(rc_ext_at(
                r as int, k))),
    {
        t.push(ext_add(s[i], ext_embed(rc[r * 12 + i])));
    }
    proof {
        assert(ems(t@) =~= add_rc_e(ems(s@), r as int));
    }
    t
}

/// The lifted S-box on every element of an extension state.
fn sbox_all_e_exec(s: &Vec<ExtElem>) -> (t: Vec<ExtElem>)
    requires
        s@.len() == 12,
    ensures
        t@.len() == 12,
        elems_e(t@),
        ems(t@) == sbox_all_e(ems(s@)),
{
    let mut t: Vec<ExtElem> = Vec::new();
    for i in 0..12usize
        invariant
            s@.len() == 12,
            t@.len() == i,
            elems_e(t@),
            forall|k: int| 0 <= k < i ==> #[trigger] em(t@[k]) == esbx(em(s@[k])),
    {
        t.push(ext_sbox(s[i]));
    }
    proof {
        assert(ems(t@) =~= sbox_all_e(ems(s@)));
    }
    t
}

/// The external linear layer on an extension state.
fn external_layer_e_exec(s: &Vec<ExtElem>) -> (t: Vec<ExtElem>)
    requires
        s@.len() == 12,
    ensures
        t@.len() == 12,
        elems_e(t@),
        ems(t@) == external_layer_e(ems(s@)),
{
    let mut t: Vec<ExtElem> = Vec::new();
    for i in 0..12usize
        invariant
            s@.len() == 12,
            t@.len() == i,
            elems_e(t@),
            forall|k: int| 0 <= k < i ==> #[trigger] em(t@[k]) == ext_dot_e(ems(s@), k, 12),
    {
        let mut acc = ExtElem { c0: 0, c1: 0 };
        for j in 0..12usize
            invariant
                s@.len() == 12,
                i < 12,
                em(acc) == ext_dot_e(ems(s@), i as int, j as int),
                crate::field::is_elem(acc.c0 as int) && crate::field::is_elem(acc.c1 as int),
        {
            acc = ext_add(acc, ext_mul(ext_embed(external_mat_at(i, j)), s[j]));
        }
        t.push(acc);
    }
    proof {
        assert(ems(t@) =~= external_layer_e(ems(s@)));
    }
    t
}

/// The internal linear layer on an extension state.
fn internal_layer_e_exec(s: &Vec<ExtElem>, diag: &Vec<u64>) -> (t: Vec<ExtElem>)
    requires
        s@.len() == 12,
        diag@ == crate::params::internal_diag_m1(),
    ensures
        t@.len() == 12,
        elems_e(t@),
        ems(t@) == internal_layer_e(ems(s@)),
{
    let mut sum = ExtElem { c0: 0, c1: 0 };
    for j in 0..12usize
        invariant
            s@.len() == 12,
            em(sum) == state_sum_e(ems(s@), j as int),
            crate::field::is_elem(sum.c0 as int) && crate::field::is_elem(sum.c1 as int),
    {
        sum = ext_add(sum, s[j]);
    }
    let mut t: Vec<ExtElem> = Vec::new();
    for i in 0..12usize
        invariant
            s@.len() == 12,
            diag@ == crate::params::internal_diag_m1(),
            em(sum) == state_sum_e(ems(s@), 12),
            t@.len() == i,
            elems_e(t@),
            forall|k: int| 0 <= k < i ==> #[trigger] em(t@[k]) == eadd(emul(em(s@[k]), embed(
                diag_at(k))), state_sum_e(ems(s@), 12)),
    {
        t.push(ext_add(ext_mul(s[i], ext_embed(diag[i])), sum));
    }
    proof {
        assert(ems(t@) =~= internal_layer_e(ems(s@)));
    }
    t
}

/// Copies twelve consecutive extension wires out of the assignment.
fn wire_row_e_exec(w: &Vec<ExtElem>, base: usize) -> (row: Vec<ExtElem>)
    requires
        w@.len() == 135,
        elems_e(w@),
        base + 12 <= 135,
    ensures
        row@.len() == 12,
        elems_e(row@),
        forall|i: int| 0 <= i < 12 ==> #[trigger] row@[i] == w@[base + i],
{
    let mut row: Vec<ExtElem> = Vec::new();
    for i in 0..12usize
        invariant
            w@.len() == 135,
            elems_e(w@),
            base + 12 <= 135,
            row@.len() == i,
            elems_e(row@),
            forall|k: int| 0 <= k < i ==> #[trigger] row@[k] == w@[base + k],
    {
        row.push(w[base + i]);
    }
    row
}

/// Rebuilds the pre-permutation extension state from the wires.
fn pre_from_wires_e(w: &Vec<ExtElem>) -> (s: Vec<ExtElem>)
    requires
        w@.len() == 135,
        elems_e(w@),
    ensures
        s@.len() == 12,
        elems_e(s@),
        ems(s@) == r_pre_e(ems(w@)),
{
    let mut s: Vec<ExtElem> = Vec::new();
    for i in 0..12usize
        invariant
            w@.len() == 135,
            elems_e(w@),
            s@.len() == i,
            elems_e(s@),
            forall|k: int| 0 <= k < i ==> #[trigger] em(s@[k]) == r_pre_e(ems(w@))[k],
    {
        if i < 4 {
            s.push(ext_add(w[i], w[25 + i]));
        } else if i < 8 {
            s.push(ext_sub(w[i], w[25 + (i - 4)]));
        } else {
            s.push(w[i]);
        }
    }
    proof {
        assert(ems(s@) =~= r_pre_e(ems(w@)));
    }
    s
}

/// Evaluates every constraint of one gate row over the extension field,
/// structurally identical to the base evaluator.
pub fn eval_constraints_ext(w: &Vec<ExtElem>) -> (out: Vec<ExtElem>)
    requires
        w@.len() == 135,
        elems_e(w@),
    ensures
        out@.len() == 123,
        elems_e(out@),
        ems(out@) == constraints_spec_e(ems(w@)),
{
    let ghost ww = ems(w@);
    let rc = rc_external_vec();
    let rci = rc_internal_vec();
    let diag = internal_diag_m1_vec();
    let mut out: Vec<ExtElem> = Vec::new();

    out.push(ext_sub(ext_mul(w[24], w[24]), w[24]));
    for j in 0..4usize
        invariant
            w@.len() == 135,
            elems_e(w@),
            ww == ems(w@),
            out@.len() == 1 + j,
            elems_e(out@),
            forall|c: int| 0 <= c < out@.len() ==> #[trigger] em(out@[c]) == constraint_at_e(ww, c),
    {
        let val = ext_sub(w[25 + j], ext_mul(w[24], ext_sub(w[j + 4], w[j])));
        proof {
            assert(em(val) == constraint_at_e(ww, 1 + j as int));
        }
        out.push(val);
    }

    let pre = pre_from_wires_e(w);
    let mut state = external_layer_e_exec(&pre);
    for r in 0..4usize
        invariant
            w@.len() == 135,
            elems_e(w@),
            ww == ems(w@),
            rc@ == crate::params::rc_external(),
            state@.len() == 12,
            elems_e(state@),
            ems(state@) == r_fb_e(ww, r as int),
            out@.len() == 5 + if r == 0 { 0int } else { (r - 1) * 12 },
            elems_e(out@),
            forall|c: int| 0 <= c < out@.len() ==> #[trigger] em(out@[c]) == constraint_at_e(ww, c),
    {
        let t = add_rc_e_exec(&state, &rc, r);
        if r >= 1 {
            for i in 0..12usize
                invariant
                    w@.len() == 135,
                    elems_e(w@),
                    ww == ems(w@),
                    1 <= r < 4,
                    t@.len() == 12,
                    elems_e(t@),
                    ems(t@) == add_rc_e(r_fb_e(ww, r as int), r as int),
                    out@.len() == 5 + (r - 1) * 12 + i,
                    elems_e(out@),
                    forall|c: int| 0 <= c < out@.len() ==> #[trigger] em(out@[c])
                        == constraint_at_e(ww, c),
            {
                let val = ext_sub(t[i], w[29 + (r - 1) * 12 + i]);
                proof {
                    vstd::arithmetic::div_mod::lemma_fundamental_div_mod_converse(
                        (r - 1) * 12 + i as int, 12, r as int - 1, i as int);
                    assert(em(val) == constraint_at_e(ww, 5 + (r - 1) * 12 + i as int));
                }
                out.push(val);
            }
            let row = wire_row_e_exec(w, 29 + (r - 1) * 12);
            proof {
                assert(ems(row@) =~= wrow0_e(ww, r as int));
            }
            let sb = sbox_all_e_exec(&row);
            state = external_layer_e_exec(&sb);
        } else {
            let sb = sbox_all_e_exec(&t);
            state = external_layer_e_exec(&sb);
        }
    }

    for r in 0..22usize
        invariant
            w@.len() == 135,
            elems_e(w@),
            ww == ems(w@),
            rci@ == crate::params::rc_internal(),
            diag@ == crate::params::internal_diag_m1(),
            state@.len() == 12,
            elems_e(state@),
            ems(state@) == r_ps_e(ww, r as int),
            out@.len() == 41 + r,
            elems_e(out@),
            forall|c: int| 0 <= c < out@.len() ==> #[trigger] em(out@[c]) == constraint_at_e(ww, c),
    {
        let t0 = ext_add(state[0], ext_embed(rci[r]));
        let val = ext_sub(t0, w[65 + r]);
        proof {
            assert(em(val) == constraint_at_e(ww, 41 + r as int));
        }
        out.push(val);
        let u = ext_sbox(w[65 + r]);
        let ghost before = ems(state@);
        state[0] = u;
        proof {
            assert(ems(state@) =~= before.update(0, esbx(ww[65 + r as int])));
        }
        state = internal_layer_e_exec(&state, &diag);
    }

    for r in 0..4usize
        invariant
            w@.len() == 135,
            elems_e(w@),
            ww == ems(w@),
            rc@ == crate::params::rc_external(),
            state@.len() == 12,
            elems_e(state@),
            ems(state@) == r_sb_e(ww, r as int),
            out@.len() == 63 + r * 12,
            elems_e(out@),
            forall|c: int| 0 <= c < out@.len() ==> #[trigger] em(out@[c]) == constraint_at_e(ww, c),
    {
        let t = add_rc_e_exec(&state, &rc, 4 + r);
        for i in 0..12usize
            invariant
                w@.len() == 135,
                elems_e(w@),
                ww == ems(w@),
                r < 4,
                t@.len() == 12,
                elems_e(t@),
                ems(t@) == add_rc_e(r_sb_e(ww, r as int), 4 + r as int),
                out@.len() == 63 + r * 12 + i,
                elems_e(out@),
                forall|c: int| 0 <= c < out@.len() ==> #[trigger] em(out@[c]) == constraint_at_e(
                    ww, c),
        {
            let val = ext_sub(t[i], w[87 + r * 12 + i]);
            proof {
                vstd::arithmetic::div_mod::lemma_fundamental_div_mod_converse(
                    r * 12 + i as int, 12, r as int, i as int);
                assert(em(val) == constraint_at_e(ww, 63 + r * 12 + i as int));
            }
            out.push(val);
        }
        let row = wire_row_e_exec(w, 87 + r * 12);
        proof {
            assert(ems(row@) =~= wrow1_e(ww, r as int));
        }
        let sb = sbox_all_e_exec(&row);
        state = external_layer_e_exec(&sb);
    }

    for i in 0..12usize
        invariant
            w@.len() == 135,
            elems_e(w@),
            ww == ems(w@),
            state@.len() == 12,
            elems_e(state@),
            ems(state@) == r_sb_e(ww, 4),
            out@.len() == 111 + i,
            elems_e(out@),
            forall|c: int| 0 <= c < out@.len() ==> #[trigger] em(out@[c]) == constraint_at_e(ww, c),
    {
        let val = ext_sub(state[i], w[12 + i]);
        proof {
            assert(em(val) == constraint_at_e(ww, 111 + i as int));
        }
        out.push(val);
    }
    proof {
        assert(ems(out@) =~= constraints_spec_e(ww));
    }
    out
}

} // verus!
