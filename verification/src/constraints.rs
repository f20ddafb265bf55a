//! The polynomial constraint set of one gate row over the base field.
//!
//! Given a complete wire assignment — a prover's claim, not necessarily the
//! generator's output — the evaluator returns the 123 constraint values, all
//! of which are zero exactly when the assignment is internally consistent:
//! the swap flag is boolean, the deltas match it, every stored round follows
//! from the wires before it (rounds that are not stored are unrolled
//! algebraically into the neighbouring constraint), and the output wires
//! carry the final state.
//!
//! `constraint_at` is the exact value of each constraint as a function of
//! the wires; `lemma_witness_satisfies_constraints` proves the generator's
//! assignment satisfies all of them.

use vstd::prelude::*;
use vstd::arithmetic::div_mod::{lemma_fundamental_div_mod_converse, lemma_fundamental_div_mod,
    lemma_mod_bound};
use crate::field::{is_elem, fadd, fsub, fmul, sbx, ints, elems_u, elems_i, lemma_residue,
    lemma_zero_laws};
use crate::permutation::{rc_int_at, add_rc, sbox_all, ext_dot, external_layer, internal_layer,
    first_full_state, partial_state, second_full_state, add_rc_exec, sbox_all_exec,
    external_layer_exec, internal_layer_exec};
use crate::gadget::{delta_val, pre_state};
use crate::witness::{a0_of, b0_of, c0_of, sbox_in_first, sbox_in_partial, sbox_in_second,
    witness_at, witness_spec};
use crate::params::{rc_external_vec, rc_internal_vec, internal_diag_m1_vec};

verus! {

/// The pre-permutation state as the constraints see it, rebuilt from the
/// input and delta wires alone.
pub open spec fn r_pre(w: Seq<int>) -> Seq<int> {
    Seq::new(
        12,
        |i: int|
            if i < 4 {
                fadd(w[i], w[25 + i])
            } else if i < 8 {
                fsub(w[i], w[25 + (i - 4)])
            } else {
                w[i]
            },
    )
}

/// The reconstructed state entering the first external round.
pub open spec fn r_a0(w: Seq<int>) -> Seq<int> {
    external_layer(r_pre(w))
}

/// The stored S-box inputs of first-block round `r`, read off the wires.
pub open spec fn wrow0(w: Seq<int>, r: int) -> Seq<int> {
    Seq::new(12, |i: int| w[29 + (r - 1) * 12 + i])
}

/// The stored S-box inputs of second-block round `r`, read off the wires.
pub open spec fn wrow1(w: Seq<int>, r: int) -> Seq<int> {
    Seq::new(12, |i: int| w[87 + r * 12 + i])
}

/// S-box inputs of first-block round `r` as the constraints evaluate them:
/// round 0 is not stored and is recomputed from the reconstructed state.
pub open spec fn sbin0(w: Seq<int>, r: int) -> Seq<int> {
    if r == 0 {
        add_rc(r_a0(w), 0)
    } else {
        wrow0(w, r)
    }
}

/// Reconstructed state entering first-block round `r`.
pub open spec fn r_fb(w: Seq<int>, r: int) -> Seq<int> {
    if r <= 0 {
        r_a0(w)
    } else {
        external_layer(sbox_all(sbin0(w, r - 1)))
    }
}

/// Reconstructed state entering partial round `r`; the S-box outputs of
/// earlier partial rounds are taken from the stored wires.
pub open spec fn r_ps(w: Seq<int>, r: int) -> Seq<int>
    decreases r,
{
    if r <= 0 {
        r_fb(w, 4)
    } else {
        internal_layer(r_ps(w, r - 1).update(0, sbx(w[65 + (r - 1)])))
    }
}

/// Reconstructed state entering second-block round `r` (for `r == 4`: the
/// final state the output wires must carry).
pub open spec fn r_sb(w: Seq<int>, r: int) -> Seq<int> {
    if r <= 0 {
        r_ps(w, 22)
    } else {
        external_layer(sbox_all(wrow1(w, r - 1)))
    }
}

/// The exact value of constraint `c` over the wires `w`, in evaluation
/// order: flag booleanity, the four delta identities, the stored rounds of
/// the first block, the partial rounds, the stored rounds of the second
/// block, and the output identities.
pub open spec fn constraint_at(w: Seq<int>, c: int) -> int {
    if c == 0 {
        fsub(fmul(w[24], w[24]), w[24])
    } else if c < 5 {
        let j = c - 1;
        fsub(w[25 + j], fmul(w[24], fsub(w[j + 4], w[j])))
    } else if c < 41 {
        let r = 1 + (c - 5) / 12;
        let i = (c - 5) % 12;
        fsub(add_rc(r_fb(w, r), r)[i], w[29 + (r - 1) * 12 + i])
    } else if c < 63 {
        let r = c - 41;
        fsub(fadd(r_ps(w, r)[0], rc_int_at(r)), w[65 + r])
    } else if c < 111 {
        let r = (c - 63) / 12;
        let i = (c - 63) % 12;
        fsub(add_rc(r_sb(w, r), 4 + r)[i], w[87 + r * 12 + i])
    } else {
        let i = c - 111;
        fsub(r_sb(w, 4)[i], w[12 + i])
    }
}

/// The full ordered constraint vector.
pub open spec fn constraints_spec(w: Seq<int>) -> Seq<int> {
    Seq::new(123, |c: int| constraint_at(w, c))
}

/// Copies twelve consecutive wires out of the assignment.
fn wire_row_exec(w: &Vec<u64>, base: usize) -> (row: Vec<u64>)
    requires
        w@.len() == 135,
        elems_u(w@),
        base + 12 <= 135,
    ensures
        row@.len() == 12,
        elems_u(row@),
        forall|i: int| 0 <= i < 12 ==> #[trigger] row@[i] == w@[base + i],
{
    let mut row: Vec<u64> = Vec::new();
    for i in 0..12usize
        invariant
            w@.len() == 135,
            elems_u(w@),
            base + 12 <= 135,
            row@.len() == i,
            elems_u(row@),
            forall|k: int| 0 <= k < i ==> #[trigger] row@[k] == w@[base + k],
    {
        row.push(w[base + i]);
    }
    row
}

/// Rebuilds the pre-permutation state from the input and delta wires.
fn pre_from_wires(w: &Vec<u64>) -> (s: Vec<u64>)
    requires
        w@.len() == 135,
        elems_u(w@),
    ensures
        s@.len() == 12,
        elems_u(s@),
        ints(s@) == r_pre(ints(w@)),
{
    let mut s: Vec<u64> = Vec::new();
    for i in 0..12usize
        invariant
            w@.len() == 135,
            elems_u(w@),
            s@.len() == i,
            elems_u(s@),
            forall|k: int| 0 <= k < i ==> #[trigger] s@[k] as int == r_pre(ints(w@))[k],
    {
        if i < 4 {
            s.push(crate::field::add_mod(w[i], w[25 + i]));
        } else if i < 8 {
            s.push(crate::field::sub_mod(w[i], w[25 + (i - 4)]));
        } else {
            s.push(w[i]);
        }
    }
    proof {
        assert(ints(s@) =~= r_pre(ints(w@)));
    }
    s
}

/// Evaluates every constraint of one gate row over the base field.
pub fn eval_constraints(w: &Vec<u64>) -> (out: Vec<u64>)
    requires
        w@.len() == 135,
        elems_u(w@),
    ensures
        out@.len() == 123,
        elems_u(out@),
        ints(out@) == constraints_spec(ints(w@)),
{
    let ghost ww = ints(w@);
    let rc = rc_external_vec();
    let rci = rc_internal_vec();
    let diag = internal_diag_m1_vec();
    let mut out: Vec<u64> = Vec::new();

    out.push(crate::field::sub_mod(crate::field::mul_mod(w[24], w[24]), w[24]));
    for j in 0..4usize
        invariant
            w@.len() == 135,
            elems_u(w@),
            ww == ints(w@),
            out@.len() == 1 + j,
            elems_u(out@),
            forall|c: int| 0 <= c < out@.len() ==> #[trigger] out@[c] as int == constraint_at(ww, c),
    {
        let val = crate::field::sub_mod(
            w[25 + j],
            crate::field::mul_mod(w[24], crate::field::sub_mod(w[j + 4], w[j])),
        );
        proof {
            assert(val as int == constraint_at(ww, 1 + j as int));
        }
        out.push(val);
    }

    let pre = pre_from_wires(w);
    let mut state = external_layer_exec(&pre);
    for r in 0..4usize
        invariant
            w@.len() == 135,
            elems_u(w@),
            ww == ints(w@),
            rc@ == crate::params::rc_external(),
            state@.len() == 12,
            elems_u(state@),
            ints(state@) == r_fb(ww, r as int),
            out@.len() == 5 + if r == 0 { 0int } else { (r - 1) * 12 },
            elems_u(out@),
            forall|c: int| 0 <= c < out@.len() ==> #[trigger] out@[c] as int == constraint_at(ww, c),
    {
        let t = add_rc_exec(&state, &rc, r);
        if r >= 1 {
            for i in 0..12usize
                invariant
                    w@.len() == 135,
                    elems_u(w@),
                    ww == ints(w@),
                    1 <= r < 4,
                    t@.len() == 12,
                    elems_u(t@),
                    ints(t@) == add_rc(r_fb(ww, r as int), r as int),
                    out@.len() == 5 + (r - 1) * 12 + i,
                    elems_u(out@),
                    forall|c: int| 0 <= c < out@.len() ==> #[trigger] out@[c] as int
                        == constraint_at(ww, c),
            {
                let val = crate::field::sub_mod(t[i], w[29 + (r - 1) * 12 + i]);
                proof {
                    lemma_fundamental_div_mod_converse(
                        (r - 1) * 12 + i as int, 12, r as int - 1, i as int);
                    assert(val as int == constraint_at(ww, 5 + (r - 1) * 12 + i as int));
                }
                out.push(val);
            }
            let row = wire_row_exec(w, 29 + (r - 1) * 12);
            proof {
                assert(ints(row@) =~= wrow0(ww, r as int));
            }
            let sb = sbox_all_exec(&row);
            state = external_layer_exec(&sb);
        } else {
            let sb = sbox_all_exec(&t);
            state = external_layer_exec(&sb);
        }
    }

    for r in 0..22usize
        invariant
            w@.len() == 135,
            elems_u(w@),
            ww == ints(w@),
            rci@ == crate::params::rc_internal(),
            diag@ == crate::params::internal_diag_m1(),
            state@.len() == 12,
            elems_u(state@),
            ints(state@) == r_ps(ww, r as int),
            out@.len() == 41 + r,
            elems_u(out@),
            forall|c: int| 0 <= c < out@.len() ==> #[trigger] out@[c] as int == constraint_at(ww, c),
    {
        let t0 = crate::field::add_mod(state[0], rci[r]);
        let val = crate::field::sub_mod(t0, w[65 + r]);
        proof {
            assert(val as int == constraint_at(ww, 41 + r as int));
        }
        out.push(val);
        let u = crate::field::sbox(w[65 + r]);
        let ghost before = ints(state@);
        state[0] = u;
        proof {
            assert(ints(state@) =~= before.update(0, sbx(ww[65 + r as int])));
        }
        state = internal_layer_exec(&state, &diag);
    }

    for r in 0..4usize
        invariant
            w@.len() == 135,
            elems_u(w@),
            ww == ints(w@),
            rc@ == crate::params::rc_external(),
            state@.len() == 12,
            elems_u(state@),
            ints(state@) == r_sb(ww, r as int),
            out@.len() == 63 + r * 12,
            elems_u(out@),
            forall|c: int| 0 <= c < out@.len() ==> #[trigger] out@[c] as int == constraint_at(ww, c),
    {
        let t = add_rc_exec(&state, &rc, 4 + r);
        for i in 0..12usize
            invariant
                w@.len() == 135,
                elems_u(w@),
                ww == ints(w@),
                r < 4,
                t@.len() == 12,
                elems_u(t@),
                ints(t@) == add_rc(r_sb(ww, r as int), 4 + r as int),
                out@.len() == 63 + r * 12 + i,
                elems_u(out@),
                forall|c: int| 0 <= c < out@.len() ==> #[trigger] out@[c] as int == constraint_at(
                    ww, c),
        {
            let val = crate::field::sub_mod(t[i], w[87 + r * 12 + i]);
            proof {
                lemma_fundamental_div_mod_converse(r * 12 + i as int, 12, r as int, i as int);
                assert(val as int == constraint_at(ww, 63 + r * 12 + i as int));
            }
            out.push(val);
        }
        let row = wire_row_exec(w, 87 + r * 12);
        proof {
            assert(ints(row@) =~= wrow1(ww, r as int));
        }
        let sb = sbox_all_exec(&row);
        state = external_layer_exec(&sb);
    }

    for i in 0..12usize
        invariant
            w@.len() == 135,
            elems_u(w@),
            ww == ints(w@),
            state@.len() == 12,
            elems_u(state@),
            ints(state@) == r_sb(ww, 4),
            out@.len() == 111 + i,
            elems_u(out@),
            forall|c: int| 0 <= c < out@.len() ==> #[trigger] out@[c] as int == constraint_at(ww, c),
    {
        let val = crate::field::sub_mod(state[i], w[12 + i]);
        proof {
            assert(val as int == constraint_at(ww, 111 + i as int));
        }
        out.push(val);
    }
    proof {
        assert(ints(out@) =~= constraints_spec(ww));
    }
    out
}

/// On the generator's assignment the reconstructed round states coincide
/// with the generator's own: the wires carry exactly the values the
/// constraint set recomputes.
proof fn lemma_witness_reconstruction(inputs: Seq<int>, flag: int)
    requires
        inputs.len() == 12,
    ensures
        r_pre(witness_spec(inputs, flag)) == pre_state(inputs, flag),
        forall|r: int| 0 <= r <= 4 ==> r_fb(witness_spec(inputs, flag), r) == first_full_state(
            a0_of(inputs, flag), r),
        forall|r: int| 0 <= r <= 22 ==> r_ps(witness_spec(inputs, flag), r) == partial_state(
            b0_of(inputs, flag), r),
        forall|r: int| 0 <= r <= 4 ==> r_sb(witness_spec(inputs, flag), r) == second_full_state(
            c0_of(inputs, flag), r),
{
    let w = witness_spec(inputs, flag);
    let a0 = a0_of(inputs, flag);
    let b0 = b0_of(inputs, flag);
    let c0 = c0_of(inputs, flag);
    assert(r_pre(w) =~= pre_state(inputs, flag));
    assert(r_a0(w) == a0);
    assert forall|r: int| 0 <= r < 4 implies sbin0(w, r) == sbox_in_first(a0, r) by {
        if r == 0 {
            assert(first_full_state(a0, 0) == a0);
            assert(sbin0(w, 0) == sbox_in_first(a0, 0));
        } else {
            assert forall|i: int| 0 <= i < 12 implies #[trigger] wrow0(w, r)[i]
                == sbox_in_first(a0, r)[i] by {
                let m = (r - 1) * 12 + i;
                lemma_fundamental_div_mod_converse(m, 12, r - 1, i);
                assert(w[29 + m] == witness_at(inputs, flag, 29 + m));
            }
            assert(wrow0(w, r) =~= sbox_in_first(a0, r));
        }
    }
    assert forall|r: int| 0 <= r <= 4 implies r_fb(w, r) == first_full_state(a0, r) by {
        if r > 0 {
            assert(sbin0(w, r - 1) == sbox_in_first(a0, r - 1));
        }
    }
    assert(r_fb(w, 4) == b0);
    assert forall|r: int| 0 <= r <= 22 implies r_ps(w, r) == partial_state(b0, r) by {
        lemma_ps_reconstruction(inputs, flag, r);
    }
    assert(r_ps(w, 22) == c0);
    assert forall|r: int| 0 <= r <= 4 implies r_sb(w, r) == second_full_state(c0, r) by {
        if r > 0 {
            assert forall|i: int| 0 <= i < 12 implies #[trigger] wrow1(w, r - 1)[i]
                == sbox_in_second(c0, r - 1)[i] by {
                let m = (r - 1) * 12 + i;
                lemma_fundamental_div_mod_converse(m, 12, r - 1, i);
                assert(w[87 + m] == witness_at(inputs, flag, 87 + m));
            }
            assert(wrow1(w, r - 1) =~= sbox_in_second(c0, r - 1));
        }
    }
}

/// Partial-round reconstruction, by induction over the rounds.
proof fn lemma_ps_reconstruction(inputs: Seq<int>, flag: int, r: int)
    requires
        inputs.len() == 12,
        0 <= r <= 22,
        r_fb(witness_spec(inputs, flag), 4) == b0_of(inputs, flag),
    ensures
        r_ps(witness_spec(inputs, flag), r) == partial_state(b0_of(inputs, flag), r),
    decreases r,
{
    let w = witness_spec(inputs, flag);
    let b0 = b0_of(inputs, flag);
    if r > 0 {
        lemma_ps_reconstruction(inputs, flag, r - 1);
        assert(w[65 + (r - 1)] == witness_at(inputs, flag, 65 + (r - 1)));
        assert(w[65 + (r - 1)] == sbox_in_partial(b0, r - 1));
        assert(r_ps(w, r) == internal_layer(
            partial_state(b0, r - 1).update(0, sbx(sbox_in_partial(b0, r - 1)))));
    }
}

/// The generator's assignment satisfies every constraint: for any canonical
/// inputs and either flag value, the constraint vector is identically zero.
pub proof fn lemma_witness_satisfies_constraints(inputs: Seq<int>, flag: int)
    requires
        inputs.len() == 12,
        elems_i(inputs),
        flag == 0 || flag == 1,
    ensures
        forall|c: int| 0 <= c < 123 ==> constraints_spec(witness_spec(inputs, flag))[c] == 0,
{
    let w = witness_spec(inputs, flag);
    let a0 = a0_of(inputs, flag);
    let b0 = b0_of(inputs, flag);
    let c0 = c0_of(inputs, flag);
    lemma_witness_reconstruction(inputs, flag);
    assert forall|c: int| 0 <= c < 123 implies constraint_at(w, c) == 0 by {
        if c == 0 {
            lemma_zero_laws(1);
            lemma_zero_laws(0);
            assert(fmul(flag, flag) == flag);
            assert(fsub(flag, flag) == 0);
        } else if c < 5 {
            let j = c - 1;
            assert(w[25 + j] == witness_at(inputs, flag, 25 + j));
            assert(w[25 + j] == fmul(w[24], fsub(w[j + 4], w[j])));
            assert(fsub(w[25 + j], w[25 + j]) == 0);
        } else if c < 41 {
            let m = c - 5;
            lemma_fundamental_div_mod(m, 12);
            lemma_mod_bound(m, 12);
            let r = 1 + m / 12;
            let i = m % 12;
            assert(1 <= r < 4 && 0 <= i < 12);
            assert(add_rc(r_fb(w, r), r) == sbox_in_first(a0, r));
            assert(w[29 + (r - 1) * 12 + i] == witness_at(inputs, flag, 29 + (r - 1) * 12 + i));
            lemma_fundamental_div_mod_converse((r - 1) * 12 + i, 12, r - 1, i);
            assert(w[29 + (r - 1) * 12 + i] == sbox_in_first(a0, r)[i]);
            assert(fsub(sbox_in_first(a0, r)[i], sbox_in_first(a0, r)[i]) == 0);
        } else if c < 63 {
            let r = c - 41;
            assert(fadd(r_ps(w, r)[0], rc_int_at(r)) == sbox_in_partial(b0, r));
            assert(w[65 + r] == witness_at(inputs, flag, 65 + r));
            assert(fsub(sbox_in_partial(b0, r), sbox_in_partial(b0, r)) == 0);
        } else if c < 111 {
            let m = c - 63;
            lemma_fundamental_div_mod(m, 12);
            lemma_mod_bound(m, 12);
            let r = m / 12;
            let i = m % 12;
            assert(0 <= r < 4 && 0 <= i < 12);
            assert(add_rc(r_sb(w, r), 4 + r) == sbox_in_second(c0, r));
            assert(w[87 + r * 12 + i] == witness_at(inputs, flag, 87 + r * 12 + i));
            lemma_fundamental_div_mod_converse(r * 12 + i, 12, r, i);
            assert(w[87 + r * 12 + i] == sbox_in_second(c0, r)[i]);
            assert(fsub(sbox_in_second(c0, r)[i], sbox_in_second(c0, r)[i]) == 0);
        } else {
            let i = c - 111;
            assert(r_sb(w, 4) == second_full_state(c0, 4));
            assert(w[12 + i] == witness_at(inputs, flag, 12 + i));
            assert(fsub(second_full_state(c0, 4)[i], second_full_state(c0, 4)[i]) == 0);
        }
    }
}


/// The witness is canonical wire for wire: every derived value is a residue.
pub proof fn lemma_witness_canonical(inputs: Seq<int>, flag: int)
    requires
        inputs.len() == 12,
        elems_i(inputs),
        is_elem(flag),
    ensures
        elems_i(witness_spec(inputs, flag)),
{
    let w = witness_spec(inputs, flag);
    assert forall|k: int| 0 <= k < 135 implies is_elem(#[trigger] w[k]) by {
        if k < 12 {
        } else if k < 24 {
            let c0 = c0_of(inputs, flag);
            assert(second_full_state(c0, 4) == external_layer(sbox_all(add_rc(
                second_full_state(c0, 3), 7))));
            lemma_residue(ext_dot(sbox_all(add_rc(second_full_state(c0, 3), 7)), k - 12, 11),
                fmul(crate::params::external_mat(k - 12, 11),
                    sbox_all(add_rc(second_full_state(c0, 3), 7))[11]));
        } else if k == 24 {
        } else if k < 29 {
            lemma_residue(flag, fsub(inputs[k - 25 + 4], inputs[k - 25]));
        } else if k < 65 {
            let a0 = a0_of(inputs, flag);
            let r = 1 + (k - 29) / 12;
            let i = (k - 29) % 12;
            lemma_mod_bound(k - 29, 12);
            lemma_residue(first_full_state(a0, r)[i], crate::permutation::rc_ext_at(r, i));
        } else if k < 87 {
            let b0 = b0_of(inputs, flag);
            lemma_residue(partial_state(b0, k - 65)[0], rc_int_at(k - 65));
        } else {
            let c0 = c0_of(inputs, flag);
            let r = (k - 87) / 12;
            let i = (k - 87) % 12;
            lemma_mod_bound(k - 87, 12);
            lemma_residue(second_full_state(c0, r)[i], crate::permutation::rc_ext_at(4 + r, i));
        }
    }
}

/// Two assignments agree on everything the reconstruction can read below
/// stored-wire bound `b`: the inputs, the swap wire, and the deltas and
/// stored wires before `b`.  Output wires are never read back.
pub open spec fn agree_below(w1: Seq<int>, w2: Seq<int>, b: int) -> bool {
    &&& w1.len() == 135
    &&& w2.len() == 135
    &&& forall|j: int| 0 <= j < 12 ==> #[trigger] w1[j] == w2[j]
    &&& w1[24] == w2[24]
    &&& forall|j: int| 25 <= j < b ==> #[trigger] w1[j] == w2[j]
}

/// The reconstruction up to the first external round reads only inputs,
/// swap, and deltas.
proof fn lemma_frame_a0(w1: Seq<int>, w2: Seq<int>)
    requires
        agree_below(w1, w2, 29),
    ensures
        r_pre(w1) == r_pre(w2),
        r_a0(w1) == r_a0(w2),
{
    assert(r_pre(w1) =~= r_pre(w2));
}

/// The state entering first-block round `r` reads no wire at or beyond the
/// bound.
proof fn lemma_frame_fb(w1: Seq<int>, w2: Seq<int>, r: int, b: int)
    requires
        0 <= r <= 4,
        b >= 29,
        r >= 2 ==> b >= 29 + (r - 1) * 12,
        agree_below(w1, w2, b),
    ensures
        r_fb(w1, r) == r_fb(w2, r),
{
    lemma_frame_a0(w1, w2);
    if r >= 2 {
        assert(wrow0(w1, r - 1) =~= wrow0(w2, r - 1));
    }
}

/// The state entering partial round `r` reads no wire at or beyond `65 + r`.
proof fn lemma_frame_ps(w1: Seq<int>, w2: Seq<int>, r: int, b: int)
    requires
        0 <= r <= 22,
        b >= 65 + r,
        agree_below(w1, w2, b),
    ensures
        r_ps(w1, r) == r_ps(w2, r),
    decreases r,
{
    if r == 0 {
        lemma_frame_fb(w1, w2, 4, b);
    } else {
        lemma_frame_ps(w1, w2, r - 1, b);
        assert(w1[65 + (r - 1)] == w2[65 + (r - 1)]);
    }
}

/// The state entering second-block round `r` reads no wire at or beyond the
/// bound.
proof fn lemma_frame_sb(w1: Seq<int>, w2: Seq<int>, r: int, b: int)
    requires
        0 <= r <= 4,
        b >= 87,
        r >= 1 ==> b >= 87 + r * 12,
        agree_below(w1, w2, b),
    ensures
        r_sb(w1, r) == r_sb(w2, r),
{
    if r == 0 {
        lemma_frame_ps(w1, w2, 22, b);
    } else {
        assert(wrow1(w1, r - 1) =~= wrow1(w2, r - 1));
    }
}

/// Wires the generator derives rather than receives: outputs, deltas, and
/// every stored intermediate.
pub open spec fn derived_wire(k: int) -> bool {
    (12 <= k < 24) || (25 <= k < 135)
}

/// The constraint that pins derived wire `k` down.
pub open spec fn detector(k: int) -> int {
    if 12 <= k < 24 {
        111 + (k - 12)
    } else if 25 <= k < 29 {
        1 + (k - 25)
    } else if 29 <= k < 65 {
        5 + (k - 29)
    } else if 65 <= k < 87 {
        41 + (k - 65)
    } else {
        63 + (k - 87)
    }
}

/// Tampering with any single derived wire of a generated witness is caught:
/// the constraint that defines that wire becomes non-zero.
pub proof fn lemma_flip_detected(inputs: Seq<int>, flag: int, k: int, v: int)
    requires
        inputs.len() == 12,
        elems_i(inputs),
        flag == 0 || flag == 1,
        derived_wire(k),
        is_elem(v),
        v != witness_spec(inputs, flag)[k],
    ensures
        0 <= detector(k) < 123,
        constraints_spec(witness_spec(inputs, flag).update(k, v))[detector(k)] != 0,
{
    let w = witness_spec(inputs, flag);
    let w2 = w.update(k, v);
    let c = detector(k);
    lemma_witness_canonical(inputs, flag);
    lemma_witness_reconstruction(inputs, flag);
    assert(is_elem(w[k]));
    if 12 <= k < 24 {
        let i = k - 12;
        assert(agree_below(w, w2, 135));
        lemma_frame_sb(w, w2, 4, 135);
        assert(r_sb(w2, 4)[i] == second_full_state(c0_of(inputs, flag), 4)[i]);
        assert(w[k] == witness_at(inputs, flag, k));
        assert(constraint_at(w2, c) == fsub(w[k], v));
        crate::field::lemma_distinct_nonzero(w[k], v);
    } else if 25 <= k < 29 {
        let j = k - 25;
        assert(constraint_at(w2, c) == fsub(w2[25 + j], fmul(w2[24], fsub(w2[j + 4], w2[j]))));
        assert(w2[25 + j] == v);
        assert(fmul(w2[24], fsub(w2[j + 4], w2[j])) == delta_val(inputs, flag, j));
        assert(w[k] == delta_val(inputs, flag, j));
        crate::field::lemma_distinct_nonzero(v, w[k]);
    } else if 29 <= k < 65 {
        let m = k - 29;
        lemma_fundamental_div_mod(m, 12);
        lemma_mod_bound(m, 12);
        let r = 1 + m / 12;
        let i = m % 12;
        assert(k == 29 + (r - 1) * 12 + i);
        assert(agree_below(w, w2, 29 + (r - 1) * 12));
        lemma_frame_fb(w, w2, r, 29 + (r - 1) * 12);
        assert(add_rc(r_fb(w2, r), r) == sbox_in_first(a0_of(inputs, flag), r));
        assert(w[k] == witness_at(inputs, flag, k));
        lemma_fundamental_div_mod_converse((r - 1) * 12 + i, 12, r - 1, i);
        assert(w[k] == sbox_in_first(a0_of(inputs, flag), r)[i]);
        assert(constraint_at(w2, c) == fsub(w[k], v));
        crate::field::lemma_distinct_nonzero(w[k], v);
    } else if 65 <= k < 87 {
        let r = k - 65;
        assert(agree_below(w, w2, 65 + r));
        lemma_frame_ps(w, w2, r, 65 + r);
        assert(fadd(r_ps(w2, r)[0], rc_int_at(r)) == sbox_in_partial(b0_of(inputs, flag), r));
        assert(w[k] == witness_at(inputs, flag, k));
        assert(constraint_at(w2, c) == fsub(w[k], v));
        crate::field::lemma_distinct_nonzero(w[k], v);
    } else {
        let m = k - 87;
        lemma_fundamental_div_mod(m, 12);
        lemma_mod_bound(m, 12);
        let r = m / 12;
        let i = m % 12;
        assert(k == 87 + r * 12 + i);
        assert(agree_below(w, w2, 87 + r * 12));
        lemma_frame_sb(w, w2, r, if r == 0 { 87int } else { 87 + r * 12 });
        assert(add_rc(r_sb(w2, r), 4 + r) == sbox_in_second(c0_of(inputs, flag), r));
        assert(w[k] == witness_at(inputs, flag, k));
        lemma_fundamental_div_mod_converse(r * 12 + i, 12, r, i);
        assert(w[k] == sbox_in_second(c0_of(inputs, flag), r)[i]);
        assert(constraint_at(w2, c) == fsub(w[k], v));
        crate::field::lemma_distinct_nonzero(w[k], v);
    }
}

} // verus!
