//! Witness generation: from the input wires and the swap flag to the
//! complete, deterministic assignment of all 135 wires of one gate row.
//!
//! The generator runs the conditional swap and the round sequence once and
//! records, for every stored round, the state just after the round constants
//! were added — the S-box inputs the constraint set checks.  Its contract
//! pins every wire to the specification-level value `witness_at`, so
//! determinism and agreement with the plain permutation are part of the
//! function's meaning, not a convention.

use vstd::prelude::*;
use vstd::arithmetic::div_mod::lemma_fundamental_div_mod_converse;
use crate::field::{is_elem, fadd, sbx, ints, elems_u};
use crate::gadget::{delta_val, pre_state, compute_deltas, apply_swap};
use crate::permutation::{
    rc_int_at, add_rc, external_layer, first_full_state, partial_state, second_full_state,
    permute_spec, add_rc_exec, sbox_all_exec, external_layer_exec, internal_layer_exec,
};
use crate::params::{rc_external_vec, rc_internal_vec, internal_diag_m1_vec};

verus! {

/// The state handed to the first external round: the conditionally swapped
/// inputs after the permutation's initial external layer.
pub open spec fn a0_of(inputs: Seq<int>, flag: int) -> Seq<int> {
    external_layer(pre_state(inputs, flag))
}

/// The state entering the partial block.
pub open spec fn b0_of(inputs: Seq<int>, flag: int) -> Seq<int> {
    first_full_state(a0_of(inputs, flag), 4)
}

/// The state entering the second full block.
pub open spec fn c0_of(inputs: Seq<int>, flag: int) -> Seq<int> {
    partial_state(b0_of(inputs, flag), 22)
}

/// S-box inputs of external round `r` of the first block: the round-`r`
/// state with the round constants added.
pub open spec fn sbox_in_first(a0: Seq<int>, r: int) -> Seq<int> {
    add_rc(first_full_state(a0, r), r)
}

/// S-box input of partial round `r`: element 0 of the round-`r` state with
/// the partial round constant added.
pub open spec fn sbox_in_partial(b0: Seq<int>, r: int) -> int {
    fadd(partial_state(b0, r)[0], rc_int_at(r))
}

/// S-box inputs of external round `r` of the second block.
pub open spec fn sbox_in_second(c0: Seq<int>, r: int) -> Seq<int> {
    add_rc(second_full_state(c0, r), 4 + r)
}

/// The value of wire `k` in the assignment the generator produces.
pub open spec fn witness_at(inputs: Seq<int>, flag: int, k: int) -> int {
    if k < 12 {
        inputs[k]
    } else if k < 24 {
        second_full_state(c0_of(inputs, flag), 4)[k - 12]
    } else if k == 24 {
        flag
    } else if k < 29 {
        delta_val(inputs, flag, k - 25)
    } else if k < 65 {
        sbox_in_first(a0_of(inputs, flag), 1 + (k - 29) / 12)[(k - 29) % 12]
    } else if k < 87 {
        sbox_in_partial(b0_of(inputs, flag), k - 65)
    } else {
        sbox_in_second(c0_of(inputs, flag), (k - 87) / 12)[(k - 87) % 12]
    }
}

/// The complete wire assignment determined by the inputs and the swap flag.
pub open spec fn witness_spec(inputs: Seq<int>, flag: int) -> Seq<int> {
    Seq::new(135, |k: int| witness_at(inputs, flag, k))
}

/// The output wires carry exactly the permutation of the swapped inputs.
pub proof fn lemma_outputs_are_permutation(inputs: Seq<int>, flag: int)
    requires
        inputs.len() == 12,
    ensures
        forall|i: int| 0 <= i < 12 ==> witness_at(inputs, flag, 12 + i) == permute_spec(
            pre_state(inputs, flag))[i],
{
}

/// With the flag down the outputs are the permutation of the inputs as
/// given; with the flag up, of the inputs with their halves exchanged.
pub proof fn lemma_outputs_by_flag(inputs: Seq<int>, flag: int)
    requires
        inputs.len() == 12,
        crate::field::elems_i(inputs),
        flag == 0 || flag == 1,
    ensures
        flag == 0 ==> forall|i: int| 0 <= i < 12 ==> witness_at(inputs, flag, 12 + i)
            == permute_spec(inputs)[i],
        flag == 1 ==> forall|i: int| 0 <= i < 12 ==> witness_at(inputs, flag, 12 + i)
            == permute_spec(crate::gadget::swapped(inputs))[i],
{
    lemma_outputs_are_permutation(inputs, flag);
    if flag == 0 {
        crate::gadget::lemma_swap_identity(inputs);
    } else {
        crate::gadget::lemma_swap_exchange(inputs);
    }
}

/// Fills every derived wire of one gate row from the input wires and the
/// swap flag.
pub fn generate(inputs: &Vec<u64>, flag: u64) -> (w: Vec<u64>)
    requires
        inputs@.len() == 12,
        elems_u(inputs@),
        is_elem(flag as int),
    ensures
        w@.len() == 135,
        elems_u(w@),
        ints(w@) == witness_spec(ints(inputs@), flag as int),
{
    let ghost ii = ints(inputs@);
    let rc = rc_external_vec();
    let rci = rc_internal_vec();
    let diag = internal_diag_m1_vec();
    let d = compute_deltas(inputs, flag);
    let pre = apply_swap(inputs, flag);
    let mut state = external_layer_exec(&pre);
    let ghost a0 = a0_of(ii, flag as int);

    let mut rows0: Vec<u64> = Vec::new();
    for r in 0..4usize
        invariant
            rc@ == crate::params::rc_external(),
            state@.len() == 12,
            elems_u(state@),
            ints(state@) == first_full_state(a0, r as int),
            rows0@.len() == if r == 0 { 0int } else { (r - 1) * 12 },
            elems_u(rows0@),
            forall|m: int| 0 <= m < rows0@.len() ==> #[trigger] rows0@[m] as int == sbox_in_first(
                a0, 1 + m / 12)[m % 12],
    {
        let t = add_rc_exec(&state, &rc, r);
        if r >= 1 {
            for i in 0..12usize
                invariant
                    r >= 1 && r < 4,
                    t@.len() == 12,
                    elems_u(t@),
                    ints(t@) == sbox_in_first(a0, r as int),
                    rows0@.len() == (r - 1) * 12 + i,
                    elems_u(rows0@),
                    forall|m: int| 0 <= m < rows0@.len() ==> #[trigger] rows0@[m] as int
                        == sbox_in_first(a0, 1 + m / 12)[m % 12],
            {
                proof {
                    lemma_fundamental_div_mod_converse(
                        (r - 1) * 12 + i as int, 12, r as int - 1, i as int);
                    assert(t@[i as int] as int == sbox_in_first(a0, r as int)[i as int]);
                }
                rows0.push(t[i]);
            }
        }
        let sb = sbox_all_exec(&t);
        state = external_layer_exec(&sb);
    }

    let ghost b0 = b0_of(ii, flag as int);
    let mut prow: Vec<u64> = Vec::new();
    for r in 0..22usize
        invariant
            rci@ == crate::params::rc_internal(),
            diag@ == crate::params::internal_diag_m1(),
            state@.len() == 12,
            elems_u(state@),
            ints(state@) == partial_state(b0, r as int),
            prow@.len() == r,
            elems_u(prow@),
            forall|m: int| 0 <= m < r ==> #[trigger] prow@[m] as int == sbox_in_partial(b0, m),
    {
        let t0 = crate::field::add_mod(state[0], rci[r]);
        prow.push(t0);
        let u = crate::field::sbox(t0);
        let ghost before = ints(state@);
        state[0] = u;
        proof {
            assert(ints(state@) =~= before.update(0, sbx(fadd(before[0], rc_int_at(r as int)))));
        }
        state = internal_layer_exec(&state, &diag);
    }

    let ghost c0 = c0_of(ii, flag as int);
    let mut rows1: Vec<u64> = Vec::new();
    for r in 0..4usize
        invariant
            rc@ == crate::params::rc_external(),
            state@.len() == 12,
            elems_u(state@),
            ints(state@) == second_full_state(c0, r as int),
            rows1@.len() == r * 12,
            elems_u(rows1@),
            forall|m: int| 0 <= m < rows1@.len() ==> #[trigger] rows1@[m] as int == sbox_in_second(
                c0, m / 12)[m % 12],
    {
        let t = add_rc_exec(&state, &rc, 4 + r);
        for i in 0..12usize
            invariant
                r < 4,
                t@.len() == 12,
                elems_u(t@),
                ints(t@) == sbox_in_second(c0, r as int),
                rows1@.len() == r * 12 + i,
                elems_u(rows1@),
                forall|m: int| 0 <= m < rows1@.len() ==> #[trigger] rows1@[m] as int
                    == sbox_in_second(c0, m / 12)[m % 12],
        {
            proof {
                lemma_fundamental_div_mod_converse(
                    r * 12 + i as int, 12, r as int, i as int);
                assert(t@[i as int] as int == sbox_in_second(c0, r as int)[i as int]);
            }
            rows1.push(t[i]);
        }
        let sb = sbox_all_exec(&t);
        state = external_layer_exec(&sb);
    }

    let mut w: Vec<u64> = Vec::new();
    for i in 0..12usize
        invariant
            inputs@.len() == 12,
            elems_u(inputs@),
            w@.len() == i,
            elems_u(w@),
            forall|k: int| 0 <= k < i ==> #[trigger] w@[k] == inputs@[k],
    {
        w.push(inputs[i]);
    }
    let mut out_part = state;
    let ghost outs = ints(out_part@);
    w.append(&mut out_part);
    w.push(flag);
    let mut d_part = d;
    let ghost dd = ints(d_part@);
    w.append(&mut d_part);
    let ghost r0 = ints(rows0@);
    w.append(&mut rows0);
    let ghost pr = ints(prow@);
    w.append(&mut prow);
    let ghost r1 = ints(rows1@);
    w.append(&mut rows1);
    proof {
        assert forall|k: int| 0 <= k < 135 implies ints(w@)[k] == witness_at(ii, flag as int, k) by {
            if k < 12 {
            } else if k < 24 {
                assert(w@[k] as int == outs[k - 12]);
            } else if k == 24 {
            } else if k < 29 {
                assert(w@[k] as int == dd[k - 25]);
            } else if k < 65 {
                assert(w@[k] as int == r0[k - 29]);
            } else if k < 87 {
                assert(w@[k] as int == pr[k - 65]);
            } else {
                assert(w@[k] as int == r1[k - 87]);
            }
        }
        assert(ints(w@) =~= witness_spec(ii, flag as int));
    }
    w
}

} // verus!
