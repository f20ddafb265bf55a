//! The conditional-swap gadget: the four delta helper values and the
//! pre-permutation state they produce.
//!
//! This gate can exchange the first four inputs with the next four before
//! permuting, steered by a swap wire that carries 0 or 1.  The exchange is
//! expressed without branching on the flag — `delta[j] = flag * (in[j+4] -
//! in[j])`, added on one side and subtracted on the other — so the constraint
//! set can check it with two low-degree identities per pair and the
//! computation's shape never depends on the flag.

use vstd::prelude::*;
use crate::field::{
    is_elem, fadd, fsub, fmul, ints, elems_u, elems_i, lemma_residue, lemma_zero_laws,
    lemma_swap_transport,
};

verus! {

/// Delta value `j`: the swap flag times the difference of the paired inputs.
pub open spec fn delta_val(inputs: Seq<int>, flag: int, j: int) -> int {
    fmul(flag, fsub(inputs[j + 4], inputs[j]))
}

/// The four delta values.
pub open spec fn deltas(inputs: Seq<int>, flag: int) -> Seq<int> {
    Seq::new(4, |j: int| delta_val(inputs, flag, j))
}

/// The pre-permutation state: deltas added on the first half of the pairs,
/// subtracted on the second half, the last four elements copied unchanged.
pub open spec fn pre_state(inputs: Seq<int>, flag: int) -> Seq<int> {
    Seq::new(
        12,
        |i: int|
            if i < 4 {
                fadd(inputs[i], delta_val(inputs, flag, i))
            } else if i < 8 {
                fsub(inputs[i], delta_val(inputs, flag, i - 4))
            } else {
                inputs[i]
            },
    )
}

/// The inputs with their first and second four elements exchanged.
pub open spec fn swapped(inputs: Seq<int>) -> Seq<int> {
    Seq::new(
        12,
        |i: int|
            if i < 4 {
                inputs[i + 4]
            } else if i < 8 {
                inputs[i - 4]
            } else {
                inputs[i]
            },
    )
}

/// With the flag down the gadget is the identity: every delta is zero and the
/// pre-permutation state is the raw input.
pub proof fn lemma_swap_identity(inputs: Seq<int>)
    requires
        inputs.len() == 12,
        elems_i(inputs),
    ensures
        pre_state(inputs, 0) == inputs,
        forall|j: int| 0 <= j < 4 ==> delta_val(inputs, 0, j) == 0,
{
    assert forall|j: int| 0 <= j < 4 implies delta_val(inputs, 0, j) == 0 by {
        lemma_residue(inputs[j + 4], inputs[j]);
        lemma_zero_laws(fsub(inputs[j + 4], inputs[j]));
    }
    assert forall|i: int| 0 <= i < 12 implies pre_state(inputs, 0)[i] == inputs[i] by {
        if i < 8 {
            let j: int = if i < 4 { i } else { i - 4 };
            lemma_residue(inputs[j + 4], inputs[j]);
            lemma_zero_laws(fsub(inputs[j + 4], inputs[j]));
            lemma_zero_laws(inputs[i]);
        }
    }
    assert(pre_state(inputs, 0) =~= inputs);
}

/// With the flag up the gadget exchanges the two halves exactly: the
/// pre-permutation state is the swapped input.
pub proof fn lemma_swap_exchange(inputs: Seq<int>)
    requires
        inputs.len() == 12,
        elems_i(inputs),
    ensures
        pre_state(inputs, 1) == swapped(inputs),
{
    assert forall|i: int| 0 <= i < 12 implies pre_state(inputs, 1)[i] == swapped(inputs)[i] by {
        if i < 8 {
            let j: int = if i < 4 { i } else { i - 4 };
            let d = fsub(inputs[j + 4], inputs[j]);
            lemma_residue(inputs[j + 4], inputs[j]);
            lemma_zero_laws(d);
            assert(delta_val(inputs, 1, j) == d);
            lemma_swap_transport(inputs[j], inputs[j + 4]);
        }
    }
    assert(pre_state(inputs, 1) =~= swapped(inputs));
}

/// Computes the four delta values from the inputs and the swap flag.
pub fn compute_deltas(inputs: &Vec<u64>, flag: u64) -> (d: Vec<u64>)
    requires
        inputs@.len() == 12,
        elems_u(inputs@),
    ensures
        d@.len() == 4,
        elems_u(d@),
        ints(d@) == deltas(ints(inputs@), flag as int),
{
    let mut d: Vec<u64> = Vec::new();
    for j in 0..4usize
        invariant
            inputs@.len() == 12,
            elems_u(inputs@),
            d@.len() == j,
            elems_u(d@),
            forall|k: int| 0 <= k < j ==> #[trigger] d@[k] as int == delta_val(
                ints(inputs@), flag as int, k),
    {
        d.push(crate::field::mul_mod(flag, crate::field::sub_mod(inputs[j + 4], inputs[j])));
    }
    proof {
        assert(ints(d@) =~= deltas(ints(inputs@), flag as int));
    }
    d
}

/// Applies the conditional swap: the pre-permutation state handed to the
/// permutation's initial linear layer.
pub fn apply_swap(inputs: &Vec<u64>, flag: u64) -> (s: Vec<u64>)
    requires
        inputs@.len() == 12,
        elems_u(inputs@),
    ensures
        s@.len() == 12,
        elems_u(s@),
        ints(s@) == pre_state(ints(inputs@), flag as int),
{
    let d = compute_deltas(inputs, flag);
    let mut s: Vec<u64> = Vec::new();
    for i in 0..12usize
        invariant
            inputs@.len() == 12,
            elems_u(inputs@),
            d@.len() == 4,
            elems_u(d@),
            ints(d@) == deltas(ints(inputs@), flag as int),
            s@.len() == i,
            elems_u(s@),
            forall|k: int| 0 <= k < i ==> #[trigger] s@[k] as int == pre_state(
                ints(inputs@), flag as int)[k],
    {
        if i < 4 {
            proof {
                assert(ints(d@)[i as int] == deltas(ints(inputs@), flag as int)[i as int]);
            }
            s.push(crate::field::add_mod(inputs[i], d[i]));
        } else if i < 8 {
            proof {
                assert(ints(d@)[i - 4] == deltas(ints(inputs@), flag as int)[i - 4]);
            }
            s.push(crate::field::sub_mod(inputs[i], d[i - 4]));
        } else {
            proof {
                assert(pre_state(ints(inputs@), flag as int)[i as int] == ints(inputs@)[i as int]);
            }
            s.push(inputs[i]);
        }
    }
    proof {
        assert(ints(s@) =~= pre_state(ints(inputs@), flag as int));
    }
    s
}

} // verus!
