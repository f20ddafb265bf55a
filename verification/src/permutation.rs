//! The plain Poseidon2 permutation at width 12: the reference evaluation the
//! rest of this gate is measured against.
//!
//! The specification-level round functions in this module are the single
//! source of truth: witness generation and constraint evaluation state their
//! contracts in terms of the same `first_full_state` / `partial_state` /
//! `second_full_state` recurrences, so agreement between all three is a
//! theorem rather than a convention.

use vstd::prelude::*;
use crate::field::{is_elem, fadd, fmul, sbx, ints, elems_u};
use crate::params::{
    rc_external, rc_internal, internal_diag_m1, external_mat, rc_external_vec, rc_internal_vec,
    internal_diag_m1_vec, external_mat_at,
};

verus! {

/// Round constant of external round `r` at position `i`.
pub open spec fn rc_ext_at(r: int, i: int) -> int {
    rc_external()[r * 12 + i] as int
}

/// Round constant of partial round `r`.
pub open spec fn rc_int_at(r: int) -> int {
    rc_internal()[r] as int
}

/// Diagonal-minus-one entry `i` of the internal linear layer.
pub open spec fn diag_at(i: int) -> int {
    internal_diag_m1()[i] as int
}

/// The state with the constants of external round `r` added.
pub open spec fn add_rc(s: Seq<int>, r: int) -> Seq<int> {
    Seq::new(12, |i: int| fadd(s[i], rc_ext_at(r, i)))
}

/// The S-box applied to every state element.
pub open spec fn sbox_all(s: Seq<int>) -> Seq<int> {
    Seq::new(12, |i: int| sbx(s[i]))
}

/// Partial dot product of matrix row `i` with the first `n` state elements.
pub open spec fn ext_dot(s: Seq<int>, i: int, n: int) -> int
    decreases n,
{
    if n <= 0 {
        0
    } else {
        fadd(ext_dot(s, i, n - 1), fmul(external_mat(i, n - 1), s[n - 1]))
    }
}

/// The external linear layer: multiplication by `circ(2*M4, M4, M4)`.
pub open spec fn external_layer(s: Seq<int>) -> Seq<int> {
    Seq::new(12, |i: int| ext_dot(s, i, 12))
}

/// Sum of the first `n` state elements in the field.
pub open spec fn state_sum(s: Seq<int>, n: int) -> int
    decreases n,
{
    if n <= 0 {
        0
    } else {
        fadd(state_sum(s, n - 1), s[n - 1])
    }
}

/// The internal linear layer: `s[i] * diag_m1[i] + sum(s)` at every position.
pub open spec fn internal_layer(s: Seq<int>) -> Seq<int> {
    Seq::new(12, |i: int| fadd(fmul(s[i], diag_at(i)), state_sum(s, 12)))
}

/// One external round: constants of round `r`, S-box everywhere, external layer.
pub open spec fn external_round(s: Seq<int>, r: int) -> Seq<int> {
    external_layer(sbox_all(add_rc(s, r)))
}

/// One partial round: constant of round `r` and the S-box on element 0 only,
/// then the internal layer.
pub open spec fn partial_round(s: Seq<int>, r: int) -> Seq<int> {
    internal_layer(s.update(0, sbx(fadd(s[0], rc_int_at(r)))))
}

/// State after the first `n` external rounds, starting from the state `a0`
/// that the initial external layer produced.
pub open spec fn first_full_state(a0: Seq<int>, n: int) -> Seq<int>
    decreases n,
{
    if n <= 0 {
        a0
    } else {
        external_round(first_full_state(a0, n - 1), n - 1)
    }
}

/// State after the first `n` partial rounds, starting from the state `b0`
/// that the first full-round block produced.
pub open spec fn partial_state(b0: Seq<int>, n: int) -> Seq<int>
    decreases n,
{
    if n <= 0 {
        b0
    } else {
        partial_round(partial_state(b0, n - 1), n - 1)
    }
}

/// State after the first `n` external rounds of the second block (round
/// constants rows 4..8), starting from the state `c0` that the partial block
/// produced.
pub open spec fn second_full_state(c0: Seq<int>, n: int) -> Seq<int>
    decreases n,
{
    if n <= 0 {
        c0
    } else {
        external_round(second_full_state(c0, n - 1), 4 + (n - 1))
    }
}

/// The full Poseidon2 permutation: initial external layer, four external
/// rounds, twenty-two partial rounds, four external rounds.
pub open spec fn permute_spec(input: Seq<int>) -> Seq<int> {
    second_full_state(partial_state(first_full_state(external_layer(input), 4), 22), 4)
}

/// Adds the constants of external round `r` to the state.
pub fn add_rc_exec(s: &Vec<u64>, rc: &Vec<u64>, r: usize) -> (t: Vec<u64>)
    requires
        s@.len() == 12,
        rc@ == rc_external(),
        r < 8,
    ensures
        t@.len() == 12,
        elems_u(t@),
        ints(t@) == add_rc(ints(s@), r as int),
{
    let mut t: Vec<u64> = Vec::new();
    for i in 0..12usize
        invariant
            s@.len() == 12,
            rc@ == rc_external(),
            r < 8,
            t@.len() == i,
            forall|k: int| 0 <= k < i ==> #[trigger] t@[k] as int == fadd(s@[k] as int, rc_ext_at(
                r as int, k)),
            elems_u(t@),
    {
        t.push(crate::field::add_mod(s[i], rc[r * 12 + i]));
    }
    proof {
        assert(ints(t@) =~= add_rc(ints(s@), r as int));
    }
    t
}

/// Applies the S-box to every state element.
pub fn sbox_all_exec(s: &Vec<u64>) -> (t: Vec<u64>)
    requires
        s@.len() == 12,
    ensures
        t@.len() == 12,
        elems_u(t@),
        ints(t@) == sbox_all(ints(s@)),
{
    let mut t: Vec<u64> = Vec::new();
    for i in 0..12usize
        invariant
            s@.len() == 12,
            t@.len() == i,
            forall|k: int| 0 <= k < i ==> #[trigger] t@[k] as int == sbx(s@[k] as int),
            elems_u(t@),
    {
        t.push(crate::field::sbox(s[i]));
    }
    proof {
        assert(ints(t@) =~= sbox_all(ints(s@)));
    }
    t
}

/// Applies the external linear layer to the state.
pub fn external_layer_exec(s: &Vec<u64>) -> (t: Vec<u64>)
    requires
        s@.len() == 12,
    ensures
        t@.len() == 12,
        elems_u(t@),
        ints(t@) == external_layer(ints(s@)),
{
    let mut t: Vec<u64> = Vec::new();
    for i in 0..12usize
        invariant
            s@.len() == 12,
            t@.len() == i,
            forall|k: int| 0 <= k < i ==> #[trigger] t@[k] as int == ext_dot(ints(s@), k, 12),
            elems_u(t@),
    {
        let mut acc: u64 = 0;
        for j in 0..12usize
            invariant
                s@.len() == 12,
                i < 12,
                acc as int == ext_dot(ints(s@), i as int, j as int),
                is_elem(acc as int),
        {
            acc = crate::field::add_mod(acc, crate::field::mul_mod(external_mat_at(i, j), s[j]));
        }
        t.push(acc);
    }
    proof {
        assert(ints(t@) =~= external_layer(ints(s@)));
    }
    t
}

/// Applies the internal linear layer to the state.
pub fn internal_layer_exec(s: &Vec<u64>, diag: &Vec<u64>) -> (t: Vec<u64>)
    requires
        s@.len() == 12,
        diag@ == internal_diag_m1(),
    ensures
        t@.len() == 12,
        elems_u(t@),
        ints(t@) == internal_layer(ints(s@)),
{
    let mut sum: u64 = 0;
    for j in 0..12usize
        invariant
            s@.len() == 12,
            sum as int == state_sum(ints(s@), j as int),
            is_elem(sum as int),
    {
        sum = crate::field::add_mod(sum, s[j]);
    }
    let mut t: Vec<u64> = Vec::new();
    for i in 0..12usize
        invariant
            s@.len() == 12,
            diag@ == internal_diag_m1(),
            sum as int == state_sum(ints(s@), 12),
            t@.len() == i,
            forall|k: int| 0 <= k < i ==> #[trigger] t@[k] as int == fadd(
                fmul(s@[k] as int, diag_at(k)), state_sum(ints(s@), 12)),
            elems_u(t@),
    {
        t.push(crate::field::add_mod(crate::field::mul_mod(s[i], diag[i]), sum));
    }
    proof {
        assert(ints(t@) =~= internal_layer(ints(s@)));
    }
    t
}

/// One full external round of the permutation.
pub fn external_round_exec(s: &Vec<u64>, rc: &Vec<u64>, r: usize) -> (t: Vec<u64>)
    requires
        s@.len() == 12,
        rc@ == rc_external(),
        r < 8,
    ensures
        t@.len() == 12,
        elems_u(t@),
        ints(t@) == external_round(ints(s@), r as int),
{
    let a = add_rc_exec(s, rc, r);
    let b = sbox_all_exec(&a);
    external_layer_exec(&b)
}

/// Evaluates the full Poseidon2 permutation on a canonical state.
pub fn permute(input: &Vec<u64>) -> (out: Vec<u64>)
    requires
        input@.len() == 12,
    ensures
        out@.len() == 12,
        elems_u(out@),
        ints(out@) == permute_spec(ints(input@)),
{
    let rc = rc_external_vec();
    let rci = rc_internal_vec();
    let diag = internal_diag_m1_vec();
    let ghost a0 = external_layer(ints(input@));
    let mut state = external_layer_exec(input);
    for r in 0..4usize
        invariant
            rc@ == rc_external(),
            rci@ == rc_internal(),
            diag@ == internal_diag_m1(),
            state@.len() == 12,
            elems_u(state@),
            ints(state@) == first_full_state(a0, r as int),
    {
        state = external_round_exec(&state, &rc, r);
    }
    let ghost b0 = first_full_state(a0, 4);
    for r in 0..22usize
        invariant
            rc@ == rc_external(),
            rci@ == rc_internal(),
            diag@ == internal_diag_m1(),
            state@.len() == 12,
            elems_u(state@),
            ints(state@) == partial_state(b0, r as int),
    {
        let t0 = crate::field::add_mod(state[0], rci[r]);
        let u = crate::field::sbox(t0);
        let ghost pre = ints(state@);
        state[0] = u;
        proof {
            assert(ints(state@) =~= pre.update(0, sbx(fadd(pre[0], rc_int_at(r as int)))));
        }
        state = internal_layer_exec(&state, &diag);
    }
    let ghost c0 = partial_state(b0, 22);
    for r in 0..4usize
        invariant
            rc@ == rc_external(),
            rci@ == rc_internal(),
            diag@ == internal_diag_m1(),
            state@.len() == 12,
            elems_u(state@),
            ints(state@) == second_full_state(c0, r as int),
    {
        state = external_round_exec(&state, &rc, 4 + r);
    }
    state
}

} // verus!
