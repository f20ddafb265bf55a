//! The wire layout of one gate row: an injective numbering of the 135 wires a
//! single Poseidon2 gate instance occupies.
//!
//! Order: 12 input wires, 12 output wires, the swap-selector wire, 4 delta
//! wires, then the stored S-box inputs — one state's worth for each external
//! round of the first block except round 0, one wire per partial round, and
//! one state's worth for every external round of the second block.  Round 0
//! of the first block and the final linear layer are not stored: the
//! constraints recover them algebraically from neighbouring wires, keeping
//! the row as narrow as the degree bound allows.

use vstd::prelude::*;

verus! {

/// Total number of wires of one gate row.
pub const NUM_WIRES: usize = 135;

/// Total number of polynomial constraints of one gate row.
pub const NUM_CONSTRAINTS: usize = 123;

/// Maximum algebraic degree over the wires of any single constraint: the
/// S-box degree, reached by every stored-round constraint.
pub const CONSTRAINT_DEGREE: usize = 7;

/// Column of input wire `i`.
pub open spec fn w_input(i: int) -> int {
    i
}

/// Column of output wire `i`.
pub open spec fn w_output(i: int) -> int {
    12 + i
}

/// Column of the swap-selector wire.
pub open spec fn w_swap() -> int {
    24
}

/// Column of delta wire `j`.
pub open spec fn w_delta(j: int) -> int {
    25 + j
}

/// Column of the stored S-box input of state element `i` in external round
/// `r` of the first block, `1 <= r < 4` (round 0 is not stored).
pub open spec fn w_sbox0(r: int, i: int) -> int {
    29 + (r - 1) * 12 + i
}

/// Column of the stored S-box input of partial round `r`, `0 <= r < 22`.
pub open spec fn w_psbox(r: int) -> int {
    65 + r
}

/// Column of the stored S-box input of state element `i` in external round
/// `r` of the second block, `0 <= r < 4`.
pub open spec fn w_sbox1(r: int, i: int) -> int {
    87 + r * 12 + i
}

/// The Poseidon2 gate: the wire layout and the row-level metadata.  One value
/// of this type describes one gate kind; rows carrying it are laid out by the
/// associated functions below, which any interoperating implementation must
/// reproduce index for index.
pub struct Poseidon2Gate;

impl Poseidon2Gate {
    /// Column of the swap-selector wire.
    pub const WIRE_SWAP: usize = 24;

    /// Column of input wire `i`.
    pub fn wire_input(i: usize) -> (r: usize)
        requires
            i < 12,
        ensures
            r == w_input(i as int),
    {
        i
    }

    /// Column of output wire `i`.
    pub fn wire_output(i: usize) -> (r: usize)
        requires
            i < 12,
        ensures
            r == w_output(i as int),
    {
        12 + i
    }

    /// Column of delta wire `j`, `j < 4`.
    pub fn wire_delta(j: usize) -> (r: usize)
        requires
            j < 4,
        ensures
            r == w_delta(j as int),
    {
        25 + j
    }

    /// Column of the stored S-box input of element `i` in external round
    /// `round` of the first block; round 0 is recovered, not stored.
    pub fn wire_full_sbox_0(round: usize, i: usize) -> (r: usize)
        requires
            1 <= round < 4,
            i < 12,
        ensures
            r == w_sbox0(round as int, i as int),
    {
        29 + (round - 1) * 12 + i
    }

    /// Column of the stored S-box input of partial round `round`.
    pub fn wire_partial_sbox(round: usize) -> (r: usize)
        requires
            round < 22,
        ensures
            r == w_psbox(round as int),
    {
        65 + round
    }

    /// Column of the stored S-box input of element `i` in external round
    /// `round` of the second block.
    pub fn wire_full_sbox_1(round: usize, i: usize) -> (r: usize)
        requires
            round < 4,
            i < 12,
        ensures
            r == w_sbox1(round as int, i as int),
    {
        87 + round * 12 + i
    }

    /// Columns the witness generator depends on: the twelve inputs and the
    /// swap selector.
    pub fn generator_dependencies() -> (v: Vec<usize>)
        ensures
            v@.len() == 13,
            forall|k: int| 0 <= k < 12 ==> #[trigger] v@[k] == k,
            v@[12] == 24,
    {
        let mut v: Vec<usize> = Vec::new();
        for i in 0..12usize
            invariant
                v@.len() == i,
                forall|k: int| 0 <= k < i ==> #[trigger] v@[k] == k,
        {
            v.push(i);
        }
        v.push(24);
        v
    }

    /// Columns the witness generator fills: the outputs, the deltas, and
    /// every stored intermediate.
    pub fn generated_wires() -> (v: Vec<usize>)
        ensures
            v@.len() == 122,
            forall|k: int| 0 <= k < 12 ==> #[trigger] v@[k] == 12 + k,
            forall|k: int| 12 <= k < 122 ==> #[trigger] v@[k] == 13 + k,
    {
        let mut v: Vec<usize> = Vec::new();
        for i in 12..24usize
            invariant
                v@.len() == i - 12,
                forall|k: int| 0 <= k < i - 12 ==> #[trigger] v@[k] == 12 + k,
        {
            v.push(i);
        }
        for i in 25..135usize
            invariant
                v@.len() == i - 13,
                forall|k: int| 0 <= k < 12 ==> #[trigger] v@[k] == 12 + k,
                forall|k: int| 12 <= k < i - 13 ==> #[trigger] v@[k] == 13 + k,
        {
            v.push(i);
        }
        v
    }

    /// Number of wires of one row.
    pub fn num_wires() -> (r: usize)
        ensures
            r == NUM_WIRES,
    {
        135
    }

    /// Number of constraints of one row.
    pub fn num_constraints() -> (r: usize)
        ensures
            r == NUM_CONSTRAINTS,
    {
        123
    }

    /// Maximum algebraic degree of a single constraint.
    pub fn degree() -> (r: usize)
        ensures
            r == CONSTRAINT_DEGREE,
    {
        7
    }
}


/// The numbering is injective: each wire family occupies its own disjoint
/// column range, and within a family distinct roles get distinct columns.
pub proof fn lemma_layout_injective()
    ensures
        forall|i: int| 0 <= i < 12 ==> 0 <= #[trigger] w_input(i) < 12,
        forall|i: int| 0 <= i < 12 ==> 12 <= #[trigger] w_output(i) < 24,
        w_swap() == 24,
        forall|j: int| 0 <= j < 4 ==> 25 <= #[trigger] w_delta(j) < 29,
        forall|r: int, i: int| 1 <= r < 4 && 0 <= i < 12 ==> 29 <= #[trigger] w_sbox0(r, i) < 65,
        forall|r: int| 0 <= r < 22 ==> 65 <= #[trigger] w_psbox(r) < 87,
        forall|r: int, i: int| 0 <= r < 4 && 0 <= i < 12 ==> 87 <= #[trigger] w_sbox1(r, i) < 135,
        forall|r1: int, i1: int, r2: int, i2: int|
            #![trigger w_sbox0(r1, i1), w_sbox0(r2, i2)]
            1 <= r1 < 4 && 0 <= i1 < 12 && 1 <= r2 < 4 && 0 <= i2 < 12 && w_sbox0(r1, i1)
                == w_sbox0(r2, i2) ==> r1 == r2 && i1 == i2,
        forall|r1: int, i1: int, r2: int, i2: int|
            #![trigger w_sbox1(r1, i1), w_sbox1(r2, i2)]
            0 <= r1 < 4 && 0 <= i1 < 12 && 0 <= r2 < 4 && 0 <= i2 < 12 && w_sbox1(r1, i1)
                == w_sbox1(r2, i2) ==> r1 == r2 && i1 == i2,
{
}

} // verus!
