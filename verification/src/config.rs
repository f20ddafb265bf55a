//! The Goldilocks instantiation of this gate: the fixed parameters a host
//! proof system needs to adopt this gate as its permutation, queryable
//! without evaluating anything.

use vstd::prelude::*;
use crate::params::{WIDTH, GOLDILOCKS_W};
use crate::field::GOLDILOCKS_P;

verus! {

/// Configuration binding this gate to the Goldilocks field with its degree-2
/// extension: the parameter set every row of this gate kind shares.
#[derive(Debug, Copy, Clone, PartialEq, Eq, Structural)]
pub struct Poseidon2GoldilocksConfig;

impl Poseidon2GoldilocksConfig {
    /// Order of the base field.
    pub fn field_order() -> (r: u64)
        ensures
            r == GOLDILOCKS_P,
    {
        GOLDILOCKS_P
    }

    /// Degree of the extension field the constraint set is also evaluated
    /// over.
    pub fn extension_degree() -> (r: usize)
        ensures
            r == 2,
    {
        2
    }

    /// The non-residue `W` of the extension `F[X]/(X^2 - W)`.
    pub fn extension_w() -> (r: u64)
        ensures
            r == GOLDILOCKS_W,
    {
        GOLDILOCKS_W
    }

    /// Width of the permutation state.
    pub fn state_width() -> (r: usize)
        ensures
            r == WIDTH,
    {
        12
    }
}

} // verus!
