//! Arithmetization of the Poseidon2 permutation (width 12, Goldilocks field)
//! as a circuit gate: the plain permutation, the wire layout of one gate row,
//! conditional-swap witness generation, and the polynomial constraint set
//! evaluated over the base field and its quadratic extension.

pub mod config;
pub mod constraints;
pub mod extension;
pub mod field;
pub mod gadget;
pub mod layout;
pub mod params;
pub mod permutation;
pub mod witness;
