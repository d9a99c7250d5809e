//! Arithmetization layer of a PLONK-style proof system: a circuit builder
//! that turns a list of gates into the constraint and permutation
//! polynomials a downstream prover consumes.

pub mod field;
pub mod gate;
pub mod domain;
pub mod constrain;
pub mod setup;
pub mod constants;
pub mod circuit;
